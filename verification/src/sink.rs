//! The sink: its properties, what it accepts, and how it is started and stopped.
//!
//! `R` stands for the handle of a Rerun recording.

use vstd::prelude::*;

use crate::text::{copy_opt, same_text};

verus! {

/// The address of the Rerun server where none is given.
pub const DEFAULT_GRPC_ADDRESS: &'static str = "rerun+http://127.0.0.1:9876/proxy";

/// Whether a viewer is opened where nothing is said about it.
pub const DEFAULT_SPAWN_VIEWER: bool = false;

/// The path to log frames at where none is given.
pub const DEFAULT_ENTITY_PATH: &'static str = "video";

/// The application to log as where none is given.
pub const DEFAULT_APP_ID: &'static str = "gst-rerun";

/// A property of the sink.
#[derive(Debug, Clone, Copy, PartialEq, Eq, Structural)]
pub enum Property {
    /// `app-id`
    AppId,
    /// `recording-id`
    RecordingId,
    /// `entity-path`
    EntityPath,
    /// `spawn-viewer`
    SpawnViewer,
    /// `grpc-address`
    GrpcAddress,
}

impl Property {
    /// The name of a property.
    pub open spec fn name(self) -> Seq<char> {
        match self {
            Property::AppId => "app-id"@,
            Property::RecordingId => "recording-id"@,
            Property::EntityPath => "entity-path"@,
            Property::SpawnViewer => "spawn-viewer"@,
            Property::GrpcAddress => "grpc-address"@,
        }
    }

    /// The value of a property where none is set.
    pub open spec fn default_value(self) -> PropertyModel {
        match self {
            Property::AppId | Property::RecordingId | Property::EntityPath => PropertyModel::Text(
                None,
            ),
            Property::SpawnViewer => PropertyModel::Flag(DEFAULT_SPAWN_VIEWER),
            Property::GrpcAddress => PropertyModel::Text(Some(DEFAULT_GRPC_ADDRESS@)),
        }
    }

    /// The names of two properties differ.
    pub proof fn law_names_differ(a: Property, b: Property)
        ensures
            a.name() == b.name() ==> a == b,
    {
        reveal_strlit("app-id");
        reveal_strlit("recording-id");
        reveal_strlit("entity-path");
        reveal_strlit("spawn-viewer");
        reveal_strlit("grpc-address");
        assert("app-id"@.len() == 6);
        assert("recording-id"@.len() == 12);
        assert("entity-path"@.len() == 11);
        assert("spawn-viewer"@.len() == 12);
        assert("grpc-address"@.len() == 12);
        assert("recording-id"@[0] == 'r');
        assert("spawn-viewer"@[0] == 's');
        assert("grpc-address"@[0] == 'g');
    }

    /// The property of the given name, if there is one.
    pub fn from_name(name: &str) -> (r: Option<Property>)
        ensures
            match r {
                Some(property) => property.name() == name@,
                None => forall|p: Property| (#[trigger] p.name()) != name@,
            },
    {
        if same_text(name, "app-id") {
            Some(Property::AppId)
        } else if same_text(name, "recording-id") {
            Some(Property::RecordingId)
        } else if same_text(name, "entity-path") {
            Some(Property::EntityPath)
        } else if same_text(name, "spawn-viewer") {
            Some(Property::SpawnViewer)
        } else if same_text(name, "grpc-address") {
            Some(Property::GrpcAddress)
        } else {
            None
        }
    }
}

/// The value of a property.
#[derive(Debug)]
pub enum PropertyValue {
    /// A text, or none.
    Text(Option<String>),
    /// Yes or no.
    Flag(bool),
}

/// The value of a property as text or flag.
pub ghost enum PropertyModel {
    Text(Option<Seq<char>>),
    Flag(bool),
}

impl View for PropertyValue {
    type V = PropertyModel;

    open spec fn view(&self) -> PropertyModel {
        match *self {
            PropertyValue::Text(text) => PropertyModel::Text(crate::text::opt_text(text)),
            PropertyValue::Flag(flag) => PropertyModel::Flag(flag),
        }
    }
}

/// A property as it is announced.
#[derive(Debug)]
pub struct PropertySpec {
    /// Which property it is.
    pub property: Property,
    /// Its name.
    pub name: &'static str,
    /// Its short description.
    pub nick: &'static str,
    /// Its description.
    pub blurb: &'static str,
    /// Whether it can be set up to and including the ready state of the element.
    pub mutable_ready: bool,
    /// Its value where none is set.
    pub default_value: PropertyValue,
}

/// The values of the sink's properties.
#[derive(Debug)]
pub struct Settings<R> {
    /// The application to log as.
    pub app_id: Option<String>,
    /// The recording to log to.
    pub recording_id: Option<String>,
    /// The path to log frames at; `DEFAULT_ENTITY_PATH` where there is none.
    pub entity_path: Option<String>,
    /// Whether to open a viewer.
    pub spawn_viewer: bool,
    /// The address of the Rerun server.
    pub grpc_address: String,
    /// A recording that is shared with others.
    pub recorder: Option<R>,
}

impl<R> Settings<R> {
    /// Whether no property has been set and there is no shared recording.
    pub open spec fn is_default(self) -> bool {
        &&& self.app_id is None
        &&& self.recording_id is None
        &&& self.entity_path is None
        &&& self.spawn_viewer == DEFAULT_SPAWN_VIEWER
        &&& self.grpc_address@ == DEFAULT_GRPC_ADDRESS@
        &&& self.recorder is None
    }
}

impl<R> Default for Settings<R> {
    /// The settings of a new sink.
    fn default() -> (r: Settings<R>)
        ensures
            r.is_default(),
    {
        Settings {
            app_id: None,
            recording_id: None,
            entity_path: None,
            spawn_viewer: DEFAULT_SPAWN_VIEWER,
            grpc_address: DEFAULT_GRPC_ADDRESS.to_owned(),
            recorder: None,
        }
    }
}

/// Whether an optional handle is a clone of another.
pub open spec fn cloned_opt<R: Clone>(a: Option<R>, b: Option<R>) -> bool {
    match (a, b) {
        (Some(x), Some(y)) => cloned::<R>(x, y),
        (None, None) => true,
        _ => false,
    }
}

impl<R: Clone> Clone for Settings<R> {
    /// The same settings, with a clone of the recording.
    fn clone(&self) -> (r: Settings<R>)
        ensures
            r.app_id == self.app_id,
            r.recording_id == self.recording_id,
            r.entity_path == self.entity_path,
            r.spawn_viewer == self.spawn_viewer,
            r.grpc_address == self.grpc_address,
            cloned_opt(self.recorder, r.recorder),
    {
        Settings {
            app_id: copy_opt(&self.app_id),
            recording_id: copy_opt(&self.recording_id),
            entity_path: copy_opt(&self.entity_path),
            spawn_viewer: self.spawn_viewer,
            grpc_address: self.grpc_address.clone(),
            recorder: match &self.recorder {
                Some(recorder) => Some(recorder.clone()),
                None => None,
            },
        }
    }
}

impl PropertyValue {
    /// Whether the value has the type of the property.
    pub open spec fn suits(self, property: Property) -> bool {
        match property {
            Property::AppId | Property::RecordingId | Property::EntityPath => self is Text,
            Property::SpawnViewer => self is Flag,
            Property::GrpcAddress => self matches PropertyValue::Text(text) && text is Some,
        }
    }

    /// Whether the value has the type of the property.
    pub fn is_suited(&self, property: Property) -> (r: bool)
        ensures
            r == self.suits(property),
            r == match (property, *self) {
                (Property::SpawnViewer, value) => value is Flag,
                (Property::GrpcAddress, PropertyValue::Text(text)) => text is Some,
                (_, value) => value is Text,
            },
    {
        match property {
            Property::AppId | Property::RecordingId | Property::EntityPath => match self {
                PropertyValue::Text(_) => true,
                PropertyValue::Flag(_) => false,
            },
            Property::SpawnViewer => match self {
                PropertyValue::Text(_) => false,
                PropertyValue::Flag(_) => true,
            },
            Property::GrpcAddress => match self {
                PropertyValue::Text(text) => text.is_some(),
                PropertyValue::Flag(_) => false,
            },
        }
    }
}

impl<R> Settings<R> {
    /// The value of a property.
    pub open spec fn value_of(self, property: Property) -> PropertyValue {
        match property {
            Property::AppId => PropertyValue::Text(self.app_id),
            Property::RecordingId => PropertyValue::Text(self.recording_id),
            Property::EntityPath => PropertyValue::Text(self.entity_path),
            Property::SpawnViewer => PropertyValue::Flag(self.spawn_viewer),
            Property::GrpcAddress => PropertyValue::Text(Some(self.grpc_address)),
        }
    }

    /// The settings after a property has been set.
    pub open spec fn with_value(self, property: Property, value: PropertyValue) -> Settings<R> {
        match (property, value) {
            (Property::AppId, PropertyValue::Text(text)) => Settings { app_id: text, ..self },
            (Property::RecordingId, PropertyValue::Text(text)) => Settings {
                recording_id: text,
                ..self
            },
            (Property::EntityPath, PropertyValue::Text(text)) => Settings {
                entity_path: text,
                ..self
            },
            (Property::SpawnViewer, PropertyValue::Flag(flag)) => Settings {
                spawn_viewer: flag,
                ..self
            },
            (Property::GrpcAddress, PropertyValue::Text(Some(text))) => Settings {
                grpc_address: text,
                ..self
            },
            _ => self,
        }
    }

    /// Sets a property to a value of its type.
    pub fn set_property(&mut self, property: Property, value: PropertyValue)
        requires
            value.suits(property),
        ensures
            *final(self) == old(self).with_value(property, value),
            final(self).app_id == match (property, value) {
                (Property::AppId, PropertyValue::Text(text)) => text,
                _ => old(self).app_id,
            },
            final(self).recording_id == match (property, value) {
                (Property::RecordingId, PropertyValue::Text(text)) => text,
                _ => old(self).recording_id,
            },
            final(self).entity_path == match (property, value) {
                (Property::EntityPath, PropertyValue::Text(text)) => text,
                _ => old(self).entity_path,
            },
            final(self).spawn_viewer == match (property, value) {
                (Property::SpawnViewer, PropertyValue::Flag(flag)) => flag,
                _ => old(self).spawn_viewer,
            },
            final(self).grpc_address == match (property, value) {
                (Property::GrpcAddress, PropertyValue::Text(Some(text))) => text,
                _ => old(self).grpc_address,
            },
            final(self).recorder == old(self).recorder,
    {
        match (property, value) {
            (Property::AppId, PropertyValue::Text(text)) => {
                self.app_id = text;
            },
            (Property::RecordingId, PropertyValue::Text(text)) => {
                self.recording_id = text;
            },
            (Property::EntityPath, PropertyValue::Text(text)) => {
                self.entity_path = text;
            },
            (Property::SpawnViewer, PropertyValue::Flag(flag)) => {
                self.spawn_viewer = flag;
            },
            (Property::GrpcAddress, PropertyValue::Text(Some(text))) => {
                self.grpc_address = text;
            },
            _ => {},
        }
    }

    /// Reads a property.
    pub fn property(&self, property: Property) -> (r: PropertyValue)
        ensures
            r == self.value_of(property),
            r == match property {
                Property::AppId => PropertyValue::Text(self.app_id),
                Property::RecordingId => PropertyValue::Text(self.recording_id),
                Property::EntityPath => PropertyValue::Text(self.entity_path),
                Property::SpawnViewer => PropertyValue::Flag(self.spawn_viewer),
                Property::GrpcAddress => PropertyValue::Text(Some(self.grpc_address)),
            },
    {
        match property {
            Property::AppId => PropertyValue::Text(copy_opt(&self.app_id)),
            Property::RecordingId => PropertyValue::Text(copy_opt(&self.recording_id)),
            Property::EntityPath => PropertyValue::Text(copy_opt(&self.entity_path)),
            Property::SpawnViewer => PropertyValue::Flag(self.spawn_viewer),
            Property::GrpcAddress => PropertyValue::Text(Some(self.grpc_address.clone())),
        }
    }
}

/// Reading a property that was set gives back the value, and setting a property leaves the others
/// and the shared recording alone.
pub proof fn law_property_reads_back<R>(
    settings: Settings<R>,
    property: Property,
    value: PropertyValue,
    other: Property,
)
    requires
        value.suits(property),
    ensures
        settings.with_value(property, value).value_of(property) == value,
        other != property ==> settings.with_value(property, value).value_of(other)
            == settings.value_of(other),
        settings.with_value(property, value).recorder == settings.recorder,
{
}

/// Each property is a setting of its own: setting it changes that setting to the value and leaves
/// the others alone, and reading it gives that setting.
pub proof fn law_each_property_is_its_setting<R>(
    s: Settings<R>,
    text: Option<String>,
    address: String,
    flag: bool,
)
    ensures
        s.with_value(Property::AppId, PropertyValue::Text(text)) == (Settings { app_id: text, ..s }),
        s.with_value(Property::RecordingId, PropertyValue::Text(text)) == (Settings {
            recording_id: text,
            ..s
        }),
        s.with_value(Property::EntityPath, PropertyValue::Text(text)) == (Settings {
            entity_path: text,
            ..s
        }),
        s.with_value(Property::SpawnViewer, PropertyValue::Flag(flag)) == (Settings {
            spawn_viewer: flag,
            ..s
        }),
        s.with_value(Property::GrpcAddress, PropertyValue::Text(Some(address))) == (Settings {
            grpc_address: address,
            ..s
        }),
        s.value_of(Property::AppId) == PropertyValue::Text(s.app_id),
        s.value_of(Property::RecordingId) == PropertyValue::Text(s.recording_id),
        s.value_of(Property::EntityPath) == PropertyValue::Text(s.entity_path),
        s.value_of(Property::SpawnViewer) == PropertyValue::Flag(s.spawn_viewer),
        s.value_of(Property::GrpcAddress) == PropertyValue::Text(Some(s.grpc_address)),
{
}

/// Any text, and none, suits the three properties that may be left open; a flag suits only the one
/// that is a flag; and the address has to be there.
pub proof fn law_values_that_suit(text: Option<String>, flag: bool, property: Property)
    ensures
        PropertyValue::Text(text).suits(Property::AppId),
        PropertyValue::Text(text).suits(Property::RecordingId),
        PropertyValue::Text(text).suits(Property::EntityPath),
        PropertyValue::Text(text).suits(Property::GrpcAddress) <==> text is Some,
        !PropertyValue::Text(text).suits(Property::SpawnViewer),
        PropertyValue::Flag(flag).suits(property) <==> property == Property::SpawnViewer,
{
}

/// As long as nothing was set, each property has the value that is announced as its default.
pub proof fn law_defaults_as_announced<R>(settings: Settings<R>, property: Property)
    requires
        settings.is_default(),
    ensures
        settings.value_of(property)@ == property.default_value(),
{
}

impl PropertySpec {
    /// What is announced of a property. All properties can be set up to the ready state.
    pub open spec fn announces(
        self,
        property: Property,
        nick: Seq<char>,
        blurb: Seq<char>,
    ) -> bool {
        &&& self.property == property
        &&& self.name@ == property.name()
        &&& self.nick@ == nick
        &&& self.blurb@ == blurb
        &&& self.mutable_ready
        &&& self.default_value@ == property.default_value()
    }
}

/// The properties of the sink, in the order in which they are announced.
pub fn properties() -> (r: Vec<PropertySpec>)
    ensures
        r@.len() == 5,
        r@[0].announces(
            Property::AppId,
            "Application ID"@,
            "Rerun application identifier"@,
        ),
        r@[1].announces(
            Property::RecordingId,
            "Recording ID"@,
            "Optional recording identifier for the recording stream"@,
        ),
        r@[2].announces(
            Property::EntityPath,
            "Entity Path"@,
            "Entity path for logging the frames"@,
        ),
        r@[3].announces(
            Property::SpawnViewer,
            "Spawn Viewer"@,
            "Spawn the rerun viewer if needed"@,
        ),
        r@[4].announces(Property::GrpcAddress, "gRPC Address"@, "gRPC server address"@),
{
    vec![
        PropertySpec {
            property: Property::AppId,
            name: "app-id",
            nick: "Application ID",
            blurb: "Rerun application identifier",
            mutable_ready: true,
            default_value: PropertyValue::Text(None),
        },
        PropertySpec {
            property: Property::RecordingId,
            name: "recording-id",
            nick: "Recording ID",
            blurb: "Optional recording identifier for the recording stream",
            mutable_ready: true,
            default_value: PropertyValue::Text(None),
        },
        PropertySpec {
            property: Property::EntityPath,
            name: "entity-path",
            nick: "Entity Path",
            blurb: "Entity path for logging the frames",
            mutable_ready: true,
            default_value: PropertyValue::Text(None),
        },
        PropertySpec {
            property: Property::SpawnViewer,
            name: "spawn-viewer",
            nick: "Spawn Viewer",
            blurb: "Spawn the rerun viewer if needed",
            mutable_ready: true,
            default_value: PropertyValue::Flag(DEFAULT_SPAWN_VIEWER),
        },
        PropertySpec {
            property: Property::GrpcAddress,
            name: "grpc-address",
            nick: "gRPC Address",
            blurb: "gRPC server address",
            mutable_ready: true,
            default_value: PropertyValue::Text(Some(DEFAULT_GRPC_ADDRESS.to_owned())),
        },
    ]
}

/// What is said about the sink where elements are listed.
#[derive(Debug)]
pub struct ElementMetadata {
    /// The name in full.
    pub long_name: &'static str,
    /// The kind of element.
    pub classification: &'static str,
    /// What the element does.
    pub description: &'static str,
    /// Who wrote it.
    pub author: &'static str,
}

/// What is said about the sink where elements are listed.
pub fn element_metadata() -> (r: ElementMetadata)
    ensures
        r.long_name@ == "RerunSink"@,
        r.classification@ == "Sink/Video"@,
        r.description@ == "Video sink that logs frames to rerun"@,
        r.author@ == "Simon Guillot <simon@eigenscape.com>"@,
{
    ElementMetadata {
        long_name: "RerunSink",
        classification: "Sink/Video",
        description: "Video sink that logs frames to rerun",
        author: "Simon Guillot <simon@eigenscape.com>",
    }
}

/// What the sink holds while it is running.
#[derive(Debug)]
pub struct State<R> {
    /// The recording that frames are logged to.
    pub rec: R,
    /// The path that frames are logged at.
    pub entity_path: String,
    /// Whether the codec of the stream has been logged.
    pub codec_sent: bool,
}

impl<R> State<R> {
    /// What a sink that was just started holds.
    pub open spec fn started(rec: R, entity_path: String) -> State<R> {
        State { rec, entity_path, codec_sent: false }
    }
}

/// The sink: its settings and, while it is running, its state.
#[derive(Debug)]
pub struct RerunSink<R> {
    /// The values of the properties.
    pub settings: Settings<R>,
    /// The state, while the sink is running.
    pub state: Option<State<R>>,
}

/// Where a new recording is sent to.
#[derive(Debug)]
pub enum RecordingTarget {
    /// To a viewer that is opened for it.
    Viewer,
    /// To the server at the given address.
    Grpc(String),
}

/// A recording that has to be opened before the sink can run.
#[derive(Debug)]
pub struct OpenRequest {
    /// The application to log as.
    pub app_id: String,
    /// The recording to log to.
    pub recording_id: Option<String>,
    /// Where to send it.
    pub target: RecordingTarget,
    /// The path that frames will be logged at.
    pub entity_path: String,
}

/// Why the sink could not be started.
#[derive(Debug)]
pub enum StartError {
    /// The viewer could not be opened, for the reason given.
    SpawnFailed(String),
    /// The server at the address could not be reached, for the reason given.
    ConnectFailed { address: String, reason: String },
}

/// The kind of a GStreamer resource error.
#[derive(Debug, Clone, Copy, PartialEq, Eq, Structural)]
pub enum ResourceError {
    /// The resource could not be opened for writing.
    OpenWrite,
}

impl StartError {
    /// The kind of the error: what could not be opened is meant for writing.
    pub fn resource_error(&self) -> (r: ResourceError)
        ensures
            r == ResourceError::OpenWrite,
    {
        ResourceError::OpenWrite
    }

    /// The error as text.
    pub fn message(&self) -> (r: String)
        ensures
            r@ == (match *self {
                StartError::SpawnFailed(reason) => "Error spawning Rerun viewer: "@ + reason@,
                StartError::ConnectFailed { address, reason } => "Failed to connect to gRPC '"@
                    + address@ + "': "@ + reason@,
            }),
    {
        match self {
            StartError::SpawnFailed(reason) => {
                let mut text = "Error spawning Rerun viewer: ".to_owned();
                text.append(reason.as_str());
                text
            },
            StartError::ConnectFailed { address, reason } => {
                let mut text = "Failed to connect to gRPC '".to_owned();
                text.append(address.as_str());
                text.append("': ");
                text.append(reason.as_str());
                text
            },
        }
    }
}

impl<R> Settings<R> {
    /// The path that a sink with these settings logs at.
    pub open spec fn path(self) -> Seq<char> {
        match self.entity_path {
            Some(path) => path@,
            None => DEFAULT_ENTITY_PATH@,
        }
    }

    /// The recording that a sink with these settings and no shared recording opens.
    pub open spec fn opens(self, request: OpenRequest) -> bool {
        &&& request.entity_path@ == self.path()
        &&& request.app_id@ == match self.app_id {
            Some(id) => id@,
            None => DEFAULT_APP_ID@,
        }
        &&& request.recording_id == self.recording_id
        &&& match request.target {
            RecordingTarget::Viewer => self.spawn_viewer,
            RecordingTarget::Grpc(address) => !self.spawn_viewer && address == self.grpc_address,
        }
    }
}

/// What is opened for a sink is what its properties ask for, each by itself: the path, the
/// application, the recording, and the viewer or else the address of the server.
pub proof fn law_opens_what_was_set<R>(settings: Settings<R>, request: OpenRequest)
    requires
        settings.opens(request),
    ensures
        settings.entity_path matches Some(path) ==> request.entity_path@ == path@,
        settings.entity_path is None ==> request.entity_path@ == "video"@,
        settings.app_id matches Some(id) ==> request.app_id@ == id@,
        settings.app_id is None ==> request.app_id@ == "gst-rerun"@,
        request.recording_id == settings.recording_id,
        settings.spawn_viewer ==> request.target is Viewer,
        !settings.spawn_viewer ==> request.target == RecordingTarget::Grpc(settings.grpc_address),
{
}

/// The path of a sink depends on nothing but the property for it, and is exactly what was set.
pub proof fn law_path_depends_on_entity_path_only<R>(
    settings: Settings<R>,
    other: Settings<R>,
    path: String,
)
    ensures
        settings.entity_path == other.entity_path ==> settings.path() == other.path(),
        settings.entity_path == Some(path) ==> settings.path() == path@,
{
}

/// A sink that was just started has not logged the codec, whatever it was started with.
pub proof fn law_started_fresh<R>(rec: R, entity_path: String)
    ensures
        State::started(rec, entity_path).rec == rec,
        State::started(rec, entity_path).entity_path == entity_path,
        !State::started(rec, entity_path).codec_sent,
{
}

impl<R> RerunSink<R> {
    /// A sink with default settings that is not running.
    pub fn new() -> (r: RerunSink<R>)
        ensures
            r.settings.is_default(),
            r.state is None,
    {
        RerunSink { settings: Settings::default(), state: None }
    }

    /// Sets a shared recording to be used by the sink.
    pub fn set_recorder(&mut self, recorder: R)
        ensures
            final(self).settings == (Settings { recorder: Some(recorder), ..old(self).settings }),
            final(self).state == old(self).state,
    {
        self.settings.recorder = Some(recorder);
    }

    /// Takes the recording that was opened on request and starts the sink with it. Where it could
    /// not be opened, for the reason given, the sink stays as it is.
    pub fn recording_opened(&mut self, request: OpenRequest, outcome: Result<R, String>) -> (r:
        Result<(), StartError>)
        ensures
            final(self).settings == old(self).settings,
            match outcome {
                Ok(rec) => {
                    &&& r is Ok
                    &&& final(self).state == Some(State::started(rec, request.entity_path))
                    &&& final(self).state->0.rec == rec
                    &&& final(self).state->0.entity_path == request.entity_path
                    &&& !final(self).state->0.codec_sent
                },
                Err(reason) => {
                    &&& final(self).state == old(self).state
                    &&& r == Err::<(), StartError>(
                        match request.target {
                            RecordingTarget::Viewer => StartError::SpawnFailed(reason),
                            RecordingTarget::Grpc(address) => StartError::ConnectFailed {
                                address,
                                reason,
                            },
                        },
                    )
                },
            },
    {
        match outcome {
            Ok(rec) => {
                self.state = Some(
                    State { rec, entity_path: request.entity_path, codec_sent: false },
                );
                Ok(())
            },
            Err(reason) => match request.target {
                RecordingTarget::Viewer => Err(StartError::SpawnFailed(reason)),
                RecordingTarget::Grpc(address) => {
                    Err(StartError::ConnectFailed { address, reason })
                },
            },
        }
    }

    /// Stops the sink; tells whether it was running.
    pub fn stop(&mut self) -> (was_running: bool)
        ensures
            was_running == old(self).state is Some,
            final(self).state is None,
            final(self).settings == old(self).settings,
    {
        self.state.take().is_some()
    }
}

impl<R: Clone> RerunSink<R> {
    /// Starts the sink with the shared recording, if there is one. Else hands out what has to be
    /// opened, and the sink stays as it is; `recording_opened` then starts it.
    pub fn start(&mut self) -> (r: Option<OpenRequest>)
        ensures
            final(self).settings == old(self).settings,
            match old(self).settings.recorder {
                Some(recorder) => {
                    &&& r is None
                    &&& final(self).state matches Some(state) && {
                        &&& cloned::<R>(recorder, state.rec)
                        &&& state.entity_path@ == old(self).settings.path()
                        &&& state == State::started(state.rec, state.entity_path)
                        &&& !state.codec_sent
                        &&& old(self).settings.entity_path matches Some(path) ==> state.entity_path@
                            == path@
                        &&& old(self).settings.entity_path is None ==> state.entity_path@
                            == "video"@
                    }
                },
                None => {
                    &&& r matches Some(request) && old(self).settings.opens(request) && {
                        &&& old(self).settings.entity_path matches Some(path)
                            ==> request.entity_path@ == path@
                        &&& old(self).settings.entity_path is None ==> request.entity_path@
                            == "video"@
                        &&& old(self).settings.app_id matches Some(id) ==> request.app_id@ == id@
                        &&& old(self).settings.app_id is None ==> request.app_id@ == "gst-rerun"@
                        &&& request.recording_id == old(self).settings.recording_id
                        &&& request.target is Viewer <==> old(self).settings.spawn_viewer
                        &&& request.target matches RecordingTarget::Grpc(address) ==> address
                            == old(self).settings.grpc_address
                    }
                    &&& final(self).state == old(self).state
                },
            },
    {
        let entity_path = match &self.settings.entity_path {
            Some(entity_path) => entity_path.clone(),
            None => DEFAULT_ENTITY_PATH.to_owned(),
        };
        match &self.settings.recorder {
            Some(recorder) => {
                let rec = recorder.clone();
                self.state = Some(State { rec, entity_path, codec_sent: false });
                None
            },
            None => {
                let app_id = match &self.settings.app_id {
                    Some(id) => id.clone(),
                    None => DEFAULT_APP_ID.to_owned(),
                };
                let target = if self.settings.spawn_viewer {
                    RecordingTarget::Viewer
                } else {
                    RecordingTarget::Grpc(self.settings.grpc_address.clone())
                };
                Some(
                    OpenRequest {
                        app_id,
                        recording_id: copy_opt(&self.settings.recording_id),
                        target,
                        entity_path,
                    },
                )
            },
        }
    }
}

} // verus!
