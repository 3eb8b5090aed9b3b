//! Properties, starting and stopping of the sink.

use gst_rerun_tools::sink::{
    element_metadata, properties, Property, PropertyValue, RecordingTarget, RerunSink,
    ResourceError, Settings, DEFAULT_APP_ID, DEFAULT_ENTITY_PATH, DEFAULT_GRPC_ADDRESS,
    DEFAULT_SPAWN_VIEWER,
};

fn text(s: &str) -> PropertyValue {
    PropertyValue::Text(Some(s.to_string()))
}

fn set(sink: &mut RerunSink<&'static str>, property: Property, value: PropertyValue) {
    assert!(value.is_suited(property));
    sink.settings.set_property(property, value);
}

fn show(value: &PropertyValue) -> String {
    match value {
        PropertyValue::Text(Some(t)) => t.clone(),
        PropertyValue::Text(None) => "-".to_string(),
        PropertyValue::Flag(f) => format!("{}", f),
    }
}

#[test]
fn default_settings() {
    let s: Settings<u8> = Settings::default();
    assert_eq!(s.app_id, None);
    assert_eq!(s.recording_id, None);
    assert_eq!(s.entity_path, None);
    assert!(!s.spawn_viewer);
    assert_eq!(s.grpc_address, "rerun+http://127.0.0.1:9876/proxy");
    assert_eq!(s.recorder, None);
}

#[test]
fn settings_can_be_cloned() {
    let s = Settings {
        app_id: Some("a".to_string()),
        recording_id: Some("r".to_string()),
        entity_path: Some("e".to_string()),
        spawn_viewer: true,
        grpc_address: "g".to_string(),
        recorder: Some(9u8),
    };
    let c = s.clone();
    assert_eq!(c.app_id.as_deref(), Some("a"));
    assert_eq!(c.recording_id.as_deref(), Some("r"));
    assert_eq!(c.entity_path.as_deref(), Some("e"));
    assert!(c.spawn_viewer);
    assert_eq!(c.grpc_address, "g");
    assert_eq!(c.recorder, Some(9));
}

#[test]
fn announced_properties() {
    let all: Vec<(&str, &str, &str, String)> = properties()
        .iter()
        .map(|p| (p.name, p.nick, p.blurb, show(&p.default_value)))
        .collect();
    assert_eq!(
        all,
        [
            (
                "app-id",
                "Application ID",
                "Rerun application identifier",
                "-".to_string()
            ),
            (
                "recording-id",
                "Recording ID",
                "Optional recording identifier for the recording stream",
                "-".to_string()
            ),
            (
                "entity-path",
                "Entity Path",
                "Entity path for logging the frames",
                "-".to_string()
            ),
            (
                "spawn-viewer",
                "Spawn Viewer",
                "Spawn the rerun viewer if needed",
                "false".to_string()
            ),
            (
                "grpc-address",
                "gRPC Address",
                "gRPC server address",
                DEFAULT_GRPC_ADDRESS.to_string()
            ),
        ]
    );
    assert!(!DEFAULT_SPAWN_VIEWER);
    assert!(properties().iter().all(|p| p.mutable_ready));
}

#[test]
fn properties_have_their_announced_defaults() {
    let s: Settings<u8> = Settings::default();
    for p in properties() {
        assert_eq!(show(&s.property(p.property)), show(&p.default_value));
        assert_eq!(Property::from_name(p.name), Some(p.property));
    }
    assert_eq!(Property::from_name("name"), None);
    assert_eq!(Property::from_name("app-id "), None);
}

#[test]
fn a_property_reads_back() {
    let mut sink: RerunSink<&str> = RerunSink::new();
    set(&mut sink, Property::AppId, text("app"));
    set(&mut sink, Property::RecordingId, text("rec"));
    set(&mut sink, Property::EntityPath, text("path"));
    set(&mut sink, Property::SpawnViewer, PropertyValue::Flag(true));
    set(&mut sink, Property::GrpcAddress, text("there"));
    let shown: Vec<String> = properties()
        .iter()
        .map(|p| show(&sink.settings.property(p.property)))
        .collect();
    assert_eq!(shown, ["app", "rec", "path", "true", "there"]);
    set(&mut sink, Property::AppId, PropertyValue::Text(None));
    assert_eq!(show(&sink.settings.property(Property::AppId)), "-");
    assert_eq!(show(&sink.settings.property(Property::RecordingId)), "rec");
}

#[test]
fn values_that_do_not_suit() {
    assert!(!PropertyValue::Flag(true).is_suited(Property::AppId));
    assert!(!PropertyValue::Flag(true).is_suited(Property::RecordingId));
    assert!(!PropertyValue::Flag(true).is_suited(Property::EntityPath));
    assert!(!PropertyValue::Flag(true).is_suited(Property::GrpcAddress));
    assert!(!text("true").is_suited(Property::SpawnViewer));
    assert!(PropertyValue::Text(None).is_suited(Property::AppId));
    assert!(!PropertyValue::Text(None).is_suited(Property::GrpcAddress));
}

#[test]
fn metadata() {
    let m = element_metadata();
    assert_eq!(m.long_name, "RerunSink");
    assert_eq!(m.classification, "Sink/Video");
    assert_eq!(m.description, "Video sink that logs frames to rerun");
    assert_eq!(m.author, "Simon Guillot <simon@eigenscape.com>");
}

#[test]
fn a_sink_without_a_path_logs_at_the_default_path() {
    let mut sink: RerunSink<&str> = RerunSink::new();
    set(&mut sink, Property::AppId, text("my_pipeline"));
    let request = sink.start().unwrap();
    assert_eq!(request.app_id, "my_pipeline");
    assert_eq!(request.entity_path, "video");
    assert_eq!(request.entity_path, DEFAULT_ENTITY_PATH);
    assert!(matches!(
        &request.target,
        RecordingTarget::Grpc(address) if address == "rerun+http://127.0.0.1:9876/proxy"
    ));
    sink.recording_opened(request, Ok("opened")).unwrap();
    let state = sink.state.unwrap();
    assert_eq!(state.rec, "opened");
    assert_eq!(state.entity_path, "video");
    assert_eq!(show(&sink.settings.property(Property::EntityPath)), "-");
}

#[test]
fn a_shared_recording_and_no_path() {
    let mut sink: RerunSink<&str> = RerunSink::new();
    sink.set_recorder("shared");
    assert!(sink.start().is_none());
    assert_eq!(sink.state.unwrap().entity_path, "video");
}

#[test]
fn a_sink_with_a_shared_recording_starts_at_once() {
    let mut sink: RerunSink<&str> = RerunSink::new();
    set(&mut sink, Property::EntityPath, text("path"));
    sink.set_recorder("shared");
    assert!(sink.start().is_none());
    let state = sink.state.unwrap();
    assert_eq!(state.rec, "shared");
    assert_eq!(state.entity_path, "path");
    assert!(!state.codec_sent);
}

#[test]
fn a_sink_connects_to_the_server_by_default() {
    let mut sink: RerunSink<&str> = RerunSink::new();
    set(&mut sink, Property::EntityPath, text("path"));
    let request = sink.start().unwrap();
    assert_eq!(request.app_id, DEFAULT_APP_ID);
    assert_eq!(request.app_id, "gst-rerun");
    assert_eq!(request.recording_id, None);
    assert_eq!(request.entity_path, "path");
    assert!(matches!(
        &request.target,
        RecordingTarget::Grpc(address) if address == DEFAULT_GRPC_ADDRESS
    ));
    assert!(sink.state.is_none());
    sink.recording_opened(request, Ok("opened")).unwrap();
    let state = sink.state.as_ref().unwrap();
    assert_eq!(state.rec, "opened");
    assert_eq!(state.entity_path, "path");
    assert!(!state.codec_sent);
    assert!(sink.stop());
    assert!(sink.state.is_none());
    assert!(!sink.stop());
}

#[test]
fn a_sink_opens_what_its_properties_ask_for() {
    let mut sink: RerunSink<&str> = RerunSink::new();
    set(&mut sink, Property::EntityPath, text("path"));
    set(&mut sink, Property::AppId, text("app"));
    set(&mut sink, Property::RecordingId, text("rec"));
    set(&mut sink, Property::SpawnViewer, PropertyValue::Flag(true));
    let request = sink.start().unwrap();
    assert_eq!(request.app_id, "app");
    assert_eq!(request.recording_id.as_deref(), Some("rec"));
    assert!(matches!(request.target, RecordingTarget::Viewer));
}

#[test]
fn a_viewer_that_does_not_open() {
    let mut sink: RerunSink<&str> = RerunSink::new();
    set(&mut sink, Property::EntityPath, text("path"));
    set(&mut sink, Property::SpawnViewer, PropertyValue::Flag(true));
    let request = sink.start().unwrap();
    let e = sink
        .recording_opened(request, Err("no viewer".to_string()))
        .unwrap_err();
    assert_eq!(e.resource_error(), ResourceError::OpenWrite);
    assert_eq!(e.message(), "Error spawning Rerun viewer: no viewer");
    assert!(sink.state.is_none());
}

#[test]
fn a_server_that_does_not_answer() {
    let mut sink: RerunSink<&str> = RerunSink::new();
    set(&mut sink, Property::EntityPath, text("path"));
    set(&mut sink, Property::GrpcAddress, text("there"));
    let request = sink.start().unwrap();
    let e = sink
        .recording_opened(request, Err("bad address".to_string()))
        .unwrap_err();
    assert_eq!(e.resource_error(), ResourceError::OpenWrite);
    assert_eq!(
        e.message(),
        "Failed to connect to gRPC 'there': bad address"
    );
    assert!(sink.state.is_none());
}
