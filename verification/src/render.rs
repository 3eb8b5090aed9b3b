//! How the sink renders a frame.
//!
//! Rendering alternates between decisions and work outside of this library: reading the frame and
//! talking to Rerun. Each decision asks for one piece of work, and is told what came of it. From
//! the moment that a frame is known to be encoded or raw, the sink must not be stopped or started
//! until the frame is finished.

use re_types::archetypes::{Image, VideoStream};
use vstd::prelude::*;

use crate::archetypes::{stream_with_codec, stream_with_sample, VideoCodec, MAX_COMPONENT_BYTES};
use crate::frame::{new_image_from_frame, video_codec, RerunSinkError, VideoInfo};
use crate::sink::{RerunSink, State};

verus! {

/// The answer to GStreamer where a frame could not be rendered.
#[derive(Debug, Clone, Copy, PartialEq, Eq, Structural)]
pub enum FlowError {
    /// Something went wrong.
    Error,
    /// The format of the stream does not suit.
    NotNegotiated,
}

/// Why a frame could not be rendered.
#[derive(Debug)]
pub enum RenderError {
    /// The frame has no presentation time.
    NoTime,
    /// The format of the stream is not known.
    NoCaps,
    /// The frame was taken for an encoded one, and could not be processed.
    Encoded(RerunSinkError),
    /// The frame was taken for a raw one, and could not be processed.
    Raw(RerunSinkError),
}

/// What is known of the format of the stream.
#[derive(Debug)]
pub struct CapsInfo {
    /// The media type, if there is any.
    pub media_type: Option<String>,
}

/// What the rendering of a frame is waiting for.
#[derive(Debug)]
pub enum RenderPhase {
    /// The time to be set.
    Time,
    /// The format of the stream.
    Caps,
    /// The codec to be logged.
    Codec { codec: VideoCodec },
    /// The data of an encoded frame.
    EncodedData { codec: VideoCodec },
    /// The encoded frame to be logged.
    Sample,
    /// The format of the frame.
    Info,
    /// The data of a raw frame.
    RawData { info: VideoInfo },
    /// The raw frame to be logged.
    Picture,
    /// Nothing any more.
    Finished,
}

/// What is to be done next.
#[derive(Debug)]
pub enum RenderAction {
    /// Set the time of the recording on the timeline `pts`.
    SetTime { nanos: u64 },
    /// Find out the format of the stream.
    ReadCaps,
    /// Log the codec at the path, for all times.
    LogCodec { entity_path: String, stream: VideoStream },
    /// Read the data of the frame.
    MapBuffer,
    /// Log the encoded frame at the path.
    LogSample { entity_path: String, stream: VideoStream },
    /// Find out the format of the frame.
    ReadVideoInfo,
    /// Log the raw frame at the path.
    LogImage { entity_path: String, image: Image },
    /// Nothing; the frame is done.
    Finish(Result<(), RenderError>),
}

/// What came of the work that was asked for.
#[derive(Debug)]
pub enum RenderEvent<'a> {
    /// The time is set.
    TimeSet,
    /// The format of the stream, if it is known.
    Caps(Option<CapsInfo>),
    /// Rerun took the record, or did not, for the reason given.
    Logged(Result<(), String>),
    /// The data of the frame, if it could be read.
    Mapped(Option<&'a [u8]>),
    /// The format of the frame, if it could be made out.
    Info(Option<VideoInfo>),
}

impl RenderError {
    /// The answer to GStreamer.
    pub open spec fn flow(self) -> FlowError {
        match self {
            RenderError::Encoded(RerunSinkError::UnsupportedVideoFormat(_)) =>
                FlowError::NotNegotiated,
            RenderError::Raw(RerunSinkError::VideoInfoFromCapsFailed) => FlowError::NotNegotiated,
            RenderError::Raw(RerunSinkError::UnsupportedVideoFormat(_)) =>
                FlowError::NotNegotiated,
            _ => FlowError::Error,
        }
    }

    /// The answer to GStreamer.
    pub fn flow_error(&self) -> (r: FlowError)
        ensures
            r == self.flow(),
            r == FlowError::NotNegotiated <==> {
                ||| self matches RenderError::Encoded(e) && e is UnsupportedVideoFormat
                ||| self matches RenderError::Raw(e) && (e is UnsupportedVideoFormat
                    || e is VideoInfoFromCapsFailed)
            },
    {
        match self {
            RenderError::Encoded(RerunSinkError::UnsupportedVideoFormat(_)) => {
                FlowError::NotNegotiated
            },
            RenderError::Raw(RerunSinkError::VideoInfoFromCapsFailed) => FlowError::NotNegotiated,
            RenderError::Raw(RerunSinkError::UnsupportedVideoFormat(_)) => {
                FlowError::NotNegotiated
            },
            _ => FlowError::Error,
        }
    }

    /// The error as text.
    pub fn message(&self) -> (r: String)
        ensures
            match *self {
                RenderError::NoTime => r@ == "Buffer has no PTS"@,
                RenderError::NoCaps => r@ == "Failed to get caps"@,
                RenderError::Encoded(e) => r@ == "Failed to process encoded frame: "@ + e.text(),
                RenderError::Raw(e) => r@ == "Failed to process frame: "@ + e.text(),
            },
    {
        match self {
            RenderError::NoTime => "Buffer has no PTS".to_owned(),
            RenderError::NoCaps => "Failed to get caps".to_owned(),
            RenderError::Encoded(e) => {
                let mut text = "Failed to process encoded frame: ".to_owned();
                text.append(e.message().as_str());
                text
            },
            RenderError::Raw(e) => {
                let mut text = "Failed to process frame: ".to_owned();
                text.append(e.message().as_str());
                text
            },
        }
    }
}

impl RenderPhase {
    /// Whether the event answers what the phase is waiting for.
    pub open spec fn awaits(self, event: RenderEvent) -> bool {
        match self {
            RenderPhase::Time => event is TimeSet,
            RenderPhase::Caps => event is Caps,
            RenderPhase::Codec { .. } => event is Logged,
            RenderPhase::EncodedData { .. } => event is Mapped,
            RenderPhase::Sample => event is Logged,
            RenderPhase::Info => event is Info,
            RenderPhase::RawData { .. } => event is Mapped,
            RenderPhase::Picture => event is Logged,
            RenderPhase::Finished => false,
        }
    }

    /// Whether the event can be dealt with: it answers what the phase is waiting for, a known format
    /// has a media type while the sink is running, the sink has not been stopped while a frame was
    /// processed, and the data of the frame stays within what can be logged.
    pub open spec fn ready<R>(self, state: Option<State<R>>, event: RenderEvent) -> bool {
        &&& self.awaits(event)
        &&& match self {
            RenderPhase::Time | RenderPhase::Info => true,
            RenderPhase::Caps => event matches RenderEvent::Caps(Some(caps)) ==> state is Some
                ==> caps.media_type is Some,
            _ => state is Some,
        }
        &&& event matches RenderEvent::Mapped(Some(data)) ==> match self {
            RenderPhase::RawData { info } => info.format.frame_fits(
                info.width,
                info.height,
                data@.len(),
            ),
            _ => data@.len() <= MAX_COMPONENT_BYTES,
        }
    }
}

/// What a frame that is done leads to.
pub open spec fn finish<R>(
    state: Option<State<R>>,
    result: Result<(), RenderError>,
) -> (Option<State<R>>, RenderPhase, RenderAction) {
    (state, RenderPhase::Finished, RenderAction::Finish(result))
}

/// How the rendering of a frame begins: while the sink is running, the time of the frame is set
/// first, and a frame without a time is refused.
pub open spec fn begun<R>(state: Option<State<R>>, pts: Option<u64>) -> (
    Option<State<R>>,
    RenderPhase,
    RenderAction,
) {
    match (state, pts) {
        (None, _) => (state, RenderPhase::Caps, RenderAction::ReadCaps),
        (Some(_), Some(nanos)) => (state, RenderPhase::Time, RenderAction::SetTime { nanos }),
        (Some(_), None) => finish(state, Err(RenderError::NoTime)),
    }
}

/// How the rendering of a frame goes on.
pub open spec fn next<R>(state: Option<State<R>>, phase: RenderPhase, event: RenderEvent) -> (
    Option<State<R>>,
    RenderPhase,
    RenderAction,
) {
    let running = state->0;
    match (phase, event) {
        (RenderPhase::Time, RenderEvent::TimeSet) => (
            state,
            RenderPhase::Caps,
            RenderAction::ReadCaps,
        ),
        (RenderPhase::Caps, RenderEvent::Caps(None)) => finish(state, Err(RenderError::NoCaps)),
        (RenderPhase::Caps, RenderEvent::Caps(Some(caps))) => if state is None {
            finish(state, Ok(()))
        } else {
            match crate::frame::codec_of(caps.media_type->0@) {
                Some(codec) => if running.codec_sent {
                    (state, RenderPhase::EncodedData { codec }, RenderAction::MapBuffer)
                } else {
                    (
                        state,
                        RenderPhase::Codec { codec },
                        RenderAction::LogCodec {
                            entity_path: running.entity_path,
                            stream: crate::archetypes::codec_stream(codec),
                        },
                    )
                },
                None => (state, RenderPhase::Info, RenderAction::ReadVideoInfo),
            }
        },
        (RenderPhase::Codec { codec }, RenderEvent::Logged(Ok(()))) => (
            Some(State { codec_sent: true, ..running }),
            RenderPhase::EncodedData { codec },
            RenderAction::MapBuffer,
        ),
        (RenderPhase::Codec { codec }, RenderEvent::Logged(Err(reason))) => finish(
            state,
            Err(RenderError::Encoded(RerunSinkError::RerunLogFailed(reason))),
        ),
        (RenderPhase::EncodedData { codec }, RenderEvent::Mapped(None)) => finish(
            state,
            Err(RenderError::Encoded(RerunSinkError::BufferMapFailed)),
        ),
        (RenderPhase::EncodedData { codec }, RenderEvent::Mapped(Some(data))) => (
            state,
            RenderPhase::Sample,
            RenderAction::LogSample {
                entity_path: running.entity_path,
                stream: crate::archetypes::sample_stream(
                    crate::archetypes::codec_stream(codec),
                    data@,
                ),
            },
        ),
        (RenderPhase::Sample, RenderEvent::Logged(Ok(()))) => finish(state, Ok(())),
        (RenderPhase::Sample, RenderEvent::Logged(Err(reason))) => finish(
            state,
            Err(RenderError::Encoded(RerunSinkError::RerunLogFailed(reason))),
        ),
        (RenderPhase::Info, RenderEvent::Info(None)) => if state is None {
            finish(state, Ok(()))
        } else {
            finish(state, Err(RenderError::Raw(RerunSinkError::VideoInfoFromCapsFailed)))
        },
        (RenderPhase::Info, RenderEvent::Info(Some(info))) => if state is None {
            finish(state, Ok(()))
        } else {
            (state, RenderPhase::RawData { info }, RenderAction::MapBuffer)
        },
        (RenderPhase::RawData { info }, RenderEvent::Mapped(None)) => finish(
            state,
            Err(RenderError::Raw(RerunSinkError::BufferMapFailed)),
        ),
        (RenderPhase::RawData { info }, RenderEvent::Mapped(Some(data))) => if info.format.supported() {
            (
                state,
                RenderPhase::Picture,
                RenderAction::LogImage {
                    entity_path: running.entity_path,
                    image: info.format.image(data@, info.width, info.height),
                },
            )
        } else {
            finish(
                state,
                Err(RenderError::Raw(RerunSinkError::UnsupportedVideoFormat(info.format))),
            )
        },
        (RenderPhase::Picture, RenderEvent::Logged(Ok(()))) => finish(state, Ok(())),
        (RenderPhase::Picture, RenderEvent::Logged(Err(reason))) => finish(
            state,
            Err(RenderError::Raw(RerunSinkError::RerunLogFailed(reason))),
        ),
        _ => (state, phase, RenderAction::MapBuffer),
    }
}

impl<R> RerunSink<R> {
    /// Begins to render a frame with the given presentation time, in nanoseconds.
    pub fn begin_render(&self, pts: Option<u64>) -> (r: (RenderPhase, RenderAction))
        ensures
            (self.state, r.0, r.1) == begun(self.state, pts),
    {
        if self.state.is_some() {
            match pts {
                Some(nanos) => (RenderPhase::Time, RenderAction::SetTime { nanos }),
                None => (RenderPhase::Finished, RenderAction::Finish(Err(RenderError::NoTime))),
            }
        } else {
            (RenderPhase::Caps, RenderAction::ReadCaps)
        }
    }

    /// Whether an event can be dealt with in the given phase.
    pub fn is_ready(&self, phase: &RenderPhase, event: &RenderEvent) -> (r: bool)
        ensures
            r == phase.ready(self.state, *event),
    {
        match (phase, event) {
            (RenderPhase::Time, RenderEvent::TimeSet) => true,
            (RenderPhase::Caps, RenderEvent::Caps(caps)) => match caps {
                Some(caps) => self.state.is_none() || caps.media_type.is_some(),
                None => true,
            },
            (RenderPhase::Info, RenderEvent::Info(_)) => true,
            (RenderPhase::RawData { info }, RenderEvent::Mapped(data)) => self.state.is_some()
                && match data {
                Some(bytes) => info.format.fits_frame(info.width, info.height, bytes.len()),
                None => true,
            },
            (RenderPhase::EncodedData { .. }, RenderEvent::Mapped(data)) => self.state.is_some()
                && match data {
                Some(bytes) => bytes.len() <= MAX_COMPONENT_BYTES,
                None => true,
            },
            (RenderPhase::Codec { .. }, RenderEvent::Logged(_))
            | (RenderPhase::Sample, RenderEvent::Logged(_))
            | (RenderPhase::Picture, RenderEvent::Logged(_)) => self.state.is_some(),
            _ => false,
        }
    }

    /// Goes on rendering a frame with what came of the work that was asked for.
    pub fn render(&mut self, phase: RenderPhase, event: RenderEvent) -> (r: (
        RenderPhase,
        RenderAction,
    ))
        requires
            phase.ready(old(self).state, event),
        ensures
            (final(self).state, r.0, r.1) == next(old(self).state, phase, event),
            final(self).settings == old(self).settings,
    {
        match (phase, event) {
            (RenderPhase::Time, RenderEvent::TimeSet) => (RenderPhase::Caps, RenderAction::ReadCaps),
            (RenderPhase::Caps, RenderEvent::Caps(caps)) => match caps {
                Some(caps) => match caps.media_type {
                    Some(media_type) => self.process_caps(media_type.as_str()),
                    None => (RenderPhase::Finished, RenderAction::Finish(Ok(()))),
                },
                None => (RenderPhase::Finished, RenderAction::Finish(Err(RenderError::NoCaps))),
            },
            (RenderPhase::Info, RenderEvent::Info(info)) => self.process_info(info),
            (RenderPhase::RawData { info }, RenderEvent::Mapped(data)) => {
                self.process_frame(info, data)
            },
            (RenderPhase::EncodedData { codec }, RenderEvent::Mapped(data)) => {
                self.process_encoded_frame(codec, data)
            },
            (RenderPhase::Codec { codec }, RenderEvent::Logged(Ok(()))) => {
                if let Some(state) = &mut self.state {
                    state.codec_sent = true;
                }
                (RenderPhase::EncodedData { codec }, RenderAction::MapBuffer)
            },
            (RenderPhase::Codec { .. }, RenderEvent::Logged(Err(reason))) => (
                RenderPhase::Finished,
                RenderAction::Finish(
                    Err(RenderError::Encoded(RerunSinkError::RerunLogFailed(reason))),
                ),
            ),
            (RenderPhase::Sample, RenderEvent::Logged(Ok(()))) => (
                RenderPhase::Finished,
                RenderAction::Finish(Ok(())),
            ),
            (RenderPhase::Sample, RenderEvent::Logged(Err(reason))) => (
                RenderPhase::Finished,
                RenderAction::Finish(
                    Err(RenderError::Encoded(RerunSinkError::RerunLogFailed(reason))),
                ),
            ),
            (RenderPhase::Picture, RenderEvent::Logged(Ok(()))) => (
                RenderPhase::Finished,
                RenderAction::Finish(Ok(())),
            ),
            (RenderPhase::Picture, RenderEvent::Logged(Err(reason))) => (
                RenderPhase::Finished,
                RenderAction::Finish(Err(RenderError::Raw(RerunSinkError::RerunLogFailed(reason)))),
            ),
            (phase, _) => (phase, RenderAction::MapBuffer),
        }
    }

    /// Decides how a frame of the given media type is processed: as an encoded frame where there is
    /// a codec for it, and else as a raw one. The codec is logged before the first frame.
    fn process_caps(&self, media_type: &str) -> (r: (RenderPhase, RenderAction))
        ensures
            match self.state {
                None => r == (RenderPhase::Finished, RenderAction::Finish(Ok(()))),
                Some(state) => r == match crate::frame::codec_of(media_type@) {
                    Some(codec) => if state.codec_sent {
                        (RenderPhase::EncodedData { codec }, RenderAction::MapBuffer)
                    } else {
                        (
                            RenderPhase::Codec { codec },
                            RenderAction::LogCodec {
                                entity_path: state.entity_path,
                                stream: crate::archetypes::codec_stream(codec),
                            },
                        )
                    },
                    None => (RenderPhase::Info, RenderAction::ReadVideoInfo),
                },
            },
    {
        match &self.state {
            Some(state) => match video_codec(media_type) {
                Ok(codec) => {
                    if state.codec_sent {
                        (RenderPhase::EncodedData { codec }, RenderAction::MapBuffer)
                    } else {
                        (
                            RenderPhase::Codec { codec },
                            RenderAction::LogCodec {
                                entity_path: state.entity_path.clone(),
                                stream: stream_with_codec(codec),
                            },
                        )
                    }
                },
                Err(_) => (RenderPhase::Info, RenderAction::ReadVideoInfo),
            },
            None => (RenderPhase::Finished, RenderAction::Finish(Ok(()))),
        }
    }

    /// Goes on with a raw frame whose format was asked for.
    fn process_info(&self, info: Option<VideoInfo>) -> (r: (RenderPhase, RenderAction))
        ensures
            r == match (self.state, info) {
                (None, _) => (RenderPhase::Finished, RenderAction::Finish(Ok(()))),
                (Some(_), Some(info)) => (RenderPhase::RawData { info }, RenderAction::MapBuffer),
                (Some(_), None) => (
                    RenderPhase::Finished,
                    RenderAction::Finish(
                        Err(RenderError::Raw(RerunSinkError::VideoInfoFromCapsFailed)),
                    ),
                ),
            },
    {
        if self.state.is_none() {
            return (RenderPhase::Finished, RenderAction::Finish(Ok(())));
        }
        match info {
            Some(info) => (RenderPhase::RawData { info }, RenderAction::MapBuffer),
            None => (
                RenderPhase::Finished,
                RenderAction::Finish(
                    Err(RenderError::Raw(RerunSinkError::VideoInfoFromCapsFailed)),
                ),
            ),
        }
    }

    /// Processes the data of an encoded frame.
    fn process_encoded_frame(&self, codec: VideoCodec, data: Option<&[u8]>) -> (r: (
        RenderPhase,
        RenderAction,
    ))
        requires
            self.state is Some,
            data matches Some(bytes) ==> bytes@.len() <= MAX_COMPONENT_BYTES,
        ensures
            r == match data {
                Some(bytes) => (
                    RenderPhase::Sample,
                    RenderAction::LogSample {
                        entity_path: self.state->0.entity_path,
                        stream: crate::archetypes::sample_stream(
                            crate::archetypes::codec_stream(codec),
                            bytes@,
                        ),
                    },
                ),
                None => (
                    RenderPhase::Finished,
                    RenderAction::Finish(
                        Err(RenderError::Encoded(RerunSinkError::BufferMapFailed)),
                    ),
                ),
            },
    {
        match (&self.state, data) {
            (Some(state), Some(bytes)) => (
                RenderPhase::Sample,
                RenderAction::LogSample {
                    entity_path: state.entity_path.clone(),
                    stream: stream_with_sample(stream_with_codec(codec), bytes),
                },
            ),
            _ => (
                RenderPhase::Finished,
                RenderAction::Finish(Err(RenderError::Encoded(RerunSinkError::BufferMapFailed))),
            ),
        }
    }

    /// Processes the data of a raw frame.
    fn process_frame(&self, info: VideoInfo, data: Option<&[u8]>) -> (r: (
        RenderPhase,
        RenderAction,
    ))
        requires
            self.state is Some,
            data matches Some(bytes) ==> info.format.frame_fits(
                info.width,
                info.height,
                bytes@.len(),
            ),
        ensures
            r == match data {
                Some(bytes) => if info.format.supported() {
                    (
                        RenderPhase::Picture,
                        RenderAction::LogImage {
                            entity_path: self.state->0.entity_path,
                            image: info.format.image(bytes@, info.width, info.height),
                        },
                    )
                } else {
                    (
                        RenderPhase::Finished,
                        RenderAction::Finish(
                            Err(
                                RenderError::Raw(
                                    RerunSinkError::UnsupportedVideoFormat(info.format),
                                ),
                            ),
                        ),
                    )
                },
                None => (
                    RenderPhase::Finished,
                    RenderAction::Finish(Err(RenderError::Raw(RerunSinkError::BufferMapFailed))),
                ),
            },
    {
        match (&self.state, data) {
            (Some(state), Some(bytes)) => match new_image_from_frame(
                bytes,
                info.format,
                info.width,
                info.height,
            ) {
                Ok(image) => (
                    RenderPhase::Picture,
                    RenderAction::LogImage { entity_path: state.entity_path.clone(), image },
                ),
                Err(e) => (
                    RenderPhase::Finished,
                    RenderAction::Finish(Err(RenderError::Raw(e))),
                ),
            },
            _ => (
                RenderPhase::Finished,
                RenderAction::Finish(Err(RenderError::Raw(RerunSinkError::BufferMapFailed))),
            ),
        }
    }
}

} // verus!
