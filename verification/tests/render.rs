//! Rendering of frames.

use gst_rerun_tools::archetypes::VideoCodec;
use gst_rerun_tools::frame::{
    new_image_from_frame, pad_templates, video_codec, PadPresence, RerunSinkError, VideoFormat,
    VideoInfo,
};
use gst_rerun_tools::render::{
    CapsInfo, FlowError, RenderAction, RenderError, RenderEvent, RenderPhase,
};
use gst_rerun_tools::sink::{RerunSink, Settings, State};
use gst_rerun_tools::snapshot::PadDirection;
use re_types::archetypes::{Image, VideoStream};

fn raw_formats() -> Vec<VideoFormat> {
    pad_templates().remove(0).raw.formats
}

fn running(codec_sent: bool) -> RerunSink<u8> {
    RerunSink {
        settings: Settings::default(),
        state: Some(State {
            rec: 1,
            entity_path: "path".to_string(),
            codec_sent,
        }),
    }
}

fn stopped() -> RerunSink<u8> {
    RerunSink::new()
}

fn caps(media_type: &str) -> RenderEvent<'static> {
    RenderEvent::Caps(Some(CapsInfo {
        media_type: Some(media_type.to_string()),
    }))
}

fn refused() -> RenderEvent<'static> {
    RenderEvent::Logged(Err("full".to_string()))
}

/// Renders a frame with the given answers; gives the phase and action that follow the last.
fn render<'a>(
    sink: &mut RerunSink<u8>,
    events: Vec<RenderEvent<'a>>,
) -> (RenderPhase, RenderAction) {
    let (mut phase, mut action) = sink.begin_render(Some(40));
    for event in events {
        assert!(sink.is_ready(&phase, &event));
        (phase, action) = sink.render(phase, event);
    }
    (phase, action)
}

fn finish<'a>(
    sink: &mut RerunSink<u8>,
    events: Vec<RenderEvent<'a>>,
) -> Result<(), RenderError> {
    match render(sink, events) {
        (RenderPhase::Finished, RenderAction::Finish(result)) => result,
        other => panic!("not finished: {:?}", other),
    }
}

fn raw(format: VideoFormat) -> RenderEvent<'static> {
    RenderEvent::Info(Some(VideoInfo {
        format,
        width: 2,
        height: 2,
    }))
}

#[test]
fn images_of_frames() {
    let data = [1u8, 2, 3, 4, 5, 6, 7, 8, 9, 10, 11, 12, 13, 14, 15, 16];
    for (format, length, expected) in [
        (VideoFormat::Rgb, 12, Image::from_rgb24(&data[..12], [2, 2])),
        (VideoFormat::Rgba, 16, Image::from_rgba32(&data[..16], [2, 2])),
        (VideoFormat::Gray8, 4, Image::from_l8(&data[..4], [2, 2])),
    ] {
        assert!(format.fits_frame(2, 2, length));
        let image = new_image_from_frame(&data[..length], format, 2, 2).unwrap();
        assert_eq!(image, expected);
    }
    let nv12 = re_types::components::ImageFormat(re_types::datatypes::ImageFormat {
        width: 2,
        height: 2,
        pixel_format: Some(re_types::datatypes::PixelFormat::NV12),
        color_model: None,
        channel_datatype: None,
    });
    for format in [VideoFormat::Nv12, VideoFormat::I420] {
        let image = new_image_from_frame(&data[..6], format, 2, 2).unwrap();
        assert_eq!(image, Image::new(&data[..6], nv12));
    }
}

#[test]
fn an_image_has_its_width_before_its_height() {
    let data = [0u8; 6];
    let image = new_image_from_frame(&data, VideoFormat::Gray8, 3, 2).unwrap();
    assert_eq!(image, Image::from_l8(&data[..], [3, 2]));
    assert!(image != Image::from_l8(&data[..], [2, 3]));
}

#[test]
fn other_formats_are_not_supported() {
    let e = new_image_from_frame(&[], VideoFormat::Other("Yuy2".to_string()), 2, 2).unwrap_err();
    assert_eq!(e.message(), "Unsupported video format: Yuy2");
}

#[test]
fn names_of_formats() {
    let names: Vec<String> = raw_formats().iter().map(|f| f.to_text()).collect();
    assert_eq!(names, ["Nv12", "I420", "Rgb", "Gray8", "Rgba"]);
    assert_eq!(VideoFormat::Other("Yuy2".to_string()).to_text(), "Yuy2");
}

#[test]
fn one_pad_that_is_always_there() {
    let templates = pad_templates();
    assert_eq!(templates.len(), 1);
    assert_eq!(templates[0].name, "sink");
    assert_eq!(templates[0].direction, PadDirection::Sink);
    assert_eq!(templates[0].presence, PadPresence::Always);
    assert_eq!(templates[0].raw.media_type, "video/x-raw");
    assert!(video_codec(templates[0].raw.media_type).is_err());
}

#[test]
fn accepted_encodings() {
    let all = pad_templates().remove(0).encoded;
    assert_eq!(all.len(), 2);
    assert_eq!(all[0].media_type, "video/x-h264");
    assert_eq!(all[0].stream_formats, ["byte-stream"]);
    assert_eq!(all[1].media_type, "video/x-h265");
    assert_eq!(all[1].stream_formats, ["hvc1", "hev1", "byte-stream"]);
    for caps in all {
        assert!(video_codec(caps.media_type).is_ok());
    }
}

#[test]
fn accepted_formats_can_be_logged() {
    for format in raw_formats() {
        assert!(new_image_from_frame(&[0; 16], format, 2, 2).is_ok());
    }
}

#[test]
fn codecs() {
    assert_eq!(video_codec("video/x-h264").unwrap(), VideoCodec::H264);
    assert_eq!(video_codec("video/x-h265").unwrap(), VideoCodec::H265);
    let e = video_codec("video/x-raw").unwrap_err();
    assert_eq!(e.message(), "Unsupported encoding format: video/x-raw");
}

#[test]
fn what_an_image_can_hold() {
    let most = 0x7fff_ffff;
    for format in raw_formats() {
        assert!(format.fits_frame(1, 1, most));
        assert!(!format.fits_frame(1, 1, most + 1));
    }
    assert!(!VideoFormat::Rgba.fits_frame(u32::MAX, u32::MAX, 4));
    assert!(!VideoFormat::Rgb.fits_frame(u32::MAX, u32::MAX, 4));
    assert!(!VideoFormat::Gray8.fits_frame(u32::MAX, u32::MAX, 4));
    assert!(VideoFormat::Nv12.fits_frame(u32::MAX, u32::MAX, 4));
    assert!(VideoFormat::Other("x".to_string()).fits_frame(1, 1, most + 1));
}

#[test]
fn errors_as_text() {
    assert_eq!(
        RerunSinkError::BufferMapFailed.message(),
        "Failed to map buffer for reading"
    );
    assert_eq!(
        RerunSinkError::RerunLogFailed("full".to_string()).message(),
        "Failed to log image to rerun: full"
    );
    assert_eq!(
        RerunSinkError::VideoInfoFromCapsFailed.message(),
        "Failed to get video info from caps"
    );
    assert_eq!(RenderError::NoTime.message(), "Buffer has no PTS");
    assert_eq!(RenderError::NoCaps.message(), "Failed to get caps");
    assert_eq!(
        RenderError::Encoded(RerunSinkError::BufferMapFailed).message(),
        "Failed to process encoded frame: Failed to map buffer for reading"
    );
    assert_eq!(
        RenderError::Raw(RerunSinkError::VideoInfoFromCapsFailed).message(),
        "Failed to process frame: Failed to get video info from caps"
    );
}

#[test]
fn errors_as_answers() {
    let unsupported = || RerunSinkError::UnsupportedVideoFormat(VideoFormat::Nv12);
    assert_eq!(RenderError::NoTime.flow_error(), FlowError::Error);
    assert_eq!(RenderError::NoCaps.flow_error(), FlowError::Error);
    assert_eq!(
        RenderError::Encoded(RerunSinkError::BufferMapFailed).flow_error(),
        FlowError::Error
    );
    assert_eq!(
        RenderError::Encoded(RerunSinkError::VideoInfoFromCapsFailed).flow_error(),
        FlowError::Error
    );
    assert_eq!(
        RenderError::Encoded(unsupported()).flow_error(),
        FlowError::NotNegotiated
    );
    assert_eq!(
        RenderError::Raw(RerunSinkError::VideoInfoFromCapsFailed).flow_error(),
        FlowError::NotNegotiated
    );
    assert_eq!(
        RenderError::Raw(unsupported()).flow_error(),
        FlowError::NotNegotiated
    );
    assert_eq!(
        RenderError::Raw(RerunSinkError::BufferMapFailed).flow_error(),
        FlowError::Error
    );
}

#[test]
fn the_time_is_set_first() {
    let (phase, action) = running(false).begin_render(Some(40));
    assert!(matches!(phase, RenderPhase::Time));
    assert!(matches!(action, RenderAction::SetTime { nanos: 40 }));
}

#[test]
fn a_frame_without_a_time_is_refused() {
    let (phase, action) = running(false).begin_render(None);
    assert!(matches!(phase, RenderPhase::Finished));
    assert!(matches!(
        action,
        RenderAction::Finish(Err(RenderError::NoTime))
    ));
}

#[test]
fn a_stopped_sink_drops_frames() {
    for pts in [None, Some(40)] {
        let mut sink = stopped();
        let (phase, action) = sink.begin_render(pts);
        assert!(matches!(action, RenderAction::ReadCaps));
        let (_, action) = sink.render(phase, caps("video/x-h264"));
        assert!(matches!(action, RenderAction::Finish(Ok(()))));

        let (phase, _) = sink.begin_render(pts);
        let (_, action) = sink.render(phase, RenderEvent::Caps(None));
        assert!(matches!(
            action,
            RenderAction::Finish(Err(RenderError::NoCaps))
        ));
    }
}

#[test]
fn a_sink_that_is_stopped_meanwhile_drops_the_frame() {
    let mut sink = running(false);
    let (phase, _) = render(&mut sink, vec![RenderEvent::TimeSet, caps("video/x-raw")]);
    sink.stop();
    let (_, action) = sink.render(phase, raw(VideoFormat::Gray8));
    assert!(matches!(action, RenderAction::Finish(Ok(()))));
}

#[test]
fn a_frame_without_caps_is_refused() {
    let result = finish(
        &mut running(false),
        vec![RenderEvent::TimeSet, RenderEvent::Caps(None)],
    );
    assert!(matches!(result, Err(RenderError::NoCaps)));
}

#[test]
fn an_encoded_stream() {
    for (media_type, codec) in [
        ("video/x-h264", re_types::components::VideoCodec::H264),
        ("video/x-h265", re_types::components::VideoCodec::H265),
    ] {
        let mut sink = running(false);
        let (phase, action) = render(&mut sink, vec![RenderEvent::TimeSet, caps(media_type)]);
        match action {
            RenderAction::LogCodec {
                entity_path,
                stream,
            } => {
                let expected = VideoStream::new(codec);
                assert_eq!(entity_path, "path");
                assert_eq!(stream.codec, expected.codec);
                assert!(stream.codec.is_some());
                assert!(stream.sample.is_none());
            }
            other => panic!("unexpected: {:?}", other),
        }
        assert!(!sink.state.as_ref().unwrap().codec_sent);
        let (phase, action) = sink.render(phase, RenderEvent::Logged(Ok(())));
        assert!(matches!(action, RenderAction::MapBuffer));
        assert!(sink.state.as_ref().unwrap().codec_sent);
        let (phase, action) = sink.render(phase, RenderEvent::Mapped(Some(&[1, 2, 3])));
        match action {
            RenderAction::LogSample {
                entity_path,
                stream,
            } => {
                let expected = VideoStream::new(codec).with_sample([1u8, 2, 3].as_slice());
                assert_eq!(entity_path, "path");
                assert_eq!(stream.codec, expected.codec);
                assert_eq!(stream.sample, expected.sample);
                assert!(stream.sample.is_some());
            }
            other => panic!("unexpected: {:?}", other),
        }
        let (phase, action) = sink.render(phase, RenderEvent::Logged(Ok(())));
        assert!(matches!(phase, RenderPhase::Finished));
        assert!(matches!(action, RenderAction::Finish(Ok(()))));
        assert_eq!(sink.state.as_ref().unwrap().rec, 1);

        // The next frame does not log the codec again.
        let (_, action) = render(&mut sink, vec![RenderEvent::TimeSet, caps(media_type)]);
        assert!(matches!(action, RenderAction::MapBuffer));
    }
}

#[test]
fn a_new_start_sends_the_codec_again() {
    let mut sink: RerunSink<u8> = RerunSink::new();
    sink.set_recorder(1);
    for _ in 0..2 {
        assert!(sink.start().is_none());
        for expected in [true, false, false] {
            let (phase, action) =
                render(&mut sink, vec![RenderEvent::TimeSet, caps("video/x-h264")]);
            assert_eq!(matches!(action, RenderAction::LogCodec { .. }), expected);
            let phase = if expected {
                sink.render(phase, RenderEvent::Logged(Ok(()))).0
            } else {
                phase
            };
            let (phase, action) = sink.render(phase, RenderEvent::Mapped(Some(&[1])));
            assert!(matches!(action, RenderAction::LogSample { .. }));
            let (_, action) = sink.render(phase, RenderEvent::Logged(Ok(())));
            assert!(matches!(action, RenderAction::Finish(Ok(()))));
        }
        assert!(sink.stop());
    }
}

#[test]
fn a_codec_that_is_refused_is_tried_again() {
    let mut sink = running(false);
    let result = finish(
        &mut sink,
        vec![RenderEvent::TimeSet, caps("video/x-h264"), refused()],
    );
    assert!(matches!(
        result,
        Err(RenderError::Encoded(RerunSinkError::RerunLogFailed(reason))) if reason == "full"
    ));
    assert!(!sink.state.as_ref().unwrap().codec_sent);
    let (_, action) = render(&mut sink, vec![RenderEvent::TimeSet, caps("video/x-h264")]);
    assert!(matches!(action, RenderAction::LogCodec { .. }));
}

#[test]
fn an_encoded_frame_that_cannot_be_read_or_logged() {
    let result = finish(
        &mut running(true),
        vec![
            RenderEvent::TimeSet,
            caps("video/x-h264"),
            RenderEvent::Mapped(None),
        ],
    );
    assert!(matches!(
        result,
        Err(RenderError::Encoded(RerunSinkError::BufferMapFailed))
    ));
    let result = finish(
        &mut running(true),
        vec![
            RenderEvent::TimeSet,
            caps("video/x-h264"),
            RenderEvent::Mapped(Some(&[])),
            refused(),
        ],
    );
    assert!(matches!(
        result,
        Err(RenderError::Encoded(RerunSinkError::RerunLogFailed(_)))
    ));
}

#[test]
fn a_raw_frame() {
    let mut sink = running(false);
    let (phase, action) = render(
        &mut sink,
        vec![
            RenderEvent::TimeSet,
            caps("video/x-raw"),
            raw(VideoFormat::Gray8),
            RenderEvent::Mapped(Some(&[1, 2, 3, 4])),
        ],
    );
    match action {
        RenderAction::LogImage { entity_path, image } => {
            assert_eq!(entity_path, "path");
            assert_eq!(image, Image::from_l8([1u8, 2, 3, 4].as_slice(), [2, 2]));
        }
        other => panic!("unexpected: {:?}", other),
    }
    let (_, action) = sink.render(phase, RenderEvent::Logged(Ok(())));
    assert!(matches!(action, RenderAction::Finish(Ok(()))));
    assert!(!sink.state.unwrap().codec_sent);
}

#[test]
fn raw_frames_that_fail() {
    let start = || vec![RenderEvent::TimeSet, caps("video/x-raw")];

    let mut events = start();
    events.push(RenderEvent::Info(None));
    assert!(matches!(
        finish(&mut running(false), events),
        Err(RenderError::Raw(RerunSinkError::VideoInfoFromCapsFailed))
    ));

    let mut events = start();
    events.push(raw(VideoFormat::Rgb));
    events.push(RenderEvent::Mapped(None));
    assert!(matches!(
        finish(&mut running(false), events),
        Err(RenderError::Raw(RerunSinkError::BufferMapFailed))
    ));

    let mut events = start();
    events.push(raw(VideoFormat::Other("Yuy2".to_string())));
    events.push(RenderEvent::Mapped(Some(&[0; 8])));
    assert!(matches!(
        finish(&mut running(false), events),
        Err(RenderError::Raw(RerunSinkError::UnsupportedVideoFormat(
            VideoFormat::Other(name)
        ))) if name == "Yuy2"
    ));

    let mut events = start();
    events.push(raw(VideoFormat::Gray8));
    events.push(RenderEvent::Mapped(Some(&[0; 4])));
    events.push(refused());
    assert!(matches!(
        finish(&mut running(false), events),
        Err(RenderError::Raw(RerunSinkError::RerunLogFailed(_)))
    ));
}

#[test]
fn events_that_cannot_be_dealt_with() {
    let sink = running(true);
    let h264 = || RenderPhase::EncodedData {
        codec: VideoCodec::H264,
    };
    assert!(sink.is_ready(&h264(), &RenderEvent::Mapped(Some(&[1]))));
    assert!(!sink.is_ready(&h264(), &RenderEvent::TimeSet));
    assert!(!stopped().is_ready(&h264(), &RenderEvent::Mapped(None)));
    assert!(!sink.is_ready(&RenderPhase::Finished, &RenderEvent::TimeSet));
    let nameless = RenderEvent::Caps(Some(CapsInfo { media_type: None }));
    assert!(!sink.is_ready(&RenderPhase::Caps, &nameless));
    assert!(stopped().is_ready(&RenderPhase::Caps, &nameless));
    let huge = RenderPhase::RawData {
        info: VideoInfo {
            format: VideoFormat::Rgba,
            width: u32::MAX,
            height: u32::MAX,
        },
    };
    assert!(!sink.is_ready(&huge, &RenderEvent::Mapped(Some(&[1]))));
    assert!(sink.is_ready(&huge, &RenderEvent::Mapped(None)));
}
