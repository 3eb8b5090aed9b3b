//! Video frames: what the sink accepts, and what a frame is logged as.

use re_types::archetypes::Image;
use vstd::prelude::*;

use crate::archetypes::{
    image_from_l8, image_from_rgb24, image_from_rgba32, image_with_pixel_format, PixelFormat,
    VideoCodec, MAX_COMPONENT_BYTES,
};
use crate::snapshot::PadDirection;
use crate::text::same_text;

verus! {

/// The pixel format of raw video.
#[derive(Debug)]
pub enum VideoFormat {
    /// Planar 4:2:0 with interleaved chroma.
    Nv12,
    /// Planar 4:2:0.
    I420,
    /// Interleaved RGB.
    Rgb,
    /// 8-bit grayscale.
    Gray8,
    /// Interleaved RGBA.
    Rgba,
    /// A format of the given name.
    Other(String),
}

/// The format of raw video and the size of its frames.
#[derive(Debug)]
pub struct VideoInfo {
    /// The pixel format.
    pub format: VideoFormat,
    /// The number of pixels per line.
    pub width: u32,
    /// The number of lines.
    pub height: u32,
}

/// Why a frame could not be processed.
#[derive(Debug)]
pub enum RerunSinkError {
    /// The data of the frame could not be read.
    BufferMapFailed,
    /// Rerun did not take the frame, for the reason given.
    RerunLogFailed(String),
    /// The format of the video could not be made out.
    VideoInfoFromCapsFailed,
    /// The encoding of the given name is not supported.
    UnsupportedEncodingFormat(String),
    /// The pixel format is not supported.
    UnsupportedVideoFormat(VideoFormat),
}

impl VideoFormat {
    /// The name of a format.
    pub open spec fn name(self) -> Seq<char> {
        match self {
            VideoFormat::Nv12 => "Nv12"@,
            VideoFormat::I420 => "I420"@,
            VideoFormat::Rgb => "Rgb"@,
            VideoFormat::Gray8 => "Gray8"@,
            VideoFormat::Rgba => "Rgba"@,
            VideoFormat::Other(name) => name@,
        }
    }

    /// The name of the format.
    pub fn to_text(&self) -> (r: String)
        ensures
            r@ == self.name(),
            *self matches VideoFormat::Other(name) ==> r@ == name@,
    {
        match self {
            VideoFormat::Nv12 => "Nv12".to_owned(),
            VideoFormat::I420 => "I420".to_owned(),
            VideoFormat::Rgb => "Rgb".to_owned(),
            VideoFormat::Gray8 => "Gray8".to_owned(),
            VideoFormat::Rgba => "Rgba".to_owned(),
            VideoFormat::Other(name) => name.clone(),
        }
    }

    /// Whether a frame of the given size and amount of data stays within what an image can hold.
    pub open spec fn frame_fits(self, width: u32, height: u32, data_len: nat) -> bool {
        match self {
            VideoFormat::Rgb => data_len <= MAX_COMPONENT_BYTES && width * height * 24
                <= usize::MAX,
            VideoFormat::Rgba => data_len <= MAX_COMPONENT_BYTES && width * height * 32
                <= usize::MAX,
            VideoFormat::Gray8 => data_len <= MAX_COMPONENT_BYTES && width * height * 8
                <= usize::MAX,
            VideoFormat::Nv12 | VideoFormat::I420 => data_len <= MAX_COMPONENT_BYTES,
            VideoFormat::Other(_) => true,
        }
    }

    /// Whether a frame of the given size and amount of data stays within what an image can hold.
    pub fn fits_frame(&self, width: u32, height: u32, data_len: usize) -> (r: bool)
        ensures
            r == self.frame_fits(width, height, data_len as nat),
            r == match *self {
                VideoFormat::Rgb => data_len <= 0x7fff_ffff && width * height * 24 <= usize::MAX,
                VideoFormat::Rgba => data_len <= 0x7fff_ffff && width * height * 32 <= usize::MAX,
                VideoFormat::Gray8 => data_len <= 0x7fff_ffff && width * height * 8 <= usize::MAX,
                VideoFormat::Nv12 | VideoFormat::I420 => data_len <= 0x7fff_ffff,
                VideoFormat::Other(_) => true,
            },
    {
        assert(width * height <= 0xffff_ffff * 0xffff_ffff) by (nonlinear_arith)
            requires
                width <= 0xffff_ffff,
                height <= 0xffff_ffff,
        ;
        let pixels: u128 = width as u128 * height as u128;
        match self {
            VideoFormat::Rgb => data_len <= MAX_COMPONENT_BYTES && pixels * 24
                <= usize::MAX as u128,
            VideoFormat::Rgba => data_len <= MAX_COMPONENT_BYTES && pixels * 32
                <= usize::MAX as u128,
            VideoFormat::Gray8 => data_len <= MAX_COMPONENT_BYTES && pixels * 8
                <= usize::MAX as u128,
            VideoFormat::Nv12 | VideoFormat::I420 => data_len <= MAX_COMPONENT_BYTES,
            VideoFormat::Other(_) => true,
        }
    }

    /// Whether frames of the format can be logged.
    pub open spec fn supported(self) -> bool {
        !(self is Other)
    }

    /// The image that a frame of a supported format is logged as. Both 4:2:0 formats are logged as
    /// NV12.
    pub open spec fn image(self, data: Seq<u8>, width: u32, height: u32) -> Image
        recommends
            self.supported(),
    {
        match self {
            VideoFormat::Rgb => crate::archetypes::rgb24_image(data, width, height),
            VideoFormat::Rgba => crate::archetypes::rgba32_image(data, width, height),
            VideoFormat::Gray8 => crate::archetypes::l8_image(data, width, height),
            _ => crate::archetypes::pixel_format_image(data, width, height, PixelFormat::Nv12),
        }
    }
}

/// Makes an image out of a frame.
pub fn new_image_from_frame(data: &[u8], format: VideoFormat, width: u32, height: u32) -> (r:
    Result<Image, RerunSinkError>)
    requires
        format.frame_fits(width, height, data@.len()),
    ensures
        r == (if format.supported() {
            Ok(format.image(data@, width, height))
        } else {
            Err(RerunSinkError::UnsupportedVideoFormat(format))
        }),
        match format {
            VideoFormat::Rgb => r == Ok::<Image, RerunSinkError>(
                crate::archetypes::rgb24_image(data@, width, height),
            ),
            VideoFormat::Rgba => r == Ok::<Image, RerunSinkError>(
                crate::archetypes::rgba32_image(data@, width, height),
            ),
            VideoFormat::Gray8 => r == Ok::<Image, RerunSinkError>(
                crate::archetypes::l8_image(data@, width, height),
            ),
            VideoFormat::Nv12 | VideoFormat::I420 => r == Ok::<Image, RerunSinkError>(
                crate::archetypes::pixel_format_image(data@, width, height, PixelFormat::Nv12),
            ),
            VideoFormat::Other(name) => r == Err::<Image, RerunSinkError>(
                RerunSinkError::UnsupportedVideoFormat(VideoFormat::Other(name)),
            ),
        },
{
    match format {
        VideoFormat::Rgb => Ok(image_from_rgb24(data, width, height)),
        VideoFormat::Rgba => Ok(image_from_rgba32(data, width, height)),
        VideoFormat::Gray8 => Ok(image_from_l8(data, width, height)),
        VideoFormat::Nv12 | VideoFormat::I420 => {
            Ok(image_with_pixel_format(data, width, height, PixelFormat::Nv12))
        },
        VideoFormat::Other(name) => {
            Err(RerunSinkError::UnsupportedVideoFormat(VideoFormat::Other(name)))
        },
    }
}

/// The codec of the encoding with the given media type.
pub open spec fn codec_of(media_type: Seq<char>) -> Option<VideoCodec> {
    if media_type == "video/x-h264"@ {
        Some(VideoCodec::H264)
    } else if media_type == "video/x-h265"@ {
        Some(VideoCodec::H265)
    } else {
        None
    }
}

/// The codec of the encoding with the given media type.
pub fn video_codec(media_type: &str) -> (r: Result<VideoCodec, RerunSinkError>)
    ensures
        match codec_of(media_type@) {
            Some(codec) => r == Ok::<VideoCodec, RerunSinkError>(codec),
            None => r matches Err(RerunSinkError::UnsupportedEncodingFormat(name)) && name@
                == media_type@,
        },
        r == Ok::<VideoCodec, RerunSinkError>(VideoCodec::H264) <==> media_type@
            == "video/x-h264"@,
        r == Ok::<VideoCodec, RerunSinkError>(VideoCodec::H265) <==> media_type@
            == "video/x-h265"@,
{
    proof {
        law_codecs(media_type@);
    }
    if same_text(media_type, "video/x-h264") {
        Ok(VideoCodec::H264)
    } else if same_text(media_type, "video/x-h265") {
        Ok(VideoCodec::H265)
    } else {
        Err(RerunSinkError::UnsupportedEncodingFormat(media_type.to_owned()))
    }
}

impl RerunSinkError {
    /// The error as text.
    pub open spec fn text(self) -> Seq<char> {
        match self {
            RerunSinkError::BufferMapFailed => "Failed to map buffer for reading"@,
            RerunSinkError::RerunLogFailed(reason) => "Failed to log image to rerun: "@ + reason@,
            RerunSinkError::VideoInfoFromCapsFailed => "Failed to get video info from caps"@,
            RerunSinkError::UnsupportedEncodingFormat(name) => "Unsupported encoding format: "@
                + name@,
            RerunSinkError::UnsupportedVideoFormat(format) => "Unsupported video format: "@
                + format.name(),
        }
    }

    /// The error as text.
    pub fn message(&self) -> (r: String)
        ensures
            r@ == self.text(),
            match *self {
                RerunSinkError::BufferMapFailed => r@ == "Failed to map buffer for reading"@,
                RerunSinkError::RerunLogFailed(reason) => r@ == "Failed to log image to rerun: "@
                    + reason@,
                RerunSinkError::VideoInfoFromCapsFailed => r@
                    == "Failed to get video info from caps"@,
                RerunSinkError::UnsupportedEncodingFormat(name) => r@
                    == "Unsupported encoding format: "@ + name@,
                RerunSinkError::UnsupportedVideoFormat(format) => r@
                    == "Unsupported video format: "@ + format.name(),
            },
    {
        match self {
            RerunSinkError::BufferMapFailed => "Failed to map buffer for reading".to_owned(),
            RerunSinkError::RerunLogFailed(reason) => {
                let mut text = "Failed to log image to rerun: ".to_owned();
                text.append(reason.as_str());
                text
            },
            RerunSinkError::VideoInfoFromCapsFailed => {
                "Failed to get video info from caps".to_owned()
            },
            RerunSinkError::UnsupportedEncodingFormat(name) => {
                let mut text = "Unsupported encoding format: ".to_owned();
                text.append(name.as_str());
                text
            },
            RerunSinkError::UnsupportedVideoFormat(format) => {
                let mut text = "Unsupported video format: ".to_owned();
                text.append(format.to_text().as_str());
                text
            },
        }
    }
}

/// The raw video that the sink accepts.
#[derive(Debug)]
pub struct RawCaps {
    /// The media type.
    pub media_type: &'static str,
    /// The pixel formats that are accepted.
    pub formats: Vec<VideoFormat>,
}

/// An encoding that the sink accepts.
#[derive(Debug)]
pub struct EncodedCaps {
    /// The media type.
    pub media_type: &'static str,
    /// The stream formats that are accepted.
    pub stream_formats: Vec<&'static str>,
}

/// When the pads of a template are there.
#[derive(Debug, Clone, Copy, PartialEq, Eq, Structural)]
pub enum PadPresence {
    /// As long as the element exists.
    Always,
    /// Whenever the element makes one.
    Sometimes,
    /// Whenever one is asked for.
    Request,
}

/// What is announced of a pad.
#[derive(Debug)]
pub struct PadTemplate {
    /// The name of the pad.
    pub name: &'static str,
    /// Its direction.
    pub direction: PadDirection,
    /// When it is there.
    pub presence: PadPresence,
    /// The raw video that it accepts.
    pub raw: RawCaps,
    /// The encoded video that it accepts.
    pub encoded: Vec<EncodedCaps>,
}

/// The formats of raw video that the sink accepts.
pub open spec fn accepted_raw_formats() -> Seq<VideoFormat> {
    seq![
        VideoFormat::Nv12,
        VideoFormat::I420,
        VideoFormat::Rgb,
        VideoFormat::Gray8,
        VideoFormat::Rgba,
    ]
}

/// The media types of encoded video that the sink accepts.
pub open spec fn accepted_media_types() -> Seq<Seq<char>> {
    seq!["video/x-h264"@, "video/x-h265"@]
}

impl EncodedCaps {
    /// The stream formats as texts.
    pub open spec fn formats(self) -> Seq<Seq<char>> {
        self.stream_formats@.map_values(|s: &'static str| s@)
    }
}

/// The pads of the sink: one that takes data in and is always there. It accepts raw video in the
/// formats that can be logged, H.264 as a byte stream, and H.265 in any stream format.
pub fn pad_templates() -> (r: Vec<PadTemplate>)
    ensures
        r@.len() == 1,
        r@[0].name@ == "sink"@,
        r@[0].direction == PadDirection::Sink,
        r@[0].presence == PadPresence::Always,
        r@[0].raw.media_type@ == "video/x-raw"@,
        r@[0].raw.formats@ == accepted_raw_formats(),
        r@[0].encoded@.len() == accepted_media_types().len(),
        forall|i: int|
            0 <= i < r@[0].encoded@.len() ==> (#[trigger] r@[0].encoded@[i]).media_type@
                == accepted_media_types()[i],
        r@[0].encoded@[0].formats() == seq!["byte-stream"@],
        r@[0].encoded@[1].formats() == seq!["hvc1"@, "hev1"@, "byte-stream"@],
{
    let formats = vec![
        VideoFormat::Nv12,
        VideoFormat::I420,
        VideoFormat::Rgb,
        VideoFormat::Gray8,
        VideoFormat::Rgba,
    ];
    assert(formats@ =~= accepted_raw_formats());
    let h264 = EncodedCaps { media_type: "video/x-h264", stream_formats: vec!["byte-stream"] };
    let h265 = EncodedCaps {
        media_type: "video/x-h265",
        stream_formats: vec!["hvc1", "hev1", "byte-stream"],
    };
    assert(h264.formats() =~= seq!["byte-stream"@]);
    assert(h265.formats() =~= seq!["hvc1"@, "hev1"@, "byte-stream"@]);
    vec![
        PadTemplate {
            name: "sink",
            direction: PadDirection::Sink,
            presence: PadPresence::Always,
            raw: RawCaps { media_type: "video/x-raw", formats },
            encoded: vec![h264, h265],
        },
    ]
}

/// The image of a frame is as wide and as high as the frame and is made of all its data, in the
/// layout of its format. Each format has an image but those that are not known.
pub proof fn law_image_of_frame(data: Seq<u8>, width: u32, height: u32, name: String)
    ensures
        VideoFormat::Rgb.image(data, width, height) == crate::archetypes::rgb24_image(
            data,
            width,
            height,
        ),
        VideoFormat::Rgba.image(data, width, height) == crate::archetypes::rgba32_image(
            data,
            width,
            height,
        ),
        VideoFormat::Gray8.image(data, width, height) == crate::archetypes::l8_image(
            data,
            width,
            height,
        ),
        VideoFormat::Nv12.image(data, width, height) == crate::archetypes::pixel_format_image(
            data,
            width,
            height,
            PixelFormat::Nv12,
        ),
        VideoFormat::I420.image(data, width, height) == crate::archetypes::pixel_format_image(
            data,
            width,
            height,
            PixelFormat::Nv12,
        ),
        VideoFormat::Rgb.supported(),
        VideoFormat::Rgba.supported(),
        VideoFormat::Gray8.supported(),
        VideoFormat::Nv12.supported(),
        VideoFormat::I420.supported(),
        !VideoFormat::Other(name).supported(),
{
}

/// A frame stays within what an image can hold as long as its data has less than two gigabytes and
/// the number of its bits can be computed; of a format that is not known, nothing has to be held.
pub proof fn law_frames_that_fit(width: u32, height: u32, data_len: nat, name: String)
    ensures
        VideoFormat::Rgb.frame_fits(width, height, data_len) <==> data_len <= 0x7fff_ffff && width
            * height * 24 <= usize::MAX,
        VideoFormat::Rgba.frame_fits(width, height, data_len) <==> data_len <= 0x7fff_ffff && width
            * height * 32 <= usize::MAX,
        VideoFormat::Gray8.frame_fits(width, height, data_len) <==> data_len <= 0x7fff_ffff && width
            * height * 8 <= usize::MAX,
        VideoFormat::Nv12.frame_fits(width, height, data_len) <==> data_len <= 0x7fff_ffff,
        VideoFormat::I420.frame_fits(width, height, data_len) <==> data_len <= 0x7fff_ffff,
        VideoFormat::Other(name).frame_fits(width, height, data_len),
{
}

/// There is a codec for the two encodings, each its own, and for no other media type.
pub proof fn law_codecs(media_type: Seq<char>)
    ensures
        codec_of("video/x-h264"@) == Some(VideoCodec::H264),
        codec_of("video/x-h265"@) == Some(VideoCodec::H265),
        codec_of(media_type) is Some ==> media_type == "video/x-h264"@ || media_type
            == "video/x-h265"@,
        "video/x-h264"@ != "video/x-h265"@,
{
    reveal_strlit("video/x-h264");
    reveal_strlit("video/x-h265");
    assert("video/x-h264"@[11] == '4');
    assert("video/x-h265"@[11] == '5');
}

/// The text of an error starts with what went wrong and ends with the reason, the encoding or the
/// format, word for word.
pub proof fn law_error_texts(reason: String)
    ensures
        RerunSinkError::RerunLogFailed(reason).text() == "Failed to log image to rerun: "@ + reason@,
        RerunSinkError::UnsupportedEncodingFormat(reason).text()
            == "Unsupported encoding format: "@ + reason@,
        RerunSinkError::UnsupportedVideoFormat(VideoFormat::Other(reason)).text()
            == "Unsupported video format: "@ + reason@,
{
}

/// The sink accepts exactly those formats of raw video that it can log.
pub proof fn law_accepted_formats_are_supported(format: VideoFormat)
    ensures
        accepted_raw_formats().contains(format) <==> format.supported(),
{
    let formats = accepted_raw_formats();
    assert(formats[0] is Nv12 && formats[1] is I420 && formats[2] is Rgb && formats[3] is Gray8
        && formats[4] is Rgba);
}

/// The sink accepts exactly those encodings that it has a codec for, and takes raw video for none
/// of them.
pub proof fn law_accepted_encodings_have_codec(media_type: Seq<char>)
    ensures
        accepted_media_types().contains(media_type) <==> codec_of(media_type) is Some,
        codec_of("video/x-raw"@) is None,
{
    let types = accepted_media_types();
    assert(types[0] == "video/x-h264"@ && types[1] == "video/x-h265"@);
    reveal_strlit("video/x-raw");
    reveal_strlit("video/x-h264");
    reveal_strlit("video/x-h265");
    assert("video/x-raw"@.len() == 11);
    assert("video/x-h264"@.len() == 12);
    assert("video/x-h265"@.len() == 12);
}

} // verus!
