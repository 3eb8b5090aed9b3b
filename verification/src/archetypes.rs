//! The Rerun archetypes that frames and graphs are logged as.
//!
//! Verus does not look inside the archetypes. Each constructor that this library calls has a name
//! for what it returns, and the contracts of the library speak of these names. The constructors
//! store their arguments in Arrow arrays with 32-bit offsets, which bounds the amount of data.

use re_types::archetypes::{GraphEdges, GraphNodes, Image, VideoStream};
use re_types::components::Position2D;
use vstd::prelude::*;

verus! {

/// Rerun's image archetype.
#[verifier::external_type_specification]
#[verifier::external_body]
pub struct ExImage(re_types::archetypes::Image);

/// Rerun's archetype for a stream of encoded video.
#[verifier::external_type_specification]
#[verifier::external_body]
pub struct ExVideoStream(re_types::archetypes::VideoStream);

/// Rerun's archetype for the nodes of a graph.
#[verifier::external_type_specification]
#[verifier::external_body]
pub struct ExGraphNodes(re_types::archetypes::GraphNodes);

/// Rerun's archetype for the edges of a graph.
#[verifier::external_type_specification]
#[verifier::external_body]
pub struct ExGraphEdges(re_types::archetypes::GraphEdges);

/// Rerun's position in the plane.
#[verifier::external_type_specification]
#[verifier::external_body]
pub struct ExPosition2D(re_types::components::Position2D);

/// The codec of an encoded video stream.
#[derive(Debug, Clone, Copy, PartialEq, Eq, Structural)]
pub enum VideoCodec {
    /// H.264, in byte-stream format.
    H264,
    /// H.265.
    H265,
}

/// The layout of the pixels of an image that is not made up of one value per channel and pixel.
#[derive(Debug, Clone, Copy, PartialEq, Eq, Structural)]
pub enum PixelFormat {
    /// Planar 4:2:0 with interleaved chroma.
    Nv12,
}

/// The largest amount of bytes that one archetype component can hold.
pub const MAX_COMPONENT_BYTES: usize = 0x7fff_ffff;

/// The image of interleaved RGB data with 8 bits per channel.
pub uninterp spec fn rgb24_image(data: Seq<u8>, width: u32, height: u32) -> Image;

/// The image of interleaved RGBA data with 8 bits per channel.
pub uninterp spec fn rgba32_image(data: Seq<u8>, width: u32, height: u32) -> Image;

/// The image of 8-bit grayscale data.
pub uninterp spec fn l8_image(data: Seq<u8>, width: u32, height: u32) -> Image;

/// The image of data in a pixel format.
pub uninterp spec fn pixel_format_image(
    data: Seq<u8>,
    width: u32,
    height: u32,
    pixel_format: PixelFormat,
) -> Image;

/// The stream that has a codec and nothing else.
pub uninterp spec fn codec_stream(codec: VideoCodec) -> VideoStream;

/// A stream with a video sample set.
pub uninterp spec fn sample_stream(stream: VideoStream, sample: Seq<u8>) -> VideoStream;

/// The graph nodes with the given identifiers and nothing else.
pub uninterp spec fn nodes_archetype(names: Seq<Seq<char>>) -> GraphNodes;

/// Graph nodes with their labels set.
pub uninterp spec fn labelled_archetype(nodes: GraphNodes, labels: Seq<Seq<char>>) -> GraphNodes;

/// Graph nodes with their positions set.
pub uninterp spec fn placed_archetype(nodes: GraphNodes, positions: Seq<Position2D>) -> GraphNodes;

/// The graph edges between the given identifiers and nothing else.
pub uninterp spec fn edges_archetype(edges: Seq<(Seq<char>, Seq<char>)>) -> GraphEdges;

/// Graph edges marked as directed.
pub uninterp spec fn directed_archetype(edges: GraphEdges) -> GraphEdges;

/// The number of bytes that texts take in UTF-8.
pub open spec fn utf8_bytes(names: Seq<Seq<char>>) -> nat
    decreases names.len(),
{
    if names.len() == 0 {
        0
    } else {
        utf8_bytes(names.drop_last()) + vstd::utf8::encode_utf8(names.last()).len()
    }
}

/// The first components of pairs.
pub open spec fn firsts(pairs: Seq<(Seq<char>, Seq<char>)>) -> Seq<Seq<char>> {
    pairs.map_values(|p: (Seq<char>, Seq<char>)| p.0)
}

/// The second components of pairs.
pub open spec fn seconds(pairs: Seq<(Seq<char>, Seq<char>)>) -> Seq<Seq<char>> {
    pairs.map_values(|p: (Seq<char>, Seq<char>)| p.1)
}

/// `Image::from_rgb24`: the result is named `rgb24_image`. The call computes the number of bits
/// of the image, which must not overflow.
#[verifier::external_body]
pub(crate) fn image_from_rgb24(data: &[u8], width: u32, height: u32) -> (r: Image)
    requires
        data@.len() <= MAX_COMPONENT_BYTES,
        width * height * 24 <= usize::MAX,
    ensures
        r == rgb24_image(data@, width, height),
{
    Image::from_rgb24(data, [width, height])
}

/// `Image::from_rgba32`: the result is named `rgba32_image`. The call computes the number of bits
/// of the image, which must not overflow.
#[verifier::external_body]
pub(crate) fn image_from_rgba32(data: &[u8], width: u32, height: u32) -> (r: Image)
    requires
        data@.len() <= MAX_COMPONENT_BYTES,
        width * height * 32 <= usize::MAX,
    ensures
        r == rgba32_image(data@, width, height),
{
    Image::from_rgba32(data, [width, height])
}

/// `Image::from_l8`: the result is named `l8_image`. The call computes the number of bits of the
/// image, which must not overflow.
#[verifier::external_body]
pub(crate) fn image_from_l8(data: &[u8], width: u32, height: u32) -> (r: Image)
    requires
        data@.len() <= MAX_COMPONENT_BYTES,
        width * height * 8 <= usize::MAX,
    ensures
        r == l8_image(data@, width, height),
{
    Image::from_l8(data, [width, height])
}

/// `Image::new` with the format that `ImageFormat::from_pixel_format` makes, which states the
/// resolution and the pixel format and leaves color model and channel type open: the result is
/// named `pixel_format_image`.
#[verifier::external_body]
pub(crate) fn image_with_pixel_format(
    data: &[u8],
    width: u32,
    height: u32,
    pixel_format: PixelFormat,
) -> (r: Image)
    requires
        data@.len() <= MAX_COMPONENT_BYTES,
    ensures
        r == pixel_format_image(data@, width, height, pixel_format),
{
    let pixel_format = match pixel_format {
        PixelFormat::Nv12 => re_types::datatypes::PixelFormat::NV12,
    };
    let format = re_types::datatypes::ImageFormat::from_pixel_format([width, height], pixel_format);
    Image::new(data, re_types::components::ImageFormat(format))
}

/// `VideoStream::new`: the result is named `codec_stream`.
#[verifier::external_body]
pub(crate) fn stream_with_codec(codec: VideoCodec) -> (r: VideoStream)
    ensures
        r == codec_stream(codec),
{
    let codec = match codec {
        VideoCodec::H264 => re_types::components::VideoCodec::H264,
        VideoCodec::H265 => re_types::components::VideoCodec::H265,
    };
    VideoStream::new(codec)
}

/// `VideoStream::with_sample`: the result is named `sample_stream`.
#[verifier::external_body]
pub(crate) fn stream_with_sample(stream: VideoStream, sample: &[u8]) -> (r: VideoStream)
    requires
        sample@.len() <= MAX_COMPONENT_BYTES,
    ensures
        r == sample_stream(stream, sample@),
{
    stream.with_sample(sample)
}

/// `GraphNodes::new`: the result is named `nodes_archetype`.
#[verifier::external_body]
pub(crate) fn nodes_with_names(names: Vec<String>) -> (r: GraphNodes)
    requires
        utf8_bytes(crate::text::texts(names@)) <= MAX_COMPONENT_BYTES,
    ensures
        r == nodes_archetype(crate::text::texts(names@)),
{
    GraphNodes::new(names)
}

/// `GraphNodes::with_labels`: the result is named `labelled_archetype`.
#[verifier::external_body]
pub(crate) fn nodes_with_labels(nodes: GraphNodes, labels: Vec<String>) -> (r: GraphNodes)
    requires
        utf8_bytes(crate::text::texts(labels@)) <= MAX_COMPONENT_BYTES,
    ensures
        r == labelled_archetype(nodes, crate::text::texts(labels@)),
{
    nodes.with_labels(labels)
}

/// `GraphNodes::with_positions`: the result is named `placed_archetype`.
#[verifier::external_body]
pub(crate) fn nodes_with_positions(nodes: GraphNodes, positions: Vec<Position2D>) -> (r: GraphNodes)
    ensures
        r == placed_archetype(nodes, positions@),
{
    nodes.with_positions(positions)
}

/// `GraphEdges::new`: the result is named `edges_archetype`.
#[verifier::external_body]
pub(crate) fn edges_between(edges: Vec<(String, String)>) -> (r: GraphEdges)
    requires
        utf8_bytes(firsts(crate::text::text_pairs(edges@))) <= MAX_COMPONENT_BYTES,
        utf8_bytes(seconds(crate::text::text_pairs(edges@))) <= MAX_COMPONENT_BYTES,
    ensures
        r == edges_archetype(crate::text::text_pairs(edges@)),
{
    GraphEdges::new(edges)
}

/// `GraphEdges::with_directed_edges`: the result is named `directed_archetype`.
#[verifier::external_body]
pub(crate) fn edges_directed(edges: GraphEdges) -> (r: GraphEdges)
    ensures
        r == directed_archetype(edges),
{
    edges.with_directed_edges()
}

/// One text more.
pub proof fn lemma_utf8_bytes_next(names: Seq<Seq<char>>, n: int)
    requires
        0 <= n < names.len(),
    ensures
        utf8_bytes(names.take(n + 1)) == utf8_bytes(names.take(n)) + vstd::utf8::encode_utf8(
            names[n],
        ).len(),
{
    assert(names.take(n + 1).drop_last() =~= names.take(n));
}

/// Fewer texts take no more bytes.
pub proof fn lemma_utf8_bytes_grow(names: Seq<Seq<char>>, n: int)
    requires
        0 <= n <= names.len(),
    ensures
        utf8_bytes(names.take(n)) <= utf8_bytes(names),
    decreases names.len() - n,
{
    if n == names.len() {
        assert(names.take(n) =~= names);
    } else {
        lemma_utf8_bytes_next(names, n);
        lemma_utf8_bytes_grow(names, n + 1);
    }
}

/// Whether texts take at most as many bytes as a component can hold.
pub(crate) fn texts_fit(names: &Vec<String>) -> (r: bool)
    ensures
        r == (utf8_bytes(crate::text::texts(names@)) <= MAX_COMPONENT_BYTES),
{
    let ghost all = crate::text::texts(names@);
    let mut free: usize = MAX_COMPONENT_BYTES;
    let mut i: usize = 0;
    while i < names.len()
        invariant
            i <= names.len(),
            all == crate::text::texts(names@),
            free + utf8_bytes(all.take(i as int)) == MAX_COMPONENT_BYTES,
        decreases names.len() - i,
    {
        proof {
            lemma_utf8_bytes_next(all, i as int);
            lemma_utf8_bytes_grow(all, i + 1);
        }
        let size = names[i].as_str().as_bytes().len();
        if size > free {
            return false;
        }
        free -= size;
        i += 1;
    }
    assert(all.take(i as int) =~= all);
    true
}

} // verus!
