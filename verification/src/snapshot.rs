//! What the traversal of a GStreamer pipeline reads, as plain values.
//!
//! A bin is read twice: once for its elements, once for the pads of its elements. Each reading
//! goes through a GStreamer iterator, whose answers are recorded one by one in the order in which
//! they came; the end of a list is the iterator's regular end.

use vstd::prelude::*;

verus! {

/// One answer of a GStreamer iterator.
#[derive(Debug)]
pub enum IterEvent<T> {
    /// The iterator handed out an item.
    Item(T),
    /// The list changed meanwhile; the iterator was told to start over.
    Resync,
    /// The iterator failed.
    Error,
}

/// The direction of a pad.
#[derive(Debug, Clone, Copy, PartialEq, Eq, Structural)]
pub enum PadDirection {
    /// The direction is not known.
    Unknown,
    /// Data leaves the element through the pad.
    Src,
    /// Data enters the element through the pad.
    Sink,
}

/// The pad at the other end of a link.
#[derive(Debug)]
pub struct PeerPad {
    /// The name of the element that the pad belongs to, if it belongs to one.
    pub parent_element: Option<String>,
    /// Whether that element lies directly within the bin whose links are read.
    pub in_bin: bool,
}

/// One pad of an element.
#[derive(Debug)]
pub struct PadSnapshot {
    /// Whether the pad is linked.
    pub linked: bool,
    /// The direction of the pad.
    pub direction: PadDirection,
    /// The pad it is linked to, if there is one.
    pub peer: Option<PeerPad>,
}

/// An element and what iterating over its pads answered.
#[derive(Debug)]
pub struct ElementPads {
    /// The element's name.
    pub name: String,
    /// The answers of the pad iterator.
    pub pads: Vec<IterEvent<PadSnapshot>>,
}

/// One element of a bin.
#[derive(Debug)]
pub struct ElementSnapshot {
    /// The element's name.
    pub name: String,
    /// The name of the factory that made it, if it has one.
    pub factory_name: Option<String>,
    /// What the element holds, if it is a bin itself.
    pub bin: Option<BinSnapshot>,
}

/// A bin.
#[derive(Debug)]
pub struct BinSnapshot {
    /// The bin's name.
    pub name: String,
    /// The answers of the element iterator on the first reading.
    pub elements: Vec<IterEvent<ElementSnapshot>>,
    /// The answers of the element iterator on the second reading.
    pub links: Vec<IterEvent<ElementPads>>,
}

/// Whether the iterator failed somewhere in `s`.
pub open spec fn fails<T>(s: Seq<IterEvent<T>>) -> bool {
    exists|i: int| 0 <= i < s.len() && #[trigger] s[i] is Error
}

} // verus!
