//! The mathematical picture of a traversed pipeline.

use vstd::prelude::*;

use crate::snapshot::{
    BinSnapshot, ElementPads, ElementSnapshot, IterEvent, PadDirection, PadSnapshot,
};

verus! {

/// Why a traversal stopped.
#[derive(Debug, Clone, Copy, PartialEq, Eq, Structural)]
pub enum GraphError {
    /// The iterator over the elements of a bin failed.
    ElementIterator,
    /// The iterator over the pads of an element failed.
    PadIterator,
}

/// An element: its name and the name of its factory.
pub ghost struct ElementModel {
    pub name: Seq<char>,
    pub factory_name: Option<Seq<char>>,
}

/// The graph of one bin: its elements, and its links as pairs of positions among them.
#[verifier::ext_equal]
pub ghost struct BinModel {
    pub name: Seq<char>,
    pub nodes: Seq<ElementModel>,
    pub edges: Seq<(int, int)>,
}

/// All bins by name, the parent of each nested bin by name, and the name of the outermost bin.
#[verifier::ext_equal]
pub ghost struct TreeModel {
    pub bins: Map<Seq<char>, BinModel>,
    pub hierarchy: Map<Seq<char>, Seq<char>>,
    pub root: Seq<char>,
}

impl ElementModel {
    /// The element that a snapshot describes.
    pub open spec fn of(e: ElementSnapshot) -> ElementModel {
        ElementModel { name: e.name@, factory_name: crate::text::opt_text(e.factory_name) }
    }

    /// The position of the last element called `name`.
    pub open spec fn position(nodes: Seq<ElementModel>, name: Seq<char>) -> Option<int>
        decreases nodes.len(),
    {
        if nodes.len() == 0 {
            None
        } else if nodes.last().name == name {
            Some(nodes.len() - 1)
        } else {
            ElementModel::position(nodes.drop_last(), name)
        }
    }
}

impl BinModel {
    /// The elements that an iterator handed out, in order. What came before it started over does
    /// not count.
    pub open spec fn nodes_of(elements: Seq<IterEvent<ElementSnapshot>>) -> Seq<ElementModel>
        decreases elements.len(),
    {
        if elements.len() == 0 {
            Seq::empty()
        } else {
            let before = BinModel::nodes_of(elements.drop_last());
            match elements.last() {
                IterEvent::Item(e) => before.push(ElementModel::of(e)),
                IterEvent::Resync => Seq::empty(),
                IterEvent::Error => before,
            }
        }
    }

    /// The link that a pad of the element `name` stands for: only a linked source pad stands for
    /// one, and only where its peer belongs to an element of the same bin and both ends are among
    /// `nodes`.
    pub open spec fn pad_edge(
        nodes: Seq<ElementModel>,
        name: Seq<char>,
        pad: PadSnapshot,
    ) -> Option<(int, int)> {
        if pad.linked && pad.direction is Src {
            match pad.peer {
                Some(peer) => match peer.parent_element {
                    Some(peer_name) => match (
                        ElementModel::position(nodes, name),
                        ElementModel::position(nodes, peer_name@),
                    ) {
                        (Some(source), Some(target)) if peer.in_bin => Some((source, target)),
                        _ => None,
                    },
                    None => None,
                },
                None => None,
            }
        } else {
            None
        }
    }

    /// The links that the pads of the element `name` stand for, in order. What came before the
    /// iterator started over does not count.
    pub open spec fn pad_edges(
        nodes: Seq<ElementModel>,
        name: Seq<char>,
        pads: Seq<IterEvent<PadSnapshot>>,
    ) -> Seq<(int, int)>
        decreases pads.len(),
    {
        if pads.len() == 0 {
            Seq::empty()
        } else {
            let before = BinModel::pad_edges(nodes, name, pads.drop_last());
            match pads.last() {
                IterEvent::Item(pad) => match BinModel::pad_edge(nodes, name, pad) {
                    Some(edge) => before.push(edge),
                    None => before,
                },
                IterEvent::Resync => Seq::empty(),
                IterEvent::Error => before,
            }
        }
    }

    /// The links among `nodes`, element by element, in order. What came before the iterator started
    /// over does not count.
    pub open spec fn edges_of(
        nodes: Seq<ElementModel>,
        links: Seq<IterEvent<ElementPads>>,
    ) -> Seq<(int, int)>
        decreases links.len(),
    {
        if links.len() == 0 {
            Seq::empty()
        } else {
            let before = BinModel::edges_of(nodes, links.drop_last());
            match links.last() {
                IterEvent::Item(e) => before + BinModel::pad_edges(nodes, e.name@, e.pads@),
                IterEvent::Resync => Seq::empty(),
                IterEvent::Error => before,
            }
        }
    }

    /// The links that the pads of the element `name` stand for, as far as they were read: up to the
    /// first failure.
    pub open spec fn pads_found(
        nodes: Seq<ElementModel>,
        name: Seq<char>,
        pads: Seq<IterEvent<PadSnapshot>>,
    ) -> Seq<(int, int)>
        decreases pads.len(),
    {
        if crate::snapshot::fails(pads) {
            BinModel::pads_found(nodes, name, pads.drop_last())
        } else {
            BinModel::pad_edges(nodes, name, pads)
        }
    }

    /// The links among `nodes`, as far as they were read: up to the first failure.
    pub open spec fn edges_found(
        nodes: Seq<ElementModel>,
        links: Seq<IterEvent<ElementPads>>,
    ) -> Seq<(int, int)>
        decreases links.len(),
    {
        if links.len() == 0 {
            Seq::empty()
        } else {
            let before = BinModel::edges_found(nodes, links.drop_last());
            if GraphError::in_links(links.drop_last()) is Some {
                before
            } else {
                match links.last() {
                    IterEvent::Item(e) => before + BinModel::pads_found(nodes, e.name@, e.pads@),
                    IterEvent::Resync => Seq::empty(),
                    IterEvent::Error => before,
                }
            }
        }
    }

    /// The graph of a bin.
    pub open spec fn of(b: BinSnapshot) -> BinModel {
        let nodes = BinModel::nodes_of(b.elements@);
        BinModel { name: b.name@, nodes, edges: BinModel::edges_of(nodes, b.links@) }
    }

    /// The links as pairs of element names.
    pub open spec fn named_edges(self) -> Seq<(Seq<char>, Seq<char>)> {
        Seq::new(
            self.edges.len(),
            |i: int| (self.nodes[self.edges[i].0].name, self.nodes[self.edges[i].1].name),
        )
    }
}

impl GraphError {
    /// The first failure while the links of a bin are read.
    pub open spec fn in_links(links: Seq<IterEvent<ElementPads>>) -> Option<GraphError>
        decreases links.len(),
    {
        if links.len() == 0 {
            None
        } else {
            match GraphError::in_links(links.drop_last()) {
                Some(e) => Some(e),
                None => match links.last() {
                    IterEvent::Item(e) => if crate::snapshot::fails(e.pads@) {
                        Some(GraphError::PadIterator)
                    } else {
                        None
                    },
                    IterEvent::Resync => None,
                    IterEvent::Error => Some(GraphError::ElementIterator),
                },
            }
        }
    }
}

impl TreeModel {
    /// The tree without bins.
    pub open spec fn empty() -> TreeModel {
        TreeModel { bins: Map::empty(), hierarchy: Map::empty(), root: Seq::empty() }
    }

    /// The tree with `parent` recorded as the parent of the bin `name`.
    pub open spec fn with_parent(self, name: Seq<char>, parent: Option<Seq<char>>) -> TreeModel {
        match parent {
            Some(p) => TreeModel { hierarchy: self.hierarchy.insert(name, p), ..self },
            None => self,
        }
    }

    /// The tree with the graph of a bin, in place of that of a bin of the same name.
    pub open spec fn with_bin(self, bin: BinModel) -> TreeModel {
        TreeModel { bins: self.bins.insert(bin.name, bin), ..self }
    }

    /// The tree after the traversal of `b`, whose parent is `parent`, and the failure that ended
    /// it early, if one did: a bin is entered below its parent, then its elements are read, the
    /// nested bins among them being traversed on the way, then its links, and then its graph is
    /// stored. Where the reading of the elements starts over, so does the tree.
    pub open spec fn walk(
        self,
        b: BinSnapshot,
        parent: Option<Seq<char>>,
    ) -> (TreeModel, Option<GraphError>)
        decreases b,
    {
        let (inner, failure) = self.with_parent(b.name@, parent).walk_elements(
            b.name@,
            b.elements@,
        );
        if failure is Some {
            (inner, failure)
        } else {
            match GraphError::in_links(b.links@) {
                Some(e) => (inner, Some(e)),
                None => (inner.with_bin(BinModel::of(b)), None),
            }
        }
    }

    /// The tree after the elements of the bin `name` have been read.
    pub open spec fn walk_elements(
        self,
        name: Seq<char>,
        elements: Seq<IterEvent<ElementSnapshot>>,
    ) -> (TreeModel, Option<GraphError>)
        decreases elements,
    {
        if elements.len() == 0 {
            (self, None)
        } else {
            let (before, failure) = self.walk_elements(name, elements.drop_last());
            if failure is Some {
                (before, failure)
            } else {
                match elements.last() {
                    IterEvent::Item(e) => match e.bin {
                        Some(b) => before.walk(b, Some(name)),
                        None => (before, None),
                    },
                    IterEvent::Resync => (self, None),
                    IterEvent::Error => (before, Some(GraphError::ElementIterator)),
                }
            }
        }
    }

    /// The tree of a pipeline, and the failure that ended its traversal early, if one did.
    pub open spec fn of(pipeline: BinSnapshot) -> (TreeModel, Option<GraphError>) {
        TreeModel { root: pipeline.name@, ..TreeModel::empty() }.walk(pipeline, None)
    }

    /// The elements of the bin `name`; none where there is no such bin.
    pub open spec fn children(self, name: Seq<char>) -> Seq<ElementModel> {
        if self.bins.contains_key(name) {
            self.bins[name].nodes
        } else {
            Seq::empty()
        }
    }
}

impl BinSnapshot {
    /// Whether the graphs of the bin and of all bins nested in it stay within the number of nodes
    /// and of edges that a graph with 32-bit indices can hold.
    pub open spec fn fits(self) -> bool
        decreases self,
    {
        &&& BinModel::of(self).nodes.len() <= u32::MAX
        &&& BinModel::edges_found(BinModel::of(self).nodes, self.links@).len() <= u32::MAX
        &&& BinSnapshot::all_fit(self.elements@)
    }

    /// Whether all bins among the elements fit.
    pub open spec fn all_fit(elements: Seq<IterEvent<ElementSnapshot>>) -> bool
        decreases elements,
    {
        elements.len() > 0 ==> {
            &&& BinSnapshot::all_fit(elements.drop_last())
            &&& match elements.last() {
                IterEvent::Item(e) => match e.bin {
                    Some(b) => b.fits(),
                    None => true,
                },
                _ => true,
            }
        }
    }
}

/// The prefix of `n + 1` answers is the prefix of `n` answers and one more.
proof fn lemma_take_next<T>(s: Seq<T>, n: int)
    requires
        0 <= n < s.len(),
    ensures
        s.take(n + 1).drop_last() == s.take(n),
        s.take(n + 1).last() == s[n],
        s.take(n + 1) == s.take(n).push(s[n]),
{
    assert(s.take(n + 1).drop_last() =~= s.take(n));
    assert(s.take(n + 1) =~= s.take(n).push(s[n]));
}

impl ElementModel {
    /// One element more can only add its own position.
    pub proof fn lemma_position_push(nodes: Seq<ElementModel>, e: ElementModel, name: Seq<char>)
        ensures
            ElementModel::position(nodes.push(e), name) == if e.name == name {
                Some(nodes.len() as int)
            } else {
                ElementModel::position(nodes, name)
            },
    {
        assert(nodes.push(e).drop_last() =~= nodes);
    }

    /// A position that was found is one of an element of that name, and no later element has it.
    pub proof fn lemma_position_found(nodes: Seq<ElementModel>, name: Seq<char>)
        ensures
            ElementModel::position(nodes, name) matches Some(p) ==> {
                &&& 0 <= p < nodes.len()
                &&& nodes[p].name == name
                &&& forall|j: int| p < j < nodes.len() ==> (#[trigger] nodes[j]).name != name
            },
            ElementModel::position(nodes, name) is None ==> forall|j: int|
                0 <= j < nodes.len() ==> (#[trigger] nodes[j]).name != name,
        decreases nodes.len(),
    {
        if nodes.len() > 0 {
            ElementModel::lemma_position_found(nodes.drop_last(), name);
            assert forall|j: int| 0 <= j < nodes.len() - 1 implies #[trigger] nodes[j]
                == nodes.drop_last()[j] by {}
        }
    }
}

impl BinModel {
    /// Reading one answer more.
    pub proof fn lemma_nodes_next(elements: Seq<IterEvent<ElementSnapshot>>, n: int)
        requires
            0 <= n < elements.len(),
        ensures
            BinModel::nodes_of(elements.take(n + 1)) == match elements[n] {
                IterEvent::Item(e) => BinModel::nodes_of(elements.take(n)).push(
                    ElementModel::of(e),
                ),
                IterEvent::Resync => Seq::empty(),
                IterEvent::Error => BinModel::nodes_of(elements.take(n)),
            },
    {
        lemma_take_next(elements, n);
    }

    /// Reading one pad more.
    pub proof fn lemma_pads_next(
        nodes: Seq<ElementModel>,
        name: Seq<char>,
        pads: Seq<IterEvent<PadSnapshot>>,
        n: int,
    )
        requires
            0 <= n < pads.len(),
        ensures
            BinModel::pad_edges(nodes, name, pads.take(n + 1)) == match pads[n] {
                IterEvent::Item(pad) => match BinModel::pad_edge(nodes, name, pad) {
                    Some(edge) => BinModel::pad_edges(nodes, name, pads.take(n)).push(edge),
                    None => BinModel::pad_edges(nodes, name, pads.take(n)),
                },
                IterEvent::Resync => Seq::empty(),
                IterEvent::Error => BinModel::pad_edges(nodes, name, pads.take(n)),
            },
    {
        lemma_take_next(pads, n);
    }

    /// What was read before the first failure is what the answers before it give.
    pub proof fn lemma_pads_found(
        nodes: Seq<ElementModel>,
        name: Seq<char>,
        pads: Seq<IterEvent<PadSnapshot>>,
        n: int,
    )
        requires
            0 <= n < pads.len(),
            pads[n] is Error,
            forall|j: int| 0 <= j < n ==> !((#[trigger] pads[j]) is Error),
        ensures
            BinModel::pads_found(nodes, name, pads) == BinModel::pad_edges(
                nodes,
                name,
                pads.take(n),
            ),
        decreases pads.len(),
    {
        assert(crate::snapshot::fails(pads));
        if pads.len() == n + 1 {
            assert(pads.drop_last() =~= pads.take(n));
            assert(!crate::snapshot::fails(pads.take(n)));
            assert(BinModel::pads_found(nodes, name, pads.take(n)) == BinModel::pad_edges(
                nodes,
                name,
                pads.take(n),
            ));
        } else {
            assert(pads.drop_last().take(n) =~= pads.take(n));
            assert forall|j: int| 0 <= j < n implies !(
            (#[trigger] pads.drop_last()[j]) is Error) by {
                assert(pads.drop_last()[j] == pads[j]);
            }
            BinModel::lemma_pads_found(nodes, name, pads.drop_last(), n);
        }
    }

    /// Reading the pads of one element more.
    pub proof fn lemma_found_next(
        nodes: Seq<ElementModel>,
        links: Seq<IterEvent<ElementPads>>,
        n: int,
    )
        requires
            0 <= n < links.len(),
            GraphError::in_links(links.take(n)) is None,
        ensures
            BinModel::edges_found(nodes, links.take(n + 1)) == match links[n] {
                IterEvent::Item(e) => BinModel::edges_found(nodes, links.take(n))
                    + BinModel::pads_found(nodes, e.name@, e.pads@),
                IterEvent::Resync => Seq::empty(),
                IterEvent::Error => BinModel::edges_found(nodes, links.take(n)),
            },
    {
        lemma_take_next(links, n);
    }

    /// The first failure ends the reading.
    pub proof fn lemma_found_stop(
        nodes: Seq<ElementModel>,
        links: Seq<IterEvent<ElementPads>>,
        n: int,
    )
        requires
            0 <= n <= links.len(),
            GraphError::in_links(links.take(n)) is Some,
        ensures
            BinModel::edges_found(nodes, links) == BinModel::edges_found(nodes, links.take(n)),
        decreases links.len() - n,
    {
        if n == links.len() {
            assert(links.take(n) =~= links);
        } else {
            lemma_take_next(links, n);
            BinModel::lemma_found_stop(nodes, links, n + 1);
        }
    }

    /// Where nothing fails, all links are found.
    pub proof fn lemma_all_found(nodes: Seq<ElementModel>, links: Seq<IterEvent<ElementPads>>)
        requires
            GraphError::in_links(links) is None,
        ensures
            BinModel::edges_found(nodes, links) == BinModel::edges_of(nodes, links),
        decreases links.len(),
    {
        if links.len() > 0 {
            BinModel::lemma_all_found(nodes, links.drop_last());
        }
    }
}

impl GraphError {
    /// Reading the pads of one element more.
    pub proof fn lemma_in_links_next(links: Seq<IterEvent<ElementPads>>, n: int)
        requires
            0 <= n < links.len(),
            GraphError::in_links(links.take(n)) is None,
        ensures
            GraphError::in_links(links.take(n + 1)) == match links[n] {
                IterEvent::Item(e) => if crate::snapshot::fails(e.pads@) {
                    Some(GraphError::PadIterator)
                } else {
                    None
                },
                IterEvent::Resync => None,
                IterEvent::Error => Some(GraphError::ElementIterator),
            },
    {
        lemma_take_next(links, n);
    }

    /// The first failure ends the reading.
    pub proof fn lemma_in_links_stop(links: Seq<IterEvent<ElementPads>>, n: int)
        requires
            0 <= n <= links.len(),
            GraphError::in_links(links.take(n)) is Some,
        ensures
            GraphError::in_links(links) == GraphError::in_links(links.take(n)),
        decreases links.len() - n,
    {
        if n == links.len() {
            assert(links.take(n) =~= links);
        } else {
            lemma_take_next(links, n);
            GraphError::lemma_in_links_stop(links, n + 1);
        }
    }
}

impl TreeModel {
    /// Reading one element more.
    pub proof fn lemma_walk_next(
        self,
        name: Seq<char>,
        elements: Seq<IterEvent<ElementSnapshot>>,
        n: int,
    )
        requires
            0 <= n < elements.len(),
        ensures
            self.walk_elements(name, elements.take(n + 1)) == ({
                let (before, failure) = self.walk_elements(name, elements.take(n));
                if failure is Some {
                    (before, failure)
                } else {
                    match elements[n] {
                        IterEvent::Item(e) => match e.bin {
                            Some(b) => before.walk(b, Some(name)),
                            None => (before, None),
                        },
                        IterEvent::Resync => (self, None),
                        IterEvent::Error => (before, Some(GraphError::ElementIterator)),
                    }
                }
            }),
    {
        lemma_take_next(elements, n);
    }

    /// A traversal leaves the name of the outermost bin alone.
    pub proof fn lemma_walk_root(self, b: BinSnapshot, parent: Option<Seq<char>>)
        ensures
            self.walk(b, parent).0.root == self.root,
        decreases b,
    {
        self.with_parent(b.name@, parent).lemma_walk_elements_root(b.name@, b.elements@);
    }

    proof fn lemma_walk_elements_root(
        self,
        name: Seq<char>,
        elements: Seq<IterEvent<ElementSnapshot>>,
    )
        ensures
            self.walk_elements(name, elements).0.root == self.root,
        decreases elements,
    {
        if elements.len() > 0 {
            self.lemma_walk_elements_root(name, elements.drop_last());
            let before = self.walk_elements(name, elements.drop_last()).0;
            if let IterEvent::Item(e) = elements.last() {
                if let Some(b) = e.bin {
                    before.lemma_walk_root(b, Some(name));
                }
            }
        }
    }

    /// The first failure ends the traversal.
    pub proof fn lemma_walk_stop(
        self,
        name: Seq<char>,
        elements: Seq<IterEvent<ElementSnapshot>>,
        n: int,
    )
        requires
            0 <= n <= elements.len(),
            self.walk_elements(name, elements.take(n)).1 is Some,
        ensures
            self.walk_elements(name, elements) == self.walk_elements(name, elements.take(n)),
        decreases elements.len() - n,
    {
        if n == elements.len() {
            assert(elements.take(n) =~= elements);
        } else {
            self.lemma_walk_next(name, elements, n);
            self.lemma_walk_stop(name, elements, n + 1);
        }
    }
}

impl BinSnapshot {
    /// Where all bins among the elements fit, each does.
    pub proof fn lemma_all_fit(elements: Seq<IterEvent<ElementSnapshot>>, n: int)
        requires
            0 <= n < elements.len(),
            BinSnapshot::all_fit(elements),
        ensures
            elements[n] matches IterEvent::Item(e) ==> (e.bin matches Some(b) ==> b.fits()),
        decreases elements.len(),
    {
        if n < elements.len() - 1 {
            BinSnapshot::lemma_all_fit(elements.drop_last(), n);
        }
    }
}

} // verus!
