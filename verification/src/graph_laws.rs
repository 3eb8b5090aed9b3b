//! What the graph of a bin has to do with what was read of the bin, said of names and pads.

use vstd::prelude::*;

use crate::model::{BinModel, ElementModel, GraphError, TreeModel};
use crate::pipeline_graph::{BinGraph, ElementInfo, PipelineTree};
use crate::snapshot::{BinSnapshot, ElementPads, ElementSnapshot, IterEvent, PadSnapshot};

verus! {

/// The elements of a graph are those that petgraph holds, with their names and factories, and its
/// links are the edges that petgraph holds, source first.
pub proof fn law_graph_shows_petgraph(g: BinGraph)
    ensures
        ({
            let nodes = crate::graph::graph_nodes(g.graph);
            &&& g@.name == g.bin_name@
            &&& g@.edges == crate::graph::graph_edges(g.graph)
            &&& g@.nodes.len() == nodes.len()
            &&& forall|i: int|
                0 <= i < nodes.len() ==> {
                    &&& (#[trigger] g@.nodes[i]).name == nodes[i].name@
                    &&& nodes[i].factory_name matches Some(f) ==> g@.nodes[i].factory_name
                        == Some(f@)
                    &&& nodes[i].factory_name is None ==> g@.nodes[i].factory_name is None
                }
        }),
{
}

/// What is said of a tree is said of its own tables.
pub proof fn law_tree_shows_tables(tree: PipelineTree, name: Seq<char>)
    ensures
        tree@.root == tree.root@,
        tree@.bins.contains_key(name) <==> tree.bins@.contains_key(name),
        tree.bins@.contains_key(name) ==> tree@.bins[name] == tree.bins@[name]@,
        tree@.hierarchy.contains_key(name) <==> tree.hierarchy@.contains_key(name),
        tree.hierarchy@.contains_key(name) ==> tree@.hierarchy[name] == tree.hierarchy@[name]@,
        tree@.children(name) == (if tree.bins@.contains_key(name) {
            tree.bins@[name]@.nodes
        } else {
            Seq::empty()
        }),
{
}

/// The elements of a graph are those that were read since the iterator last started over, in the
/// same order, each with its name and its factory.
pub proof fn law_elements_become_nodes(elements: Seq<IterEvent<ElementSnapshot>>, start: int)
    requires
        0 <= start <= elements.len(),
        start > 0 ==> elements[start - 1] is Resync,
        forall|i: int| start <= i < elements.len() ==> (#[trigger] elements[i]) is Item,
    ensures
        ({
            let nodes = BinModel::nodes_of(elements);
            &&& nodes.len() == elements.len() - start
            &&& forall|i: int|
                start <= i < elements.len() ==> {
                    let node = nodes[i - start];
                    let element = (#[trigger] elements[i])->Item_0;
                    &&& node.name == element.name@
                    &&& element.factory_name matches Some(f) ==> node.factory_name == Some(f@)
                    &&& element.factory_name is None ==> node.factory_name is None
                }
        }),
    decreases elements.len(),
{
    if start < elements.len() {
        let rest = elements.drop_last();
        assert forall|i: int| start <= i < rest.len() implies (#[trigger] rest[i]) is Item by {
            assert(rest[i] == elements[i]);
        }
        law_elements_become_nodes(rest, start);
        assert(elements[elements.len() - 1] is Item);
        assert forall|i: int| start <= i < elements.len() implies {
            let node = BinModel::nodes_of(elements)[i - start];
            let element = (#[trigger] elements[i])->Item_0;
            &&& node.name == element.name@
            &&& element.factory_name matches Some(f) ==> node.factory_name == Some(f@)
            &&& element.factory_name is None ==> node.factory_name is None
        } by {
            if i < rest.len() {
                assert(rest[i] == elements[i]);
            }
        }
    }
}

/// Whether an element goes by the name.
pub open spec fn among(nodes: Seq<ElementModel>, name: Seq<char>) -> bool {
    exists|i: int| 0 <= i < nodes.len() && (#[trigger] nodes[i]).name == name
}

/// Whether `p` is the last of the elements that go by the name.
pub open spec fn last_called(nodes: Seq<ElementModel>, name: Seq<char>, p: int) -> bool {
    &&& 0 <= p < nodes.len()
    &&& nodes[p].name == name
    &&& forall|i: int| p < i < nodes.len() ==> (#[trigger] nodes[i]).name != name
}

/// The lookup table of a graph knows exactly the names of its elements, and leads from each to the
/// last element that goes by it.
pub proof fn law_lookup_finds_last(tree: PipelineTree, bin_name: Seq<char>, name: Seq<char>)
    requires
        tree.wf(),
        tree.bins@.contains_key(bin_name),
    ensures
        tree.bins@[bin_name].bin_name@ == bin_name,
        tree.bins@[bin_name].node_indices@.contains_key(name) <==> among(
            tree.bins@[bin_name]@.nodes,
            name,
        ),
        among(tree.bins@[bin_name]@.nodes, name) ==> last_called(
            tree.bins@[bin_name]@.nodes,
            name,
            tree.bins@[bin_name].node_indices@[name] as int,
        ),
{
    let graph = tree.bins@[bin_name];
    let nodes = graph@.nodes;
    assert(graph.wf());
    ElementModel::lemma_position_found(nodes, name);
    assert(graph.node_indices@.contains_key(name) <==> ElementModel::position(nodes, name) is Some);
    if let Some(p) = ElementModel::position(nodes, name) {
        assert(nodes[p].name == name);
    }
}

/// Whether a pad is linked, sends data, and leads to the element `peer_name` in the same bin.
pub open spec fn leads_to(pad: PadSnapshot, peer_name: Seq<char>) -> bool {
    &&& pad.linked
    &&& pad.direction is Src
    &&& pad.peer is Some
    &&& pad.peer->0.in_bin
    &&& pad.peer->0.parent_element is Some
    &&& pad.peer->0.parent_element->0@ == peer_name
}

/// One pad more gives one link more exactly if it is linked, sends data, and both its element and
/// the element at the other end are in the bin. The link then goes from the element of the pad to
/// the element at the other end, and the links that were there stay.
pub proof fn law_one_pad_more(
    nodes: Seq<ElementModel>,
    name: Seq<char>,
    pads: Seq<IterEvent<PadSnapshot>>,
    pad: PadSnapshot,
    peer_name: Seq<char>,
)
    ensures
        ({
            let before = BinModel::pad_edges(nodes, name, pads);
            let after = BinModel::pad_edges(nodes, name, pads.push(IterEvent::Item(pad)));
            &&& leads_to(pad, peer_name) && among(nodes, name) && among(nodes, peer_name) ==> {
                &&& after.len() == before.len() + 1
                &&& after.drop_last() == before
                &&& last_called(nodes, name, after.last().0)
                &&& last_called(nodes, peer_name, after.last().1)
            }
            &&& !(exists|n: Seq<char>|
                #[trigger] leads_to(pad, n) && among(nodes, n)) || !among(nodes, name) ==> after
                == before
        }),
{
    let all = pads.push(IterEvent::Item(pad));
    assert(all.drop_last() =~= pads);
    let before = BinModel::pad_edges(nodes, name, pads);
    let after = BinModel::pad_edges(nodes, name, all);
    ElementModel::lemma_position_found(nodes, name);
    if pad.peer is Some && pad.peer->0.parent_element is Some {
        let other = pad.peer->0.parent_element->0@;
        ElementModel::lemma_position_found(nodes, other);
        if let Some(edge) = BinModel::pad_edge(nodes, name, pad) {
            assert(nodes[edge.0].name == name);
            assert(nodes[edge.1].name == other);
            assert(leads_to(pad, other) && among(nodes, other) && among(nodes, name));
            assert(after.drop_last() =~= before);
        }
    }
    if leads_to(pad, peer_name) && among(nodes, name) && among(nodes, peer_name) {
        let i = choose|i: int| 0 <= i < nodes.len() && (#[trigger] nodes[i]).name == name;
        let j = choose|j: int| 0 <= j < nodes.len() && (#[trigger] nodes[j]).name == peer_name;
        assert(nodes[i].name == name && nodes[j].name == peer_name);
    }
}

/// One element more gives the links of its pads after those that were there.
pub proof fn law_one_element_more(
    nodes: Seq<ElementModel>,
    links: Seq<IterEvent<ElementPads>>,
    element: ElementPads,
)
    ensures
        BinModel::edges_of(nodes, links.push(IterEvent::Item(element))) == BinModel::edges_of(
            nodes,
            links,
        ) + BinModel::pad_edges(nodes, element.name@, element.pads@),
{
    assert(links.push(IterEvent::Item(element)).drop_last() =~= links);
}

/// Nothing read gives nothing, and where an iterator starts over, what it handed out before is
/// forgotten.
pub proof fn law_starting_over_forgets(
    nodes: Seq<ElementModel>,
    name: Seq<char>,
    elements: Seq<IterEvent<ElementSnapshot>>,
    pads: Seq<IterEvent<PadSnapshot>>,
    links: Seq<IterEvent<ElementPads>>,
)
    ensures
        BinModel::nodes_of(Seq::empty()).len() == 0,
        BinModel::pad_edges(nodes, name, Seq::empty()).len() == 0,
        BinModel::edges_of(nodes, Seq::empty()).len() == 0,
        BinModel::nodes_of(elements.push(IterEvent::Resync)).len() == 0,
        BinModel::pad_edges(nodes, name, pads.push(IterEvent::Resync)).len() == 0,
        BinModel::edges_of(nodes, links.push(IterEvent::Resync)).len() == 0,
{
}

/// Each link in the graph of a bin goes from an element that has a linked source pad to the element
/// that the peer of this pad belongs to, both in this bin.
pub proof fn law_link_goes_from_source_to_peer(b: BinSnapshot, i: int)
    requires
        0 <= i < BinModel::of(b).edges.len(),
    ensures
        exists|k: int, j: int| #[trigger]
            link_of_pad(b, k, j, BinModel::of(b).nodes, BinModel::of(b).edges[i]),
{
    let nodes = BinModel::of(b).nodes;
    let edge = BinModel::of(b).edges[i];
    crate::pipeline_laws::law_link_has_source_pad(b, i);
    let (k, j) = choose|k: int, j: int| crate::pipeline_laws::source_pad_of(b, k, j, edge);
    if let IterEvent::Item(e) = b.links@[k] {
        ElementModel::lemma_position_found(nodes, e.name@);
        if let IterEvent::Item(pad) = e.pads@[j] {
            ElementModel::lemma_position_found(nodes, pad.peer->0.parent_element->0@);
            assert(link_of_pad(b, k, j, nodes, edge));
        }
    }
}

/// Whether the `j`-th pad of the `k`-th element whose pads were read is the origin of a link: the
/// first end is called like that element, the second like the element that its peer belongs to.
pub open spec fn link_of_pad(
    b: BinSnapshot,
    k: int,
    j: int,
    nodes: Seq<ElementModel>,
    edge: (int, int),
) -> bool {
    &&& 0 <= k < b.links@.len()
    &&& b.links@[k] is Item
    &&& 0 <= j < b.links@[k]->Item_0.pads@.len()
    &&& b.links@[k]->Item_0.pads@[j] is Item
    &&& leads_to(b.links@[k]->Item_0.pads@[j]->Item_0, nodes[edge.1].name)
    &&& 0 <= edge.0 < nodes.len()
    &&& nodes[edge.0].name == b.links@[k]->Item_0.name@
    &&& 0 <= edge.1 < nodes.len()
}

/// Each linked source pad between two elements of a bin has a link in its graph, from the element
/// of the pad to the element of its peer, unless it was read before an iterator started over.
pub proof fn law_pad_has_link_to_peer(b: BinSnapshot, k: int, j: int, peer_name: Seq<char>)
    requires
        0 <= k < b.links@.len(),
        forall|i: int| k <= i < b.links@.len() ==> !((#[trigger] b.links@[i]) is Resync),
        b.links@[k] is Item,
        0 <= j < b.links@[k]->Item_0.pads@.len(),
        forall|i: int|
            j <= i < b.links@[k]->Item_0.pads@.len() ==> !((
            #[trigger] b.links@[k]->Item_0.pads@[i]) is Resync),
        b.links@[k]->Item_0.pads@[j] is Item,
        leads_to(b.links@[k]->Item_0.pads@[j]->Item_0, peer_name),
        among(BinModel::of(b).nodes, b.links@[k]->Item_0.name@),
        among(BinModel::of(b).nodes, peer_name),
    ensures
        ({
            let nodes = BinModel::of(b).nodes;
            let edges = BinModel::of(b).edges;
            exists|i: int|
                0 <= i < edges.len() && nodes[(#[trigger] edges[i]).0].name
                    == b.links@[k]->Item_0.name@ && nodes[edges[i].1].name == peer_name
        }),
{
    let nodes = BinModel::of(b).nodes;
    let edges = BinModel::of(b).edges;
    let e = b.links@[k]->Item_0;
    let pad = e.pads@[j]->Item_0;
    law_one_pad_more(nodes, e.name@, Seq::empty(), pad, peer_name);
    let one = Seq::<IterEvent<PadSnapshot>>::empty().push(IterEvent::Item(pad));
    assert(one.drop_last() =~= Seq::empty());
    ElementModel::lemma_position_found(nodes, e.name@);
    ElementModel::lemma_position_found(nodes, peer_name);
    let from = choose|i: int| 0 <= i < nodes.len() && (#[trigger] nodes[i]).name == e.name@;
    let to = choose|i: int| 0 <= i < nodes.len() && (#[trigger] nodes[i]).name == peer_name;
    assert(nodes[from].name == e.name@ && nodes[to].name == peer_name);
    let edge = BinModel::pad_edge(nodes, e.name@, pad)->0;
    assert(crate::pipeline_laws::source_pad_of(b, k, j, edge));
    crate::pipeline_laws::law_source_pad_has_link(b, k, j, edge);
    let i = choose|i: int| 0 <= i < edges.len() && edges[i] == edge;
    assert(edges[i] == edge);
}

/// Where reading the links fails, exactly those are found that were read before the failure.
pub proof fn law_found_before_failure(
    nodes: Seq<ElementModel>,
    links: Seq<IterEvent<ElementPads>>,
    k: int,
    j: int,
)
    requires
        0 <= k < links.len(),
        forall|i: int| 0 <= i < k ==> !(#[trigger] reading_fails(links[i])),
        links[k] matches IterEvent::Item(e) ==> {
            &&& 0 <= j < e.pads@.len()
            &&& e.pads@[j] is Error
            &&& forall|i: int| 0 <= i < j ==> !((#[trigger] e.pads@[i]) is Error)
        },
        !(links[k] is Resync),
    ensures
        BinModel::edges_found(nodes, links) == match links[k] {
            IterEvent::Item(e) => BinModel::edges_of(nodes, links.take(k)) + BinModel::pad_edges(
                nodes,
                e.name@,
                e.pads@.take(j),
            ),
            _ => BinModel::edges_of(nodes, links.take(k)),
        },
{
    lemma_no_failure_before(links, k);
    BinModel::lemma_all_found(nodes, links.take(k));
    BinModel::lemma_found_next(nodes, links, k);
    GraphError::lemma_in_links_next(links, k);
    if let IterEvent::Item(e) = links[k] {
        BinModel::lemma_pads_found(nodes, e.name@, e.pads@, j);
    }
    BinModel::lemma_found_stop(nodes, links, k + 1);
}

/// Whether an answer reports a failure, of the iterator over the elements or over the pads of one.
pub open spec fn reading_fails(answer: IterEvent<ElementPads>) -> bool {
    match answer {
        IterEvent::Item(e) => exists|j: int|
            0 <= j < e.pads@.len() && (#[trigger] e.pads@[j]) is Error,
        IterEvent::Resync => false,
        IterEvent::Error => true,
    }
}

proof fn lemma_no_failure_before(links: Seq<IterEvent<ElementPads>>, k: int)
    requires
        0 <= k <= links.len(),
        forall|i: int| 0 <= i < k ==> !(#[trigger] reading_fails(links[i])),
    ensures
        GraphError::in_links(links.take(k)) is None,
    decreases k,
{
    if k > 0 {
        lemma_no_failure_before(links, k - 1);
        GraphError::lemma_in_links_next(links, k - 1);
        assert(!reading_fails(links[k - 1]));
    }
}

/// Reading the links succeeds if no iterator fails; else the first failure is what is reported, as
/// one of the elements or of the pads.
pub proof fn law_first_failure_in_links(links: Seq<IterEvent<ElementPads>>, k: int)
    requires
        0 <= k <= links.len(),
        forall|i: int| 0 <= i < k ==> !(#[trigger] reading_fails(links[i])),
    ensures
        k == links.len() ==> GraphError::in_links(links) is None,
        k < links.len() && links[k] is Error ==> GraphError::in_links(links) == Some(
            GraphError::ElementIterator,
        ),
        k < links.len() && links[k] is Item && reading_fails(links[k]) ==> GraphError::in_links(
            links,
        ) == Some(GraphError::PadIterator),
{
    lemma_no_failure_before(links, k);
    if k == links.len() {
        assert(links.take(k) =~= links);
    } else if reading_fails(links[k]) {
        GraphError::lemma_in_links_next(links, k);
        GraphError::lemma_in_links_stop(links, k + 1);
    }
}

impl BinSnapshot {
    /// The failure that the traversal of the elements meets first, going from the front.
    pub open spec fn failure_in(elements: Seq<IterEvent<ElementSnapshot>>) -> Option<GraphError>
        decreases elements,
    {
        if elements.len() == 0 {
            None
        } else {
            let rest = BinSnapshot::failure_in(elements.subrange(1, elements.len() as int));
            match elements[0] {
                IterEvent::Error => Some(GraphError::ElementIterator),
                IterEvent::Resync => rest,
                IterEvent::Item(e) => match e.bin {
                    Some(b) => match b.failure() {
                        Some(failure) => Some(failure),
                        None => rest,
                    },
                    None => rest,
                },
            }
        }
    }

    /// The failure that the traversal of the bin meets first: among its elements and the bins nested
    /// in it, or else among its links.
    pub open spec fn failure(self) -> Option<GraphError>
        decreases self,
    {
        match BinSnapshot::failure_in(self.elements@) {
            Some(failure) => Some(failure),
            None => GraphError::in_links(self.links@),
        }
    }
}

proof fn lemma_failure_push(
    elements: Seq<IterEvent<ElementSnapshot>>,
    last: IterEvent<ElementSnapshot>,
)
    ensures
        BinSnapshot::failure_in(elements.push(last)) == match BinSnapshot::failure_in(elements) {
            Some(failure) => Some(failure),
            None => match last {
                IterEvent::Error => Some(GraphError::ElementIterator),
                IterEvent::Resync => None,
                IterEvent::Item(e) => match e.bin {
                    Some(b) => b.failure(),
                    None => None,
                },
            },
        },
    decreases elements.len(),
{
    let all = elements.push(last);
    let rest = all.subrange(1, all.len() as int);
    if elements.len() == 0 {
        assert(rest =~= Seq::empty());
        assert(BinSnapshot::failure_in(rest) is None);
    } else {
        let shorter = elements.subrange(1, elements.len() as int);
        assert(rest =~= shorter.push(last));
        lemma_failure_push(shorter, last);
    }
}

/// A traversal fails exactly where an iterator does on the way, and reports the failure that it
/// meets first, whatever the tree holds already.
pub proof fn law_traversal_reports_first_failure(
    start: TreeModel,
    b: BinSnapshot,
    parent: Option<Seq<char>>,
)
    ensures
        start.walk(b, parent).1 == b.failure(),
    decreases b,
{
    lemma_elements_report(start.with_parent(b.name@, parent), b.name@, b.elements@);
}

proof fn lemma_elements_report(
    start: TreeModel,
    name: Seq<char>,
    elements: Seq<IterEvent<ElementSnapshot>>,
)
    ensures
        start.walk_elements(name, elements).1 == BinSnapshot::failure_in(elements),
    decreases elements,
{
    if elements.len() > 0 {
        lemma_elements_report(start, name, elements.drop_last());
        lemma_failure_push(elements.drop_last(), elements.last());
        assert(elements.drop_last().push(elements.last()) =~= elements);
        let before = start.walk_elements(name, elements.drop_last()).0;
        if let IterEvent::Item(e) = elements.last() {
            if let Some(b) = e.bin {
                law_traversal_reports_first_failure(before, b, Some(name));
            }
        }
    }
}

/// A traversal that fails adds nothing under the name of the bin itself, unless a bin nested in it
/// goes by the same name: what the tree holds under a name that no nested bin has stays as it was.
pub proof fn law_failed_traversal_adds_no_graph(
    start: TreeModel,
    b: BinSnapshot,
    parent: Option<Seq<char>>,
    name: Seq<char>,
)
    requires
        start.walk(b, parent).1 is Some,
        !all_bin_names(b.elements@).contains(name),
    ensures
        start.walk(b, parent).0.bins.contains_key(name) == start.bins.contains_key(name),
        start.bins.contains_key(name) ==> start.walk(b, parent).0.bins[name] == start.bins[name],
{
    lemma_other_bins_stay(start.with_parent(b.name@, parent), b.name@, b.elements@, name);
}

/// The names of all bins among the elements and nested in them, also of those that were read before
/// an iterator started over.
pub open spec fn all_bin_names(elements: Seq<IterEvent<ElementSnapshot>>) -> Set<Seq<char>>
    decreases elements,
{
    if elements.len() == 0 {
        Set::empty()
    } else {
        let before = all_bin_names(elements.drop_last());
        match elements.last() {
            IterEvent::Item(e) => match e.bin {
                Some(b) => before.union(all_bin_names(b.elements@).insert(b.name@)),
                None => before,
            },
            _ => before,
        }
    }
}

proof fn lemma_other_bins_stay(
    start: TreeModel,
    bin_name: Seq<char>,
    elements: Seq<IterEvent<ElementSnapshot>>,
    name: Seq<char>,
)
    requires
        !all_bin_names(elements).contains(name),
    ensures
        ({
            let tree = start.walk_elements(bin_name, elements).0;
            &&& tree.bins.contains_key(name) == start.bins.contains_key(name)
            &&& start.bins.contains_key(name) ==> tree.bins[name] == start.bins[name]
        }),
    decreases elements,
{
    if elements.len() > 0 {
        lemma_other_bins_stay(start, bin_name, elements.drop_last(), name);
        let before = start.walk_elements(bin_name, elements.drop_last()).0;
        if let IterEvent::Item(e) = elements.last() {
            if let Some(b) = e.bin {
                assert(!all_bin_names(b.elements@).contains(name) && name != b.name@);
                lemma_other_bins_stay(
                    before.with_parent(b.name@, Some(bin_name)),
                    b.name@,
                    b.elements@,
                    name,
                );
                let inner = before.with_parent(b.name@, Some(bin_name)).walk_elements(
                    b.name@,
                    b.elements@,
                ).0;
                let after = before.walk(b, Some(bin_name)).0;
                assert(after == inner || after == inner.with_bin(BinModel::of(b)));
            }
        }
    }
}

impl BinSnapshot {
    /// The number of pads that were read, those read again included.
    pub open spec fn pad_count(links: Seq<IterEvent<ElementPads>>) -> nat
        decreases links.len(),
    {
        if links.len() == 0 {
            0
        } else {
            let before = BinSnapshot::pad_count(links.drop_last());
            match links.last() {
                IterEvent::Item(e) => before + e.pads@.len(),
                _ => before,
            }
        }
    }

    /// Whether fewer elements and pads were read of each bin than 32 bits can count.
    pub open spec fn countable(self) -> bool
        decreases self,
    {
        &&& self.elements@.len() <= u32::MAX
        &&& BinSnapshot::pad_count(self.links@) <= u32::MAX
        &&& BinSnapshot::countable_in(self.elements@)
    }

    /// Whether that holds of all bins among the elements.
    pub open spec fn countable_in(elements: Seq<IterEvent<ElementSnapshot>>) -> bool
        decreases elements,
    {
        elements.len() > 0 ==> {
            &&& BinSnapshot::countable_in(elements.drop_last())
            &&& match elements.last() {
                IterEvent::Item(e) => match e.bin {
                    Some(b) => b.countable(),
                    None => true,
                },
                _ => true,
            }
        }
    }
}

/// Any pipeline whose elements and pads can be counted with 32 bits can be traversed.
pub proof fn law_countable_pipelines_fit(b: BinSnapshot)
    requires
        b.countable(),
    ensures
        b.fits(),
    decreases b,
{
    lemma_nodes_bounded(b.elements@);
    lemma_links_bounded(BinModel::of(b).nodes, b.links@);
    lemma_countable_fit(b.elements@);
}

proof fn lemma_countable_fit(elements: Seq<IterEvent<ElementSnapshot>>)
    requires
        BinSnapshot::countable_in(elements),
    ensures
        BinSnapshot::all_fit(elements),
    decreases elements,
{
    if elements.len() > 0 {
        lemma_countable_fit(elements.drop_last());
        if let IterEvent::Item(e) = elements.last() {
            if let Some(b) = e.bin {
                law_countable_pipelines_fit(b);
            }
        }
    }
}

proof fn lemma_nodes_bounded(elements: Seq<IterEvent<ElementSnapshot>>)
    ensures
        BinModel::nodes_of(elements).len() <= elements.len(),
    decreases elements.len(),
{
    if elements.len() > 0 {
        lemma_nodes_bounded(elements.drop_last());
    }
}

proof fn lemma_pads_bounded(
    nodes: Seq<ElementModel>,
    name: Seq<char>,
    pads: Seq<IterEvent<PadSnapshot>>,
)
    ensures
        BinModel::pad_edges(nodes, name, pads).len() <= pads.len(),
        BinModel::pads_found(nodes, name, pads).len() <= pads.len(),
    decreases pads.len(),
{
    if pads.len() > 0 {
        lemma_pads_bounded(nodes, name, pads.drop_last());
    }
}

proof fn lemma_links_bounded(nodes: Seq<ElementModel>, links: Seq<IterEvent<ElementPads>>)
    ensures
        BinModel::edges_found(nodes, links).len() <= BinSnapshot::pad_count(links),
    decreases links.len(),
{
    if links.len() > 0 {
        lemma_links_bounded(nodes, links.drop_last());
        if let IterEvent::Item(e) = links.last() {
            lemma_pads_bounded(nodes, e.name@, e.pads@);
        }
    }
}

/// The graph of a bin goes by the name of the bin, and the tree by that of the pipeline.
pub proof fn law_names_of_graphs(b: BinSnapshot)
    ensures
        BinModel::of(b).name == b.name@,
        BinModel::of(b).nodes == BinModel::nodes_of(b.elements@),
        BinModel::of(b).edges == BinModel::edges_of(BinModel::nodes_of(b.elements@), b.links@),
        TreeModel::of(b).0.root == b.name@,
{
    TreeModel { root: b.name@, ..TreeModel::empty() }.lemma_walk_root(b, None);
}

/// The element that stands in a graph is what was stored of it.
pub proof fn law_info_shows_element(info: ElementInfo)
    ensures
        info@.name == info.name@,
        info.factory_name matches Some(f) ==> info@.factory_name == Some(f@),
        info.factory_name is None ==> info@.factory_name is None,
{
}

} // verus!
