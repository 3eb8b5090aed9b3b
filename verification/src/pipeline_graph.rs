//! Traversal of a pipeline: the elements of each bin and the links between them as a graph, and
//! the bins as a tree.

use petgraph::graph::DiGraph;
use vstd::hash_map::StringHashMap;
use vstd::prelude::*;

use crate::graph::{add_edge, add_node, edge_list, empty_graph, node_at, node_count};
use crate::model::{BinModel, ElementModel, GraphError, TreeModel};
use crate::snapshot::{
    BinSnapshot, ElementPads, ElementSnapshot, IterEvent, PadDirection, PadSnapshot,
};
use crate::text::copy_opt;

verus! {

/// An element as it stands in the graph of its bin.
#[derive(Debug)]
pub struct ElementInfo {
    /// Element name.
    pub name: String,
    /// Name of the element's factory, such as `fakesrc`, if there is one.
    pub factory_name: Option<String>,
}

impl Clone for ElementInfo {
    /// The same element.
    fn clone(&self) -> (r: ElementInfo)
        ensures
            r == *self,
    {
        ElementInfo { name: self.name.clone(), factory_name: copy_opt(&self.factory_name) }
    }
}

impl View for ElementInfo {
    type V = ElementModel;

    open spec fn view(&self) -> ElementModel {
        ElementModel { name: self.name@, factory_name: crate::text::opt_text(self.factory_name) }
    }
}

/// The graph of a single bin.
pub struct BinGraph {
    /// The bin's name.
    pub bin_name: String,
    /// The elements directly within the bin, and their links.
    pub graph: DiGraph<ElementInfo, ()>,
    /// For each element name the index of its node.
    pub node_indices: StringHashMap<usize>,
}

impl View for BinGraph {
    type V = BinModel;

    open spec fn view(&self) -> BinModel {
        BinModel {
            name: self.bin_name@,
            nodes: crate::graph::graph_nodes(self.graph).map_values(|e: ElementInfo| e@),
            edges: crate::graph::graph_edges(self.graph),
        }
    }
}

impl BinGraph {
    /// The lookup table agrees with the graph: it knows exactly the names of the elements, and
    /// leads from each to the last element of that name.
    pub open spec fn wf(self) -> bool {
        forall|name: Seq<char>|
            {
                let position = ElementModel::position(self@.nodes, name);
                &&& #[trigger] self.node_indices@.contains_key(name) <==> position is Some
                &&& position is Some ==> self.node_indices@[name] == position->0
            }
    }
}

impl Default for BinGraph {
    /// A graph without elements, of a bin without name.
    fn default() -> (r: BinGraph)
        ensures
            r@ == (BinModel { name: Seq::empty(), nodes: Seq::empty(), edges: Seq::empty() }),
            r.wf(),
    {
        BinGraph {
            bin_name: String::new(),
            graph: empty_graph(),
            node_indices: StringHashMap::new(),
        }
    }
}

/// All bins of a pipeline and how they are nested.
pub struct PipelineTree {
    /// The graphs of all bins, by bin name.
    pub bins: StringHashMap<BinGraph>,
    /// For each nested bin the name of the bin it is in.
    pub hierarchy: StringHashMap<String>,
    /// The name of the outermost bin, the pipeline itself.
    pub root: String,
}

impl View for PipelineTree {
    type V = TreeModel;

    open spec fn view(&self) -> TreeModel {
        TreeModel {
            bins: self.bins@.map_values(|g: BinGraph| g@),
            hierarchy: self.hierarchy@.map_values(|s: String| s@),
            root: self.root@,
        }
    }
}

impl PipelineTree {
    /// There are finitely many graphs, each stands under the name of its bin, and its lookup
    /// table agrees with it.
    pub open spec fn wf(self) -> bool {
        &&& self.bins@.dom().finite()
        &&& forall|name: Seq<char>| #[trigger]
            self.bins@.contains_key(name) ==> {
                &&& self.bins@[name].bin_name@ == name
                &&& self.bins@[name].wf()
            }
    }
}

impl Default for PipelineTree {
    /// The tree without bins.
    fn default() -> (r: PipelineTree)
        ensures
            r@ == TreeModel::empty(),
            r.wf(),
    {
        PipelineTree {
            bins: StringHashMap::new(),
            hierarchy: StringHashMap::new(),
            root: String::new(),
        }
    }
}

/// Builds the tree of a pipeline, with one graph per bin.
pub struct PipelineTreeBuilder {
    tree: PipelineTree,
}

impl View for PipelineTreeBuilder {
    type V = TreeModel;

    /// The tree as far as it has been built.
    closed spec fn view(&self) -> TreeModel {
        self.tree@
    }
}

impl PipelineTreeBuilder {
    /// What holds of every builder between two calls.
    pub closed spec fn wf(self) -> bool {
        self.tree.wf()
    }

    /// A builder that has built nothing yet.
    pub fn new() -> (r: PipelineTreeBuilder)
        ensures
            r@ == TreeModel::empty(),
            r.wf(),
    {
        PipelineTreeBuilder { tree: PipelineTree::default() }
    }

    /// Traverses the pipeline and hands out its tree; the builder is then empty again. Where an
    /// iterator fails, the builder keeps what it had gathered so far.
    pub fn build_tree(&mut self, pipeline: &BinSnapshot) -> (r: Result<PipelineTree, GraphError>)
        requires
            old(self).wf(),
            pipeline.fits(),
        ensures
            final(self).wf(),
            ({
                let start = TreeModel { root: pipeline.name@, ..old(self)@ };
                let (tree, failure) = start.walk(*pipeline, None);
                match failure {
                    None => {
                        &&& r matches Ok(built) && built@ == tree && built.wf()
                        &&& final(self)@ == TreeModel::empty()
                    },
                    Some(e) => {
                        &&& r matches Err(error) && error == e
                        &&& final(self)@ == tree
                    },
                }
            }),
    {
        self.tree.root = pipeline.name.clone();
        let outcome = self.process_bin(pipeline, None);
        match outcome {
            Ok(()) => {
                let mut tree = PipelineTree::default();
                std::mem::swap(&mut tree, &mut self.tree);
                Ok(tree)
            },
            Err(e) => Err(e),
        }
    }

    /// Adds a bin and everything nested in it to the tree.
    fn process_bin(
        &mut self,
        bin: &BinSnapshot,
        parent_bin_name: Option<String>,
    ) -> (r: Result<(), GraphError>)
        requires
            old(self).wf(),
            bin.fits(),
        ensures
            final(self).wf(),
            ({
                let (tree, failure) = old(self)@.walk(*bin, crate::text::opt_text(parent_bin_name));
                &&& final(self)@ == tree
                &&& match failure {
                    None => r is Ok,
                    Some(e) => r == Err::<(), GraphError>(e),
                }
            }),
    {
        let mut additions: Vec<Addition> = Vec::new();
        let outcome = Self::collect_bin(bin, parent_bin_name, &mut additions, Ghost(self@));
        self.tree.add_all(additions);
        outcome
    }

    /// Lists what a bin and everything nested in it add to a tree that starts out as `start`.
    fn collect_bin(
        bin: &BinSnapshot,
        parent_bin_name: Option<String>,
        additions: &mut Vec<Addition>,
        Ghost(start): Ghost<TreeModel>,
    ) -> (r: Result<(), GraphError>)
        requires
            bin.fits(),
            Addition::all_wf(old(additions)@),
        ensures
            Addition::all_wf(final(additions)@),
            old(additions)@.is_prefix_of(final(additions)@),
            ({
                let (tree, failure) = start.with_all(old(additions)@).walk(
                    *bin,
                    crate::text::opt_text(parent_bin_name),
                );
                &&& start.with_all(final(additions)@) == tree
                &&& match failure {
                    None => r is Ok,
                    Some(e) => r == Err::<(), GraphError>(e),
                }
            }),
        decreases *bin,
    {
        if let Some(parent) = parent_bin_name {
            additions.push(Addition::Parent { bin_name: bin.name.clone(), parent });
        }
        let mark = additions.len();
        let ghost base = additions@;
        let ghost entered = start.with_all(base);
        proof {
            if parent_bin_name is Some {
                assert(base.drop_last() =~= old(additions)@);
            }
        }

        let mut i: usize = 0;
        while i < bin.elements.len()
            invariant
                i <= bin.elements.len(),
                bin.fits(),
                Addition::all_wf(additions@),
                mark == base.len(),
                base.is_prefix_of(additions@),
                entered == start.with_all(base),
                entered == start.with_all(old(additions)@).with_parent(
                    bin.name@,
                    crate::text::opt_text(parent_bin_name),
                ),
                old(additions)@.is_prefix_of(base),
                entered.walk_elements(bin.name@, bin.elements@.take(i as int)) == (
                    start.with_all(additions@),
                    None::<GraphError>,
                ),
            decreases bin.elements.len() - i,
        {
            proof {
                entered.lemma_walk_next(bin.name@, bin.elements@, i as int);
                BinSnapshot::lemma_all_fit(bin.elements@, i as int);
            }
            match &bin.elements[i] {
                IterEvent::Item(element) => {
                    if let Some(child_bin) = &element.bin {
                        let outcome = Self::collect_bin(
                            child_bin,
                            Some(bin.name.clone()),
                            additions,
                            Ghost(start),
                        );
                        if let Err(e) = outcome {
                            proof {
                                entered.lemma_walk_stop(bin.name@, bin.elements@, i + 1);
                            }
                            return Err(e);
                        }
                    }
                },
                IterEvent::Resync => {
                    additions.truncate(mark);
                    assert(additions@ =~= base);
                },
                IterEvent::Error => {
                    proof {
                        entered.lemma_walk_stop(bin.name@, bin.elements@, i + 1);
                    }
                    return Err(GraphError::ElementIterator);
                },
            }
            i += 1;
        }
        assert(bin.elements@.take(i as int) =~= bin.elements@);

        let mut bin_graph = BinGraph::of_elements(&bin.name, &bin.elements);
        match Self::discover_links_in_bin(bin, &mut bin_graph) {
            Ok(()) => {},
            Err(e) => {
                return Err(e);
            },
        }

        let ghost before = additions@;
        additions.push(Addition::Graph(bin_graph));
        assert(additions@.drop_last() =~= before);
        Ok(())
    }

    /// Adds the links between the elements of a bin to its graph. Where reading them fails, those
    /// that were found before are added.
    fn discover_links_in_bin(bin: &BinSnapshot, bin_graph: &mut BinGraph) -> (r: Result<
        (),
        GraphError,
    >)
        requires
            old(bin_graph).wf(),
            old(bin_graph)@.edges.len() + BinModel::edges_found(
                old(bin_graph)@.nodes,
                bin.links@,
            ).len() <= u32::MAX,
        ensures
            final(bin_graph).wf(),
            final(bin_graph).bin_name == old(bin_graph).bin_name,
            final(bin_graph).node_indices == old(bin_graph).node_indices,
            match GraphError::in_links(bin.links@) {
                None => {
                    &&& r is Ok
                    &&& final(bin_graph)@ == (BinModel {
                        edges: old(bin_graph)@.edges + BinModel::edges_of(
                            old(bin_graph)@.nodes,
                            bin.links@,
                        ),
                        ..old(bin_graph)@
                    })
                },
                Some(e) => {
                    &&& r == Err::<(), GraphError>(e)
                    &&& final(bin_graph)@ == (BinModel {
                        edges: old(bin_graph)@.edges + BinModel::edges_found(
                            old(bin_graph)@.nodes,
                            bin.links@,
                        ),
                        ..old(bin_graph)@
                    })
                },
            },
    {
        let (found, failure) = bin_graph.links_of_bin(bin);
        let ghost edges = bin_graph@.edges;
        let ghost added = index_pairs(found@);
        let mut i: usize = 0;
        while i < found.len()
            invariant
                i <= found.len(),
                added == index_pairs(found@),
                edges == old(bin_graph)@.edges,
                edges.len() + added.len() <= u32::MAX,
                bin_graph.wf(),
                bin_graph.bin_name == old(bin_graph).bin_name,
                bin_graph.node_indices == old(bin_graph).node_indices,
                bin_graph@ == (BinModel {
                    edges: edges + added.take(i as int),
                    ..old(bin_graph)@
                }),
                forall|k: int|
                    0 <= k < found@.len() ==> {
                        &&& (#[trigger] found@[k]).0 < bin_graph@.nodes.len()
                        &&& found@[k].1 < bin_graph@.nodes.len()
                    },
            decreases found.len() - i,
        {
            let (source, target) = found[i];
            assert(found@[i as int].0 == source);
            bin_graph.add_link(source, target);
            assert(edges + added.take(i + 1) =~= (edges + added.take(i as int)).push(
                added[i as int],
            ));
            i += 1;
        }
        assert(added.take(i as int) =~= added);
        match failure {
            None => {
                proof {
                    BinModel::lemma_all_found(old(bin_graph)@.nodes, bin.links@);
                }
                Ok(())
            },
            Some(e) => Err(e),
        }
    }
}

/// Pairs of indices as pairs of integers.
pub open spec fn index_pairs(pairs: Seq<(usize, usize)>) -> Seq<(int, int)> {
    Seq::new(pairs.len(), |i: int| (pairs[i].0 as int, pairs[i].1 as int))
}

/// Something to be added to a tree.
enum Addition {
    /// The bin that a nested bin is in.
    Parent { bin_name: String, parent: String },
    /// The graph of a bin.
    Graph(BinGraph),
}

impl Addition {
    /// Whether the lookup tables of all graphs agree with them.
    spec fn all_wf(additions: Seq<Addition>) -> bool {
        forall|i: int|
            0 <= i < additions.len() ==> ((#[trigger] additions[i]) matches Addition::Graph(graph)
                ==> graph.wf())
    }
}

impl TreeModel {
    /// The tree with one thing more.
    spec fn with_one(self, addition: Addition) -> TreeModel {
        match addition {
            Addition::Parent { bin_name, parent } => self.with_parent(bin_name@, Some(parent@)),
            Addition::Graph(graph) => self.with_bin(graph@),
        }
    }

    /// The tree with several things more, one after the other.
    spec fn with_all(self, additions: Seq<Addition>) -> TreeModel
        decreases additions.len(),
    {
        if additions.len() == 0 {
            self
        } else {
            self.with_all(additions.drop_last()).with_one(additions.last())
        }
    }
}

impl PipelineTree {
    /// Adds several things, one after the other.
    fn add_all(&mut self, additions: Vec<Addition>)
        requires
            old(self).wf(),
            Addition::all_wf(additions@),
        ensures
            final(self).wf(),
            final(self)@ == old(self)@.with_all(additions@),
    {
        let ghost start = self@;
        for addition in iter: additions
            invariant
                self.wf(),
                Addition::all_wf(additions@),
                iter.seq() == additions@,
                self@ == start.with_all(additions@.take(iter.index() as int)),
        {
            let ghost i = iter.index() as int;
            let ghost before = *self;
            assert(additions@.take(i + 1).drop_last() =~= additions@.take(i));
            assert(addition == additions@[i]);
            match addition {
                Addition::Parent { bin_name, parent } => {
                    self.hierarchy.insert(bin_name, parent);
                    assert(self@ =~= before@.with_parent(bin_name@, Some(parent@))) by {
                        assert(self@.hierarchy =~= before@.hierarchy.insert(bin_name@, parent@));
                    }
                },
                Addition::Graph(graph) => {
                    self.bins.insert(graph.bin_name.clone(), graph);
                    assert(self@ =~= before@.with_bin(graph@)) by {
                        assert(self@.bins =~= before@.with_bin(graph@).bins);
                    }
                },
            }
        }
        assert(additions@.take(additions@.len() as int) =~= additions@);
    }
}

impl Default for PipelineTreeBuilder {
    /// A builder that has built nothing yet.
    fn default() -> (r: PipelineTreeBuilder)
        ensures
            r@ == TreeModel::empty(),
            r.wf(),
    {
        PipelineTreeBuilder::new()
    }
}

impl BinGraph {
    /// Adds an element.
    fn add_element(&mut self, info: ElementInfo)
        requires
            old(self).wf(),
            old(self)@.nodes.len() < u32::MAX,
        ensures
            final(self).wf(),
            final(self)@ == (BinModel { nodes: old(self)@.nodes.push(info@), ..old(self)@ }),
    {
        let name = info.name.clone();
        let index = add_node(&mut self.graph, info);
        self.node_indices.insert(name, index);
        assert(self@.nodes =~= old(self)@.nodes.push(info@));
        assert forall|n: Seq<char>|
            {
                let position = ElementModel::position(self@.nodes, n);
                &&& #[trigger] self.node_indices@.contains_key(n) <==> position is Some
                &&& position is Some ==> self.node_indices@[n] == position->0
            } by {
            ElementModel::lemma_position_push(old(self)@.nodes, info@, n);
            assert(old(self).node_indices@.contains_key(n)
                <==> ElementModel::position(old(self)@.nodes, n) is Some);
        }
    }

    /// Adds a link between two elements.
    fn add_link(&mut self, source: usize, target: usize)
        requires
            old(self).wf(),
            source < old(self)@.nodes.len(),
            target < old(self)@.nodes.len(),
            old(self)@.edges.len() < u32::MAX,
        ensures
            final(self).wf(),
            final(self)@ == (BinModel {
                edges: old(self)@.edges.push((source as int, target as int)),
                ..old(self)@
            }),
            final(self).bin_name == old(self).bin_name,
            final(self).node_indices == old(self).node_indices,
    {
        add_edge(&mut self.graph, source, target);
        assert(self@.nodes == old(self)@.nodes);
    }

    /// The link that a pad of the element called `element_name` stands for. Only source pads
    /// count, so that no link is found twice, and only those whose peer is in the same bin.
    fn link_through(&self, element_name: &String, pad: &PadSnapshot) -> (r: Option<(usize, usize)>)
        requires
            self.wf(),
        ensures
            match BinModel::pad_edge(self@.nodes, element_name@, *pad) {
                Some(edge) => r matches Some(found) && found.0 == edge.0 && found.1 == edge.1
                    && found.0 < self@.nodes.len() && found.1 < self@.nodes.len(),
                None => r is None,
            },
    {
        if pad.linked && pad.direction == PadDirection::Src {
            if let Some(peer) = &pad.peer {
                if !peer.in_bin {
                    return None;
                }
                if let Some(peer_name) = &peer.parent_element {
                    proof {
                        ElementModel::lemma_position_found(self@.nodes, element_name@);
                        ElementModel::lemma_position_found(self@.nodes, peer_name@);
                    }
                    if let Some(source) = self.node_indices.get(element_name) {
                        if let Some(target) = self.node_indices.get(peer_name) {
                            return Some((*source, *target));
                        }
                    }
                }
            }
        }
        None
    }

    /// The graph of the elements that were read of a bin, without links.
    fn of_elements(bin_name: &String, elements: &Vec<IterEvent<ElementSnapshot>>) -> (r: BinGraph)
        requires
            BinModel::nodes_of(elements@).len() <= u32::MAX,
        ensures
            r.wf(),
            r@ == (BinModel {
                name: bin_name@,
                nodes: BinModel::nodes_of(elements@),
                edges: Seq::empty(),
            }),
    {
        let infos = element_infos(elements);
        let ghost nodes = BinModel::nodes_of(elements@);
        let mut bin_graph = BinGraph::default();
        bin_graph.bin_name = bin_name.clone();
        let mut i: usize = 0;
        while i < infos.len()
            invariant
                i <= infos.len(),
                infos@.len() == nodes.len(),
                nodes.len() <= u32::MAX,
                forall|k: int| 0 <= k < nodes.len() ==> (#[trigger] infos@[k])@ == nodes[k],
                bin_graph.wf(),
                bin_graph@ == (BinModel {
                    name: bin_name@,
                    nodes: nodes.take(i as int),
                    edges: Seq::empty(),
                }),
            decreases infos.len() - i,
        {
            bin_graph.add_element(infos[i].clone());
            assert(nodes.take(i + 1) =~= nodes.take(i as int).push(nodes[i as int]));
            i += 1;
        }
        assert(nodes.take(i as int) =~= nodes);
        bin_graph
    }

    /// The links between the elements of a bin, and the failure that ended the reading early, if
    /// one did.
    fn links_of_bin(&self, bin: &BinSnapshot) -> (r: (Vec<(usize, usize)>, Option<GraphError>))
        requires
            self.wf(),
        ensures
            index_pairs(r.0@) == BinModel::edges_found(self@.nodes, bin.links@),
            self.knows(r.0@),
            r.1 == GraphError::in_links(bin.links@),
    {
        let ghost nodes = self@.nodes;
        let mut found: Vec<(usize, usize)> = Vec::new();
        let mut i: usize = 0;
        while i < bin.links.len()
            invariant
                i <= bin.links.len(),
                self.wf(),
                nodes == self@.nodes,
                index_pairs(found@) == BinModel::edges_found(nodes, bin.links@.take(i as int)),
                self.knows(found@),
                GraphError::in_links(bin.links@.take(i as int)) is None,
            decreases bin.links.len() - i,
        {
            proof {
                BinModel::lemma_found_next(nodes, bin.links@, i as int);
                GraphError::lemma_in_links_next(bin.links@, i as int);
            }
            match &bin.links[i] {
                IterEvent::Item(element) => {
                    let (mut own, complete) = self.links_of_element(element);
                    let ghost before = found@;
                    let ghost more = own@;
                    found.append(&mut own);
                    assert(index_pairs(before + more) =~= index_pairs(before) + index_pairs(more));
                    if !complete {
                        proof {
                            GraphError::lemma_in_links_stop(bin.links@, i + 1);
                            BinModel::lemma_found_stop(nodes, bin.links@, i + 1);
                        }
                        return (found, Some(GraphError::PadIterator));
                    }
                },
                IterEvent::Resync => {
                    found.clear();
                    assert(index_pairs(found@) =~= Seq::empty());
                },
                IterEvent::Error => {
                    proof {
                        GraphError::lemma_in_links_stop(bin.links@, i + 1);
                        BinModel::lemma_found_stop(nodes, bin.links@, i + 1);
                    }
                    return (found, Some(GraphError::ElementIterator));
                },
            }
            i += 1;
        }
        assert(bin.links@.take(i as int) =~= bin.links@);
        (found, None)
    }

    /// The links that leave one element, and whether all its pads could be read.
    fn links_of_element(&self, element: &ElementPads) -> (r: (Vec<(usize, usize)>, bool))
        requires
            self.wf(),
        ensures
            index_pairs(r.0@) == BinModel::pads_found(self@.nodes, element.name@, element.pads@),
            self.knows(r.0@),
            r.1 == !crate::snapshot::fails(element.pads@),
    {
        let ghost nodes = self@.nodes;
        let mut found: Vec<(usize, usize)> = Vec::new();
        let mut i: usize = 0;
        while i < element.pads.len()
            invariant
                i <= element.pads.len(),
                self.wf(),
                nodes == self@.nodes,
                index_pairs(found@) == BinModel::pad_edges(
                    nodes,
                    element.name@,
                    element.pads@.take(i as int),
                ),
                self.knows(found@),
                forall|j: int| 0 <= j < i ==> !((#[trigger] element.pads@[j]) is Error),
            decreases element.pads.len() - i,
        {
            proof {
                BinModel::lemma_pads_next(nodes, element.name@, element.pads@, i as int);
            }
            match &element.pads[i] {
                IterEvent::Item(pad) => {
                    if let Some(link) = self.link_through(&element.name, pad) {
                        let ghost before = found@;
                        found.push(link);
                        assert(index_pairs(found@) =~= index_pairs(before).push(
                            (link.0 as int, link.1 as int),
                        ));
                    }
                },
                IterEvent::Resync => {
                    found.clear();
                    assert(index_pairs(found@) =~= Seq::empty());
                },
                IterEvent::Error => {
                    proof {
                        BinModel::lemma_pads_found(nodes, element.name@, element.pads@, i as int);
                    }
                    return (found, false);
                },
            }
            i += 1;
        }
        assert(element.pads@.take(i as int) =~= element.pads@);
        (found, true)
    }

    /// Whether all indices are those of elements.
    pub open spec fn knows(self, found: Seq<(usize, usize)>) -> bool {
        forall|i: int|
            0 <= i < found.len() ==> {
                &&& (#[trigger] found[i]).0 < self@.nodes.len()
                &&& found[i].1 < self@.nodes.len()
            }
    }

    /// The links as pairs of element names, source first.
    pub fn get_edges(&self) -> (r: Vec<(String, String)>)
        ensures
            r@.len() == self@.named_edges().len(),
            forall|i: int|
                0 <= i < r@.len() ==> ((#[trigger] r@[i]).0@, r@[i].1@) == self@.named_edges()[i],
            r@.len() == crate::graph::graph_edges(self.graph).len(),
            forall|i: int|
                0 <= i < r@.len() ==> {
                    let edge = crate::graph::graph_edges(self.graph)[i];
                    &&& (#[trigger] r@[i]).0@ == crate::graph::graph_nodes(
                        self.graph,
                    )[edge.0].name@
                    &&& r@[i].1@ == crate::graph::graph_nodes(self.graph)[edge.1].name@
                },
    {
        let edges = edge_list(&self.graph);
        let mut named: Vec<(String, String)> = Vec::new();
        let mut i: usize = 0;
        while i < edges.len()
            invariant
                i <= edges.len(),
                named.len() == i,
                edges@.len() == self@.edges.len(),
                forall|j: int|
                    0 <= j < edges@.len() ==> {
                        &&& (#[trigger] edges@[j]).0 == self@.edges[j].0
                        &&& edges@[j].1 == self@.edges[j].1
                        &&& edges@[j].0 < self@.nodes.len()
                        &&& edges@[j].1 < self@.nodes.len()
                    },
                forall|j: int|
                    0 <= j < i ==> (
                    (#[trigger] named@[j]).0@,
                    named@[j].1@,
                    ) == self@.named_edges()[j],
                forall|j: int|
                    0 <= j < i ==> {
                        let edge = crate::graph::graph_edges(self.graph)[j];
                        &&& (#[trigger] named@[j]).0@ == crate::graph::graph_nodes(
                            self.graph,
                        )[edge.0].name@
                        &&& named@[j].1@ == crate::graph::graph_nodes(self.graph)[edge.1].name@
                    },
            decreases edges.len() - i,
        {
            let (source, target) = edges[i];
            assert(edges@[i as int].0 == source);
            let source_name = node_at(&self.graph, source).name.clone();
            let target_name = node_at(&self.graph, target).name.clone();
            named.push((source_name, target_name));
            i += 1;
        }
        named
    }
}

impl PipelineTree {
    /// The graph of the bin called `bin_name`.
    pub fn get_bin(&self, bin_name: &str) -> (r: Option<&BinGraph>)
        ensures
            match r {
                Some(g) => self.bins@.contains_key(bin_name@) && *g == self.bins@[bin_name@],
                None => !self.bins@.contains_key(bin_name@),
            },
    {
        self.bins.get(bin_name)
    }

    /// The name of the bin that the bin called `bin_name` is in.
    pub fn get_parent_bin(&self, bin_name: &str) -> (r: Option<&str>)
        ensures
            match r {
                Some(parent) => self@.hierarchy.contains_key(bin_name@) && parent@
                    == self@.hierarchy[bin_name@],
                None => !self@.hierarchy.contains_key(bin_name@),
            },
            match r {
                Some(parent) => self.hierarchy@.contains_key(bin_name@) && parent@
                    == self.hierarchy@[bin_name@]@,
                None => !self.hierarchy@.contains_key(bin_name@),
            },
    {
        match self.hierarchy.get(bin_name) {
            Some(parent) => Some(parent.as_str()),
            None => None,
        }
    }

    /// The elements directly within the bin called `parent`; none where there is no such bin.
    pub fn get_children(&self, parent: &str) -> (r: Vec<&ElementInfo>)
        ensures
            r@.len() == self@.children(parent@).len(),
            forall|i: int|
                0 <= i < r@.len() ==> (#[trigger] r@[i])@ == self@.children(parent@)[i],
            !self.bins@.contains_key(parent@) ==> r@.len() == 0,
            self.bins@.contains_key(parent@) ==> {
                let nodes = crate::graph::graph_nodes(self.bins@[parent@].graph);
                &&& r@.len() == nodes.len()
                &&& forall|i: int| 0 <= i < r@.len() ==> *(#[trigger] r@[i]) == nodes[i]
            },
    {
        let mut children: Vec<&ElementInfo> = Vec::new();
        if let Some(bin) = self.bins.get(parent) {
            let count = node_count(&bin.graph);
            let mut i: usize = 0;
            while i < count
                invariant
                    i <= count,
                    count == bin@.nodes.len(),
                    children.len() == i,
                    count == crate::graph::graph_nodes(bin.graph).len(),
                    forall|j: int| 0 <= j < i ==> (#[trigger] children@[j])@ == bin@.nodes[j],
                    forall|j: int|
                        0 <= j < i ==> *(#[trigger] children@[j]) == crate::graph::graph_nodes(
                            bin.graph,
                        )[j],
                decreases count - i,
            {
                children.push(node_at(&bin.graph, i));
                i += 1;
            }
        }
        children
    }

    /// The elements directly within the outermost bin.
    pub fn get_root_nodes(&self) -> (r: Vec<&ElementInfo>)
        ensures
            r@.len() == self@.children(self@.root).len(),
            forall|i: int|
                0 <= i < r@.len() ==> (#[trigger] r@[i])@ == self@.children(self@.root)[i],
    {
        self.get_children(self.root.as_str())
    }
}

/// Analyses a pipeline and returns its tree.
pub fn analyze_pipeline(pipeline: &BinSnapshot) -> (r: Result<PipelineTree, GraphError>)
    requires
        pipeline.fits(),
    ensures
        match TreeModel::of(*pipeline) {
            (tree, None) => r matches Ok(built) && built@ == tree && built.wf(),
            (_, Some(e)) => r matches Err(error) && error == e,
        },
{
    let mut builder = PipelineTreeBuilder::new();
    builder.build_tree(pipeline)
}

impl GraphError {
    /// The error as text.
    pub fn message(&self) -> (r: String)
        ensures
            r@ == (match *self {
                GraphError::ElementIterator => "Element iterator error"@,
                GraphError::PadIterator => "Pad iterator error"@,
            }),
    {
        match self {
            GraphError::ElementIterator => "Element iterator error".to_owned(),
            GraphError::PadIterator => "Pad iterator error".to_owned(),
        }
    }
}

impl BinSnapshot {
    /// Whether the graphs of the bin and of all bins nested in it stay within what a graph with
    /// 32-bit indices can hold.
    pub fn fits_in_graph(&self) -> (r: bool)
        ensures
            r == self.fits(),
        decreases *self,
    {
        let limit: usize = 0xffff_ffff;
        let mut i: usize = 0;
        while i < self.elements.len()
            invariant
                i <= self.elements.len(),
                BinSnapshot::all_fit(self.elements@.take(i as int)),
            decreases self.elements.len() - i,
        {
            proof {
                BinSnapshot::lemma_all_fit_next(self.elements@, i as int);
            }
            if let IterEvent::Item(element) = &self.elements[i] {
                if let Some(child_bin) = &element.bin {
                    if !child_bin.fits_in_graph() {
                        proof {
                            if self.fits() {
                                BinSnapshot::lemma_all_fit(self.elements@, i as int);
                            }
                        }
                        return false;
                    }
                }
            }
            i += 1;
        }
        assert(self.elements@.take(i as int) =~= self.elements@);
        if element_infos(&self.elements).len() > limit {
            return false;
        }
        let (found, _) = BinGraph::of_elements(&self.name, &self.elements).links_of_bin(self);
        assert(index_pairs(found@).len() == found@.len());
        found.len() <= limit
    }

    /// Reading one element more.
    proof fn lemma_all_fit_next(elements: Seq<IterEvent<ElementSnapshot>>, n: int)
        requires
            0 <= n < elements.len(),
        ensures
            BinSnapshot::all_fit(elements.take(n + 1)) == {
                &&& BinSnapshot::all_fit(elements.take(n))
                &&& match elements[n] {
                    IterEvent::Item(e) => match e.bin {
                        Some(b) => b.fits(),
                        None => true,
                    },
                    _ => true,
                }
            },
    {
        assert(elements.take(n + 1).drop_last() =~= elements.take(n));
    }
}

/// The elements that were read of a bin, in order.
fn element_infos(elements: &Vec<IterEvent<ElementSnapshot>>) -> (r: Vec<ElementInfo>)
    ensures
        r@.len() == BinModel::nodes_of(elements@).len(),
        forall|i: int|
            0 <= i < r@.len() ==> (#[trigger] r@[i])@ == BinModel::nodes_of(elements@)[i],
{
    let mut infos: Vec<ElementInfo> = Vec::new();
    let mut i: usize = 0;
    while i < elements.len()
        invariant
            i <= elements.len(),
            infos@.len() == BinModel::nodes_of(elements@.take(i as int)).len(),
            forall|k: int|
                0 <= k < infos@.len() ==> (#[trigger] infos@[k])@ == BinModel::nodes_of(
                    elements@.take(i as int),
                )[k],
        decreases elements.len() - i,
    {
        proof {
            BinModel::lemma_nodes_next(elements@, i as int);
        }
        match &elements[i] {
            IterEvent::Item(element) => infos.push(
                ElementInfo {
                    name: element.name.clone(),
                    factory_name: copy_opt(&element.factory_name),
                },
            ),
            IterEvent::Resync => infos.clear(),
            IterEvent::Error => {},
        }
        i += 1;
    }
    assert(elements@.take(i as int) =~= elements@);
    infos
}

} // verus!
