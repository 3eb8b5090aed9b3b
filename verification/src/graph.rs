//! The petgraph directed graph that holds the elements of one bin and their links.
//!
//! Verus does not look inside petgraph. `graph_nodes` and `graph_edges` name what such a graph
//! holds, and the functions below say how each petgraph method that this library calls reads or
//! changes it.

use petgraph::graph::{DiGraph, NodeIndex};
use petgraph::visit::EdgeRef;
use vstd::prelude::*;

use crate::pipeline_graph::ElementInfo;

verus! {

/// petgraph's adjacency-list graph.
#[verifier::external_type_specification]
#[verifier::external_body]
#[verifier::reject_recursive_types(N)]
#[verifier::reject_recursive_types(E)]
#[verifier::reject_recursive_types(Ty)]
#[verifier::reject_recursive_types(Ix)]
pub struct ExGraph<N, E, Ty, Ix>(petgraph::graph::Graph<N, E, Ty, Ix>);

/// petgraph's marker for graphs whose edges have a direction.
#[verifier::external_type_specification]
#[verifier::external_body]
pub struct ExDirected(petgraph::Directed);

/// The node weights of a graph, in the order of their node indices.
pub uninterp spec fn graph_nodes(g: DiGraph<ElementInfo, ()>) -> Seq<ElementInfo>;

/// The end points of the edges of a graph, as node indices (source, then target), in the order
/// of their edge indices.
pub uninterp spec fn graph_edges(g: DiGraph<ElementInfo, ()>) -> Seq<(int, int)>;

/// `Graph::default`: a graph without nodes and edges.
#[verifier::external_body]
pub(crate) fn empty_graph() -> (g: DiGraph<ElementInfo, ()>)
    ensures
        graph_nodes(g) == Seq::<ElementInfo>::empty(),
        graph_edges(g) == Seq::<(int, int)>::empty(),
{
    DiGraph::default()
}

/// `Graph::add_node`: the new node comes last, its index is the number of nodes there were, and
/// no edge changes. petgraph panics at the node that would take the largest 32-bit index.
#[verifier::external_body]
pub(crate) fn add_node(g: &mut DiGraph<ElementInfo, ()>, info: ElementInfo) -> (index: usize)
    requires
        graph_nodes(*old(g)).len() < u32::MAX,
    ensures
        index == graph_nodes(*old(g)).len(),
        graph_nodes(*final(g)) == graph_nodes(*old(g)).push(info),
        graph_edges(*final(g)) == graph_edges(*old(g)),
{
    g.add_node(info).index()
}

/// `Graph::add_edge` with an empty weight: the new edge comes last, also beside an equal one,
/// and no node changes. petgraph panics on an unknown node and at the edge that would take the
/// largest 32-bit index.
#[verifier::external_body]
pub(crate) fn add_edge(g: &mut DiGraph<ElementInfo, ()>, source: usize, target: usize)
    requires
        source < graph_nodes(*old(g)).len(),
        target < graph_nodes(*old(g)).len(),
        graph_edges(*old(g)).len() < u32::MAX,
    ensures
        graph_nodes(*final(g)) == graph_nodes(*old(g)),
        graph_edges(*final(g)) == graph_edges(*old(g)).push((source as int, target as int)),
{
    g.add_edge(NodeIndex::new(source), NodeIndex::new(target), ());
}

/// `Graph::node_count`: the number of nodes.
#[verifier::external_body]
pub(crate) fn node_count(g: &DiGraph<ElementInfo, ()>) -> (n: usize)
    ensures
        n == graph_nodes(*g).len(),
{
    g.node_count()
}

/// `Graph`'s indexing by a node index: the weight of that node. petgraph panics on an unknown
/// node.
#[verifier::external_body]
pub(crate) fn node_at(g: &DiGraph<ElementInfo, ()>, index: usize) -> (info: &ElementInfo)
    requires
        index < graph_nodes(*g).len(),
    ensures
        *info == graph_nodes(*g)[index as int],
{
    &g[NodeIndex::new(index)]
}

/// `Graph::edge_references`: the end points of all edges, in the order of their edge indices.
/// The end points of an edge are always nodes of the graph.
#[verifier::external_body]
pub(crate) fn edge_list(g: &DiGraph<ElementInfo, ()>) -> (edges: Vec<(usize, usize)>)
    ensures
        edges@.len() == graph_edges(*g).len(),
        forall|i: int|
            0 <= i < edges@.len() ==> {
                &&& (#[trigger] edges@[i]).0 == graph_edges(*g)[i].0
                &&& edges@[i].1 == graph_edges(*g)[i].1
                &&& edges@[i].0 < graph_nodes(*g).len()
                &&& edges@[i].1 < graph_nodes(*g).len()
            },
{
    g.edge_references().map(|e| (e.source().index(), e.target().index())).collect()
}

} // verus!
