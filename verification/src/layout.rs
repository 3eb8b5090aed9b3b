//! The graph that the layout of a logged bin is computed on, and what is made of the positions
//! found.
//!
//! Verus does not look inside petgraph. `layout_nodes` and `layout_edges` name what a graph map
//! holds. petgraph keeps both in maps that remember the order of insertion, so that the order does
//! not depend on how names are hashed.

use petgraph::graphmap::DiGraphMap;
use vstd::prelude::*;

use crate::model::{BinModel, ElementModel};
use crate::snapshot::BinSnapshot;

verus! {

/// petgraph's graph keyed by node weights.
#[verifier::external_type_specification]
#[verifier::external_body]
#[verifier::reject_recursive_types(N)]
#[verifier::reject_recursive_types(E)]
#[verifier::reject_recursive_types(Ty)]
#[verifier::reject_recursive_types(S)]
pub struct ExGraphMap<N, E, Ty, S: core::hash::BuildHasher>(
    petgraph::graphmap::GraphMap<N, E, Ty, S>,
);

/// The nodes of a graph map, in the order in which they were added.
pub uninterp spec fn layout_nodes(g: DiGraphMap<&str, ()>) -> Seq<Seq<char>>;

/// The edges of a graph map, in the order in which they were added.
pub uninterp spec fn layout_edges(g: DiGraphMap<&str, ()>) -> Seq<(Seq<char>, Seq<char>)>;

/// A sequence with `x` at its end, unless it holds `x` already.
pub open spec fn with_new<T>(s: Seq<T>, x: T) -> Seq<T> {
    if s.contains(x) {
        s
    } else {
        s.push(x)
    }
}

/// A sequence without repetitions: of equal items, the first stays.
pub open spec fn distinct<T>(s: Seq<T>) -> Seq<T>
    decreases s.len(),
{
    if s.len() == 0 {
        s
    } else {
        with_new(distinct(s.drop_last()), s.last())
    }
}

/// The ends of edges, edge by edge, source first.
pub open spec fn edge_ends(edges: Seq<(Seq<char>, Seq<char>)>) -> Seq<Seq<char>>
    decreases edges.len(),
{
    if edges.len() == 0 {
        Seq::empty()
    } else {
        edge_ends(edges.drop_last()).push(edges.last().0).push(edges.last().1)
    }
}

/// `GraphMap::new`: a graph without nodes and edges.
#[verifier::external_body]
fn empty_map<'a>() -> (g: DiGraphMap<&'a str, ()>)
    ensures
        layout_nodes(g) == Seq::<Seq<char>>::empty(),
        layout_edges(g) == Seq::<(Seq<char>, Seq<char>)>::empty(),
{
    DiGraphMap::new()
}

/// `GraphMap::add_node`: a node that is not there yet comes last; no edge changes.
#[verifier::external_body]
fn map_add_node<'a>(g: &mut DiGraphMap<&'a str, ()>, node: &'a str)
    ensures
        layout_nodes(*final(g)) == with_new(layout_nodes(*old(g)), node@),
        layout_edges(*final(g)) == layout_edges(*old(g)),
{
    g.add_node(node);
}

/// `GraphMap::add_edge` with an empty weight: an edge that is there already changes nothing; a new
/// one comes last, and so do its ends, source first, where they are not there yet.
#[verifier::external_body]
fn map_add_edge<'a>(g: &mut DiGraphMap<&'a str, ()>, source: &'a str, target: &'a str)
    ensures
        layout_edges(*final(g)) == with_new(layout_edges(*old(g)), (source@, target@)),
        layout_nodes(*final(g)) == if layout_edges(*old(g)).contains((source@, target@)) {
            layout_nodes(*old(g))
        } else {
            with_new(with_new(layout_nodes(*old(g)), source@), target@)
        },
{
    g.add_edge(source, target, ());
}

/// Adding an item keeps those that were there.
proof fn lemma_with_new<T>(s: Seq<T>, x: T)
    ensures
        with_new(s, x).contains(x),
        forall|y: T| #[trigger] s.contains(y) ==> with_new(s, x).contains(y),
{
    if !s.contains(x) {
        assert(s.push(x)[s.len() as int] == x);
        assert forall|y: T| #[trigger] s.contains(y) implies with_new(s, x).contains(y) by {
            let i = choose|i: int| 0 <= i < s.len() && s[i] == y;
            assert(s.push(x)[i] == y);
        }
    }
}

/// One item more.
proof fn lemma_distinct_push<T>(s: Seq<T>, x: T)
    ensures
        distinct(s.push(x)) == with_new(distinct(s), x),
{
    assert(s.push(x).drop_last() =~= s);
}

/// What `distinct` keeps are the items of the sequence, each once.
pub proof fn law_distinct_keeps_items<T>(s: Seq<T>)
    ensures
        distinct(s).no_duplicates(),
        forall|x: T| distinct(s).contains(x) <==> s.contains(x),
    decreases s.len(),
{
    if s.len() > 0 {
        law_distinct_keeps_items(s.drop_last());
        let before = distinct(s.drop_last());
        lemma_with_new(before, s.last());
        assert forall|x: T| distinct(s).contains(x) <==> s.contains(x) by {
            if s.contains(x) {
                let i = choose|i: int| 0 <= i < s.len() && s[i] == x;
                if i < s.len() - 1 {
                    assert(s.drop_last()[i] == x);
                    assert(s.drop_last().contains(x));
                    assert(before.contains(x));
                }
            }
            if distinct(s).contains(x) && x != s.last() {
                let i = choose|i: int| 0 <= i < distinct(s).len() && distinct(s)[i] == x;
                assert(before[i] == x);
                assert(before.contains(x));
                assert(s.drop_last().contains(x));
                let k = choose|k: int| 0 <= k < s.drop_last().len() && s.drop_last()[k] == x;
                assert(s[k] == x);
            }
            if x == s.last() {
                assert(s[s.len() - 1] == x);
            }
        }
    }
}

/// The position of the first item that equals `x`.
pub open spec fn first_place<T>(s: Seq<T>, x: T, i: int) -> bool {
    &&& 0 <= i < s.len()
    &&& s[i] == x
    &&& forall|j: int| 0 <= j < i ==> (#[trigger] s[j]) != x
}

/// What `distinct` keeps stands in the order in which the items come first.
pub proof fn law_distinct_keeps_order<T>(s: Seq<T>, a: int, b: int, i: int, j: int)
    requires
        0 <= a < b < distinct(s).len(),
        first_place(s, distinct(s)[a], i),
        first_place(s, distinct(s)[b], j),
    ensures
        i < j,
    decreases s.len(),
{
    let rest = s.drop_last();
    let before = distinct(rest);
    law_distinct_keeps_items(rest);
    law_distinct_keeps_items(s);
    assert(before[a] == distinct(s)[a]);
    assert(before.contains(before[a]));
    assert(rest.contains(before[a]));
    let k = choose|k: int| 0 <= k < rest.len() && rest[k] == before[a];
    assert(s[k] == before[a]);
    assert(i <= k);
    if b < before.len() {
        assert(before[b] == distinct(s)[b]);
        assert(before.contains(before[b]));
        assert(rest.contains(before[b]));
        let m = choose|m: int| 0 <= m < rest.len() && rest[m] == before[b];
        assert(s[m] == before[b]);
        assert(j <= m);
        assert(first_place(rest, before[a], i)) by {
            assert forall|q: int| 0 <= q < i implies (#[trigger] rest[q]) != before[a] by {
                assert(s[q] == rest[q]);
            }
        }
        assert(first_place(rest, before[b], j)) by {
            assert forall|q: int| 0 <= q < j implies (#[trigger] rest[q]) != before[b] by {
                assert(s[q] == rest[q]);
            }
        }
        law_distinct_keeps_order(rest, a, b, i, j);
    } else {
        assert(distinct(s)[b] == s.last());
        assert(!before.contains(s.last()));
        if j < rest.len() {
            assert(rest[j] == s.last());
            assert(rest.contains(s.last()));
        }
    }
}

/// The ends of edges are listed edge by edge, source first.
pub proof fn law_ends_of_edges(edges: Seq<(Seq<char>, Seq<char>)>, i: int)
    requires
        0 <= i < edges.len(),
    ensures
        edge_ends(edges).len() == 2 * edges.len(),
        edge_ends(edges)[2 * i] == edges[i].0,
        edge_ends(edges)[2 * i + 1] == edges[i].1,
    decreases edges.len(),
{
    if i < edges.len() - 1 {
        law_ends_of_edges(edges.drop_last(), i);
    } else if edges.len() > 1 {
        law_ends_of_edges(edges.drop_last(), 0);
    } else {
        assert(edge_ends(edges.drop_last()).len() == 0);
    }
}

/// The graph whose layout is computed: the named nodes in order, and the edges between them. A
/// name or an edge that occurs more than once counts once; the end of an edge that is not among
/// the names becomes a node as well.
pub fn layout_graph<'a>(
    node_names: &'a Vec<String>,
    edges: &'a Vec<(String, String)>,
) -> (r: DiGraphMap<&'a str, ()>)
    ensures
        layout_nodes(r) == distinct(
            crate::text::texts(node_names@) + edge_ends(crate::text::text_pairs(edges@)),
        ),
        layout_edges(r) == distinct(crate::text::text_pairs(edges@)),
{
    let ghost names = crate::text::texts(node_names@);
    let ghost pairs = crate::text::text_pairs(edges@);
    let mut graph = empty_map();

    let mut i: usize = 0;
    while i < node_names.len()
        invariant
            i <= node_names.len(),
            names == crate::text::texts(node_names@),
            layout_nodes(graph) == distinct(names.take(i as int)),
            layout_edges(graph).len() == 0,
        decreases node_names.len() - i,
    {
        map_add_node(&mut graph, node_names[i].as_str());
        proof {
            lemma_distinct_push(names.take(i as int), names[i as int]);
            assert(names.take(i as int).push(names[i as int]) =~= names.take(i + 1));
        }
        i += 1;
    }
    assert(names.take(i as int) =~= names + edge_ends(pairs.take(0)));

    let mut k: usize = 0;
    while k < edges.len()
        invariant
            k <= edges.len(),
            pairs == crate::text::text_pairs(edges@),
            layout_nodes(graph) == distinct(names + edge_ends(pairs.take(k as int))),
            layout_edges(graph) == distinct(pairs.take(k as int)),
            forall|p: (Seq<char>, Seq<char>)| #[trigger]
                layout_edges(graph).contains(p) ==> {
                    &&& layout_nodes(graph).contains(p.0)
                    &&& layout_nodes(graph).contains(p.1)
                },
        decreases edges.len() - k,
    {
        let ghost nodes_before = layout_nodes(graph);
        let ghost edges_before = layout_edges(graph);
        let ghost pair = pairs[k as int];
        map_add_edge(&mut graph, edges[k].0.as_str(), edges[k].1.as_str());
        proof {
            assert(pair == (edges@[k as int].0@, edges@[k as int].1@));
            let ends = edge_ends(pairs.take(k as int));
            assert(pairs.take(k + 1).drop_last() =~= pairs.take(k as int));
            assert(edge_ends(pairs.take(k + 1)) == ends.push(pair.0).push(pair.1));
            assert(names + ends.push(pair.0).push(pair.1) =~= (names + ends).push(pair.0).push(
                pair.1,
            ));
            lemma_distinct_push(names + ends, pair.0);
            lemma_distinct_push((names + ends).push(pair.0), pair.1);
            lemma_with_new(nodes_before, pair.0);
            lemma_with_new(with_new(nodes_before, pair.0), pair.1);
            assert forall|p: (Seq<char>, Seq<char>)| #[trigger]
                layout_edges(graph).contains(p) implies {
                &&& layout_nodes(graph).contains(p.0)
                &&& layout_nodes(graph).contains(p.1)
            } by {
                if p != pair {
                    assert(edges_before.contains(p)) by {
                        let j = choose|j: int|
                            0 <= j < layout_edges(graph).len() && layout_edges(graph)[j] == p;
                        assert(edges_before[j] == p);
                    }
                }
            }
        }
        k += 1;
    }
    assert(pairs.take(k as int) =~= pairs);
    graph
}

/// The positions of all nodes, in order; none at all where one of them has no position.
pub fn layout_positions<P: Copy>(found: &Vec<Option<P>>) -> (r: Option<Vec<P>>)
    ensures
        r is Some <==> forall|i: int| 0 <= i < found@.len() ==> (#[trigger] found@[i]) is Some,
        r matches Some(positions) ==> {
            &&& positions@.len() == found@.len()
            &&& forall|i: int|
                0 <= i < found@.len() ==> #[trigger] found@[i] == Some(positions@[i])
        },
{
    let mut positions: Vec<P> = Vec::new();
    let mut i: usize = 0;
    while i < found.len()
        invariant
            i <= found.len(),
            positions.len() == i,
            forall|j: int| 0 <= j < i ==> #[trigger] found@[j] == Some(positions@[j]),
        decreases found.len() - i,
    {
        match found[i] {
            Some(position) => positions.push(position),
            None => {
                assert(found@[i as int] is None);
                return None;
            },
        }
        i += 1;
    }
    Some(positions)
}

/// Items that are there already change nothing.
proof fn lemma_distinct_known<T>(s: Seq<T>, t: Seq<T>)
    requires
        forall|i: int| 0 <= i < t.len() ==> s.contains(#[trigger] t[i]),
    ensures
        distinct(s + t) == distinct(s),
    decreases t.len(),
{
    if t.len() == 0 {
        assert(s + t =~= s);
    } else {
        assert forall|i: int| 0 <= i < t.drop_last().len() implies s.contains(
            #[trigger] t.drop_last()[i],
        ) by {
            assert(t.drop_last()[i] == t[i]);
        }
        lemma_distinct_known(s, t.drop_last());
        assert((s + t).drop_last() =~= s + t.drop_last());
        assert(s.contains(t[t.len() - 1]));
        law_distinct_keeps_items(s);
    }
}

proof fn lemma_edge_ends_known(edges: Seq<(Seq<char>, Seq<char>)>, names: Seq<Seq<char>>)
    requires
        forall|i: int|
            0 <= i < edges.len() ==> names.contains((#[trigger] edges[i]).0) && names.contains(
                edges[i].1,
            ),
    ensures
        forall|i: int| 0 <= i < edge_ends(edges).len() ==> names.contains(
            #[trigger] edge_ends(edges)[i],
        ),
    decreases edges.len(),
{
    if edges.len() > 0 {
        assert forall|i: int| 0 <= i < edges.drop_last().len() implies names.contains(
            (#[trigger] edges.drop_last()[i]).0,
        ) && names.contains(edges.drop_last()[i].1) by {
            assert(edges.drop_last()[i] == edges[i]);
        }
        lemma_edge_ends_known(edges.drop_last(), names);
        let last = edges[edges.len() - 1];
        let before = edge_ends(edges.drop_last());
        assert(names.contains(last.0) && names.contains(last.1));
        assert forall|i: int| 0 <= i < edge_ends(edges).len() implies names.contains(
            #[trigger] edge_ends(edges)[i],
        ) by {
            if i < before.len() {
                assert(edge_ends(edges)[i] == before[i]);
            }
        }
    }
}

/// The layout of a bin is computed on exactly the elements of the bin: its links add no nodes.
pub proof fn law_layout_has_elements_only(b: BinSnapshot)
    ensures
        ({
            let bin = BinModel::of(b);
            let names = bin.nodes.map_values(|e: ElementModel| e.name);
            distinct(names + edge_ends(bin.named_edges())) == distinct(names)
        }),
{
    let bin = BinModel::of(b);
    let names = bin.nodes.map_values(|e: ElementModel| e.name);
    let edges = bin.named_edges();
    crate::pipeline_laws::law_links_stay_within_bin(b);
    assert forall|i: int| 0 <= i < edges.len() implies names.contains((#[trigger] edges[i]).0)
        && names.contains(edges[i].1) by {
        let edge = bin.edges[i];
        assert(names[edge.0] == edges[i].0);
        assert(names[edge.1] == edges[i].1);
    }
    lemma_edge_ends_known(edges, names);
    lemma_distinct_known(names, edge_ends(edges));
}

} // verus!
