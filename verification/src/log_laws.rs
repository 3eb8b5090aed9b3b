//! What is logged of a pipeline, said of names, lines and paths.

use vstd::prelude::*;

use crate::graph_log::{GraphLog, GraphLogModel};
use crate::model::{BinModel, ElementModel, TreeModel};

verus! {

/// The label of an element starts with its name. Where its factory is known, a line break and the
/// factory in round brackets follow, and nothing else does.
pub proof fn law_label(element: ElementModel)
    ensures
        ({
            let label = element.label();
            &&& element.name.len() <= label.len()
            &&& label.take(element.name.len() as int) == element.name
            &&& element.factory_name is None ==> label.len() == element.name.len()
            &&& element.factory_name matches Some(factory) ==> {
                let rest = label.skip(element.name.len() as int);
                &&& label.len() == element.name.len() + factory.len() + 3
                &&& rest[0] == '\n'
                &&& rest[1] == '('
                &&& rest.subrange(2, 2 + factory.len() as int) == factory
                &&& rest[2 + factory.len() as int] == ')'
            }
        }),
{
    reveal_strlit("\n(");
    reveal_strlit(")");
    let label = element.label();
    assert(label.take(element.name.len() as int) =~= element.name);
    if let Some(factory) = element.factory_name {
        let rest = label.skip(element.name.len() as int);
        assert(rest =~= "\n("@ + factory + ")"@);
        assert(rest.subrange(2, 2 + factory.len() as int) =~= factory);
    }
}

/// The path of a graph is the prefix, a slash and the name of the pipeline; that of a nested bin
/// goes on with a slash and the name of the bin.
pub proof fn law_path(prefix: Seq<char>, pipeline: Seq<char>, bin: Seq<char>)
    ensures
        ({
            let outer = GraphLogModel::path(prefix, pipeline, None);
            let inner = GraphLogModel::path(prefix, pipeline, Some(bin));
            &&& outer.len() == prefix.len() + 1 + pipeline.len()
            &&& outer.take(prefix.len() as int) == prefix
            &&& outer[prefix.len() as int] == '/'
            &&& outer.skip(prefix.len() as int + 1) == pipeline
            &&& inner.len() == outer.len() + 1 + bin.len()
            &&& inner.take(outer.len() as int) == outer
            &&& inner[outer.len() as int] == '/'
            &&& inner.skip(outer.len() as int + 1) == bin
        }),
{
    reveal_strlit("/");
    let outer = GraphLogModel::path(prefix, pipeline, None);
    let inner = GraphLogModel::path(prefix, pipeline, Some(bin));
    assert(outer.take(prefix.len() as int) =~= prefix);
    assert(outer.skip(prefix.len() as int + 1) =~= pipeline);
    assert(inner.take(outer.len() as int) =~= outer);
    assert(inner.skip(outer.len() as int + 1) =~= bin);
}

/// Two bins of a pipeline are logged under the same path only if they have the same name.
pub proof fn law_paths_differ(
    prefix: Seq<char>,
    pipeline: Seq<char>,
    a: Option<Seq<char>>,
    b: Option<Seq<char>>,
)
    ensures
        GraphLogModel::path(prefix, pipeline, a) == GraphLogModel::path(prefix, pipeline, b)
            ==> a == b,
{
    law_path(prefix, pipeline, Seq::empty());
    if let Some(x) = a {
        law_path(prefix, pipeline, x);
    }
    if let Some(y) = b {
        law_path(prefix, pipeline, y);
    }
}

/// What is said of a logged graph is said of its own texts.
pub proof fn law_log_shows_texts(log: GraphLog)
    ensures
        log@.entity_path == log.entity_path@,
        log@.node_names.len() == log.node_names@.len(),
        log@.labels.len() == log.labels@.len(),
        log@.edges.len() == log.edges@.len(),
        forall|i: int|
            0 <= i < log.node_names@.len() ==> (#[trigger] log@.node_names[i])
                == log.node_names@[i]@,
        forall|i: int|
            0 <= i < log.labels@.len() ==> (#[trigger] log@.labels[i]) == log.labels@[i]@,
        forall|i: int|
            0 <= i < log.edges@.len() ==> (#[trigger] log@.edges[i]) == (
                log.edges@[i].0@,
                log.edges@[i].1@,
            ),
{
}

/// What is said of several logged graphs is said of each of them, in order.
pub proof fn law_logs_one_by_one(logs: Seq<GraphLog>)
    ensures
        crate::graph_log::log_models(logs).len() == logs.len(),
        forall|i: int|
            0 <= i < logs.len() ==> (#[trigger] crate::graph_log::log_models(logs)[i]) == logs[i]@,
        forall|s: &str| #[trigger] crate::graph_log::opt_name(Some(s)) == Some(s@),
        crate::graph_log::opt_name(None) is None,
{
}

/// The ends of a link are the names of the elements at its two positions, source first.
pub proof fn law_links_by_name(bin: BinModel, i: int)
    requires
        0 <= i < bin.edges.len(),
    ensures
        bin.named_edges().len() == bin.edges.len(),
        bin.named_edges()[i].0 == bin.nodes[bin.edges[i].0].name,
        bin.named_edges()[i].1 == bin.nodes[bin.edges[i].1].name,
{
}

/// What is logged of a bin names all its elements, in order, labels each of them, and has all its
/// links between the names of their ends.
pub proof fn law_log_of_bin(path: Seq<char>, bin: BinModel)
    ensures
        ({
            let log = GraphLogModel::of(path, bin.nodes, bin.named_edges());
            &&& log.entity_path == path
            &&& log.node_names.len() == bin.nodes.len()
            &&& log.labels.len() == bin.nodes.len()
            &&& log.edges.len() == bin.edges.len()
            &&& forall|i: int|
                0 <= i < bin.nodes.len() ==> (#[trigger] log.node_names[i]) == bin.nodes[i].name
            &&& forall|i: int|
                0 <= i < bin.nodes.len() ==> (#[trigger] log.labels[i]) == (
                match bin.nodes[i].factory_name {
                    Some(factory) => bin.nodes[i].name + "\n("@ + factory + ")"@,
                    None => bin.nodes[i].name,
                })
            &&& forall|i: int|
                0 <= i < bin.edges.len() ==> (#[trigger] log.edges[i]) == (
                    bin.nodes[bin.edges[i].0].name,
                    bin.nodes[bin.edges[i].1].name,
                )
        }),
{
}

/// The first graph that is logged for a bin with elements is its own, under its path; those of the
/// bins called after its elements follow. For a bin without elements nothing is logged. The bin that
/// is shown where none is named is the outermost one.
pub proof fn law_own_graph_first(
    tree: TreeModel,
    prefix: Seq<char>,
    pipeline: Seq<char>,
    parent: Option<Seq<char>>,
    n: nat,
)
    requires
        tree.nested(tree.shown(parent), n),
    ensures
        ({
            let name = match parent {
                Some(name) => name,
                None => tree.root,
            };
            let logs = tree.logs(prefix, pipeline, parent, n);
            if tree.bins.contains_key(name) && tree.bins[name].nodes.len() > 0 {
                let bin = tree.bins[name];
                &&& logs.len() >= 1
                &&& logs[0].entity_path == (match parent {
                    Some(name) => prefix + "/"@ + pipeline + "/"@ + name,
                    None => prefix + "/"@ + pipeline,
                })
                &&& logs[0].node_names.len() == bin.nodes.len()
                &&& logs[0].labels.len() == bin.nodes.len()
                &&& logs[0].edges.len() == bin.edges.len()
                &&& forall|i: int|
                    0 <= i < bin.nodes.len() ==> (#[trigger] logs[0].node_names[i])
                        == bin.nodes[i].name
                &&& forall|i: int|
                    0 <= i < bin.nodes.len() ==> (#[trigger] logs[0].labels[i]) == (
                    match bin.nodes[i].factory_name {
                        Some(factory) => bin.nodes[i].name + "\n("@ + factory + ")"@,
                        None => bin.nodes[i].name,
                    })
                &&& forall|i: int|
                    0 <= i < bin.edges.len() ==> (#[trigger] logs[0].edges[i]) == (
                        bin.nodes[bin.edges[i].0].name,
                        bin.nodes[bin.edges[i].1].name,
                    )
                &&& n > 0
                &&& logs.skip(1) == tree.logs_below(prefix, pipeline, bin.nodes, (n - 1) as nat)
            } else {
                logs.len() == 0
            }
        }),
{
    let name = tree.shown(parent);
    let logs = tree.logs(prefix, pipeline, parent, n);
    if tree.children(name).len() > 0 {
        assert(logs.skip(1) =~= tree.logs_below(
            prefix,
            pipeline,
            tree.children(name),
            (n - 1) as nat,
        ));
    }
}

/// The graphs of the bins called after several elements come one after the other, in the order of
/// the elements.
pub proof fn law_logs_in_order(
    tree: TreeModel,
    prefix: Seq<char>,
    pipeline: Seq<char>,
    nodes: Seq<ElementModel>,
    element: ElementModel,
    n: nat,
)
    ensures
        tree.logs_below(prefix, pipeline, Seq::empty(), n).len() == 0,
        tree.logs_below(prefix, pipeline, nodes.push(element), n) == tree.logs_below(
            prefix,
            pipeline,
            nodes,
            n,
        ) + tree.logs(prefix, pipeline, Some(element.name), n),
{
    assert(nodes.push(element).drop_last() =~= nodes);
}

/// Whether each bin of a chain holds an element that is called like the next, and the last holds any.
pub open spec fn chain(tree: TreeModel, names: Seq<Seq<char>>) -> bool {
    &&& forall|i: int|
        0 <= i < names.len() ==> tree.bins.contains_key(#[trigger] names[i])
            && tree.bins[names[i]].nodes.len() > 0
    &&& forall|i: int|
        0 <= i < names.len() - 1 ==> holds(tree, #[trigger] names[i], names[i + 1])
}

/// Whether a bin holds an element of the given name.
pub open spec fn holds(tree: TreeModel, bin: Seq<char>, name: Seq<char>) -> bool {
    exists|j: int|
        0 <= j < tree.bins[bin].nodes.len() && (#[trigger] tree.bins[bin].nodes[j]).name == name
}

/// Bins are nested at most `n` deep exactly if no chain of more than `n` bins starts at the bin.
pub proof fn law_nested_without_long_chains(tree: TreeModel, bin: Seq<char>, n: nat)
    ensures
        tree.nested(bin, n) <==> !(exists|names: Seq<Seq<char>>| #[trigger]
            chain(tree, names) && names.len() == n + 1 && names[0] == bin),
        tree.nested(bin, n) ==> tree.loggable(bin),
    decreases n,
{
    if tree.nested(bin, n) {
        assert forall|names: Seq<Seq<char>>| #[trigger]
            chain(tree, names) && names.len() == n + 1 implies names[0] != bin by {
            lemma_nested_stops_chain(tree, bin, n, names);
        }
    } else {
        let names = lemma_long_chain(tree, bin, n);
        assert(chain(tree, names));
    }
}

proof fn lemma_nested_stops_chain(
    tree: TreeModel,
    bin: Seq<char>,
    n: nat,
    names: Seq<Seq<char>>,
)
    requires
        tree.nested(bin, n),
        chain(tree, names),
        names.len() == n + 1,
    ensures
        names[0] != bin,
    decreases n,
{
    let children = tree.children(bin);
    if names[0] == bin {
        assert(children == tree.bins[names[0]].nodes);
        assert(children.len() > 0);
    }
    if names[0] == bin && n > 0 {
        let rest = names.skip(1);
        assert(holds(tree, names[0], names[1]));
        let j = choose|j: int| 0 <= j < children.len() && (#[trigger] children[j]).name == names[1];
        assert(tree.nested(children[j].name, (n - 1) as nat));
        assert forall|i: int| 0 <= i < rest.len() implies tree.bins.contains_key(
            #[trigger] rest[i],
        ) && tree.bins[rest[i]].nodes.len() > 0 by {
            assert(rest[i] == names[i + 1]);
        }
        assert forall|i: int| 0 <= i < rest.len() - 1 implies holds(
            tree,
            #[trigger] rest[i],
            rest[i + 1],
        ) by {
            assert(rest[i] == names[i + 1]);
            assert(rest[i + 1] == names[i + 1 + 1]);
        }
        lemma_nested_stops_chain(tree, names[1], (n - 1) as nat, rest);
    }
}

proof fn lemma_long_chain(tree: TreeModel, bin: Seq<char>, n: nat) -> (names: Seq<Seq<char>>)
    requires
        !tree.nested(bin, n),
    ensures
        chain(tree, names),
        names.len() == n + 1,
        names[0] == bin,
    decreases n,
{
    let children = tree.children(bin);
    assert(children.len() > 0);
    if n == 0 {
        seq![bin]
    } else {
        let j = choose|j: int|
            0 <= j < children.len() && !tree.nested((#[trigger] children[j]).name, (n - 1) as nat);
        let rest = lemma_long_chain(tree, children[j].name, (n - 1) as nat);
        let names = seq![bin] + rest;
        assert(holds(tree, bin, rest[0])) by {
            assert(tree.bins[bin].nodes[j].name == rest[0]);
        }
        assert forall|i: int| 0 <= i < names.len() implies tree.bins.contains_key(
            #[trigger] names[i],
        ) && tree.bins[names[i]].nodes.len() > 0 by {
            if i > 0 {
                assert(names[i] == rest[i - 1]);
            }
        }
        assert forall|i: int| 0 <= i < names.len() - 1 implies holds(
            tree,
            #[trigger] names[i],
            names[i + 1],
        ) by {
            if i > 0 {
                assert(names[i] == rest[i - 1]);
                assert(names[i + 1] == rest[i - 1 + 1]);
            }
        }
        names
    }
}

/// The number of bytes that texts take is the sum over the texts.
pub proof fn law_bytes_add_up(names: Seq<Seq<char>>, name: Seq<char>)
    ensures
        crate::archetypes::utf8_bytes(Seq::empty()) == 0,
        crate::archetypes::utf8_bytes(names.push(name)) == crate::archetypes::utf8_bytes(names)
            + vstd::utf8::encode_utf8(name).len(),
{
    assert(names.push(name).drop_last() =~= names);
}

} // verus!
