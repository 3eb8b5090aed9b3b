//! What a traversal makes of a pipeline, and what is then logged of it.

use vstd::prelude::*;

use crate::graph_log::GraphLogModel;
use crate::model::{BinModel, ElementModel, GraphError, TreeModel};
use crate::pipeline_graph::PipelineTree;
use crate::snapshot::{BinSnapshot, ElementPads, ElementSnapshot, IterEvent, PadSnapshot};

verus! {

impl BinSnapshot {
    /// The names of the bins among the elements, and of those nested in them. Here as below, what
    /// came before the iterator started over does not count.
    pub open spec fn bin_names(elements: Seq<IterEvent<ElementSnapshot>>) -> Set<Seq<char>>
        decreases elements,
    {
        if elements.len() == 0 {
            Set::empty()
        } else {
            let before = BinSnapshot::bin_names(elements.drop_last());
            match elements.last() {
                IterEvent::Item(e) => match e.bin {
                    Some(b) => before.union(BinSnapshot::bin_names(b.elements@).insert(b.name@)),
                    None => before,
                },
                IterEvent::Resync => Set::empty(),
                IterEvent::Error => before,
            }
        }
    }

    /// The graphs of the bins among the elements and of those nested in them, by name; of two
    /// bins of the same name, the one whose graph is complete later counts.
    pub open spec fn graphs_in(elements: Seq<IterEvent<ElementSnapshot>>) -> Map<
        Seq<char>,
        BinModel,
    >
        decreases elements,
    {
        if elements.len() == 0 {
            Map::empty()
        } else {
            let before = BinSnapshot::graphs_in(elements.drop_last());
            match elements.last() {
                IterEvent::Item(e) => match e.bin {
                    Some(b) => before.union_prefer_right(b.graphs()),
                    None => before,
                },
                IterEvent::Resync => Map::empty(),
                IterEvent::Error => before,
            }
        }
    }

    /// The graphs of the bin and of those nested in it, by name.
    pub open spec fn graphs(self) -> Map<Seq<char>, BinModel>
        decreases self,
    {
        BinSnapshot::graphs_in(self.elements@).insert(self.name@, BinModel::of(self))
    }

    /// For the bins among the elements of the bin `name`, and for those nested in them, the name
    /// of the bin they are in; of two bins of the same name, the one entered later counts.
    pub open spec fn parents_in(
        name: Seq<char>,
        elements: Seq<IterEvent<ElementSnapshot>>,
    ) -> Map<Seq<char>, Seq<char>>
        decreases elements,
    {
        if elements.len() == 0 {
            Map::empty()
        } else {
            let before = BinSnapshot::parents_in(name, elements.drop_last());
            match elements.last() {
                IterEvent::Item(e) => match e.bin {
                    Some(b) => before.insert(b.name@, name).union_prefer_right(
                        BinSnapshot::parents_in(b.name@, b.elements@),
                    ),
                    None => before,
                },
                IterEvent::Resync => Map::empty(),
                IterEvent::Error => before,
            }
        }
    }

    /// The names of the elements that are no bins, and of those within the bins among them.
    pub open spec fn other_names(elements: Seq<IterEvent<ElementSnapshot>>) -> Set<Seq<char>>
        decreases elements,
    {
        if elements.len() == 0 {
            Set::empty()
        } else {
            let before = BinSnapshot::other_names(elements.drop_last());
            match elements.last() {
                IterEvent::Item(e) => match e.bin {
                    Some(b) => before.union(BinSnapshot::other_names(b.elements@)),
                    None => before.insert(e.name@),
                },
                IterEvent::Resync => Set::empty(),
                IterEvent::Error => before,
            }
        }
    }

    /// Whether no two bins among the elements, at any depth, have the same name.
    pub open spec fn bins_apart_in(elements: Seq<IterEvent<ElementSnapshot>>) -> bool
        decreases elements,
    {
        elements.len() > 0 ==> match elements.last() {
            IterEvent::Item(e) => {
                &&& BinSnapshot::bins_apart_in(elements.drop_last())
                &&& match e.bin {
                    Some(b) => {
                        &&& b.bins_apart()
                        &&& BinSnapshot::bin_names(b.elements@).insert(b.name@).disjoint(
                            BinSnapshot::bin_names(elements.drop_last()),
                        )
                    },
                    None => true,
                }
            },
            IterEvent::Resync => true,
            IterEvent::Error => BinSnapshot::bins_apart_in(elements.drop_last()),
        }
    }

    /// Whether no two of the bin and the bins within it, at any depth, have the same name.
    pub open spec fn bins_apart(self) -> bool
        decreases self,
    {
        &&& BinSnapshot::bins_apart_in(self.elements@)
        &&& !BinSnapshot::bin_names(self.elements@).contains(self.name@)
    }

    /// Whether each bin among the elements, at any depth, goes by the name of the element that it
    /// is.
    pub open spec fn titled(elements: Seq<IterEvent<ElementSnapshot>>) -> bool
        decreases elements,
    {
        elements.len() > 0 ==> match elements.last() {
            IterEvent::Item(e) => {
                &&& BinSnapshot::titled(elements.drop_last())
                &&& match e.bin {
                    Some(b) => b.name@ == e.name@ && BinSnapshot::titled(b.elements@),
                    None => true,
                }
            },
            IterEvent::Resync => true,
            IterEvent::Error => BinSnapshot::titled(elements.drop_last()),
        }
    }

    /// Whether no two bins have the same name, and no other element has the name of a bin.
    pub open spec fn well_named(self) -> bool {
        &&& self.bins_apart()
        &&& BinSnapshot::other_names(self.elements@).disjoint(
            BinSnapshot::bin_names(self.elements@).insert(self.name@),
        )
    }

    /// Whether `graphs` and `parents` have, for each bin among the elements of the bin `name` and
    /// for those nested in them, its graph and its parent.
    pub open spec fn described_in(
        graphs: Map<Seq<char>, BinModel>,
        parents: Map<Seq<char>, Seq<char>>,
        name: Seq<char>,
        elements: Seq<IterEvent<ElementSnapshot>>,
    ) -> bool
        decreases elements,
    {
        elements.len() > 0 ==> match elements.last() {
            IterEvent::Item(e) => {
                &&& BinSnapshot::described_in(graphs, parents, name, elements.drop_last())
                &&& match e.bin {
                    Some(b) => {
                        &&& parents.contains_key(b.name@)
                        &&& parents[b.name@] == name
                        &&& b.described(graphs, parents)
                    },
                    None => true,
                }
            },
            IterEvent::Resync => true,
            IterEvent::Error => BinSnapshot::described_in(
                graphs,
                parents,
                name,
                elements.drop_last(),
            ),
        }
    }

    /// Whether `graphs` and `parents` describe the bin and those nested in it.
    pub open spec fn described(
        self,
        graphs: Map<Seq<char>, BinModel>,
        parents: Map<Seq<char>, Seq<char>>,
    ) -> bool
        decreases self,
    {
        &&& graphs.contains_key(self.name@)
        &&& graphs[self.name@] == BinModel::of(self)
        &&& BinSnapshot::described_in(graphs, parents, self.name@, self.elements@)
    }

    /// What is to be logged of a bin and those nested in it: first its own graph, then those of
    /// the bins in it, in order, each under its own name; nothing for a bin without elements.
    pub open spec fn shown_logs(
        self,
        prefix: Seq<char>,
        pipeline: Seq<char>,
        parent: Option<Seq<char>>,
    ) -> Seq<GraphLogModel>
        decreases self,
    {
        let bin = BinModel::of(self);
        if bin.nodes.len() == 0 {
            Seq::empty()
        } else {
            seq![
                GraphLogModel::of(
                    GraphLogModel::path(prefix, pipeline, parent),
                    bin.nodes,
                    bin.named_edges(),
                ),
            ] + BinSnapshot::shown_logs_in(prefix, pipeline, self.elements@)
        }
    }

    /// What is to be logged of the bins among the elements.
    pub open spec fn shown_logs_in(
        prefix: Seq<char>,
        pipeline: Seq<char>,
        elements: Seq<IterEvent<ElementSnapshot>>,
    ) -> Seq<GraphLogModel>
        decreases elements,
    {
        if elements.len() == 0 {
            Seq::empty()
        } else {
            let before = BinSnapshot::shown_logs_in(prefix, pipeline, elements.drop_last());
            match elements.last() {
                IterEvent::Item(e) => match e.bin {
                    Some(b) => before + b.shown_logs(prefix, pipeline, Some(b.name@)),
                    None => before,
                },
                IterEvent::Resync => Seq::empty(),
                IterEvent::Error => before,
            }
        }
    }

    /// How deep the bins among the elements are nested, at most.
    pub open spec fn depth_in(elements: Seq<IterEvent<ElementSnapshot>>) -> nat
        decreases elements,
    {
        if elements.len() == 0 {
            0
        } else {
            let before = BinSnapshot::depth_in(elements.drop_last());
            match elements.last() {
                IterEvent::Item(e) => match e.bin {
                    Some(b) => before + BinSnapshot::depth_in(b.elements@) + 1,
                    None => before,
                },
                IterEvent::Resync => 0,
                IterEvent::Error => before,
            }
        }
    }
}

/// A traversal that no failure ends adds exactly the graphs of the bin and of the bins nested in
/// it, and the parents of the nested ones.
pub proof fn law_walk_adds_all_bins(
    start: TreeModel,
    b: BinSnapshot,
    parent: Option<Seq<char>>,
)
    requires
        start.walk(b, parent).1 is None,
    ensures
        ({
            let tree = start.walk(b, parent).0;
            &&& tree.bins == start.bins.union_prefer_right(b.graphs())
            &&& tree.hierarchy == start.with_parent(
                b.name@,
                parent,
            ).hierarchy.union_prefer_right(BinSnapshot::parents_in(b.name@, b.elements@))
            &&& tree.root == start.root
        }),
    decreases b,
{
    let entered = start.with_parent(b.name@, parent);
    lemma_walk_elements_adds(entered, b.name@, b.elements@);
    let tree = start.walk(b, parent).0;
    assert(tree.bins =~= start.bins.union_prefer_right(b.graphs()));
}

proof fn lemma_walk_elements_adds(
    start: TreeModel,
    name: Seq<char>,
    elements: Seq<IterEvent<ElementSnapshot>>,
)
    requires
        start.walk_elements(name, elements).1 is None,
    ensures
        ({
            let tree = start.walk_elements(name, elements).0;
            &&& tree.bins == start.bins.union_prefer_right(BinSnapshot::graphs_in(elements))
            &&& tree.hierarchy == start.hierarchy.union_prefer_right(
                BinSnapshot::parents_in(name, elements),
            )
            &&& tree.root == start.root
        }),
    decreases elements,
{
    let tree = start.walk_elements(name, elements).0;
    if elements.len() == 0 || elements.last() is Resync {
        assert(tree.bins =~= start.bins.union_prefer_right(BinSnapshot::graphs_in(elements)));
        assert(tree.hierarchy =~= start.hierarchy.union_prefer_right(
            BinSnapshot::parents_in(name, elements),
        ));
    } else {
        lemma_walk_elements_adds(start, name, elements.drop_last());
        let before = start.walk_elements(name, elements.drop_last()).0;
        if let IterEvent::Item(e) = elements.last() {
            if let Some(b) = e.bin {
                law_walk_adds_all_bins(before, b, Some(name));
                assert(tree.bins =~= start.bins.union_prefer_right(
                    BinSnapshot::graphs_in(elements),
                ));
                assert(tree.hierarchy =~= start.hierarchy.union_prefer_right(
                    BinSnapshot::parents_in(name, elements),
                ));
            }
        }
    }
}

/// A traversal that the iterator over the elements of a bin ends has added the graphs and the parents
/// of the nested bins that were complete by then, and no graph for the bin itself.
pub proof fn law_element_failure_keeps_gathered(
    start: TreeModel,
    b: BinSnapshot,
    parent: Option<Seq<char>>,
    i: int,
)
    requires
        0 <= i < b.elements@.len(),
        b.elements@[i] is Error,
        start.with_parent(b.name@, parent).walk_elements(b.name@, b.elements@.take(i)).1 is None,
    ensures
        ({
            let (tree, failure) = start.walk(b, parent);
            &&& failure == Some(GraphError::ElementIterator)
            &&& tree.bins == start.bins.union_prefer_right(
                BinSnapshot::graphs_in(b.elements@.take(i)),
            )
            &&& tree.hierarchy == (match parent {
                Some(p) => start.hierarchy.insert(b.name@, p),
                None => start.hierarchy,
            }).union_prefer_right(BinSnapshot::parents_in(b.name@, b.elements@.take(i)))
        }),
{
    let entered = start.with_parent(b.name@, parent);
    lemma_walk_elements_adds(entered, b.name@, b.elements@.take(i));
    entered.lemma_walk_next(b.name@, b.elements@, i);
    entered.lemma_walk_stop(b.name@, b.elements@, i + 1);
}

/// A traversal that ends while the links of a bin are read has added the graphs and the parents of
/// all nested bins, and no graph for the bin itself.
pub proof fn law_link_failure_keeps_gathered(
    start: TreeModel,
    b: BinSnapshot,
    parent: Option<Seq<char>>,
)
    requires
        start.with_parent(b.name@, parent).walk_elements(b.name@, b.elements@).1 is None,
        GraphError::in_links(b.links@) is Some,
    ensures
        ({
            let (tree, failure) = start.walk(b, parent);
            &&& failure == GraphError::in_links(b.links@)
            &&& tree.bins == start.bins.union_prefer_right(BinSnapshot::graphs_in(b.elements@))
            &&& tree.hierarchy == (match parent {
                Some(p) => start.hierarchy.insert(b.name@, p),
                None => start.hierarchy,
            }).union_prefer_right(BinSnapshot::parents_in(b.name@, b.elements@))
        }),
{
    lemma_walk_elements_adds(start.with_parent(b.name@, parent), b.name@, b.elements@);
}

/// A traversal that ends in a nested bin has added what was complete before that bin, and what the
/// traversal of that bin had added when it ended.
pub proof fn law_nested_failure_keeps_gathered(
    start: TreeModel,
    b: BinSnapshot,
    parent: Option<Seq<char>>,
    i: int,
    inner: BinSnapshot,
)
    requires
        0 <= i < b.elements@.len(),
        b.elements@[i] matches IterEvent::Item(e) && e.bin == Some(inner),
        start.with_parent(b.name@, parent).walk_elements(b.name@, b.elements@.take(i)).1 is None,
        start.with_parent(b.name@, parent).walk_elements(b.name@, b.elements@.take(i)).0.walk(
            inner,
            Some(b.name@),
        ).1 is Some,
    ensures
        ({
            let gathered = start.with_parent(b.name@, parent).walk_elements(
                b.name@,
                b.elements@.take(i),
            ).0;
            &&& start.walk(b, parent) == gathered.walk(inner, Some(b.name@))
            &&& gathered.bins == start.bins.union_prefer_right(
                BinSnapshot::graphs_in(b.elements@.take(i)),
            )
        }),
{
    let entered = start.with_parent(b.name@, parent);
    lemma_walk_elements_adds(entered, b.name@, b.elements@.take(i));
    entered.lemma_walk_next(b.name@, b.elements@, i);
    entered.lemma_walk_stop(b.name@, b.elements@, i + 1);
}

/// The tree of a pipeline has a graph for the pipeline itself, under its name, and for each bin
/// nested in it, and a parent for each nested bin and for nothing else.
pub proof fn law_tree_has_all_bins(pipeline: BinSnapshot)
    requires
        TreeModel::of(pipeline).1 is None,
    ensures
        ({
            let tree = TreeModel::of(pipeline).0;
            let nested = BinSnapshot::bin_names(pipeline.elements@);
            &&& tree.root == pipeline.name@
            &&& tree.bins.contains_key(pipeline.name@)
            &&& tree.bins[pipeline.name@] == BinModel::of(pipeline)
            &&& tree.bins.dom() == nested.insert(pipeline.name@)
            &&& tree.hierarchy.dom() == nested
            &&& forall|name: Seq<char>| #[trigger]
                tree.bins.contains_key(name) ==> tree.bins[name].name == name
        }),
{
    let start = TreeModel { root: pipeline.name@, ..TreeModel::empty() };
    let tree = TreeModel::of(pipeline).0;
    law_walk_adds_all_bins(start, pipeline, None);
    lemma_graphs_in_names(pipeline.elements@);
    lemma_parents_in_names(pipeline.name@, pipeline.elements@);
    assert(tree.bins =~= pipeline.graphs());
    assert(tree.hierarchy =~= BinSnapshot::parents_in(pipeline.name@, pipeline.elements@));
    assert(tree.bins.dom() =~= BinSnapshot::bin_names(pipeline.elements@).insert(pipeline.name@));
}

proof fn lemma_graphs_in_names(elements: Seq<IterEvent<ElementSnapshot>>)
    ensures
        BinSnapshot::graphs_in(elements).dom() == BinSnapshot::bin_names(elements),
        forall|name: Seq<char>| #[trigger]
            BinSnapshot::graphs_in(elements).contains_key(name) ==> BinSnapshot::graphs_in(
                elements,
            )[name].name == name,
    decreases elements,
{
    if elements.len() > 0 {
        lemma_graphs_in_names(elements.drop_last());
        if let IterEvent::Item(e) = elements.last() {
            if let Some(b) = e.bin {
                lemma_graphs_in_names(b.elements@);
                let before = BinSnapshot::graphs_in(elements.drop_last());
                assert(b.graphs() == BinSnapshot::graphs_in(b.elements@).insert(
                    b.name@,
                    BinModel::of(b),
                ));
                assert forall|name: Seq<char>| #[trigger]
                    BinSnapshot::graphs_in(elements).contains_key(
                        name,
                    ) implies BinSnapshot::graphs_in(elements)[name].name == name by {
                    if b.graphs().contains_key(name) {
                        assert(name == b.name@ || BinSnapshot::graphs_in(
                            b.elements@,
                        ).contains_key(name));
                    } else {
                        assert(before.contains_key(name));
                    }
                }
            }
        }
    }
    assert(BinSnapshot::graphs_in(elements).dom() =~= BinSnapshot::bin_names(elements));
}

proof fn lemma_parents_in_names(name: Seq<char>, elements: Seq<IterEvent<ElementSnapshot>>)
    ensures
        BinSnapshot::parents_in(name, elements).dom() == BinSnapshot::bin_names(elements),
    decreases elements,
{
    if elements.len() > 0 {
        lemma_parents_in_names(name, elements.drop_last());
        if let IterEvent::Item(e) = elements.last() {
            if let Some(b) = e.bin {
                lemma_parents_in_names(b.name@, b.elements@);
            }
        }
    }
    assert(BinSnapshot::parents_in(name, elements).dom() =~= BinSnapshot::bin_names(elements));
}

/// What `described_in` says depends only on the names of the bins among the elements.
proof fn lemma_described_frame(
    g1: Map<Seq<char>, BinModel>,
    p1: Map<Seq<char>, Seq<char>>,
    g2: Map<Seq<char>, BinModel>,
    p2: Map<Seq<char>, Seq<char>>,
    name: Seq<char>,
    elements: Seq<IterEvent<ElementSnapshot>>,
)
    requires
        BinSnapshot::described_in(g1, p1, name, elements),
        forall|k: Seq<char>| #[trigger]
            BinSnapshot::bin_names(elements).contains(k) ==> {
                &&& g1.contains_key(k) == g2.contains_key(k)
                &&& g1.contains_key(k) ==> g1[k] == g2[k]
                &&& p1.contains_key(k) == p2.contains_key(k)
                &&& p1.contains_key(k) ==> p1[k] == p2[k]
            },
    ensures
        BinSnapshot::described_in(g2, p2, name, elements),
    decreases elements,
{
    if elements.len() > 0 && !(elements.last() is Resync) {
        let before = BinSnapshot::bin_names(elements.drop_last());
        assert(before.subset_of(BinSnapshot::bin_names(elements)));
        lemma_described_frame(g1, p1, g2, p2, name, elements.drop_last());
        if let IterEvent::Item(e) = elements.last() {
            if let Some(b) = e.bin {
                assert(BinSnapshot::bin_names(elements).contains(b.name@));
                assert(BinSnapshot::bin_names(b.elements@).subset_of(
                    BinSnapshot::bin_names(elements),
                ));
                assert(b.described(g1, p1));
                lemma_described_frame(g1, p1, g2, p2, b.name@, b.elements@);
                assert(b.described(g2, p2));
            }
        }
    }
}

proof fn lemma_apart_described(name: Seq<char>, elements: Seq<IterEvent<ElementSnapshot>>)
    requires
        BinSnapshot::bins_apart_in(elements),
    ensures
        BinSnapshot::described_in(
            BinSnapshot::graphs_in(elements),
            BinSnapshot::parents_in(name, elements),
            name,
            elements,
        ),
    decreases elements,
{
    if elements.len() > 0 && !(elements.last() is Resync) {
        let rest = elements.drop_last();
        let graphs = BinSnapshot::graphs_in(elements);
        let parents = BinSnapshot::parents_in(name, elements);
        let g0 = BinSnapshot::graphs_in(rest);
        let p0 = BinSnapshot::parents_in(name, rest);
        lemma_apart_described(name, rest);
        lemma_graphs_in_names(rest);
        lemma_parents_in_names(name, rest);
        if let IterEvent::Item(e) = elements.last() {
            if let Some(b) = e.bin {
                assert(b.bins_apart());
                lemma_apart_described(b.name@, b.elements@);
                lemma_graphs_in_names(b.elements@);
                lemma_parents_in_names(b.name@, b.elements@);
                let own = BinSnapshot::bin_names(b.elements@).insert(b.name@);
                let gb = BinSnapshot::graphs_in(b.elements@);
                let pb = BinSnapshot::parents_in(b.name@, b.elements@);
                assert(b.graphs() == gb.insert(b.name@, BinModel::of(b)));
                assert forall|k: Seq<char>| #[trigger]
                    BinSnapshot::bin_names(rest).contains(k) implies {
                    &&& g0.contains_key(k) == graphs.contains_key(k)
                    &&& g0.contains_key(k) ==> g0[k] == graphs[k]
                    &&& p0.contains_key(k) == parents.contains_key(k)
                    &&& p0.contains_key(k) ==> p0[k] == parents[k]
                } by {
                    assert(!own.contains(k));
                    assert(!gb.dom().contains(k));
                    assert(!pb.dom().contains(k));
                    assert(!b.graphs().contains_key(k));
                }
                lemma_described_frame(g0, p0, graphs, parents, name, rest);
                assert forall|k: Seq<char>| #[trigger]
                    BinSnapshot::bin_names(b.elements@).contains(k) implies {
                    &&& gb.contains_key(k) == graphs.contains_key(k)
                    &&& gb.contains_key(k) ==> gb[k] == graphs[k]
                    &&& pb.contains_key(k) == parents.contains_key(k)
                    &&& pb.contains_key(k) ==> pb[k] == parents[k]
                } by {
                    assert(gb.dom().contains(k));
                    assert(pb.dom().contains(k));
                    assert(k != b.name@);
                }
                lemma_described_frame(gb, pb, graphs, parents, b.name@, b.elements@);
                assert(!pb.dom().contains(b.name@));
                assert(b.described(graphs, parents));
            }
        }
    }
}

/// In the tree of a pipeline in which no two bins have the same name, each bin has its own graph,
/// and each nested bin has the bin that it is in as its parent.
pub proof fn law_tree_describes_pipeline(pipeline: BinSnapshot)
    requires
        TreeModel::of(pipeline).1 is None,
        pipeline.bins_apart(),
    ensures
        pipeline.described(
            TreeModel::of(pipeline).0.bins,
            TreeModel::of(pipeline).0.hierarchy,
        ),
        !TreeModel::of(pipeline).0.hierarchy.contains_key(pipeline.name@),
{
    let start = TreeModel { root: pipeline.name@, ..TreeModel::empty() };
    let tree = TreeModel::of(pipeline).0;
    let g0 = BinSnapshot::graphs_in(pipeline.elements@);
    let p0 = BinSnapshot::parents_in(pipeline.name@, pipeline.elements@);
    law_walk_adds_all_bins(start, pipeline, None);
    assert(tree.bins =~= g0.insert(pipeline.name@, BinModel::of(pipeline)));
    assert(tree.hierarchy =~= p0);
    lemma_apart_described(pipeline.name@, pipeline.elements@);
    lemma_described_frame(g0, p0, tree.bins, tree.hierarchy, pipeline.name@, pipeline.elements@);
    lemma_parents_in_names(pipeline.name@, pipeline.elements@);
    assert(!p0.dom().contains(pipeline.name@));
}

/// Of a pipeline in which no two bins have the same name and no other element has the name of a
/// bin, the graph of each bin that holds elements is logged once, in the order in which the bins
/// are entered, with all its elements and links, under a path of its own.
pub proof fn law_each_bin_logged_once(pipeline: BinSnapshot, prefix: Seq<char>)
    requires
        TreeModel::of(pipeline).1 is None,
        BinSnapshot::titled(pipeline.elements@),
        pipeline.well_named(),
    ensures
        TreeModel::of(pipeline).0.loggable(pipeline.name@),
        forall|n: nat| #[trigger]
            TreeModel::of(pipeline).0.nested(pipeline.name@, n) ==> TreeModel::of(pipeline).0.logs(
                prefix,
                pipeline.name@,
                None,
                n,
            ) == pipeline.shown_logs(prefix, pipeline.name@, None),
{
    let tree = TreeModel::of(pipeline).0;
    law_tree_describes_pipeline(pipeline);
    law_tree_has_all_bins(pipeline);
    let depth = BinSnapshot::depth_in(pipeline.elements@) + 1;
    assert(tree.lacks(BinSnapshot::other_names(pipeline.elements@)));
    lemma_described_nested(tree, pipeline, depth);
    lemma_described_logs(tree, pipeline, prefix, pipeline.name@, None, depth);
    assert forall|n: nat| #[trigger] tree.nested(pipeline.name@, n) implies tree.logs(
        prefix,
        pipeline.name@,
        None,
        n,
    ) == pipeline.shown_logs(prefix, pipeline.name@, None) by {
        tree.lemma_logs_same(prefix, pipeline.name@, None, n, depth);
    }
}

impl TreeModel {
    /// Whether no bin goes by one of the names.
    spec fn lacks(self, names: Set<Seq<char>>) -> bool {
        names.disjoint(self.bins.dom())
    }
}

proof fn lemma_described_nested(tree: TreeModel, b: BinSnapshot, n: nat)
    requires
        b.described(tree.bins, tree.hierarchy),
        BinSnapshot::titled(b.elements@),
        tree.lacks(BinSnapshot::other_names(b.elements@)),
        n >= BinSnapshot::depth_in(b.elements@) + 1,
    ensures
        tree.nested(b.name@, n),
    decreases b,
{
    lemma_described_nested_in(tree, b.name@, b.elements@, (n - 1) as nat);
}

proof fn lemma_described_nested_in(
    tree: TreeModel,
    name: Seq<char>,
    elements: Seq<IterEvent<ElementSnapshot>>,
    n: nat,
)
    requires
        BinSnapshot::described_in(tree.bins, tree.hierarchy, name, elements),
        BinSnapshot::titled(elements),
        tree.lacks(BinSnapshot::other_names(elements)),
        n >= BinSnapshot::depth_in(elements),
    ensures
        forall|i: int|
            0 <= i < BinModel::nodes_of(elements).len() ==> tree.nested(
                (#[trigger] BinModel::nodes_of(elements)[i]).name,
                n,
            ),
    decreases elements,
{
    if elements.len() > 0 && !(elements.last() is Resync) {
        assert(BinSnapshot::other_names(elements.drop_last()).subset_of(
            BinSnapshot::other_names(elements),
        ));
        lemma_described_nested_in(tree, name, elements.drop_last(), n);
        if let IterEvent::Item(e) = elements.last() {
            if let Some(b) = e.bin {
                assert(b.described(tree.bins, tree.hierarchy));
                assert(BinSnapshot::other_names(b.elements@).subset_of(
                    BinSnapshot::other_names(elements),
                ));
                lemma_described_nested(tree, b, n);
            } else {
                assert(BinSnapshot::other_names(elements).contains(e.name@));
                assert(tree.children(e.name@).len() == 0);
            }
        }
    }
}

proof fn lemma_described_logs(
    tree: TreeModel,
    b: BinSnapshot,
    prefix: Seq<char>,
    pipeline: Seq<char>,
    parent: Option<Seq<char>>,
    n: nat,
)
    requires
        b.described(tree.bins, tree.hierarchy),
        BinSnapshot::titled(b.elements@),
        tree.lacks(BinSnapshot::other_names(b.elements@)),
        tree.shown(parent) == b.name@,
        n >= BinSnapshot::depth_in(b.elements@) + 1,
    ensures
        tree.logs(prefix, pipeline, parent, n) == b.shown_logs(prefix, pipeline, parent),
    decreases b,
{
    lemma_described_logs_in(tree, b.name@, b.elements@, prefix, pipeline, (n - 1) as nat);
}

proof fn lemma_described_logs_in(
    tree: TreeModel,
    name: Seq<char>,
    elements: Seq<IterEvent<ElementSnapshot>>,
    prefix: Seq<char>,
    pipeline: Seq<char>,
    n: nat,
)
    requires
        BinSnapshot::described_in(tree.bins, tree.hierarchy, name, elements),
        BinSnapshot::titled(elements),
        tree.lacks(BinSnapshot::other_names(elements)),
        n >= BinSnapshot::depth_in(elements),
    ensures
        tree.logs_below(prefix, pipeline, BinModel::nodes_of(elements), n)
            == BinSnapshot::shown_logs_in(prefix, pipeline, elements),
    decreases elements,
{
    if elements.len() > 0 && !(elements.last() is Resync) {
        assert(BinSnapshot::other_names(elements.drop_last()).subset_of(
            BinSnapshot::other_names(elements),
        ));
        lemma_described_logs_in(tree, name, elements.drop_last(), prefix, pipeline, n);
        if let IterEvent::Item(e) = elements.last() {
            let before = BinModel::nodes_of(elements.drop_last());
            let nodes = BinModel::nodes_of(elements);
            assert(nodes.drop_last() =~= before);
            if let Some(b) = e.bin {
                assert(b.described(tree.bins, tree.hierarchy));
                assert(BinSnapshot::other_names(b.elements@).subset_of(
                    BinSnapshot::other_names(elements),
                ));
                lemma_described_logs(tree, b, prefix, pipeline, Some(b.name@), n);
            } else {
                assert(BinSnapshot::other_names(elements).contains(e.name@));
                assert(tree.children(e.name@).len() == 0);
                assert(tree.logs(prefix, pipeline, Some(e.name@), n) == Seq::<GraphLogModel>::empty());
                let below = tree.logs_below(prefix, pipeline, before, n);
                assert(below + Seq::<GraphLogModel>::empty() =~= below);
            }
        }
    }
}

impl ElementModel {
    /// Whether no two of the elements have the same name.
    pub open spec fn names_differ(nodes: Seq<ElementModel>) -> bool {
        forall|i: int, j: int|
            0 <= i < j < nodes.len() ==> (#[trigger] nodes[i]).name != (#[trigger] nodes[j]).name
    }
}

/// Where no two elements of a bin have the same name, its lookup table and its graph agree one to
/// one: there are as many entries as elements, each entry leads to an element of its name, and each
/// element is found under its name.
pub proof fn law_lookup_one_to_one(tree: PipelineTree, bin_name: Seq<char>)
    requires
        tree.wf(),
        tree.bins@.contains_key(bin_name),
        ElementModel::names_differ(tree.bins@[bin_name]@.nodes),
    ensures
        ({
            let nodes = tree.bins@[bin_name]@.nodes;
            let table = tree.bins@[bin_name].node_indices@;
            &&& table.dom().finite()
            &&& table.len() == nodes.len()
            &&& forall|name: Seq<char>| #[trigger]
                table.contains_key(name) ==> table[name] < nodes.len()
                    && nodes[table[name] as int].name == name
            &&& forall|i: int|
                0 <= i < nodes.len() ==> table.contains_key((#[trigger] nodes[i]).name)
                    && table[nodes[i].name] == i
        }),
{
    let graph = tree.bins@[bin_name];
    let nodes = graph@.nodes;
    let table = graph.node_indices@;
    let names = nodes.map_values(|e: ElementModel| e.name);
    assert(graph.wf());
    assert forall|name: Seq<char>| #[trigger] table.contains_key(name) implies table[name]
        < nodes.len() && nodes[table[name] as int].name == name by {
        ElementModel::lemma_position_found(nodes, name);
    }
    assert forall|i: int| 0 <= i < nodes.len() implies table.contains_key(
        (#[trigger] nodes[i]).name,
    ) && table[nodes[i].name] == i by {
        ElementModel::lemma_position_found(nodes, nodes[i].name);
        assert(table.contains_key(nodes[i].name));
    }
    assert(names.no_duplicates()) by {
        assert forall|i: int, j: int|
            0 <= i < names.len() && 0 <= j < names.len() && i != j implies names[i] != names[j] by {
            assert(nodes[i].name == names[i] && nodes[j].name == names[j]);
        }
    }
    assert(table.dom() =~= names.to_set()) by {
        assert forall|name: Seq<char>| table.dom().contains(name) implies names.contains(name) by {
            assert(table.contains_key(name));
            assert(names[table[name] as int] == name);
        }
        assert forall|name: Seq<char>| names.contains(name) implies table.dom().contains(name) by {
            let i = choose|i: int| 0 <= i < names.len() && names[i] == name;
            assert(nodes[i].name == name);
        }
    }
    names.unique_seq_to_set();
}

/// Both ends of a link in the graph of a bin are elements directly within that bin.
pub proof fn law_links_stay_within_bin(b: BinSnapshot)
    ensures
        forall|i: int|
            0 <= i < BinModel::of(b).edges.len() ==> {
                &&& 0 <= (#[trigger] BinModel::of(b).edges[i]).0 < BinModel::of(b).nodes.len()
                &&& 0 <= BinModel::of(b).edges[i].1 < BinModel::of(b).nodes.len()
            },
{
    assert forall|i: int| 0 <= i < BinModel::of(b).edges.len() implies {
        &&& 0 <= (#[trigger] BinModel::of(b).edges[i]).0 < BinModel::of(b).nodes.len()
        &&& 0 <= BinModel::of(b).edges[i].1 < BinModel::of(b).nodes.len()
    } by {
        law_link_has_source_pad(b, i);
        let (k, j) = choose|k: int, j: int|
            source_pad_of(b, k, j, BinModel::of(b).edges[i]);
        if let IterEvent::Item(e) = b.links@[k] {
            ElementModel::lemma_position_found(BinModel::of(b).nodes, e.name@);
            if let IterEvent::Item(pad) = e.pads@[j] {
                if let Some(peer) = pad.peer {
                    if let Some(peer_name) = peer.parent_element {
                        ElementModel::lemma_position_found(BinModel::of(b).nodes, peer_name@);
                    }
                }
            }
        }
    }
}

/// Whether the iterator did not start over after its `i`-th answer.
pub open spec fn counts<T>(s: Seq<IterEvent<T>>, i: int) -> bool {
    &&& 0 <= i < s.len()
    &&& forall|j: int| i <= j < s.len() ==> !((#[trigger] s[j]) is Resync)
}

/// Whether the `j`-th pad of the `k`-th element read for links stands for the link `edge`.
pub open spec fn source_pad_of(b: BinSnapshot, k: int, j: int, edge: (int, int)) -> bool {
    &&& counts(b.links@, k)
    &&& b.links@[k] matches IterEvent::Item(e) && {
        &&& counts(e.pads@, j)
        &&& e.pads@[j] matches IterEvent::Item(pad) && {
            &&& pad.linked
            &&& pad.direction is Src
            &&& pad.peer matches Some(peer) && peer.in_bin
            &&& BinModel::pad_edge(BinModel::of(b).nodes, e.name@, pad) == Some(edge)
        }
    }
}

/// Each link in the graph of a bin stems from a linked source pad whose peer is in the same bin;
/// sink pads add none.
pub proof fn law_link_has_source_pad(b: BinSnapshot, i: int)
    requires
        0 <= i < BinModel::of(b).edges.len(),
    ensures
        exists|k: int, j: int| source_pad_of(b, k, j, BinModel::of(b).edges[i]),
{
    let nodes = BinModel::of(b).nodes;
    let k = lemma_edge_has_element(nodes, b.links@, i);
    if let IterEvent::Item(e) = b.links@[k.0] {
        let j = lemma_edge_has_pad(nodes, e.name@, e.pads@, k.1);
        assert(source_pad_of(b, k.0, j, BinModel::of(b).edges[i]));
    }
}

proof fn lemma_edge_has_element(
    nodes: Seq<ElementModel>,
    links: Seq<IterEvent<ElementPads>>,
    i: int,
) -> (r: (int, int))
    requires
        0 <= i < BinModel::edges_of(nodes, links).len(),
    ensures
        counts(links, r.0),
        links[r.0] matches IterEvent::Item(e) && {
            let edges = BinModel::pad_edges(nodes, e.name@, e.pads@);
            0 <= r.1 < edges.len() && edges[r.1] == BinModel::edges_of(nodes, links)[i]
        },
    decreases links.len(),
{
    let before = BinModel::edges_of(nodes, links.drop_last());
    if i < before.len() {
        let r = lemma_edge_has_element(nodes, links.drop_last(), i);
        assert(counts(links, r.0)) by {
            assert forall|j: int| r.0 <= j < links.len() implies !(
            (#[trigger] links[j]) is Resync) by {
                if j < links.len() - 1 {
                    assert(links.drop_last()[j] == links[j]);
                }
            }
        }
        r
    } else {
        (links.len() - 1, i - before.len())
    }
}

proof fn lemma_edge_has_pad(
    nodes: Seq<ElementModel>,
    name: Seq<char>,
    pads: Seq<IterEvent<PadSnapshot>>,
    i: int,
) -> (j: int)
    requires
        0 <= i < BinModel::pad_edges(nodes, name, pads).len(),
    ensures
        counts(pads, j),
        pads[j] matches IterEvent::Item(pad) && BinModel::pad_edge(nodes, name, pad) == Some(
            BinModel::pad_edges(nodes, name, pads)[i],
        ),
    decreases pads.len(),
{
    let before = BinModel::pad_edges(nodes, name, pads.drop_last());
    if i < before.len() {
        let j = lemma_edge_has_pad(nodes, name, pads.drop_last(), i);
        assert(counts(pads, j)) by {
            assert forall|k: int| j <= k < pads.len() implies !(
            (#[trigger] pads[k]) is Resync) by {
                if k < pads.len() - 1 {
                    assert(pads.drop_last()[k] == pads[k]);
                }
            }
        }
        j
    } else {
        pads.len() - 1
    }
}

/// Each linked source pad between two elements of a bin has its link in the graph of the bin,
/// unless it was read before an iterator started over.
pub proof fn law_source_pad_has_link(b: BinSnapshot, k: int, j: int, edge: (int, int))
    requires
        source_pad_of(b, k, j, edge),
    ensures
        BinModel::of(b).edges.contains(edge),
{
    let nodes = BinModel::of(b).nodes;
    if let IterEvent::Item(e) = b.links@[k] {
        lemma_pad_has_edge(nodes, e.name@, e.pads@, j, edge);
        lemma_element_has_edge(nodes, b.links@, k, edge);
    }
}

proof fn lemma_pad_has_edge(
    nodes: Seq<ElementModel>,
    name: Seq<char>,
    pads: Seq<IterEvent<PadSnapshot>>,
    j: int,
    edge: (int, int),
)
    requires
        counts(pads, j),
        pads[j] matches IterEvent::Item(pad) && BinModel::pad_edge(nodes, name, pad) == Some(edge),
    ensures
        BinModel::pad_edges(nodes, name, pads).contains(edge),
    decreases pads.len(),
{
    let before = BinModel::pad_edges(nodes, name, pads.drop_last());
    let all = BinModel::pad_edges(nodes, name, pads);
    assert(!(pads[pads.len() - 1] is Resync));
    if j < pads.len() - 1 {
        assert forall|i: int| j <= i < pads.drop_last().len() implies !(
        (#[trigger] pads.drop_last()[i]) is Resync) by {
            assert(pads.drop_last()[i] == pads[i]);
        }
        lemma_pad_has_edge(nodes, name, pads.drop_last(), j, edge);
        let i = choose|i: int| 0 <= i < before.len() && before[i] == edge;
        assert(all[i] == edge);
    } else {
        assert(all[before.len() as int] == edge);
    }
}

proof fn lemma_element_has_edge(
    nodes: Seq<ElementModel>,
    links: Seq<IterEvent<ElementPads>>,
    k: int,
    edge: (int, int),
)
    requires
        counts(links, k),
        links[k] matches IterEvent::Item(e) && BinModel::pad_edges(
            nodes,
            e.name@,
            e.pads@,
        ).contains(edge),
    ensures
        BinModel::edges_of(nodes, links).contains(edge),
    decreases links.len(),
{
    let before = BinModel::edges_of(nodes, links.drop_last());
    let all = BinModel::edges_of(nodes, links);
    assert(!(links[links.len() - 1] is Resync));
    if k < links.len() - 1 {
        assert forall|i: int| k <= i < links.drop_last().len() implies !(
        (#[trigger] links.drop_last()[i]) is Resync) by {
            assert(links.drop_last()[i] == links[i]);
        }
        lemma_element_has_edge(nodes, links.drop_last(), k, edge);
        let i = choose|i: int| 0 <= i < before.len() && before[i] == edge;
        assert(all[i] == edge);
    } else if let IterEvent::Item(e) = links[k] {
        let own = BinModel::pad_edges(nodes, e.name@, e.pads@);
        let i = choose|i: int| 0 <= i < own.len() && own[i] == edge;
        assert(all[before.len() + i] == edge);
    }
}

} // verus!
