//! What is logged of a pipeline: one graph per bin, under a path of its own.

use re_types::archetypes::{GraphEdges, GraphNodes};
use re_types::components::Position2D;
use vstd::prelude::*;

use crate::archetypes::{
    edges_between, edges_directed, nodes_with_labels, nodes_with_names, nodes_with_positions,
    texts_fit, MAX_COMPONENT_BYTES,
};
use crate::model::{ElementModel, GraphError, TreeModel};
use crate::pipeline_graph::{analyze_pipeline, ElementInfo, PipelineTree};
use crate::snapshot::BinSnapshot;

verus! {

/// The graph of one bin as it is logged.
#[derive(Debug)]
pub struct GraphLog {
    /// The path that the graph is logged under.
    pub entity_path: String,
    /// The names of the elements.
    pub node_names: Vec<String>,
    /// A label for each element.
    pub labels: Vec<String>,
    /// The links as pairs of element names.
    pub edges: Vec<(String, String)>,
}

/// The texts of a logged graph.
#[verifier::ext_equal]
pub ghost struct GraphLogModel {
    pub entity_path: Seq<char>,
    pub node_names: Seq<Seq<char>>,
    pub labels: Seq<Seq<char>>,
    pub edges: Seq<(Seq<char>, Seq<char>)>,
}

impl View for GraphLog {
    type V = GraphLogModel;

    open spec fn view(&self) -> GraphLogModel {
        GraphLogModel {
            entity_path: self.entity_path@,
            node_names: crate::text::texts(self.node_names@),
            labels: crate::text::texts(self.labels@),
            edges: crate::text::text_pairs(self.edges@),
        }
    }
}

impl ElementModel {
    /// The label of an element: its name and, on a second line, its factory in brackets, if known.
    pub open spec fn label(self) -> Seq<char> {
        match self.factory_name {
            Some(factory) => self.name + "\n("@ + factory + ")"@,
            None => self.name,
        }
    }
}

impl GraphLogModel {
    /// The path of a graph: that of the pipeline, followed by the name of the bin where it is
    /// a nested one.
    pub open spec fn path(
        prefix: Seq<char>,
        pipeline: Seq<char>,
        parent: Option<Seq<char>>,
    ) -> Seq<char> {
        match parent {
            Some(bin) => prefix + "/"@ + pipeline + "/"@ + bin,
            None => prefix + "/"@ + pipeline,
        }
    }

    /// What is logged of a bin with the given elements and links.
    pub open spec fn of(
        path: Seq<char>,
        nodes: Seq<ElementModel>,
        edges: Seq<(Seq<char>, Seq<char>)>,
    ) -> GraphLogModel {
        GraphLogModel {
            entity_path: path,
            node_names: nodes.map_values(|e: ElementModel| e.name),
            labels: nodes.map_values(|e: ElementModel| e.label()),
            edges,
        }
    }
}

impl TreeModel {
    /// The bin that is shown: the one named, or else the outermost one.
    pub open spec fn shown(self, parent: Option<Seq<char>>) -> Seq<char> {
        match parent {
            Some(bin) => bin,
            None => self.root,
        }
    }

    /// Whether the bins below `bin` are nested at most `n` deep, counting `bin` itself; going
    /// from a bin to the bins that its elements are called after comes to an end then.
    pub open spec fn nested(self, bin: Seq<char>, n: nat) -> bool
        decreases n,
    {
        let children = self.children(bin);
        children.len() > 0 ==> {
            &&& n > 0
            &&& forall|i: int|
                0 <= i < children.len() ==> self.nested(
                    (#[trigger] children[i]).name,
                    (n - 1) as nat,
                )
        }
    }

    /// Whether no bin below `bin` holds an element called after a bin that it is itself in.
    pub open spec fn loggable(self, bin: Seq<char>) -> bool {
        exists|n: nat| self.nested(bin, n)
    }

    /// The graphs logged for a bin and those below it, up to `n` deep: first its own, then those
    /// of its elements in order. Nothing is logged for a bin without elements.
    pub open spec fn logs(
        self,
        prefix: Seq<char>,
        pipeline: Seq<char>,
        parent: Option<Seq<char>>,
        n: nat,
    ) -> Seq<GraphLogModel>
        decreases n, 0nat,
    {
        let bin = self.shown(parent);
        if self.children(bin).len() == 0 || n == 0 {
            Seq::empty()
        } else {
            let own = GraphLogModel::of(
                GraphLogModel::path(prefix, pipeline, parent),
                self.children(bin),
                self.bins[bin].named_edges(),
            );
            seq![own] + self.logs_below(prefix, pipeline, self.children(bin), (n - 1) as nat)
        }
    }

    /// The graphs logged for the bins called after the given elements.
    pub open spec fn logs_below(
        self,
        prefix: Seq<char>,
        pipeline: Seq<char>,
        nodes: Seq<ElementModel>,
        n: nat,
    ) -> Seq<GraphLogModel>
        decreases n, nodes.len(),
    {
        if nodes.len() == 0 {
            Seq::empty()
        } else {
            self.logs_below(prefix, pipeline, nodes.drop_last(), n) + self.logs(
                prefix,
                pipeline,
                Some(nodes.last().name),
                n,
            )
        }
    }

    /// Allowing more depth than needed changes nothing.
    pub proof fn lemma_nested_more(self, bin: Seq<char>, n: nat, m: nat)
        requires
            self.nested(bin, n),
            n <= m,
        ensures
            self.nested(bin, m),
        decreases n,
    {
        let children = self.children(bin);
        if children.len() > 0 {
            assert forall|i: int| 0 <= i < children.len() implies self.nested(
                (#[trigger] children[i]).name,
                (m - 1) as nat,
            ) by {
                self.lemma_nested_more(children[i].name, (n - 1) as nat, (m - 1) as nat);
            }
        }
    }

    /// The graphs logged do not depend on how much depth is allowed, once it is enough.
    pub proof fn lemma_logs_same(
        self,
        prefix: Seq<char>,
        pipeline: Seq<char>,
        parent: Option<Seq<char>>,
        n: nat,
        m: nat,
    )
        requires
            self.nested(self.shown(parent), n),
            self.nested(self.shown(parent), m),
        ensures
            self.logs(prefix, pipeline, parent, n) == self.logs(prefix, pipeline, parent, m),
        decreases n, 0nat,
    {
        let children = self.children(self.shown(parent));
        if children.len() > 0 {
            assert forall|i: int| 0 <= i < children.len() implies {
                &&& self.nested((#[trigger] children[i]).name, (n - 1) as nat)
                &&& self.nested(children[i].name, (m - 1) as nat)
            } by {}
            self.lemma_logs_below_same(prefix, pipeline, children, (n - 1) as nat, (m - 1) as nat);
        }
    }

    proof fn lemma_logs_below_same(
        self,
        prefix: Seq<char>,
        pipeline: Seq<char>,
        nodes: Seq<ElementModel>,
        n: nat,
        m: nat,
    )
        requires
            forall|i: int|
                0 <= i < nodes.len() ==> {
                    &&& self.nested((#[trigger] nodes[i]).name, n)
                    &&& self.nested(nodes[i].name, m)
                },
        ensures
            self.logs_below(prefix, pipeline, nodes, n) == self.logs_below(
                prefix,
                pipeline,
                nodes,
                m,
            ),
        decreases n, nodes.len(),
    {
        if nodes.len() > 0 {
            assert forall|i: int| 0 <= i < nodes.drop_last().len() implies {
                &&& self.nested((#[trigger] nodes.drop_last()[i]).name, n)
                &&& self.nested(nodes.drop_last()[i].name, m)
            } by {
                assert(nodes.drop_last()[i] == nodes[i]);
            }
            self.lemma_logs_below_same(prefix, pipeline, nodes.drop_last(), n, m);
            let last = nodes[nodes.len() - 1];
            self.lemma_logs_same(prefix, pipeline, Some(last.name), n, m);
        }
    }
}

/// The text of an optional name.
pub open spec fn opt_name(name: Option<&str>) -> Option<Seq<char>> {
    match name {
        Some(s) => Some(s@),
        None => None,
    }
}

/// The texts of several logged graphs.
pub open spec fn log_models(logs: Seq<GraphLog>) -> Seq<GraphLogModel> {
    logs.map_values(|l: GraphLog| l@)
}

/// The label of an element.
pub fn element_label(element: &ElementInfo) -> (r: String)
    ensures
        r@ == element@.label(),
        match element.factory_name {
            Some(factory) => r@ == element.name@ + "\n("@ + factory@ + ")"@,
            None => r@ == element.name@,
        },
{
    let mut label = element.name.clone();
    if let Some(factory_name) = &element.factory_name {
        label.append("\n(");
        label.append(factory_name.as_str());
        label.append(")");
    }
    label
}

/// The path that the graph of a bin is logged under.
pub fn entity_path(prefix: &str, pipeline_name: &str, parent_name: Option<&str>) -> (r: String)
    ensures
        r@ == GraphLogModel::path(prefix@, pipeline_name@, opt_name(parent_name)),
        match parent_name {
            Some(bin) => r@ == prefix@ + "/"@ + pipeline_name@ + "/"@ + bin@,
            None => r@ == prefix@ + "/"@ + pipeline_name@,
        },
{
    let mut path = prefix.to_owned();
    path.append("/");
    path.append(pipeline_name);
    if let Some(parent) = parent_name {
        path.append("/");
        path.append(parent);
    }
    path
}

/// Lists the graphs to log for the bin called `parent_name`, or else for the whole pipeline.
pub fn log_graph(
    pipeline_name: &str,
    parent_name: Option<&str>,
    graph: &PipelineTree,
    entity_path_prefix: &str,
) -> (r: Vec<GraphLog>)
    requires
        graph@.loggable(graph@.shown(opt_name(parent_name))),
    ensures
        forall|n: nat| #[trigger]
            graph@.nested(graph@.shown(opt_name(parent_name)), n) ==> log_models(r@)
                == graph@.logs(entity_path_prefix@, pipeline_name@, opt_name(parent_name), n),
{
    let mut logs: Vec<GraphLog> = Vec::new();
    let ghost depth = choose|n: nat| graph@.nested(graph@.shown(opt_name(parent_name)), n);
    log_bin(pipeline_name, parent_name, graph, entity_path_prefix, &mut logs, Ghost(depth));
    proof {
        assert forall|n: nat| #[trigger]
            graph@.nested(graph@.shown(opt_name(parent_name)), n) implies log_models(logs@)
            == graph@.logs(entity_path_prefix@, pipeline_name@, opt_name(parent_name), n) by {
            graph@.lemma_logs_same(
                entity_path_prefix@,
                pipeline_name@,
                opt_name(parent_name),
                depth,
                n,
            );
            assert(log_models(logs@) =~= log_models(Seq::empty()) + graph@.logs(
                entity_path_prefix@,
                pipeline_name@,
                opt_name(parent_name),
                depth,
            ));
        }
    }
    logs
}

/// Appends the graphs to log for one bin and those below it.
fn log_bin(
    pipeline_name: &str,
    parent_name: Option<&str>,
    graph: &PipelineTree,
    entity_path_prefix: &str,
    logs: &mut Vec<GraphLog>,
    Ghost(depth): Ghost<nat>,
)
    requires
        graph@.nested(graph@.shown(opt_name(parent_name)), depth),
    ensures
        log_models(final(logs)@) == log_models(old(logs)@) + graph@.logs(
            entity_path_prefix@,
            pipeline_name@,
            opt_name(parent_name),
            depth,
        ),
    decreases depth,
{
    let bin_name = match parent_name {
        Some(parent) => parent,
        None => graph.root.as_str(),
    };
    let nodes = match parent_name {
        Some(parent) => graph.get_children(parent),
        None => graph.get_root_nodes(),
    };
    let ghost children = graph@.children(bin_name@);
    if nodes.len() == 0 {
        assert(children.len() == 0);
        assert(log_models(logs@) =~= log_models(old(logs)@) + Seq::<GraphLogModel>::empty());
        return;
    }
    assert(nodes@.len() == children.len());

    let mut node_names: Vec<String> = Vec::new();
    let mut labels: Vec<String> = Vec::new();
    let mut i: usize = 0;
    while i < nodes.len()
        invariant
            i <= nodes.len(),
            nodes@.len() == children.len(),
            forall|j: int| 0 <= j < nodes@.len() ==> (#[trigger] nodes@[j])@ == children[j],
            node_names.len() == i,
            labels.len() == i,
            forall|j: int| 0 <= j < i ==> (#[trigger] node_names@[j])@ == children[j].name,
            forall|j: int| 0 <= j < i ==> (#[trigger] labels@[j])@ == children[j].label(),
        decreases nodes.len() - i,
    {
        node_names.push(nodes[i].name.clone());
        labels.push(element_label(nodes[i]));
        i += 1;
    }
    let edges = match graph.get_bin(bin_name) {
        Some(bin) => bin.get_edges(),
        None => Vec::new(),
    };
    let log = GraphLog {
        entity_path: entity_path(entity_path_prefix, pipeline_name, parent_name),
        node_names,
        labels,
        edges,
    };
    let ghost own = GraphLogModel::of(
        GraphLogModel::path(entity_path_prefix@, pipeline_name@, opt_name(parent_name)),
        children,
        graph@.bins[bin_name@].named_edges(),
    );
    assert(log@ =~= own);
    logs.push(log);
    let ghost before = log_models(old(logs)@).push(own);
    assert(log_models(logs@) =~= before);

    let ghost below = (depth - 1) as nat;
    let mut k: usize = 0;
    while k < nodes.len()
        invariant
            k <= nodes.len(),
            depth > 0,
            below == depth - 1,
            children == graph@.children(bin_name@),
            nodes@.len() == children.len(),
            forall|j: int| 0 <= j < nodes@.len() ==> (#[trigger] nodes@[j])@ == children[j],
            forall|j: int|
                0 <= j < children.len() ==> graph@.nested((#[trigger] children[j]).name, below),
            log_models(logs@) == before + graph@.logs_below(
                entity_path_prefix@,
                pipeline_name@,
                children.take(k as int),
                below,
            ),
        decreases nodes.len() - k,
    {
        let name = nodes[k].name.as_str();
        proof {
            assert(children.take(k + 1).drop_last() =~= children.take(k as int));
            assert(children[k as int].name == name@);
        }
        if graph.get_children(name).len() != 0 {
            log_bin(pipeline_name, Some(name), graph, entity_path_prefix, logs, Ghost(below));
        } else {
            assert(graph@.children(name@).len() == 0);
        }
        assert(log_models(logs@) =~= before + graph@.logs_below(
            entity_path_prefix@,
            pipeline_name@,
            children.take(k + 1),
            below,
        ));
        k += 1;
    }
    assert(children.take(k as int) =~= children);
    assert(log_models(logs@) =~= log_models(old(logs)@) + (seq![own] + graph@.logs_below(
        entity_path_prefix@,
        pipeline_name@,
        children,
        below,
    )));
}

impl TreeModel {
    /// A bin that needs the depth `n` has `n` bins below it, itself counted.
    proof fn lemma_depth_needs_bins(self, bin: Seq<char>, n: nat) -> (found: Set<Seq<char>>)
        requires
            n > 0,
            self.nested(bin, n),
            !self.nested(bin, (n - 1) as nat),
        ensures
            found.finite(),
            found.len() == n,
            found.subset_of(self.bins.dom()),
            forall|x: Seq<char>| #[trigger] found.contains(x) ==> self.nested(x, n),
        decreases n,
    {
        let children = self.children(bin);
        assert(children.len() > 0);
        if n == 1 {
            let found = Set::<Seq<char>>::empty().insert(bin);
            assert forall|x: Seq<char>| #[trigger] found.contains(x) implies self.nested(x, n) by {
                assert(x == bin);
            }
            found
        } else {
            let i = choose|i: int|
                0 <= i < children.len() && !self.nested(
                    (#[trigger] children[i]).name,
                    (n - 2) as nat,
                );
            let below = self.lemma_depth_needs_bins(children[i].name, (n - 1) as nat);
            assert(!below.contains(bin));
            let found = below.insert(bin);
            assert forall|x: Seq<char>| #[trigger] found.contains(x) implies self.nested(x, n) by {
                if x != bin {
                    assert(below.contains(x));
                    self.lemma_nested_more(x, (n - 1) as nat, n);
                }
            }
            found
        }
    }

    /// Where going from bin to bin comes to an end, it does so within as many steps as there are
    /// bins.
    pub proof fn lemma_depth_at_most_bins(self, bin: Seq<char>)
        requires
            self.bins.dom().finite(),
            self.loggable(bin),
        ensures
            self.nested(bin, self.bins.dom().len()),
    {
        let limit = self.bins.dom().len();
        let n = choose|n: nat| self.nested(bin, n);
        if n <= limit {
            self.lemma_nested_more(bin, n, limit);
        } else {
            self.lemma_depth_descends(bin, n, limit);
        }
    }

    proof fn lemma_depth_descends(self, bin: Seq<char>, n: nat, limit: nat)
        requires
            self.bins.dom().finite(),
            limit == self.bins.dom().len(),
            self.nested(bin, n),
            n >= limit,
        ensures
            self.nested(bin, limit),
        decreases n,
    {
        if n > limit {
            if self.nested(bin, (n - 1) as nat) {
                self.lemma_depth_descends(bin, (n - 1) as nat, limit);
            } else {
                let found = self.lemma_depth_needs_bins(bin, n);
                vstd::set_lib::lemma_len_subset(found, self.bins.dom());
            }
        }
    }
}

/// Whether the bins below `bin_name` are nested at most `depth` deep.
fn is_nested(graph: &PipelineTree, bin_name: &str, depth: usize) -> (r: bool)
    ensures
        r == graph@.nested(bin_name@, depth as nat),
    decreases depth,
{
    let nodes = graph.get_children(bin_name);
    let ghost children = graph@.children(bin_name@);
    if nodes.len() == 0 {
        assert(children.len() == 0);
        return true;
    }
    assert(nodes@.len() == children.len());
    if depth == 0 {
        return false;
    }
    let mut i: usize = 0;
    while i < nodes.len()
        invariant
            i <= nodes.len(),
            depth > 0,
            children == graph@.children(bin_name@),
            nodes@.len() == children.len(),
            forall|j: int| 0 <= j < nodes@.len() ==> (#[trigger] nodes@[j])@ == children[j],
            forall|j: int|
                0 <= j < i ==> graph@.nested((#[trigger] children[j]).name, (depth - 1) as nat),
        decreases nodes.len() - i,
    {
        if !is_nested(graph, nodes[i].name.as_str(), depth - 1) {
            assert(!graph@.nested(children[i as int].name, (depth - 1) as nat));
            return false;
        }
        assert(nodes@[i as int]@ == children[i as int]);
        i += 1;
    }
    true
}

/// Whether listing the graphs of a tree comes to an end.
pub fn is_loggable(graph: &PipelineTree) -> (r: bool)
    requires
        graph.wf(),
    ensures
        r == graph@.loggable(graph@.root),
{
    broadcast use vstd::hash_map::group_hash_map_axioms;

    let depth = graph.bins.len();
    let r = is_nested(graph, graph.root.as_str(), depth);
    proof {
        assert(graph@.bins.dom() =~= graph.bins@.dom());
        if graph@.loggable(graph@.root) {
            graph@.lemma_depth_at_most_bins(graph@.root);
        }
    }
    r
}

/// Analyses a pipeline and lists the graphs to log for it.
pub fn log_pipeline(pipeline: &BinSnapshot, entity_path: &str) -> (r: Result<
    Vec<GraphLog>,
    GraphError,
>)
    requires
        pipeline.fits(),
        TreeModel::of(*pipeline).1 is None ==> TreeModel::of(*pipeline).0.loggable(pipeline.name@),
    ensures
        match TreeModel::of(*pipeline) {
            (tree, None) => r matches Ok(logs) && forall|n: nat| #[trigger]
                tree.nested(pipeline.name@, n) ==> log_models(logs@) == tree.logs(
                    entity_path@,
                    pipeline.name@,
                    None,
                    n,
                ),
            (_, Some(e)) => r matches Err(error) && error == e,
        },
{
    match analyze_pipeline(pipeline) {
        Ok(graph) => {
            proof {
                TreeModel { root: pipeline.name@, ..TreeModel::empty() }.lemma_walk_root(
                    *pipeline,
                    None,
                );
            }
            Ok(log_graph(pipeline.name.as_str(), None, &graph, entity_path))
        },
        Err(e) => Err(e),
    }
}

impl GraphLog {
    /// Whether the texts of the graph stay within what the archetypes can hold.
    pub open spec fn fits(self) -> bool {
        &&& crate::archetypes::utf8_bytes(self@.node_names) <= MAX_COMPONENT_BYTES
        &&& crate::archetypes::utf8_bytes(self@.labels) <= MAX_COMPONENT_BYTES
        &&& crate::archetypes::utf8_bytes(crate::archetypes::firsts(self@.edges))
            <= MAX_COMPONENT_BYTES
        &&& crate::archetypes::utf8_bytes(crate::archetypes::seconds(self@.edges))
            <= MAX_COMPONENT_BYTES
    }

    /// Whether the texts of the graph stay within what the archetypes can hold.
    pub fn fits_archetypes(&self) -> (r: bool)
        ensures
            r == self.fits(),
            r <==> {
                let sources = Seq::new(self.edges@.len(), |i: int| self.edges@[i].0@);
                let targets = Seq::new(self.edges@.len(), |i: int| self.edges@[i].1@);
                &&& crate::archetypes::utf8_bytes(crate::text::texts(self.node_names@))
                    <= 0x7fff_ffff
                &&& crate::archetypes::utf8_bytes(crate::text::texts(self.labels@)) <= 0x7fff_ffff
                &&& crate::archetypes::utf8_bytes(sources) <= 0x7fff_ffff
                &&& crate::archetypes::utf8_bytes(targets) <= 0x7fff_ffff
            },
    {
        proof {
            let sources = Seq::new(self.edges@.len(), |i: int| self.edges@[i].0@);
            let targets = Seq::new(self.edges@.len(), |i: int| self.edges@[i].1@);
            assert(sources =~= crate::archetypes::firsts(self@.edges));
            assert(targets =~= crate::archetypes::seconds(self@.edges));
        }
        let mut sources: Vec<String> = Vec::new();
        let mut targets: Vec<String> = Vec::new();
        let mut i: usize = 0;
        while i < self.edges.len()
            invariant
                i <= self.edges.len(),
                sources.len() == i,
                targets.len() == i,
                forall|j: int| 0 <= j < i ==> #[trigger] sources@[j] == self.edges@[j].0,
                forall|j: int| 0 <= j < i ==> #[trigger] targets@[j] == self.edges@[j].1,
            decreases self.edges.len() - i,
        {
            sources.push(self.edges[i].0.clone());
            targets.push(self.edges[i].1.clone());
            i += 1;
        }
        assert(crate::text::texts(sources@) =~= crate::archetypes::firsts(self@.edges));
        assert(crate::text::texts(targets@) =~= crate::archetypes::seconds(self@.edges));
        texts_fit(&self.node_names) && texts_fit(&self.labels) && texts_fit(&sources) && texts_fit(
            &targets,
        )
    }

    /// The archetypes that the graph is logged as: its elements with their labels and, where they
    /// are known, their positions, and its links as directed edges.
    pub fn into_archetypes(self, positions: Option<Vec<Position2D>>) -> (r: (
        GraphNodes,
        GraphEdges,
    ))
        requires
            self.fits(),
        ensures
            ({
                let labelled = crate::archetypes::labelled_archetype(
                    crate::archetypes::nodes_archetype(self@.node_names),
                    self@.labels,
                );
                r.0 == match positions {
                    Some(positions) => crate::archetypes::placed_archetype(labelled, positions@),
                    None => labelled,
                }
            }),
            r.1 == crate::archetypes::directed_archetype(
                crate::archetypes::edges_archetype(self@.edges),
            ),
    {
        let labelled = nodes_with_labels(nodes_with_names(self.node_names), self.labels);
        let nodes = match positions {
            Some(positions) => nodes_with_positions(labelled, positions),
            None => labelled,
        };
        let edges = edges_directed(edges_between(self.edges));
        (nodes, edges)
    }
}

} // verus!
