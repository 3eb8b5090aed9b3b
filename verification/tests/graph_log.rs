//! What is logged of pipelines.

use gst_rerun_tools::graph_log::{
    element_label, entity_path, is_loggable, log_graph, log_pipeline, GraphLog,
};
use gst_rerun_tools::layout::{layout_graph, layout_positions};
use gst_rerun_tools::model::GraphError;
use gst_rerun_tools::pipeline_graph::{analyze_pipeline, ElementInfo};
use gst_rerun_tools::snapshot::{
    BinSnapshot, ElementPads, ElementSnapshot, IterEvent, PadDirection, PadSnapshot, PeerPad,
};
use re_types::archetypes::{GraphEdges, GraphNodes};
use re_types::components::Position2D;

fn element(name: &str, factory: Option<&str>) -> IterEvent<ElementSnapshot> {
    IterEvent::Item(ElementSnapshot {
        name: name.to_string(),
        factory_name: factory.map(|f| f.to_string()),
        bin: None,
    })
}

fn nested(bin: BinSnapshot) -> IterEvent<ElementSnapshot> {
    IterEvent::Item(ElementSnapshot {
        name: bin.name.clone(),
        factory_name: Some("bin".to_string()),
        bin: Some(bin),
    })
}

fn link(source: &str, target: &str) -> IterEvent<ElementPads> {
    IterEvent::Item(ElementPads {
        name: source.to_string(),
        pads: vec![IterEvent::Item(PadSnapshot {
            linked: true,
            direction: PadDirection::Src,
            peer: Some(PeerPad {
                parent_element: Some(target.to_string()),
                in_bin: true,
            }),
        })],
    })
}

fn bin(
    name: &str,
    elements: Vec<IterEvent<ElementSnapshot>>,
    links: Vec<IterEvent<ElementPads>>,
) -> BinSnapshot {
    BinSnapshot {
        name: name.to_string(),
        elements,
        links,
    }
}

fn texts(s: &[&str]) -> Vec<String> {
    s.iter().map(|t| t.to_string()).collect()
}

fn pairs(s: &[(&str, &str)]) -> Vec<(String, String)> {
    s.iter()
        .map(|(a, b)| (a.to_string(), b.to_string()))
        .collect()
}

fn graph_log() -> GraphLog {
    GraphLog {
        entity_path: "x/p".to_string(),
        node_names: texts(&["a", "b"]),
        labels: texts(&["a\n(tee)", "b"]),
        edges: pairs(&[("a", "b"), ("a", "b")]),
    }
}

fn two_level_pipeline() -> BinSnapshot {
    let empty = bin("hollow", vec![], vec![]);
    let inner = bin(
        "inner",
        vec![element("q", Some("queue")), element("s", Some("fakesink"))],
        vec![link("q", "s")],
    );
    bin(
        "pipe",
        vec![
            element("src", Some("fakesrc")),
            nested(inner),
            nested(empty),
            element("odd", None),
        ],
        vec![link("src", "inner")],
    )
}

#[test]
fn labels() {
    let mut info = ElementInfo {
        name: "src0".to_string(),
        factory_name: Some("fakesrc".to_string()),
    };
    assert_eq!(element_label(&info), "src0\n(fakesrc)");
    info.factory_name = None;
    assert_eq!(element_label(&info), "src0");
}

#[test]
fn paths() {
    assert_eq!(entity_path("pipelines", "p0", None), "pipelines/p0");
    assert_eq!(
        entity_path("pipelines", "p0", Some("bin0")),
        "pipelines/p0/bin0"
    );
}

#[test]
fn each_bin_with_elements_is_logged_once() {
    let logs = log_pipeline(&two_level_pipeline(), "pipelines").unwrap();
    assert_eq!(logs.len(), 2);

    assert_eq!(logs[0].entity_path, "pipelines/pipe");
    assert_eq!(logs[0].node_names, ["src", "inner", "hollow", "odd"]);
    assert_eq!(
        logs[0].labels,
        ["src\n(fakesrc)", "inner\n(bin)", "hollow\n(bin)", "odd"]
    );
    assert_eq!(logs[0].edges, pairs(&[("src", "inner")]));

    assert_eq!(logs[1].entity_path, "pipelines/pipe/inner");
    assert_eq!(logs[1].node_names, ["q", "s"]);
    assert_eq!(logs[1].labels, ["q\n(queue)", "s\n(fakesink)"]);
    assert_eq!(logs[1].edges, pairs(&[("q", "s")]));
}

#[test]
fn bins_are_logged_in_the_order_of_the_elements_and_in_depth_first() {
    let c = bin("c", vec![element("x", None)], vec![]);
    let b = bin("b", vec![nested(c)], vec![]);
    let d = bin("d", vec![element("y", None)], vec![]);
    let p = bin("p", vec![nested(b), nested(d)], vec![]);
    let logs = log_pipeline(&p, "e").unwrap();
    let found: Vec<&str> = logs.iter().map(|l| l.entity_path.as_str()).collect();
    // The path of a nested bin holds its own name only, however deep it is.
    assert_eq!(found, ["e/p", "e/p/b", "e/p/c", "e/p/d"]);
}

#[test]
fn elements_of_different_bins_may_share_a_name() {
    let b = bin("b", vec![element("x", None)], vec![]);
    let d = bin("d", vec![element("x", None)], vec![]);
    let p = bin("p", vec![nested(b), nested(d), element("x", None)], vec![]);
    let logs = log_pipeline(&p, "e").unwrap();
    let found: Vec<&str> = logs.iter().map(|l| l.entity_path.as_str()).collect();
    assert_eq!(found, ["e/p", "e/p/b", "e/p/d"]);
}

#[test]
fn nothing_is_logged_of_an_empty_pipeline() {
    let logs = log_pipeline(&bin("p", vec![], vec![]), "e").unwrap();
    assert!(logs.is_empty());
}

#[test]
fn a_failing_traversal_logs_nothing() {
    let p = bin("p", vec![IterEvent::Error], vec![]);
    match log_pipeline(&p, "e") {
        Ok(_) => panic!("expected a failure"),
        Err(e) => assert_eq!(e, GraphError::ElementIterator),
    }
}

#[test]
fn one_bin_can_be_logged_on_its_own() {
    let tree = analyze_pipeline(&two_level_pipeline()).unwrap();
    assert!(is_loggable(&tree));
    let logs = log_graph("pipe", Some("inner"), &tree, "e");
    assert_eq!(logs.len(), 1);
    assert_eq!(logs[0].entity_path, "e/pipe/inner");
    assert!(log_graph("pipe", Some("hollow"), &tree, "e").is_empty());
    assert!(log_graph("pipe", Some("src"), &tree, "e").is_empty());
}

#[test]
fn an_element_called_like_the_bin_it_is_in_has_no_end() {
    let inner = bin("same", vec![element("same", None)], vec![]);
    let p = bin("p", vec![nested(inner)], vec![]);
    let tree = analyze_pipeline(&p).unwrap();
    assert!(!is_loggable(&tree));

    let outer = bin("p", vec![element("p", None)], vec![]);
    assert!(!is_loggable(&analyze_pipeline(&outer).unwrap()));
}

#[test]
fn an_element_called_like_another_bin_shows_that_bin_again() {
    let b = bin("b", vec![element("x", None)], vec![]);
    let d = bin("d", vec![element("b", None)], vec![]);
    let p = bin("p", vec![nested(b), nested(d)], vec![]);
    let tree = analyze_pipeline(&p).unwrap();
    assert!(is_loggable(&tree));
    let logs = log_graph("p", None, &tree, "e");
    let found: Vec<&str> = logs.iter().map(|l| l.entity_path.as_str()).collect();
    assert_eq!(found, ["e/p", "e/p/b", "e/p/d", "e/p/b"]);
}

#[test]
fn archetypes_without_positions() {
    let log = graph_log();
    assert!(log.fits_archetypes());
    let (nodes, edges) = log.into_archetypes(None);
    assert_eq!(
        nodes,
        GraphNodes::new(["a", "b"]).with_labels(["a\n(tee)", "b"])
    );
    assert!(nodes != GraphNodes::new(["a", "b"]));
    assert_eq!(
        edges,
        GraphEdges::new([("a", "b"), ("a", "b")]).with_directed_edges()
    );
    assert!(edges != GraphEdges::new([("a", "b"), ("a", "b")]));
}

#[test]
fn archetypes_with_positions() {
    let positions = vec![Position2D::new(0.0, 1.0), Position2D::new(2.0, 3.0)];
    let (nodes, edges) = graph_log().into_archetypes(Some(positions.clone()));
    assert_eq!(
        nodes,
        GraphNodes::new(["a", "b"])
            .with_labels(["a\n(tee)", "b"])
            .with_positions(positions)
    );
    assert_eq!(
        edges,
        GraphEdges::new([("a", "b"), ("a", "b")]).with_directed_edges()
    );
}

#[test]
fn the_layout_graph_has_each_node_and_each_edge_once() {
    let names = texts(&["c", "a", "b", "a"]);
    let edges = pairs(&[("a", "b"), ("c", "a"), ("a", "b"), ("b", "b")]);
    let graph = layout_graph(&names, &edges);
    let nodes: Vec<&str> = graph.nodes().collect();
    assert_eq!(nodes, ["c", "a", "b"]);
    let found: Vec<(&str, &str)> = graph.all_edges().map(|(a, b, _)| (a, b)).collect();
    assert_eq!(found, [("a", "b"), ("c", "a"), ("b", "b")]);
}

#[test]
fn the_layout_graph_takes_the_ends_of_edges_as_nodes() {
    let names = texts(&["a"]);
    let edges = pairs(&[("x", "y"), ("a", "x")]);
    let graph = layout_graph(&names, &edges);
    let nodes: Vec<&str> = graph.nodes().collect();
    assert_eq!(nodes, ["a", "x", "y"]);
    assert_eq!(graph.edge_count(), 2);
    assert!(graph.contains_edge("x", "y"));
    assert!(!graph.contains_edge("y", "x"));
}

#[test]
fn the_layout_of_a_bin_is_on_its_elements_only() {
    let logs = log_pipeline(&two_level_pipeline(), "e").unwrap();
    let graph = layout_graph(&logs[1].node_names, &logs[1].edges);
    let nodes: Vec<&str> = graph.nodes().collect();
    assert_eq!(nodes, ["q", "s"]);
}

#[test]
fn positions_are_used_only_where_all_are_known() {
    let all = vec![
        Some(Position2D::new(1.0, 2.0)),
        Some(Position2D::new(3.0, 4.0)),
    ];
    assert_eq!(
        layout_positions(&all),
        Some(vec![Position2D::new(1.0, 2.0), Position2D::new(3.0, 4.0)])
    );
    let some = vec![Some(Position2D::new(1.0, 2.0)), None];
    assert_eq!(layout_positions(&some), None);
    let none: Vec<Option<Position2D>> = vec![];
    assert_eq!(layout_positions(&none), Some(vec![]));
}
