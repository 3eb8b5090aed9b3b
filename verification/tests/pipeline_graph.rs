//! Traversal of pipelines.

use gst_rerun_tools::model::GraphError;
use gst_rerun_tools::pipeline_graph::{
    analyze_pipeline, BinGraph, ElementInfo, PipelineTree, PipelineTreeBuilder,
};
use gst_rerun_tools::snapshot::{
    BinSnapshot, ElementPads, ElementSnapshot, IterEvent, PadDirection, PadSnapshot, PeerPad,
};

fn element(name: &str, factory: &str) -> IterEvent<ElementSnapshot> {
    IterEvent::Item(ElementSnapshot {
        name: name.to_string(),
        factory_name: Some(factory.to_string()),
        bin: None,
    })
}

fn nested(name: &str, bin: BinSnapshot) -> IterEvent<ElementSnapshot> {
    IterEvent::Item(ElementSnapshot {
        name: name.to_string(),
        factory_name: Some("bin".to_string()),
        bin: Some(bin),
    })
}

fn pads(name: &str, pads: Vec<IterEvent<PadSnapshot>>) -> IterEvent<ElementPads> {
    IterEvent::Item(ElementPads {
        name: name.to_string(),
        pads,
    })
}

fn linked(direction: PadDirection, peer: &str) -> IterEvent<PadSnapshot> {
    IterEvent::Item(PadSnapshot {
        linked: true,
        direction,
        peer: Some(PeerPad {
            parent_element: Some(peer.to_string()),
            in_bin: true,
        }),
    })
}

fn unlinked(direction: PadDirection) -> IterEvent<PadSnapshot> {
    IterEvent::Item(PadSnapshot {
        linked: false,
        direction,
        peer: None,
    })
}

fn bin(
    name: &str,
    elements: Vec<IterEvent<ElementSnapshot>>,
    links: Vec<IterEvent<ElementPads>>,
) -> BinSnapshot {
    BinSnapshot {
        name: name.to_string(),
        elements,
        links,
    }
}

/// `fakesrc ! fakesink`
fn simple_pipeline() -> BinSnapshot {
    bin(
        "pipeline0",
        vec![
            element("fakesink0", "fakesink"),
            element("fakesrc0", "fakesrc"),
        ],
        vec![
            pads("fakesink0", vec![linked(PadDirection::Sink, "fakesrc0")]),
            pads("fakesrc0", vec![linked(PadDirection::Src, "fakesink0")]),
        ],
    )
}

/// `fakesrc ! bin.( queue ! fakesink )`
fn pipeline_with_bins() -> BinSnapshot {
    let to_ghost_pad = IterEvent::Item(PadSnapshot {
        linked: true,
        direction: PadDirection::Sink,
        peer: Some(PeerPad {
            parent_element: None,
            in_bin: false,
        }),
    });
    let inner = bin(
        "bin0",
        vec![
            element("fakesink0", "fakesink"),
            element("queue0", "queue"),
        ],
        vec![
            pads("fakesink0", vec![linked(PadDirection::Sink, "queue0")]),
            pads(
                "queue0",
                vec![to_ghost_pad, linked(PadDirection::Src, "fakesink0")],
            ),
        ],
    );
    bin(
        "pipeline0",
        vec![nested("bin0", inner), element("fakesrc0", "fakesrc")],
        vec![
            pads("bin0", vec![linked(PadDirection::Sink, "fakesrc0")]),
            pads("fakesrc0", vec![linked(PadDirection::Src, "bin0")]),
        ],
    )
}

fn names(graph: &BinGraph) -> Vec<&str> {
    graph
        .graph
        .node_weights()
        .map(|e| e.name.as_str())
        .collect()
}

fn edge(source: &str, target: &str) -> (String, String) {
    (source.to_string(), target.to_string())
}

fn failure(r: Result<PipelineTree, GraphError>) -> GraphError {
    match r {
        Ok(_) => panic!("expected a failure"),
        Err(e) => e,
    }
}

#[test]
fn test_simple_pipeline() {
    let pipeline = simple_pipeline();
    assert!(pipeline.fits_in_graph());

    let tree = analyze_pipeline(&pipeline).expect("Failed to analyze pipeline");

    // Should have one bin (the pipeline itself)
    assert_eq!(tree.bins.len(), 1);

    // Get the root bin
    let root_bin = tree.get_bin(&tree.root).expect("Should have root bin");

    // Should have 2 elements
    assert_eq!(root_bin.graph.node_count(), 2);
    // Should have 1 edge
    assert_eq!(root_bin.graph.edge_count(), 1);

    // Check that we have a fakesrc and fakesink
    let factories: Vec<_> = root_bin
        .graph
        .node_weights()
        .filter_map(|data| data.factory_name.as_ref())
        .collect();
    assert!(factories.contains(&&"fakesrc".to_string()));
    assert!(factories.contains(&&"fakesink".to_string()));
}

#[test]
fn test_pipeline_with_bins() {
    let pipeline = pipeline_with_bins();
    assert!(pipeline.fits_in_graph());

    let tree = analyze_pipeline(&pipeline).expect("Failed to analyze pipeline");

    // Should have 2 bins: the pipeline and the nested bin
    assert_eq!(tree.bins.len(), 2);

    // Get the root bin
    let root_bin = tree.get_bin(&tree.root).expect("Should have root bin");

    // Root should have 2 elements: fakesrc and bin
    assert_eq!(root_bin.graph.node_count(), 2);

    // Find the nested bin name
    let nested_bin_name = root_bin
        .graph
        .node_weights()
        .find(|elem| elem.name.starts_with("bin"))
        .map(|elem| elem.name.as_str())
        .expect("Should have a nested bin");

    // Get the nested bin graph
    let nested_bin = tree
        .get_bin(nested_bin_name)
        .expect("Should have nested bin graph");

    // Nested bin should have 2 elements: queue and fakesink
    assert_eq!(nested_bin.graph.node_count(), 2);
    assert_eq!(nested_bin.graph.edge_count(), 1);

    // Verify hierarchy
    assert_eq!(
        tree.get_parent_bin(nested_bin_name),
        Some(tree.root.as_str())
    );
}

#[test]
fn test_unlinked_elements() {
    let pipeline = bin(
        "pipeline0",
        vec![
            element("fakesink0", "fakesink"),
            element("fakesrc0", "fakesrc"),
        ],
        // Intentionally not linking them
        vec![
            pads("fakesink0", vec![unlinked(PadDirection::Sink)]),
            pads("fakesrc0", vec![unlinked(PadDirection::Src)]),
        ],
    );

    let tree = analyze_pipeline(&pipeline).expect("Failed to analyze pipeline");

    // Should have one bin (the pipeline)
    assert_eq!(tree.bins.len(), 1);

    let root_bin = tree.get_bin(&tree.root).expect("Should have root bin");

    assert_eq!(root_bin.graph.node_count(), 2);
    assert_eq!(root_bin.graph.edge_count(), 0); // No links because elements aren't connected
}

#[test]
fn elements_keep_their_order_and_links_their_direction() {
    let tree = analyze_pipeline(&simple_pipeline()).unwrap();
    assert_eq!(tree.root, "pipeline0");
    let root = tree.get_bin("pipeline0").unwrap();
    assert_eq!(root.bin_name, "pipeline0");
    assert_eq!(names(root), ["fakesink0", "fakesrc0"]);
    assert_eq!(root.get_edges(), [edge("fakesrc0", "fakesink0")]);
    assert_eq!(root.node_indices.get("fakesink0"), Some(&0));
    assert_eq!(root.node_indices.get("fakesrc0"), Some(&1));
    assert_eq!(root.node_indices.get("queue0"), None);
    assert_eq!(tree.get_parent_bin("pipeline0"), None);
    assert!(tree.get_bin("fakesrc0").is_none());
}

#[test]
fn children_are_the_elements_of_a_bin() {
    let tree = analyze_pipeline(&pipeline_with_bins()).unwrap();
    let root: Vec<&str> = tree
        .get_root_nodes()
        .iter()
        .map(|e| e.name.as_str())
        .collect();
    assert_eq!(root, ["bin0", "fakesrc0"]);
    let children: Vec<&str> = tree
        .get_children("bin0")
        .iter()
        .map(|e| e.name.as_str())
        .collect();
    assert_eq!(children, ["fakesink0", "queue0"]);
    assert!(tree.get_children("queue0").is_empty());
    assert!(tree.get_children("elsewhere").is_empty());
}

#[test]
fn links_of_nested_bins_stay_in_their_bin() {
    let tree = analyze_pipeline(&pipeline_with_bins()).unwrap();
    let root = tree.get_bin("pipeline0").unwrap();
    let inner = tree.get_bin("bin0").unwrap();
    assert_eq!(root.get_edges(), [edge("fakesrc0", "bin0")]);
    assert_eq!(inner.get_edges(), [edge("queue0", "fakesink0")]);
}

#[test]
fn links_that_leave_the_bin_do_not_count() {
    let pipeline = bin(
        "p",
        vec![element("a", "identity")],
        vec![pads(
            "a",
            vec![
                linked(PadDirection::Src, "elsewhere"),
                IterEvent::Item(PadSnapshot {
                    linked: true,
                    direction: PadDirection::Src,
                    peer: Some(PeerPad {
                        parent_element: Some("outside".to_string()),
                        in_bin: false,
                    }),
                }),
                IterEvent::Item(PadSnapshot {
                    linked: true,
                    direction: PadDirection::Src,
                    peer: None,
                }),
                IterEvent::Item(PadSnapshot {
                    linked: true,
                    direction: PadDirection::Src,
                    peer: Some(PeerPad {
                        parent_element: None,
                        in_bin: false,
                    }),
                }),
                linked(PadDirection::Unknown, "a"),
            ],
        )],
    );
    let tree = analyze_pipeline(&pipeline).unwrap();
    assert!(tree.get_bin("p").unwrap().get_edges().is_empty());
}

#[test]
fn a_pad_that_is_not_linked_does_not_count_even_with_a_peer() {
    let pipeline = bin(
        "p",
        vec![element("a", "identity"), element("b", "identity")],
        vec![pads(
            "a",
            vec![IterEvent::Item(PadSnapshot {
                linked: false,
                direction: PadDirection::Src,
                peer: Some(PeerPad {
                    parent_element: Some("b".to_string()),
                    in_bin: true,
                }),
            })],
        )],
    );
    let tree = analyze_pipeline(&pipeline).unwrap();
    assert!(tree.get_bin("p").unwrap().get_edges().is_empty());
}

#[test]
fn parallel_links_and_self_links_are_kept() {
    let pipeline = bin(
        "p",
        vec![element("a", "tee"), element("b", "funnel")],
        vec![pads(
            "a",
            vec![
                linked(PadDirection::Src, "b"),
                linked(PadDirection::Src, "b"),
                linked(PadDirection::Src, "a"),
            ],
        )],
    );
    let tree = analyze_pipeline(&pipeline).unwrap();
    assert_eq!(
        tree.get_bin("p").unwrap().get_edges(),
        [edge("a", "b"), edge("a", "b"), edge("a", "a")]
    );
}

#[test]
fn a_link_to_a_namesake_in_another_bin_does_not_count() {
    let pipeline = bin(
        "p",
        vec![element("a", "identity"), element("b", "identity")],
        vec![pads(
            "a",
            vec![IterEvent::Item(PadSnapshot {
                linked: true,
                direction: PadDirection::Src,
                peer: Some(PeerPad {
                    parent_element: Some("b".to_string()),
                    in_bin: false,
                }),
            })],
        )],
    );
    let tree = analyze_pipeline(&pipeline).unwrap();
    assert!(tree.get_bin("p").unwrap().get_edges().is_empty());
}

#[test]
fn a_restarted_iteration_counts_elements_once() {
    let pipeline = bin(
        "p",
        vec![
            element("a", "fakesrc"),
            IterEvent::Resync,
            element("a", "fakesrc"),
            element("b", "fakesink"),
        ],
        vec![],
    );
    let tree = analyze_pipeline(&pipeline).unwrap();
    let root = tree.get_bin("p").unwrap();
    assert_eq!(names(root), ["a", "b"]);
    assert_eq!(root.node_indices.len(), 2);
    assert_eq!(root.node_indices.get("a"), Some(&0));
    assert_eq!(root.node_indices.get("b"), Some(&1));
}

#[test]
fn a_restarted_iteration_forgets_elements_that_are_gone() {
    let gone = bin("gone", vec![element("x", "identity")], vec![]);
    let pipeline = bin(
        "p",
        vec![
            element("a", "identity"),
            nested("gone", gone),
            IterEvent::Resync,
            element("b", "identity"),
        ],
        vec![],
    );
    let tree = analyze_pipeline(&pipeline).unwrap();
    assert_eq!(names(tree.get_bin("p").unwrap()), ["b"]);
    assert_eq!(tree.bins.len(), 1);
    assert!(tree.get_bin("gone").is_none());
    assert_eq!(tree.get_parent_bin("gone"), None);
}

#[test]
fn a_failure_before_a_restart_is_still_a_failure() {
    let failing = bin("b", vec![IterEvent::Error], vec![]);
    let pipeline = bin(
        "p",
        vec![nested("b", failing), IterEvent::Resync],
        vec![],
    );
    assert_eq!(
        failure(analyze_pipeline(&pipeline)),
        GraphError::ElementIterator
    );
}

#[test]
fn a_restarted_reading_of_links_counts_them_once() {
    let pipeline = bin(
        "p",
        vec![
            element("a", "tee"),
            element("b", "queue"),
            element("c", "queue"),
        ],
        vec![
            pads("a", vec![linked(PadDirection::Src, "b")]),
            IterEvent::Resync,
            pads(
                "a",
                vec![
                    linked(PadDirection::Src, "c"),
                    IterEvent::Resync,
                    linked(PadDirection::Src, "b"),
                    linked(PadDirection::Src, "c"),
                ],
            ),
            pads("b", vec![linked(PadDirection::Src, "c")]),
        ],
    );
    let tree = analyze_pipeline(&pipeline).unwrap();
    assert_eq!(
        tree.get_bin("p").unwrap().get_edges(),
        [edge("a", "b"), edge("a", "c"), edge("b", "c")]
    );
}

#[test]
fn the_lookup_table_and_the_graph_agree() {
    let tree = analyze_pipeline(&pipeline_with_bins()).unwrap();
    for name in ["pipeline0", "bin0"] {
        let graph = tree.get_bin(name).unwrap();
        assert_eq!(graph.node_indices.len(), graph.graph.node_count());
        for (i, n) in names(graph).into_iter().enumerate() {
            assert_eq!(graph.node_indices.get(n), Some(&i));
        }
    }
}

#[test]
fn elements_of_different_bins_may_have_the_same_name() {
    let first = bin("first", vec![element("x", "queue")], vec![]);
    let second = bin("second", vec![element("x", "tee")], vec![]);
    let pipeline = bin(
        "p",
        vec![nested("first", first), nested("second", second)],
        vec![],
    );
    let tree = analyze_pipeline(&pipeline).unwrap();
    assert_eq!(tree.bins.len(), 3);
    assert_eq!(tree.get_parent_bin("first"), Some("p"));
    assert_eq!(tree.get_parent_bin("second"), Some("p"));
    let factory = |bin: &str| tree.get_children(bin)[0].factory_name.clone().unwrap();
    assert_eq!(factory("first"), "queue");
    assert_eq!(factory("second"), "tee");
}

#[test]
fn a_failing_element_iterator_ends_the_traversal() {
    let first = bin("p", vec![IterEvent::Error], vec![]);
    assert_eq!(
        failure(analyze_pipeline(&first)),
        GraphError::ElementIterator
    );
    let second = bin("p", vec![element("a", "identity")], vec![IterEvent::Error]);
    assert_eq!(
        failure(analyze_pipeline(&second)),
        GraphError::ElementIterator
    );
    let inner = bin("b", vec![IterEvent::Error], vec![]);
    let outer = bin("p", vec![nested("b", inner), IterEvent::Error], vec![]);
    assert_eq!(
        failure(analyze_pipeline(&outer)),
        GraphError::ElementIterator
    );
}

#[test]
fn a_failing_pad_iterator_ends_the_traversal() {
    let pipeline = bin(
        "p",
        vec![element("a", "identity")],
        vec![
            pads("a", vec![unlinked(PadDirection::Sink), IterEvent::Error]),
            IterEvent::Error,
        ],
    );
    assert_eq!(failure(analyze_pipeline(&pipeline)), GraphError::PadIterator);
}

#[test]
fn failures_as_text() {
    assert_eq!(
        GraphError::ElementIterator.message(),
        "Element iterator error"
    );
    assert_eq!(GraphError::PadIterator.message(), "Pad iterator error");
}

#[test]
fn a_builder_is_empty_again_after_a_tree() {
    let mut builder = PipelineTreeBuilder::default();
    let first = builder.build_tree(&pipeline_with_bins()).unwrap();
    assert_eq!(first.bins.len(), 2);
    let second = builder.build_tree(&simple_pipeline()).unwrap();
    assert_eq!(second.bins.len(), 1);
    assert_eq!(second.get_parent_bin("bin0"), None);
}

#[test]
fn a_builder_keeps_what_it_had_gathered_before_a_failure() {
    let inner = bin("b", vec![element("x", "identity")], vec![]);
    let failing = bin("p", vec![nested("b", inner), IterEvent::Error], vec![]);
    let mut builder = PipelineTreeBuilder::new();
    assert_eq!(
        failure(builder.build_tree(&failing)),
        GraphError::ElementIterator
    );
    let tree = builder.build_tree(&simple_pipeline()).unwrap();
    assert_eq!(tree.root, "pipeline0");
    assert_eq!(tree.bins.len(), 2);
    assert_eq!(names(tree.get_bin("b").unwrap()), ["x"]);
    assert_eq!(tree.get_parent_bin("b"), Some("p"));
    assert!(tree.get_bin("p").is_none());
}

#[test]
fn of_bins_with_the_same_name_the_later_counts() {
    let first = bin("same", vec![element("x", "identity")], vec![]);
    let second = bin("same", vec![element("y", "identity")], vec![]);
    let holder = bin("holder", vec![nested("same", second)], vec![]);
    let pipeline = bin(
        "p",
        vec![nested("same", first), nested("holder", holder)],
        vec![],
    );
    let tree = analyze_pipeline(&pipeline).unwrap();
    assert_eq!(tree.bins.len(), 3);
    assert_eq!(names(tree.get_bin("same").unwrap()), ["y"]);
    assert_eq!(tree.get_parent_bin("same"), Some("holder"));
}

#[test]
fn all_bins_of_a_deep_pipeline_are_found() {
    let c = bin("c", vec![element("x", "identity")], vec![]);
    let b = bin("b", vec![nested("c", c)], vec![]);
    let a = bin("a", vec![nested("b", b), element("y", "identity")], vec![]);
    let tree = analyze_pipeline(&a).unwrap();
    assert_eq!(tree.bins.len(), 3);
    assert_eq!(tree.get_parent_bin("c"), Some("b"));
    assert_eq!(tree.get_parent_bin("b"), Some("a"));
    assert_eq!(tree.get_parent_bin("a"), None);
    assert_eq!(tree.get_parent_bin("y"), None);
    assert_eq!(names(tree.get_bin("c").unwrap()), ["x"]);
}

#[test]
fn an_empty_pipeline_has_a_graph() {
    let tree = analyze_pipeline(&bin("p", vec![], vec![])).unwrap();
    assert_eq!(tree.bins.len(), 1);
    assert_eq!(tree.get_bin("p").unwrap().graph.node_count(), 0);
    assert!(tree.get_root_nodes().is_empty());
}

#[test]
fn defaults_are_empty() {
    let graph = BinGraph::default();
    assert_eq!(graph.bin_name, "");
    assert_eq!(graph.graph.node_count(), 0);
    assert!(graph.get_edges().is_empty());
    let tree = PipelineTree::default();
    assert_eq!(tree.root, "");
    assert_eq!(tree.bins.len(), 0);
    assert_eq!(tree.hierarchy.len(), 0);
}

#[test]
fn elements_can_be_cloned() {
    let info = ElementInfo {
        name: "a".to_string(),
        factory_name: Some("tee".to_string()),
    };
    let copy = info.clone();
    assert_eq!(copy.name, "a");
    assert_eq!(copy.factory_name.as_deref(), Some("tee"));
}
