//! When the tracer logs, and what its parameters mean.

use gst_rerun_tools::tracer::{
    find_pipeline, params_structure, tracer_hooks, Ancestor, ElementState, HookEvent, LogDecision,
    RerunTracer, TracerConfig, TracerHook, TracerParams, TracingState, ViewerRequest,
    DEFAULT_DEBOUNCE_MS,
};

const MS: u128 = 1_000_000;

fn state(debounce_ms: u64) -> TracingState<&'static str, u32> {
    TracingState::new(debounce_ms, Some("rec"), "pipelines".to_string())
}

fn no_params() -> TracerParams {
    TracerParams {
        debounce: None,
        spawn_viewer: None,
        app_id: None,
        recording_id: None,
        entity_path: None,
    }
}

fn tracer(debounce: i32) -> RerunTracer<&'static str, u32> {
    let config = TracerConfig::from_params(Some(TracerParams {
        debounce: Some(debounce),
        ..no_params()
    }));
    let mut tracer = RerunTracer::new();
    tracer.constructed(config, Some("rec"));
    tracer
}

fn ancestor(kind: &str, is_pipeline: bool) -> Ancestor {
    Ancestor {
        kind: kind.to_string(),
        is_pipeline,
    }
}

#[test]
fn a_new_state_has_logged_nothing() {
    let s = state(100);
    assert_eq!(s.debounce_ms, 100);
    assert_eq!(s.rec, Some("rec"));
    assert_eq!(s.entity_path, "pipelines");
    assert!(s.last_logged.is_empty());
    assert!(s.pending_logs.is_empty());
    assert_eq!(s.timeout_source_id, None);
}

#[test]
fn a_pipeline_is_not_logged_within_twice_the_debounce_time() {
    let mut s = state(100);
    let t0 = 5_000 * MS;
    assert_eq!(s.should_log_immediately(1, ElementState::Ready, t0), (true, None));
    assert_eq!(
        s.should_log_immediately(1, ElementState::Null, t0 + 200 * MS - 1),
        (false, None)
    );
    assert_eq!(s.last_logged.get(&1), Some(&t0));
    assert_eq!(
        s.should_log_immediately(1, ElementState::Ready, t0 + 200 * MS),
        (true, None)
    );
    assert_eq!(s.last_logged.get(&1), Some(&(t0 + 200 * MS)));
}

#[test]
fn a_settled_pipeline_is_always_logged() {
    let mut s = state(100);
    s.pending_logs.insert(1);
    s.pending_logs.insert(2);
    s.arm_timeout(7);
    assert_eq!(
        s.should_log_immediately(1, ElementState::Playing, 10),
        (true, Some(7))
    );
    assert_eq!(s.timeout_source_id, None);
    assert!(!s.pending_logs.contains(&1));
    assert!(s.pending_logs.contains(&2));
    assert_eq!(
        s.should_log_immediately(1, ElementState::Paused, 11),
        (true, None)
    );
    assert_eq!(s.last_logged.get(&1), Some(&11));
    assert_eq!(
        s.should_log_immediately(1, ElementState::VoidPending, 12),
        (false, None)
    );
}

#[test]
fn pipelines_do_not_hold_each_other_back() {
    let mut s = state(100);
    assert!(s.should_log_immediately(1, ElementState::Ready, 0).0);
    assert!(s.should_log_immediately(2, ElementState::Ready, 1).0);
    assert!(!s.should_log_immediately(1, ElementState::Ready, 2).0);
    assert!(!s.should_log_immediately(2, ElementState::Ready, 3).0);
}

#[test]
fn a_clock_that_goes_back_counts_as_no_time() {
    let mut s = state(100);
    assert!(s.should_log_immediately(1, ElementState::Ready, 1_000 * MS).0);
    assert!(!s.should_log_immediately(1, ElementState::Ready, 0).0);
}

#[test]
fn a_very_long_debounce_time_does_not_overflow() {
    let mut s = state(u64::MAX);
    assert!(s.should_log_immediately(1, ElementState::Ready, 0).0);
    let limit = u64::MAX as u128 * MS;
    assert!(!s.should_log_immediately(1, ElementState::Ready, limit - 1).0);
    assert!(s.should_log_immediately(1, ElementState::Ready, limit).0);
}

#[test]
fn putting_off_hands_out_the_last_timer() {
    let mut s = state(100);
    s.arm_timeout(7);
    let deferred = s
        .schedule_deferred_log(1, Some("other"), "below".to_string())
        .unwrap();
    assert_eq!(deferred.cancel, Some(7));
    assert_eq!(deferred.pipeline, 1);
    assert_eq!(deferred.delay_ms, 100);
    assert_eq!(deferred.rec, "other");
    assert_eq!(deferred.entity_path, "below");
    assert!(s.pending_logs.contains(&1));
    assert_eq!(s.timeout_source_id, None);
}

#[test]
fn nothing_is_put_off_without_a_recording() {
    let mut s = state(100);
    s.arm_timeout(7);
    assert!(s
        .schedule_deferred_log(1, None, "below".to_string())
        .is_none());
    assert!(s.pending_logs.is_empty());
    assert_eq!(s.timeout_source_id, Some(7));
}

#[test]
fn a_recording_can_be_replaced() {
    let mut s = state(100);
    s.set_recorder("new");
    assert_eq!(s.rec, Some("new"));

    let mut t: RerunTracer<&str, u32> = RerunTracer::new();
    assert!(!t.set_recorder("new"));
    assert!(t.state.is_none());
    let mut t = tracer(100);
    assert!(t.set_recorder("new"));
    assert_eq!(t.state.unwrap().rec, Some("new"));
}

#[test]
fn a_tracer_that_is_not_ready_does_nothing() {
    let mut t: RerunTracer<&str, u32> = RerunTracer::new();
    assert!(matches!(
        t.log_pipeline_graph(1, ElementState::Playing, 0),
        LogDecision::Skip
    ));
    t.arm_timeout(1);
    assert!(t.state.is_none());
}

#[test]
fn a_tracer_without_a_recording_does_nothing() {
    let mut t: RerunTracer<&str, u32> = RerunTracer::new();
    t.constructed(TracerConfig::from_params(None), None);
    assert!(matches!(
        t.log_pipeline_graph(1, ElementState::Playing, 0),
        LogDecision::Skip
    ));
    assert!(t.state.unwrap().last_logged.is_empty());
}

#[test]
fn a_tracer_logs_now_then_later() {
    let mut t = tracer(100);
    match t.log_pipeline_graph(1, ElementState::Ready, 0) {
        LogDecision::Now {
            rec,
            entity_path,
            cancel,
        } => {
            assert_eq!(rec, "rec");
            assert_eq!(entity_path, "pipelines");
            assert_eq!(cancel, None);
        }
        other => panic!("unexpected: {:?}", other),
    }
    match t.log_pipeline_graph(1, ElementState::Ready, 1) {
        LogDecision::Later(deferred) => {
            assert_eq!(deferred.cancel, None);
            assert_eq!(deferred.delay_ms, 100);
            assert_eq!(deferred.pipeline, 1);
        }
        other => panic!("unexpected: {:?}", other),
    }
    t.arm_timeout(42);
    match t.log_pipeline_graph(1, ElementState::Ready, 2) {
        LogDecision::Later(deferred) => assert_eq!(deferred.cancel, Some(42)),
        other => panic!("unexpected: {:?}", other),
    }
    t.arm_timeout(43);
    match t.log_pipeline_graph(1, ElementState::Playing, 3) {
        LogDecision::Now { cancel, .. } => assert_eq!(cancel, Some(43)),
        other => panic!("unexpected: {:?}", other),
    }
    let s = t.state.unwrap();
    assert!(s.pending_logs.is_empty());
    assert_eq!(s.timeout_source_id, None);
}

#[test]
fn default_configuration() {
    for params in [None, Some(no_params())] {
        let c = TracerConfig::from_params(params);
        assert_eq!(c.debounce_ms, 300);
        assert_eq!(c.debounce_ms, DEFAULT_DEBOUNCE_MS);
        assert!(c.spawn_viewer);
        assert_eq!(c.app_id, None);
        assert_eq!(c.recording_id, None);
        assert_eq!(c.entity_path, "pipelines");
        assert!(matches!(c.viewer_request(), ViewerRequest::MissingAppId));
    }
}

#[test]
fn given_configuration() {
    let c = TracerConfig::from_params(Some(TracerParams {
        debounce: Some(100),
        spawn_viewer: Some(false),
        app_id: Some("app".to_string()),
        recording_id: Some("shared".to_string()),
        entity_path: Some("graphs".to_string()),
    }));
    assert_eq!(c.debounce_ms, 100);
    assert!(!c.spawn_viewer);
    assert_eq!(c.app_id.as_deref(), Some("app"));
    assert_eq!(c.recording_id.as_deref(), Some("shared"));
    assert_eq!(c.entity_path, "graphs");
    assert!(matches!(c.viewer_request(), ViewerRequest::NotWanted));
}

#[test]
fn only_a_positive_debounce_time_counts() {
    for (given, expected) in [(0, 300), (-5, 300), (1, 1), (i32::MAX, 2_147_483_647)] {
        let c = TracerConfig::from_params(Some(TracerParams {
            debounce: Some(given),
            ..no_params()
        }));
        assert_eq!(c.debounce_ms, expected);
    }
}

#[test]
fn a_viewer_is_opened_for_the_application() {
    let c = TracerConfig::from_params(Some(TracerParams {
        app_id: Some("app".to_string()),
        recording_id: Some("shared".to_string()),
        ..no_params()
    }));
    match c.viewer_request() {
        ViewerRequest::Spawn {
            app_id,
            recording_id,
        } => {
            assert_eq!(app_id, "app");
            assert_eq!(recording_id.as_deref(), Some("shared"));
        }
        other => panic!("unexpected: {:?}", other),
    }
}

#[test]
fn parameters_become_a_structure() {
    assert_eq!(
        params_structure("debounce=100,spawn-viewer=false"),
        "params,debounce=100,spawn-viewer=false"
    );
}

#[test]
fn hooks_in_order() {
    assert_eq!(
        tracer_hooks(),
        [
            TracerHook::BinAddPost,
            TracerHook::BinRemovePost,
            TracerHook::ElementNew,
            TracerHook::ElementAddPad,
            TracerHook::ElementRemovePad,
            TracerHook::ElementChangeStatePost,
            TracerHook::PadLinkPost,
            TracerHook::PadUnlinkPost,
        ]
    );
}

#[test]
fn subjects_of_events() {
    for success in [true, false] {
        let expected = |e: i32| if success { Some(e) } else { None };
        assert_eq!(HookEvent::BinAddPost { bin: 1, success }.subject(), expected(1));
        assert_eq!(HookEvent::BinRemovePost { bin: 2, success }.subject(), expected(2));
        assert_eq!(
            HookEvent::ElementChangeStatePost { element: 3, success }.subject(),
            expected(3)
        );
        assert_eq!(
            HookEvent::PadLinkPost { src_parent: Some(4), success }.subject(),
            expected(4)
        );
        assert_eq!(
            HookEvent::PadUnlinkPost { src_parent: Some(5), success }.subject(),
            expected(5)
        );
        assert_eq!(
            HookEvent::PadLinkPost::<i32> { src_parent: None, success }.subject(),
            None
        );
        assert_eq!(
            HookEvent::PadUnlinkPost::<i32> { src_parent: None, success }.subject(),
            None
        );
    }
    assert_eq!(HookEvent::ElementNew { element: 6 }.subject(), Some(6));
    assert_eq!(HookEvent::ElementAddPad { element: 7 }.subject(), Some(7));
    assert_eq!(HookEvent::ElementRemovePad { element: 8 }.subject(), Some(8));
}

#[test]
fn the_nearest_pipeline_is_found() {
    let way = vec![
        ancestor("GstFakeSrc", false),
        ancestor("GstPipeline", false),
        ancestor("MyPipeline", true),
        ancestor("GstPipeline", true),
        ancestor("GstPipeline", true),
    ];
    assert_eq!(find_pipeline(&way), Some(3));
}

#[test]
fn there_may_be_no_pipeline() {
    assert_eq!(find_pipeline(&vec![]), None);
    assert_eq!(
        find_pipeline(&vec![ancestor("GstFakeSrc", false), ancestor("GstBin", false)]),
        None
    );
}
