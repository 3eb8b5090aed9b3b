//! The tracer: when the graph of a pipeline is logged, and what its parameters mean.
//!
//! A pipeline is known by a number that stays the same as long as the pipeline exists. Points in
//! time are nanoseconds since a fixed moment. `R` stands for the handle of a Rerun recording, `S`
//! for the handle of a timer.

use std::collections::{HashMap, HashSet};
use vstd::prelude::*;

use crate::text::{copy_opt, same_text};

verus! {

broadcast use vstd::std_specs::hash::group_hash_axioms;

/// The state of a GStreamer element.
#[derive(Debug, Clone, Copy, PartialEq, Eq, Structural)]
pub enum ElementState {
    /// No state is pending.
    VoidPending,
    /// The initial state.
    Null,
    /// Ready to be paused.
    Ready,
    /// Paused.
    Paused,
    /// Playing.
    Playing,
}

impl ElementState {
    /// Whether a pipeline that reaches the state has settled.
    pub open spec fn settled(self) -> bool {
        self is Playing || self is Paused
    }
}

/// What the tracer remembers between two events.
#[derive(Debug)]
pub struct TracingState<R, S> {
    /// When each pipeline was last logged at once.
    pub last_logged: HashMap<u64, u128>,
    /// The pipelines that were put off.
    pub pending_logs: HashSet<u64>,
    /// The timer that was started last.
    pub timeout_source_id: Option<S>,
    /// How long logging is put off, in milliseconds.
    pub debounce_ms: u64,
    /// The recording to log to.
    pub rec: Option<R>,
    /// The path that graphs are logged below.
    pub entity_path: String,
}

/// A log that is put off: the timer to stop, and what to do after the delay.
#[derive(Debug)]
pub struct DeferredLog<R, S> {
    /// The timer that is no longer needed.
    pub cancel: Option<S>,
    /// The pipeline to log.
    pub pipeline: u64,
    /// The delay, in milliseconds.
    pub delay_ms: u64,
    /// The recording to log to.
    pub rec: R,
    /// The path to log below.
    pub entity_path: String,
}

/// The shortest time between two logs of a pipeline that has not settled, in nanoseconds: twice
/// the debounce time.
pub open spec fn rate_limit_nanos(debounce_ms: u64) -> int {
    (if debounce_ms * 2 <= u64::MAX {
        debounce_ms * 2
    } else {
        u64::MAX as int
    }) * 1_000_000
}

/// Whether a pipeline in the given state is logged at once, when the times of the last logs are
/// known: always where it has settled, and otherwise unless it was logged too recently.
pub open spec fn at_once(
    last_logged: Map<u64, u128>,
    debounce_ms: u64,
    pipeline: u64,
    state: ElementState,
    now: u128,
) -> bool {
    state.settled() || !last_logged.contains_key(pipeline) || {
        let last = last_logged[pipeline];
        let elapsed: int = if now >= last {
            now - last
        } else {
            0
        };
        elapsed >= rate_limit_nanos(debounce_ms)
    }
}

impl<R, S> TracingState<R, S> {
    /// Whether a pipeline in the given state is logged at once.
    pub open spec fn logs_at_once(self, pipeline: u64, state: ElementState, now: u128) -> bool {
        at_once(self.last_logged@, self.debounce_ms, pipeline, state, now)
    }

    /// The state of a tracer that has logged nothing.
    pub fn new(debounce_ms: u64, rec: Option<R>, entity_path: String) -> (r: TracingState<R, S>)
        ensures
            r.debounce_ms == debounce_ms,
            r.rec == rec,
            r.entity_path == entity_path,
            r.last_logged@ == Map::<u64, u128>::empty(),
            r.pending_logs@ == Set::<u64>::empty(),
            r.timeout_source_id is None,
    {
        TracingState {
            debounce_ms,
            rec,
            entity_path,
            last_logged: HashMap::new(),
            pending_logs: HashSet::new(),
            timeout_source_id: None,
        }
    }

    /// Sets the recording to log to.
    pub fn set_recorder(&mut self, recorder: R)
        ensures
            *final(self) == (TracingState { rec: Some(recorder), ..*old(self) }),
    {
        self.rec = Some(recorder);
    }

    /// Puts the log of a pipeline off. The timer that was started last is handed out to be
    /// stopped; `arm_timeout` takes the one that is started for this log. Without a recording
    /// nothing is put off.
    pub fn schedule_deferred_log(
        &mut self,
        pipeline: u64,
        rec: Option<R>,
        entity_path: String,
    ) -> (r: Option<DeferredLog<R, S>>)
        ensures
            match rec {
                Some(rec) => {
                    &&& r == Some(
                        DeferredLog {
                            cancel: old(self).timeout_source_id,
                            pipeline,
                            delay_ms: old(self).debounce_ms,
                            rec,
                            entity_path,
                        },
                    )
                    &&& final(self).pending_logs@ == old(self).pending_logs@.insert(pipeline)
                    &&& final(self).timeout_source_id is None
                    &&& final(self).last_logged == old(self).last_logged
                    &&& final(self).debounce_ms == old(self).debounce_ms
                    &&& final(self).rec == old(self).rec
                    &&& final(self).entity_path == old(self).entity_path
                },
                None => r is None && *final(self) == *old(self),
            },
    {
        match rec {
            Some(rec) => {
                self.pending_logs.insert(pipeline);
                let cancel = self.timeout_source_id.take();
                Some(
                    DeferredLog { cancel, pipeline, delay_ms: self.debounce_ms, rec, entity_path },
                )
            },
            None => None,
        }
    }

    /// Remembers the timer that was started for a log that was put off.
    pub fn arm_timeout(&mut self, source: S)
        ensures
            *final(self) == (TracingState { timeout_source_id: Some(source), ..*old(self) }),
    {
        self.timeout_source_id = Some(source);
    }

    /// Decides whether a pipeline is logged at once, and remembers it where it is. A pipeline that
    /// has settled is no longer put off, and the timer that was started last is handed out to be
    /// stopped.
    pub fn should_log_immediately(&mut self, pipeline: u64, state: ElementState, now: u128) -> (r: (
        bool,
        Option<S>,
    ))
        ensures
            r.0 == old(self).logs_at_once(pipeline, state, now),
            state is Playing || state is Paused ==> r.0,
            !old(self).last_logged@.contains_key(pipeline) ==> r.0,
            ({
                let last = old(self).last_logged@[pipeline];
                let doubled = if 2 * old(self).debounce_ms <= u64::MAX {
                    2 * old(self).debounce_ms
                } else {
                    u64::MAX as int
                };
                &&& now - last >= doubled * 1_000_000 ==> r.0
                &&& old(self).last_logged@.contains_key(pipeline) && !(state is Playing)
                    && !(state is Paused) && now - last < doubled * 1_000_000 && doubled > 0
                    ==> !r.0
            }),
            final(self).last_logged@ == if r.0 {
                old(self).last_logged@.insert(pipeline, now)
            } else {
                old(self).last_logged@
            },
            state.settled() ==> {
                &&& r.1 == old(self).timeout_source_id
                &&& final(self).timeout_source_id is None
                &&& final(self).pending_logs@ == old(self).pending_logs@.remove(pipeline)
            },
            !state.settled() ==> {
                &&& r.1 is None
                &&& final(self).timeout_source_id == old(self).timeout_source_id
                &&& final(self).pending_logs@ == old(self).pending_logs@
            },
            final(self).debounce_ms == old(self).debounce_ms,
            final(self).rec == old(self).rec,
            final(self).entity_path == old(self).entity_path,
    {
        let is_final_state = state == ElementState::Playing || state == ElementState::Paused;

        if is_final_state {
            self.pending_logs.remove(&pipeline);
            let cancel = self.timeout_source_id.take();
            self.last_logged.insert(pipeline, now);
            return (true, cancel);
        }
        if let Some(last_time) = self.last_logged.get(&pipeline) {
            let rate_limit_ms: u64 = match self.debounce_ms.checked_mul(2) {
                Some(doubled) => doubled,
                None => u64::MAX,
            };
            let rate_limit: u128 = rate_limit_ms as u128 * 1_000_000;
            let elapsed: u128 = now.saturating_sub(*last_time);
            if elapsed < rate_limit {
                return (false, None);
            }
        }
        self.last_logged.insert(pipeline, now);
        (true, None)
    }
}

/// What is to be done when something happened to a pipeline.
#[derive(Debug)]
pub enum LogDecision<R, S> {
    /// Nothing.
    Skip,
    /// Log the pipeline at once.
    Now {
        /// The recording to log to.
        rec: R,
        /// The path to log below.
        entity_path: String,
        /// The timer that is no longer needed.
        cancel: Option<S>,
    },
    /// Log the pipeline later.
    Later(DeferredLog<R, S>),
}

/// The tracer. It has no state until it is constructed.
#[derive(Debug)]
pub struct RerunTracer<R, S> {
    /// What the tracer remembers.
    pub state: Option<TracingState<R, S>>,
}

impl<R, S> RerunTracer<R, S> {
    /// A tracer that is not constructed yet.
    pub fn new() -> (r: RerunTracer<R, S>)
        ensures
            r.state is None,
    {
        RerunTracer { state: None }
    }

    /// Sets a shared recording to be used by the tracer; `false` where the tracer is not
    /// constructed yet and nothing was set.
    pub fn set_recorder(&mut self, recorder: R) -> (set: bool)
        ensures
            match old(self).state {
                Some(state) => {
                    &&& set
                    &&& final(self).state == Some(TracingState { rec: Some(recorder), ..state })
                },
                None => !set && final(self).state is None,
            },
    {
        match &mut self.state {
            Some(state) => {
                state.set_recorder(recorder);
                true
            },
            None => false,
        }
    }

    /// Makes the tracer ready, with its configuration and the recording that was opened for it, if
    /// one was.
    pub fn constructed(&mut self, config: TracerConfig, rec: Option<R>)
        ensures
            final(self).state matches Some(state) && {
                &&& state.debounce_ms == config.debounce_ms
                &&& state.rec == rec
                &&& state.entity_path == config.entity_path
                &&& state.last_logged@ == Map::<u64, u128>::empty()
                &&& state.pending_logs@ == Set::<u64>::empty()
                &&& state.timeout_source_id is None
            },
    {
        self.state = Some(TracingState::new(config.debounce_ms, rec, config.entity_path));
    }

    /// Remembers the timer that was started for a log that was put off.
    pub fn arm_timeout(&mut self, source: S)
        ensures
            final(self).state == match old(self).state {
                Some(state) => Some(TracingState { timeout_source_id: Some(source), ..state }),
                None => None,
            },
    {
        match &mut self.state {
            Some(state) => {
                state.arm_timeout(source);
            },
            None => {},
        }
    }
}

impl<R: Clone, S> RerunTracer<R, S> {
    /// Decides what to do when something happened to a pipeline: nothing as long as there is no
    /// recording; else log it at once, or put it off where it was logged too recently.
    pub fn log_pipeline_graph(&mut self, pipeline: u64, state: ElementState, now: u128) -> (r:
        LogDecision<R, S>)
        ensures
            match old(self).state {
                Some(before) => match before.rec {
                    Some(rec) => final(self).state matches Some(after) && {
                        &&& after.debounce_ms == before.debounce_ms
                        &&& after.rec == before.rec
                        &&& after.entity_path == before.entity_path
                        &&& if before.logs_at_once(pipeline, state, now) {
                            &&& r matches LogDecision::Now { rec: copy, entity_path, cancel } && {
                                &&& cloned::<R>(rec, copy)
                                &&& entity_path == before.entity_path
                                &&& cancel == if state.settled() {
                                    before.timeout_source_id
                                } else {
                                    None
                                }
                            }
                            &&& after.last_logged@ == before.last_logged@.insert(pipeline, now)
                            &&& after.pending_logs@ == if state.settled() {
                                before.pending_logs@.remove(pipeline)
                            } else {
                                before.pending_logs@
                            }
                            &&& after.timeout_source_id == if state.settled() {
                                None
                            } else {
                                before.timeout_source_id
                            }
                        } else {
                            &&& r matches LogDecision::Later(deferred) && {
                                &&& cloned::<R>(rec, deferred.rec)
                                &&& deferred.cancel == before.timeout_source_id
                                &&& deferred.pipeline == pipeline
                                &&& deferred.delay_ms == before.debounce_ms
                                &&& deferred.entity_path == before.entity_path
                            }
                            &&& after.last_logged@ == before.last_logged@
                            &&& after.pending_logs@ == before.pending_logs@.insert(pipeline)
                            &&& after.timeout_source_id is None
                        }
                    },
                    None => r is Skip && final(self).state == old(self).state,
                },
                None => r is Skip && final(self).state is None,
            },
            old(self).state is Some && old(self).state->0.rec is Some ==> {
                let before = old(self).state->0;
                let last = before.last_logged@[pipeline];
                let doubled = if 2 * before.debounce_ms <= u64::MAX {
                    2 * before.debounce_ms
                } else {
                    u64::MAX as int
                };
                &&& state is Playing || state is Paused ==> r is Now
                &&& !before.last_logged@.contains_key(pipeline) ==> r is Now
                &&& now - last >= doubled * 1_000_000 ==> r is Now
                &&& before.last_logged@.contains_key(pipeline) && !(state is Playing)
                    && !(state is Paused) && now - last < doubled * 1_000_000 && doubled > 0
                    ==> r is Later
            },
    {
        match &mut self.state {
            Some(tracing) => {
                let rec = match &tracing.rec {
                    Some(rec) => rec.clone(),
                    None => {
                        return LogDecision::Skip;
                    },
                };
                let entity_path = tracing.entity_path.clone();
                let (should_log_now, cancel) = tracing.should_log_immediately(pipeline, state, now);
                if should_log_now {
                    return LogDecision::Now { rec, entity_path, cancel };
                }
                match tracing.schedule_deferred_log(pipeline, Some(rec), entity_path) {
                    Some(deferred) => LogDecision::Later(deferred),
                    None => LogDecision::Skip,
                }
            },
            None => LogDecision::Skip,
        }
    }
}

/// The debounce time where none is given, in milliseconds.
pub const DEFAULT_DEBOUNCE_MS: u64 = 300;

/// The fields of the tracer's parameters that are there and have the right type.
#[derive(Debug)]
pub struct TracerParams {
    /// `debounce`: the debounce time in milliseconds.
    pub debounce: Option<i32>,
    /// `spawn-viewer`: whether to open a viewer.
    pub spawn_viewer: Option<bool>,
    /// `app-id`: the application to log as.
    pub app_id: Option<String>,
    /// `recording-id`: the recording to log to.
    pub recording_id: Option<String>,
    /// `entity-path`: the path to log below.
    pub entity_path: Option<String>,
}

/// The tracer's configuration.
#[derive(Debug)]
pub struct TracerConfig {
    /// How long logging is put off, in milliseconds.
    pub debounce_ms: u64,
    /// Whether to open a viewer.
    pub spawn_viewer: bool,
    /// The application to log as.
    pub app_id: Option<String>,
    /// The recording to log to.
    pub recording_id: Option<String>,
    /// The path to log below.
    pub entity_path: String,
}

/// Where the tracer's recording comes from.
#[derive(Debug)]
pub enum ViewerRequest {
    /// Open a viewer for the application, on the given recording or a new one.
    Spawn { app_id: String, recording_id: Option<String> },
    /// A viewer is wanted, but the application is not known.
    MissingAppId,
    /// No viewer is wanted.
    NotWanted,
}

impl TracerConfig {
    /// The configuration that the parameters ask for. A debounce time counts only if it is
    /// positive; what is not given is 300 ms, with a viewer, for no application, on a new
    /// recording, below `pipelines`.
    pub fn from_params(params: Option<TracerParams>) -> (r: TracerConfig)
        ensures
            r.debounce_ms == match params {
                Some(p) => match p.debounce {
                    Some(d) => if d > 0 {
                        d as int
                    } else {
                        300
                    },
                    None => 300,
                },
                None => 300,
            },
            r.spawn_viewer == match params {
                Some(p) => match p.spawn_viewer {
                    Some(spawn_viewer) => spawn_viewer,
                    None => true,
                },
                None => true,
            },
            r.app_id == match params {
                Some(p) => p.app_id,
                None => None,
            },
            r.recording_id == match params {
                Some(p) => p.recording_id,
                None => None,
            },
            r.entity_path@ == match params {
                Some(p) => match p.entity_path {
                    Some(entity_path) => entity_path@,
                    None => "pipelines"@,
                },
                None => "pipelines"@,
            },
    {
        let mut config = TracerConfig {
            debounce_ms: DEFAULT_DEBOUNCE_MS,
            spawn_viewer: true,
            app_id: None,
            recording_id: None,
            entity_path: "pipelines".to_owned(),
        };
        if let Some(p) = params {
            if let Some(d) = p.debounce {
                if d > 0 {
                    config.debounce_ms = d as u64;
                }
            }
            if let Some(spawn_viewer) = p.spawn_viewer {
                config.spawn_viewer = spawn_viewer;
            }
            config.app_id = p.app_id;
            config.recording_id = p.recording_id;
            if let Some(entity_path) = p.entity_path {
                config.entity_path = entity_path;
            }
        }
        config
    }

    /// Where the recording comes from: a viewer needs an application.
    pub fn viewer_request(&self) -> (r: ViewerRequest)
        ensures
            match r {
                ViewerRequest::Spawn { app_id, recording_id } => {
                    &&& self.spawn_viewer
                    &&& self.app_id == Some(app_id)
                    &&& self.recording_id == recording_id
                },
                ViewerRequest::MissingAppId => self.spawn_viewer && self.app_id is None,
                ViewerRequest::NotWanted => !self.spawn_viewer,
            },
    {
        if self.spawn_viewer {
            match &self.app_id {
                Some(id) => ViewerRequest::Spawn {
                    app_id: id.clone(),
                    recording_id: copy_opt(&self.recording_id),
                },
                None => ViewerRequest::MissingAppId,
            }
        } else {
            ViewerRequest::NotWanted
        }
    }
}

/// The text of the GStreamer structure that holds the tracer's parameters.
pub fn params_structure(params: &str) -> (r: String)
    ensures
        r@ == "params,"@ + params@,
{
    let mut text = "params,".to_owned();
    text.append(params);
    text
}

/// The hooks that the tracer listens to.
#[derive(Debug, Clone, Copy, PartialEq, Eq, Structural)]
pub enum TracerHook {
    /// An element was added to a bin.
    BinAddPost,
    /// An element was removed from a bin.
    BinRemovePost,
    /// An element was made.
    ElementNew,
    /// A pad was added to an element.
    ElementAddPad,
    /// A pad was removed from an element.
    ElementRemovePad,
    /// An element changed its state.
    ElementChangeStatePost,
    /// Two pads were linked.
    PadLinkPost,
    /// Two pads were unlinked.
    PadUnlinkPost,
}

/// What a hook reports; `E` stands for the handle of an element.
#[derive(Debug)]
pub enum HookEvent<E> {
    /// An element was added to `bin`, if that succeeded.
    BinAddPost { bin: E, success: bool },
    /// An element was removed from `bin`, if that succeeded.
    BinRemovePost { bin: E, success: bool },
    /// `element` was made.
    ElementNew { element: E },
    /// A pad was added to `element`.
    ElementAddPad { element: E },
    /// A pad was removed from `element`.
    ElementRemovePad { element: E },
    /// `element` changed its state, if that succeeded.
    ElementChangeStatePost { element: E, success: bool },
    /// A source pad, of an element if it has one, was linked, if that succeeded.
    PadLinkPost { src_parent: Option<E>, success: bool },
    /// A source pad, of an element if it has one, was unlinked, if that succeeded.
    PadUnlinkPost { src_parent: Option<E>, success: bool },
}

impl<E> HookEvent<E> {
    /// The hook that reports the event.
    pub open spec fn hook(self) -> TracerHook {
        match self {
            HookEvent::BinAddPost { .. } => TracerHook::BinAddPost,
            HookEvent::BinRemovePost { .. } => TracerHook::BinRemovePost,
            HookEvent::ElementNew { .. } => TracerHook::ElementNew,
            HookEvent::ElementAddPad { .. } => TracerHook::ElementAddPad,
            HookEvent::ElementRemovePad { .. } => TracerHook::ElementRemovePad,
            HookEvent::ElementChangeStatePost { .. } => TracerHook::ElementChangeStatePost,
            HookEvent::PadLinkPost { .. } => TracerHook::PadLinkPost,
            HookEvent::PadUnlinkPost { .. } => TracerHook::PadUnlinkPost,
        }
    }

    /// The element whose pipeline is to be looked at; none where what was attempted failed.
    pub fn subject(self) -> (r: Option<E>)
        ensures
            r == match self {
                HookEvent::BinAddPost { bin, success } => if success {
                    Some(bin)
                } else {
                    None
                },
                HookEvent::BinRemovePost { bin, success } => if success {
                    Some(bin)
                } else {
                    None
                },
                HookEvent::ElementNew { element } => Some(element),
                HookEvent::ElementAddPad { element } => Some(element),
                HookEvent::ElementRemovePad { element } => Some(element),
                HookEvent::ElementChangeStatePost { element, success } => if success {
                    Some(element)
                } else {
                    None
                },
                HookEvent::PadLinkPost { src_parent, success } => if success {
                    src_parent
                } else {
                    None
                },
                HookEvent::PadUnlinkPost { src_parent, success } => if success {
                    src_parent
                } else {
                    None
                },
            },
    {
        match self {
            HookEvent::BinAddPost { bin: element, success }
            | HookEvent::BinRemovePost { bin: element, success }
            | HookEvent::ElementChangeStatePost { element, success } => {
                if success {
                    Some(element)
                } else {
                    None
                }
            },
            HookEvent::ElementNew { element }
            | HookEvent::ElementAddPad { element }
            | HookEvent::ElementRemovePad { element } => Some(element),
            HookEvent::PadLinkPost { src_parent, success }
            | HookEvent::PadUnlinkPost { src_parent, success } => {
                if success {
                    src_parent
                } else {
                    None
                }
            },
        }
    }
}

/// The hooks that the tracer registers, in order.
pub open spec fn registered_hooks() -> Seq<TracerHook> {
    seq![
        TracerHook::BinAddPost,
        TracerHook::BinRemovePost,
        TracerHook::ElementNew,
        TracerHook::ElementAddPad,
        TracerHook::ElementRemovePad,
        TracerHook::ElementChangeStatePost,
        TracerHook::PadLinkPost,
        TracerHook::PadUnlinkPost,
    ]
}

/// The hooks that the tracer registers, in order.
pub fn tracer_hooks() -> (r: Vec<TracerHook>)
    ensures
        r@ == registered_hooks(),
        r@.len() == 8,
        forall|hook: TracerHook| #[trigger] r@.contains(hook),
{
    proof {
        law_all_hooks_registered();
    }
    let hooks = vec![
        TracerHook::BinAddPost,
        TracerHook::BinRemovePost,
        TracerHook::ElementNew,
        TracerHook::ElementAddPad,
        TracerHook::ElementRemovePad,
        TracerHook::ElementChangeStatePost,
        TracerHook::PadLinkPost,
        TracerHook::PadUnlinkPost,
    ];
    hooks
}

/// One object on the way from an element to the outermost bin it is in.
#[derive(Debug)]
pub struct Ancestor {
    /// The name of the object's type.
    pub kind: String,
    /// Whether the object can be used as a pipeline.
    pub is_pipeline: bool,
}

impl Ancestor {
    /// Whether the object is the pipeline that is looked for.
    pub open spec fn found(self) -> bool {
        self.kind@ == "GstPipeline"@ && self.is_pipeline
    }
}

/// The first pipeline on the way from an element, which comes first, through the elements it is
/// in.
pub fn find_pipeline(way: &Vec<Ancestor>) -> (r: Option<usize>)
    ensures
        match r {
            Some(i) => {
                &&& i < way@.len()
                &&& way@[i as int].found()
                &&& forall|j: int| 0 <= j < i ==> !(#[trigger] way@[j]).found()
                &&& way@[i as int].kind@ == "GstPipeline"@
                &&& way@[i as int].is_pipeline
                &&& forall|j: int|
                    0 <= j < i ==> (#[trigger] way@[j]).kind@ != "GstPipeline"@
                        || !way@[j].is_pipeline
            },
            None => {
                &&& forall|j: int| 0 <= j < way@.len() ==> !(#[trigger] way@[j]).found()
                &&& forall|j: int|
                    0 <= j < way@.len() ==> (#[trigger] way@[j]).kind@ != "GstPipeline"@
                        || !way@[j].is_pipeline
            },
        },
{
    let mut i: usize = 0;
    while i < way.len()
        invariant
            i <= way.len(),
            forall|j: int|
                0 <= j < i ==> (#[trigger] way@[j]).kind@ != "GstPipeline"@ || !way@[j].is_pipeline,
        decreases way.len() - i,
    {
        if same_text(way[i].kind.as_str(), "GstPipeline") && way[i].is_pipeline {
            return Some(i);
        }
        i += 1;
    }
    None
}

/// Something that happened to a pipeline.
pub ghost struct PipelineEvent {
    pub pipeline: u64,
    pub state: ElementState,
    pub now: u128,
}

/// The times of the last logs after a series of events.
pub open spec fn times_after(
    last_logged: Map<u64, u128>,
    debounce_ms: u64,
    events: Seq<PipelineEvent>,
) -> Map<u64, u128>
    decreases events.len(),
{
    if events.len() == 0 {
        last_logged
    } else {
        let before = times_after(last_logged, debounce_ms, events.drop_last());
        let e = events.last();
        if at_once(before, debounce_ms, e.pipeline, e.state, e.now) {
            before.insert(e.pipeline, e.now)
        } else {
            before
        }
    }
}

/// Whether the `i`-th of a series of events leads to a log at once.
pub open spec fn logged_at(
    last_logged: Map<u64, u128>,
    debounce_ms: u64,
    events: Seq<PipelineEvent>,
    i: int,
) -> bool {
    let before = times_after(last_logged, debounce_ms, events.take(i));
    at_once(before, debounce_ms, events[i].pipeline, events[i].state, events[i].now)
}

/// A pipeline is logged at once whenever it plays or is paused, whenever it was not logged at once
/// before, and whenever twice the debounce time or more has gone by since it last was.
pub proof fn law_logged_when_due(
    last_logged: Map<u64, u128>,
    debounce_ms: u64,
    pipeline: u64,
    state: ElementState,
    now: u128,
)
    ensures
        state == ElementState::Playing ==> at_once(
            last_logged,
            debounce_ms,
            pipeline,
            state,
            now,
        ),
        state == ElementState::Paused ==> at_once(last_logged, debounce_ms, pipeline, state, now),
        !last_logged.contains_key(pipeline) ==> at_once(
            last_logged,
            debounce_ms,
            pipeline,
            state,
            now,
        ),
        now - last_logged[pipeline] >= 2 * debounce_ms * 1_000_000 ==> at_once(
            last_logged,
            debounce_ms,
            pipeline,
            state,
            now,
        ),
{
}

/// In any other state than playing or paused, a pipeline that was logged at once less than twice the
/// debounce time ago is not, as long as the doubled time can be counted in milliseconds.
pub proof fn law_put_off_when_not_due(
    last_logged: Map<u64, u128>,
    debounce_ms: u64,
    pipeline: u64,
    state: ElementState,
    now: u128,
)
    requires
        last_logged.contains_key(pipeline),
        state != ElementState::Playing,
        state != ElementState::Paused,
        debounce_ms > 0,
        2 * debounce_ms <= u64::MAX,
        now - last_logged[pipeline] < 2 * debounce_ms * 1_000_000,
    ensures
        !at_once(last_logged, debounce_ms, pipeline, state, now),
{
}

/// Where a pipeline would be logged at once at some time, it would be at any later time too.
pub proof fn law_due_stays_due(
    last_logged: Map<u64, u128>,
    debounce_ms: u64,
    pipeline: u64,
    state: ElementState,
    now: u128,
    later: u128,
)
    requires
        now <= later,
        at_once(last_logged, debounce_ms, pipeline, state, now),
    ensures
        at_once(last_logged, debounce_ms, pipeline, state, later),
{
}

/// An event that leads to a log at once is the time of the last log from then on, for its own
/// pipeline and for no other; one that does not changes no time.
pub proof fn law_times_follow_logs(
    last_logged: Map<u64, u128>,
    debounce_ms: u64,
    events: Seq<PipelineEvent>,
    e: PipelineEvent,
)
    ensures
        ({
            let before = times_after(last_logged, debounce_ms, events);
            let after = times_after(last_logged, debounce_ms, events.push(e));
            if at_once(before, debounce_ms, e.pipeline, e.state, e.now) {
                &&& after.contains_key(e.pipeline)
                &&& after[e.pipeline] == e.now
                &&& forall|p: u64|
                    p != e.pipeline ==> #[trigger] after.contains_key(p) == before.contains_key(p)
                        && (before.contains_key(p) ==> after[p] == before[p])
            } else {
                after == before
            }
        }),
{
    assert(events.push(e).drop_last() =~= events);
}

/// As long as a pipeline has not settled, it is not logged at once within twice the debounce time
/// after it was last logged at once.
pub proof fn law_rate_limited(
    last_logged: Map<u64, u128>,
    debounce_ms: u64,
    events: Seq<PipelineEvent>,
    i: int,
    j: int,
)
    requires
        0 <= i < j < events.len(),
        forall|a: int, b: int|
            0 <= a <= b < events.len() ==> (#[trigger] events[a]).now <= (
            #[trigger] events[b]).now,
        events[i].pipeline == events[j].pipeline,
        !events[j].state.settled(),
        logged_at(last_logged, debounce_ms, events, i),
        logged_at(last_logged, debounce_ms, events, j),
    ensures
        events[j].now - events[i].now >= rate_limit_nanos(debounce_ms),
{
    lemma_time_kept(last_logged, debounce_ms, events, i, j);
}

proof fn lemma_time_kept(
    last_logged: Map<u64, u128>,
    debounce_ms: u64,
    events: Seq<PipelineEvent>,
    i: int,
    j: int,
)
    requires
        0 <= i < j < events.len(),
        forall|a: int, b: int|
            0 <= a <= b < events.len() ==> (#[trigger] events[a]).now <= (
            #[trigger] events[b]).now,
        logged_at(last_logged, debounce_ms, events, i),
    ensures
        ({
            let times = times_after(last_logged, debounce_ms, events.take(j));
            &&& times.contains_key(events[i].pipeline)
            &&& events[i].now <= times[events[i].pipeline] <= events[j - 1].now
        }),
    decreases j,
{
    assert(events.take(j).drop_last() =~= events.take(j - 1));
    assert(events.take(j).last() == events[j - 1]);
    if j > i + 1 {
        lemma_time_kept(last_logged, debounce_ms, events, i, j - 1);
        assert(events[j - 2].now <= events[j - 1].now);
        assert(events[i].now <= events[j - 1].now);
    }
}

/// What happens to other pipelines does not matter for a pipeline.
pub proof fn law_pipelines_independent(
    last_logged: Map<u64, u128>,
    debounce_ms: u64,
    events: Seq<PipelineEvent>,
    pipeline: u64,
    state: ElementState,
    now: u128,
)
    requires
        forall|i: int| 0 <= i < events.len() ==> (#[trigger] events[i]).pipeline != pipeline,
    ensures
        at_once(
            times_after(last_logged, debounce_ms, events),
            debounce_ms,
            pipeline,
            state,
            now,
        ) == at_once(last_logged, debounce_ms, pipeline, state, now),
{
    lemma_time_untouched(last_logged, debounce_ms, events, pipeline);
}

proof fn lemma_time_untouched(
    last_logged: Map<u64, u128>,
    debounce_ms: u64,
    events: Seq<PipelineEvent>,
    pipeline: u64,
)
    requires
        forall|i: int| 0 <= i < events.len() ==> (#[trigger] events[i]).pipeline != pipeline,
    ensures
        ({
            let times = times_after(last_logged, debounce_ms, events);
            &&& times.contains_key(pipeline) == last_logged.contains_key(pipeline)
            &&& last_logged.contains_key(pipeline) ==> times[pipeline] == last_logged[pipeline]
        }),
    decreases events.len(),
{
    if events.len() > 0 {
        assert forall|i: int| 0 <= i < events.drop_last().len() implies (
        #[trigger] events.drop_last()[i]).pipeline != pipeline by {
            assert(events.drop_last()[i] == events[i]);
        }
        lemma_time_untouched(last_logged, debounce_ms, events.drop_last(), pipeline);
        assert(events[events.len() - 1].pipeline != pipeline);
    }
}

/// Every hook is registered.
pub proof fn law_all_hooks_registered()
    ensures
        registered_hooks().len() == 8,
        forall|hook: TracerHook| #[trigger] registered_hooks().contains(hook),
{
    let hooks = registered_hooks();
    assert(hooks[0] is BinAddPost && hooks[1] is BinRemovePost && hooks[2] is ElementNew
        && hooks[3] is ElementAddPad && hooks[4] is ElementRemovePad
        && hooks[5] is ElementChangeStatePost && hooks[6] is PadLinkPost
        && hooks[7] is PadUnlinkPost);
}

/// Every event that the tracer handles is reported by a hook that it registers, and no hook is
/// registered twice.
pub proof fn law_hooks_cover_events<E>(event: HookEvent<E>)
    ensures
        registered_hooks().contains(event.hook()),
        registered_hooks().no_duplicates(),
{
    let hooks = registered_hooks();
    assert(hooks[0] is BinAddPost && hooks[1] is BinRemovePost && hooks[2] is ElementNew
        && hooks[3] is ElementAddPad && hooks[4] is ElementRemovePad
        && hooks[5] is ElementChangeStatePost && hooks[6] is PadLinkPost
        && hooks[7] is PadUnlinkPost);
}

} // verus!
