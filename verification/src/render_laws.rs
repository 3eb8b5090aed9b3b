//! What holds of the rendering of a frame as a whole.

use vstd::prelude::*;

use crate::archetypes::{PixelFormat, VideoCodec, MAX_COMPONENT_BYTES};
use crate::frame::{RerunSinkError, VideoFormat, VideoInfo};
use crate::render::{CapsInfo, RenderAction, RenderError, RenderEvent, RenderPhase};
use crate::sink::State;

verus! {

/// A frame and everything around it that its rendering asks for.
pub ghost struct FrameWorld<'a> {
    /// The presentation time, in nanoseconds.
    pub pts: Option<u64>,
    /// The format of the stream.
    pub caps: Option<CapsInfo>,
    /// The format of the frame, taken for a raw one.
    pub info: Option<VideoInfo>,
    /// The data of the frame.
    pub data: Option<&'a [u8]>,
    /// What Rerun says to the codec.
    pub codec_logged: Result<(), String>,
    /// What Rerun says to the frame.
    pub frame_logged: Result<(), String>,
}

/// The course of a frame: the actions that are asked for, in order, and the state of the sink after
/// them.
pub ghost struct Course<R> {
    pub actions: Seq<RenderAction>,
    pub state: Option<State<R>>,
}

impl<'a> FrameWorld<'a> {
    /// What comes of an action.
    pub open spec fn answer(self, action: RenderAction) -> RenderEvent<'a> {
        match action {
            RenderAction::SetTime { .. } => RenderEvent::TimeSet,
            RenderAction::ReadCaps => RenderEvent::Caps(self.caps),
            RenderAction::LogCodec { .. } => RenderEvent::Logged(self.codec_logged),
            RenderAction::MapBuffer => RenderEvent::Mapped(self.data),
            RenderAction::LogSample { .. } => RenderEvent::Logged(self.frame_logged),
            RenderAction::ReadVideoInfo => RenderEvent::Info(self.info),
            RenderAction::LogImage { .. } => RenderEvent::Logged(self.frame_logged),
            RenderAction::Finish(_) => RenderEvent::TimeSet,
        }
    }

    /// The course of the frame from an action on, for a number of actions or until it is done.
    pub open spec fn goes_on<R>(
        self,
        state: Option<State<R>>,
        phase: RenderPhase,
        action: RenderAction,
        steps: nat,
    ) -> Course<R>
        decreases steps,
    {
        if steps == 0 {
            Course { actions: Seq::empty(), state }
        } else if action is Finish {
            Course { actions: seq![action], state }
        } else {
            let (after, next_phase, next_action) = crate::render::next(
                state,
                phase,
                self.answer(action),
            );
            let rest = self.goes_on(after, next_phase, next_action, (steps - 1) as nat);
            Course { actions: seq![action] + rest.actions, state: rest.state }
        }
    }

    /// The course of the frame. No frame takes more than six actions.
    pub open spec fn course<R>(self, state: Option<State<R>>) -> Course<R> {
        let (after, phase, action) = crate::render::begun(state, self.pts);
        self.goes_on(after, phase, action, 6)
    }

    /// Whether all that happens on the course of the frame, from an action on, can be dealt with.
    pub open spec fn stays_ready<R>(
        self,
        state: Option<State<R>>,
        phase: RenderPhase,
        action: RenderAction,
        steps: nat,
    ) -> bool
        decreases steps,
    {
        steps == 0 || action is Finish || {
            let (after, next_phase, next_action) = crate::render::next(
                state,
                phase,
                self.answer(action),
            );
            &&& phase.ready(state, self.answer(action))
            &&& self.stays_ready(after, next_phase, next_action, (steps - 1) as nat)
        }
    }

    /// The codec of the frame, if it is an encoded one.
    pub open spec fn codec(self) -> Option<VideoCodec> {
        match self.caps {
            Some(caps) => crate::frame::codec_of(caps.media_type->0@),
            None => None,
        }
    }

    /// Whether the format of the stream has a media type and the data of the frame stays within
    /// what can be logged.
    pub open spec fn fits(self) -> bool {
        &&& self.caps matches Some(caps) ==> caps.media_type is Some
        &&& self.data matches Some(data) ==> {
            &&& self.codec() is Some ==> data@.len() <= MAX_COMPONENT_BYTES
            &&& self.codec() is None && self.info is Some ==> self.info->0.format.frame_fits(
                self.info->0.width,
                self.info->0.height,
                data@.len(),
            )
        }
    }

    /// What comes of an encoded frame while the sink is running.
    pub open spec fn encoded_outcome<R>(self, state: State<R>) -> Result<(), RerunSinkError> {
        if !state.codec_sent && self.codec_logged is Err {
            Err(RerunSinkError::RerunLogFailed(self.codec_logged->Err_0))
        } else if self.data is None {
            Err(RerunSinkError::BufferMapFailed)
        } else if self.frame_logged is Err {
            Err(RerunSinkError::RerunLogFailed(self.frame_logged->Err_0))
        } else {
            Ok(())
        }
    }

    /// What comes of a raw frame while the sink is running.
    pub open spec fn raw_outcome(self) -> Result<(), RerunSinkError> {
        if self.info is None {
            Err(RerunSinkError::VideoInfoFromCapsFailed)
        } else if self.data is None {
            Err(RerunSinkError::BufferMapFailed)
        } else if !self.info->0.format.supported() {
            Err(RerunSinkError::UnsupportedVideoFormat(self.info->0.format))
        } else if self.frame_logged is Err {
            Err(RerunSinkError::RerunLogFailed(self.frame_logged->Err_0))
        } else {
            Ok(())
        }
    }

    /// What comes of the frame.
    pub open spec fn outcome<R>(self, state: Option<State<R>>) -> Result<(), RenderError> {
        if state is Some && self.pts is None {
            Err(RenderError::NoTime)
        } else if self.caps is None {
            Err(RenderError::NoCaps)
        } else if state is None {
            Ok(())
        } else if self.codec() is Some {
            match self.encoded_outcome(state->0) {
                Ok(()) => Ok(()),
                Err(e) => Err(RenderError::Encoded(e)),
            }
        } else {
            match self.raw_outcome() {
                Ok(()) => Ok(()),
                Err(e) => Err(RenderError::Raw(e)),
            }
        }
    }
}

impl RenderAction {
    /// Whether the action logs anything.
    pub open spec fn logs(self) -> bool {
        self is LogCodec || self.logs_frame()
    }

    /// Whether the action logs a frame.
    pub open spec fn logs_frame(self) -> bool {
        self is LogSample || self is LogImage
    }

    /// The path that the action logs at.
    pub open spec fn path(self) -> Seq<char> {
        match self {
            RenderAction::LogCodec { entity_path, .. } => entity_path@,
            RenderAction::LogSample { entity_path, .. } => entity_path@,
            RenderAction::LogImage { entity_path, .. } => entity_path@,
            _ => Seq::empty(),
        }
    }
}

/// The rendering of a frame comes to an end, and only once. It ends with what comes of the frame.
pub proof fn law_frame_finishes<R>(world: FrameWorld, state: Option<State<R>>)
    ensures
        ({
            let actions = world.course(state).actions;
            &&& 1 <= actions.len() <= 6
            &&& actions.last() == RenderAction::Finish(world.outcome(state))
            &&& forall|i: int| 0 <= i < actions.len() - 1 ==> !((#[trigger] actions[i]) is Finish)
        }),
{
    reveal_with_fuel(FrameWorld::goes_on, 7);
}

/// A sink that is not running asks only for the format of the stream.
pub proof fn law_course_while_stopped<R>(world: FrameWorld)
    ensures
        world.course(None::<State<R>>).actions == seq![
            RenderAction::ReadCaps,
            RenderAction::Finish(
                if world.caps is None {
                    Err(RenderError::NoCaps)
                } else {
                    Ok(())
                },
            ),
        ],
        world.course(None::<State<R>>).state is None,
{
    reveal_with_fuel(FrameWorld::goes_on, 7);
}

/// An encoded frame of a running sink: its time is set, the format of the stream is read, the codec
/// is logged unless it was before, and then the data is read and logged, each step only where the
/// one before succeeded.
pub proof fn law_course_of_encoded_frame<R>(world: FrameWorld, state: State<R>)
    requires
        world.pts is Some,
        world.codec() is Some,
    ensures
        ({
            let actions = world.course(Some(state)).actions;
            let first: int = if state.codec_sent {
                2
            } else {
                3
            };
            let refused = !state.codec_sent && world.codec_logged is Err;
            &&& actions[0] == RenderAction::SetTime { nanos: world.pts->0 }
            &&& actions[1] == RenderAction::ReadCaps
            &&& !state.codec_sent ==> actions[2] == (RenderAction::LogCodec {
                entity_path: state.entity_path,
                stream: crate::archetypes::codec_stream(world.codec()->0),
            })
            &&& refused ==> actions.len() == 4
            &&& !refused ==> actions[first] == RenderAction::MapBuffer
            &&& !refused && world.data is None ==> actions.len() == first + 2
            &&& !refused && world.data is Some ==> {
                &&& actions.len() == first + 3
                &&& actions[first + 1] == (RenderAction::LogSample {
                    entity_path: state.entity_path,
                    stream: crate::archetypes::sample_stream(
                        crate::archetypes::codec_stream(world.codec()->0),
                        world.data->0@,
                    ),
                })
            }
            &&& world.course(Some(state)).state == Some(
                State { codec_sent: !refused, ..state },
            )
        }),
{
    reveal_with_fuel(FrameWorld::goes_on, 7);
}

/// A raw frame of a running sink: its time is set, the format of the stream and that of the frame
/// are read, and then the data is read and logged, each step only where the one before succeeded. A
/// format that is not known is not logged.
pub proof fn law_course_of_raw_frame<R>(world: FrameWorld, state: State<R>)
    requires
        world.pts is Some,
        world.caps is Some,
        world.codec() is None,
    ensures
        ({
            let actions = world.course(Some(state)).actions;
            let info = world.info->0;
            &&& actions[0] == RenderAction::SetTime { nanos: world.pts->0 }
            &&& actions[1] == RenderAction::ReadCaps
            &&& actions[2] == RenderAction::ReadVideoInfo
            &&& world.info is None ==> actions.len() == 4
            &&& world.info is Some ==> actions[3] == RenderAction::MapBuffer
            &&& world.info is Some && (world.data is None || info.format is Other)
                ==> actions.len() == 5
            &&& world.info is Some && world.data is Some && !(info.format is Other) ==> {
                &&& actions.len() == 6
                &&& actions[4] is LogImage
                &&& actions[4]->LogImage_entity_path == state.entity_path
                &&& actions[4]->image == match info.format {
                    VideoFormat::Rgb => crate::archetypes::rgb24_image(
                        world.data->0@,
                        info.width,
                        info.height,
                    ),
                    VideoFormat::Rgba => crate::archetypes::rgba32_image(
                        world.data->0@,
                        info.width,
                        info.height,
                    ),
                    VideoFormat::Gray8 => crate::archetypes::l8_image(
                        world.data->0@,
                        info.width,
                        info.height,
                    ),
                    _ => crate::archetypes::pixel_format_image(
                        world.data->0@,
                        info.width,
                        info.height,
                        PixelFormat::Nv12,
                    ),
                }
            }
            &&& world.course(Some(state)).state == Some(state)
        }),
{
    reveal_with_fuel(FrameWorld::goes_on, 7);
}

/// As long as a frame fits, all that happens while it is rendered can be dealt with.
pub proof fn law_fitting_frame_stays_ready<R>(world: FrameWorld, state: Option<State<R>>)
    requires
        world.fits(),
    ensures
        ({
            let (after, phase, action) = crate::render::begun(state, world.pts);
            world.stays_ready(after, phase, action, 6)
        }),
{
    reveal_with_fuel(FrameWorld::stays_ready, 7);
}

/// Rendering a frame neither starts nor stops the sink, and keeps its recording and its path. That
/// the codec was logged is not forgotten.
pub proof fn law_rendering_keeps_state<R>(world: FrameWorld, state: Option<State<R>>)
    ensures
        match (state, world.course(state).state) {
            (None, None) => true,
            (Some(before), Some(after)) => {
                &&& after.rec == before.rec
                &&& after.entity_path == before.entity_path
                &&& before.codec_sent ==> after.codec_sent
            },
            _ => false,
        },
{
    reveal_with_fuel(FrameWorld::goes_on, 7);
}

/// A frame that the running sink takes is logged, once, with its data, after its time was set and
/// just before the end. One that is not taken is logged only where Rerun refuses it.
pub proof fn law_frame_logged_once<R>(world: FrameWorld, state: State<R>)
    ensures
        ({
            let actions = world.course(Some(state)).actions;
            let before_last = actions[actions.len() - 2];
            &&& world.outcome(Some(state)) is Ok ==> {
                &&& actions[0] == RenderAction::SetTime { nanos: world.pts->0 }
                &&& actions.len() >= 2
                &&& match world.codec() {
                    Some(codec) => before_last == RenderAction::LogSample {
                        entity_path: state.entity_path,
                        stream: crate::archetypes::sample_stream(
                            crate::archetypes::codec_stream(codec),
                            world.data->0@,
                        ),
                    },
                    None => before_last == RenderAction::LogImage {
                        entity_path: state.entity_path,
                        image: world.info->0.format.image(
                            world.data->0@,
                            world.info->0.width,
                            world.info->0.height,
                        ),
                    },
                }
            }
            &&& forall|i: int|
                0 <= i < actions.len() && (#[trigger] actions[i]).logs_frame() ==> i
                    == actions.len() - 2 && (world.outcome(Some(state)) is Ok
                    || world.frame_logged is Err)
        }),
{
    reveal_with_fuel(FrameWorld::goes_on, 7);
}

/// Everything is logged at the path of the sink, and a sink that is not running logs nothing.
pub proof fn law_logged_at_path<R>(world: FrameWorld, state: Option<State<R>>, i: int)
    requires
        0 <= i < world.course(state).actions.len(),
        world.course(state).actions[i].logs(),
    ensures
        state is Some,
        world.course(state).actions[i].path() == state->0.entity_path@,
{
    reveal_with_fuel(FrameWorld::goes_on, 7);
}

/// The codec is logged at most once while the sink is running: only as long as it was not logged,
/// and once Rerun took it, it counts as logged.
pub proof fn law_codec_logged_once<R>(world: FrameWorld, state: State<R>)
    ensures
        ({
            let course = world.course(Some(state));
            let after = course.state->0;
            &&& forall|i: int|
                0 <= i < course.actions.len() && (#[trigger] course.actions[i]) is LogCodec ==> {
                    &&& i == 2
                    &&& !state.codec_sent
                    &&& world.codec() is Some
                    &&& course.actions[i]->LogCodec_stream == crate::archetypes::codec_stream(
                        world.codec()->0,
                    )
                    &&& after.codec_sent == (world.codec_logged is Ok)
                }
            &&& after.codec_sent && !state.codec_sent ==> course.actions.len() > 2
                && course.actions[2] is LogCodec
        }),
{
    reveal_with_fuel(FrameWorld::goes_on, 7);
}

/// An encoded frame is logged only once the codec was logged, with this frame or with an earlier
/// one.
pub proof fn law_codec_logged_first<R>(world: FrameWorld, state: State<R>, i: int)
    requires
        0 <= i < world.course(Some(state)).actions.len(),
        world.course(Some(state)).actions[i] is LogSample,
    ensures
        world.course(Some(state)).state->0.codec_sent,
        state.codec_sent || world.course(Some(state)).actions[2] is LogCodec && i > 2,
{
    reveal_with_fuel(FrameWorld::goes_on, 7);
}

/// One thing that happens to a sink.
pub ghost enum SinkStep<'a, R> {
    /// It is started with a recording, to log at a path.
    Start { rec: R, entity_path: String },
    /// It is stopped.
    Stop,
    /// It renders a frame.
    Frame(FrameWorld<'a>),
}

impl<'a, R> SinkStep<'a, R> {
    /// The state of the sink after the step.
    pub open spec fn after(self, state: Option<State<R>>) -> Option<State<R>> {
        match self {
            SinkStep::Start { rec, entity_path } => Some(State::started(rec, entity_path)),
            SinkStep::Stop => None,
            SinkStep::Frame(world) => world.course(state).state,
        }
    }
}

/// A series of steps of a sink, which is not running at first.
pub ghost struct Run<'a, R> {
    pub steps: Seq<SinkStep<'a, R>>,
}

impl<'a, R> Run<'a, R> {
    /// The state of the sink before the `i`-th step.
    pub open spec fn state_before(self, i: int) -> Option<State<R>>
        decreases i,
    {
        if i <= 0 {
            None
        } else {
            self.steps[i - 1].after(self.state_before(i - 1))
        }
    }

    /// What the `i`-th step asks for; only frames ask for anything.
    pub open spec fn actions(self, i: int) -> Seq<RenderAction> {
        match self.steps[i] {
            SinkStep::Frame(world) => world.course(self.state_before(i)).actions,
            _ => Seq::empty(),
        }
    }

    /// Whether the `i`-th step logs the codec.
    pub open spec fn logs_codec(self, i: int) -> bool {
        exists|k: int| 0 <= k < self.actions(i).len() && (#[trigger] self.actions(i)[k]) is LogCodec
    }

    /// Whether the `i`-th step logs the codec and Rerun takes it.
    pub open spec fn takes_codec(self, i: int) -> bool {
        &&& self.steps[i] matches SinkStep::Frame(world) && world.codec_logged is Ok
        &&& self.logs_codec(i)
    }

    /// Whether the sink is not started between two steps.
    pub open spec fn no_start_between(self, i: int, j: int) -> bool {
        forall|k: int| i < k < j ==> !((#[trigger] self.steps[k]) is Start)
    }

    /// Once the codec was taken, the sink is stopped or remembers it until it is started again.
    proof fn lemma_codec_remembered(self, i: int, j: int)
        requires
            0 <= i < j,
            self.takes_codec(i),
            self.no_start_between(i, j),
        ensures
            self.state_before(j) matches Some(state) ==> state.codec_sent,
        decreases j,
    {
        if j == i + 1 {
            if let SinkStep::Frame(world) = self.steps[i] {
                let before = self.state_before(i);
                let k = choose|k: int|
                    0 <= k < self.actions(i).len() && (#[trigger] self.actions(i)[k]) is LogCodec;
                law_logged_at_path(world, before, k);
                law_codec_logged_once(world, before->0);
            }
        } else {
            self.lemma_codec_remembered(i, j - 1);
            assert(!(self.steps[j - 1] is Start));
            if let SinkStep::Frame(world) = self.steps[j - 1] {
                law_rendering_keeps_state(world, self.state_before(j - 1));
            }
        }
    }

    /// A running sink that remembers the codec had it taken since it was started.
    proof fn lemma_codec_was_taken(self, j: int) -> (i: int)
        requires
            self.state_before(j) matches Some(state) && state.codec_sent,
        ensures
            0 <= i < j,
            self.takes_codec(i),
            self.no_start_between(i, j),
        decreases j,
    {
        if let SinkStep::Frame(world) = self.steps[j - 1] {
            let before = self.state_before(j - 1);
            law_rendering_keeps_state(world, before);
            if before->0.codec_sent {
                let i = self.lemma_codec_was_taken(j - 1);
                assert(self.no_start_between(i, j));
                i
            } else {
                law_codec_logged_once(world, before->0);
                assert(self.actions(j - 1)[2] is LogCodec);
                j - 1
            }
        } else {
            0
        }
    }

    /// As long as the codec was not taken, a sink that was started and not stopped runs with the
    /// recording and the path that it was started with, and does not count the codec as logged.
    proof fn lemma_codec_not_taken(self, i: int, j: int)
        requires
            0 <= i < j,
            self.steps[i] is Start,
            forall|k: int|
                i < k < j ==> (#[trigger] self.steps[k]) is Frame && !self.takes_codec(k),
        ensures
            self.state_before(j) == self.state_before(i + 1),
            self.state_before(i + 1) == self.steps[i].after(None),
        decreases j,
    {
        if j > i + 1 {
            self.lemma_codec_not_taken(i, j - 1);
            assert(self.steps[j - 1] is Frame && !self.takes_codec(j - 1));
            if let SinkStep::Frame(world) = self.steps[j - 1] {
                let before = self.state_before(j - 1);
                law_rendering_keeps_state(world, before);
                law_codec_logged_once(world, before->0);
                if world.course(before).state->0.codec_sent {
                    assert(self.actions(j - 1)[2] is LogCodec);
                }
            }
        }
    }
}

/// Between two starts of a sink, Rerun takes the codec at most once: after it was taken, it is not
/// logged again before the next start.
pub proof fn law_codec_taken_once<R>(run: Run<R>, i: int, j: int)
    requires
        0 <= i < j < run.steps.len(),
        run.takes_codec(i),
        run.no_start_between(i, j),
    ensures
        !run.logs_codec(j),
{
    run.lemma_codec_remembered(i, j);
    if run.logs_codec(j) {
        let k = choose|k: int|
            0 <= k < run.actions(j).len() && (#[trigger] run.actions(j)[k]) is LogCodec;
        if let SinkStep::Frame(world) = run.steps[j] {
            law_logged_at_path(world, run.state_before(j), k);
            law_codec_logged_once(world, run.state_before(j)->0);
        }
    }
}

/// An encoded frame is logged only after Rerun took the codec, since the last start: with an earlier
/// frame, or with the same one before the frame itself.
pub proof fn law_codec_taken_before_samples<R>(run: Run<R>, j: int, k: int)
    requires
        0 <= j < run.steps.len(),
        0 <= k < run.actions(j).len(),
        run.actions(j)[k] is LogSample,
    ensures
        exists|i: int|
            0 <= i <= j && #[trigger] run.takes_codec(i) && run.no_start_between(i, j) && (i == j
                ==> k > 2 && run.actions(j)[2] is LogCodec),
{
    if let SinkStep::Frame(world) = run.steps[j] {
        let before = run.state_before(j);
        law_logged_at_path(world, before, k);
        law_codec_logged_first(world, before->0, k);
        if before->0.codec_sent {
            let i = run.lemma_codec_was_taken(j);
            assert(run.takes_codec(i));
        } else {
            law_codec_logged_once(world, before->0);
            assert(run.actions(j)[2] is LogCodec);
            assert(run.takes_codec(j));
        }
    }
}

/// After each start the codec is logged again: with the first encoded frame, and with each one after
/// it until Rerun took it.
pub proof fn law_codec_sent_after_start<R>(run: Run<R>, i: int, j: int, world: FrameWorld)
    requires
        0 <= i < j < run.steps.len(),
        run.steps[i] is Start,
        forall|k: int| i < k < j ==> (#[trigger] run.steps[k]) is Frame && !run.takes_codec(k),
        run.steps[j] == SinkStep::<R>::Frame(world),
        world.pts is Some,
        world.codec() is Some,
    ensures
        run.actions(j).len() > 2,
        run.actions(j)[2] == (RenderAction::LogCodec {
            entity_path: run.steps[i]->entity_path,
            stream: crate::archetypes::codec_stream(world.codec()->0),
        }),
{
    run.lemma_codec_not_taken(i, j);
    reveal_with_fuel(FrameWorld::goes_on, 7);
}

/// Each encoded frame that a running sink takes is logged as exactly one sample, at its path, with
/// all its data and the codec of its own format.
pub proof fn law_encoded_frame_logged<R>(run: Run<R>, i: int, world: FrameWorld)
    requires
        0 <= i < run.steps.len(),
        run.steps[i] == SinkStep::<R>::Frame(world),
        run.state_before(i) is Some,
        world.codec() is Some,
        world.outcome(run.state_before(i)) is Ok,
    ensures
        ({
            let actions = run.actions(i);
            let last = actions.len() - 2;
            &&& 0 <= last
            &&& actions[last] == (RenderAction::LogSample {
                entity_path: run.state_before(i)->0.entity_path,
                stream: crate::archetypes::sample_stream(
                    crate::archetypes::codec_stream(world.codec()->0),
                    world.data->0@,
                ),
            })
            &&& forall|k: int|
                0 <= k < actions.len() && (#[trigger] actions[k]).logs_frame() ==> k == last
        }),
{
    law_frame_logged_once(world, run.state_before(i)->0);
}

/// A raw frame of a sink that was stopped before its format was found out is dropped without an
/// error, and the sink stays stopped.
pub proof fn law_stopped_meanwhile<R>(info: Option<VideoInfo>)
    ensures
        ({
            let (state, phase, action) = crate::render::next(
                None::<State<R>>,
                RenderPhase::Info,
                RenderEvent::Info(info),
            );
            &&& state is None
            &&& phase is Finished
            &&& action == RenderAction::Finish(Ok(()))
        }),
{
}

/// The answers to the errors: what does not suit is the format of a frame, everything else is an
/// error.
pub proof fn law_answers(e: RerunSinkError)
    ensures
        RenderError::NoTime.flow() is Error,
        RenderError::NoCaps.flow() is Error,
        RenderError::Encoded(e).flow() is NotNegotiated <==> e is UnsupportedVideoFormat,
        RenderError::Raw(e).flow() is NotNegotiated <==> e is UnsupportedVideoFormat
            || e is VideoInfoFromCapsFailed,
{
}

/// A frame is answered with a format that does not suit exactly where it is a raw one and either
/// its format cannot be made out, or the format is none that can be logged.
pub proof fn law_not_negotiated<R>(world: FrameWorld, state: Option<State<R>>)
    ensures
        (world.outcome(state) matches Err(e) && e.flow() is NotNegotiated) <==> {
            &&& state is Some
            &&& world.pts is Some
            &&& world.caps is Some
            &&& world.codec() is None
            &&& world.info is None || world.data is Some && !world.info->0.format.supported()
        },
{
}

} // verus!
