use vstd::prelude::*;

verus! {

/// Phases of the walk cycle.
#[derive(Debug, Clone, Copy, PartialEq, Eq, Structural)]
pub enum AnimationState {
    Idle,
    Stepping,
    Closing,
}

impl Default for AnimationState {
    fn default() -> (r: AnimationState)
        ensures
            r == AnimationState::Idle,
    {
        AnimationState::Idle
    }
}

#[derive(Copy, Clone, Debug, Eq, PartialEq, Structural)]
pub enum Foot {
    Left,
    Right,
}

/// What a step is for.
#[derive(Debug, Copy, Clone, PartialEq, Eq, Structural)]
pub enum StepIntent {
    /// Continue walking.
    Advance,
    /// Bring the feet together and stop.
    Close,
}

/// What follows a finished step.
#[derive(Debug, Copy, Clone, PartialEq, Eq, Structural)]
pub enum StepResult {
    Idle,
    Advance(Foot),
    Close(Foot),
}

pub open spec fn foot_index(f: Foot) -> nat {
    match f {
        Foot::Left => 0,
        Foot::Right => 1,
    }
}

impl Foot {
    pub fn other(self) -> (r: Foot)
        ensures
            r != self,
    {
        match self {
            Foot::Left => Foot::Right,
            Foot::Right => Foot::Left,
        }
    }

    /// The slot of this foot in per-foot arrays.
    pub fn index_self(self) -> (r: usize)
        ensures
            r == foot_index(self),
    {
        match self {
            Foot::Left => 0,
            Foot::Right => 1,
        }
    }

    /// The slot of the other foot in per-foot arrays.
    pub fn index_other(self) -> (r: usize)
        ensures
            r == 1 - foot_index(self),
    {
        1 - self.index_self()
    }

    /// Lateral sign of the foot: -1 on the left, 1 on the right.
    pub fn side(self) -> (r: i32)
        ensures
            r == if self == Foot::Left { -1i32 } else { 1i32 },
    {
        match self {
            Foot::Left => -1,
            Foot::Right => 1,
        }
    }
}

/// The other foot.
pub open spec fn other_foot(f: Foot) -> Foot {
    if f == Foot::Left {
        Foot::Right
    } else {
        Foot::Left
    }
}

/// What follows a finished step: while stepping, the other foot steps next,
/// to advance when walking goes on and to close the stance otherwise; any
/// other step ends in standing still.
pub open spec fn finish_step_spec(state: AnimationState, active: Option<Foot>, keep_walking: bool) -> StepResult {
    match (state, active) {
        (AnimationState::Stepping, Some(f)) => if keep_walking {
            StepResult::Advance(other_foot(f))
        } else {
            StepResult::Close(other_foot(f))
        },
        _ => StepResult::Idle,
    }
}

/// Decides what follows the step of foot `active`, which has just finished.
pub fn finish_step(state: AnimationState, active: Option<Foot>, keep_walking: bool) -> (r: StepResult)
    ensures
        r == finish_step_spec(state, active, keep_walking),
{
    match (state, active, keep_walking) {
        (AnimationState::Stepping, Some(foot), true) => StepResult::Advance(foot.other()),
        (AnimationState::Stepping, Some(foot), false) => StepResult::Close(foot.other()),
        (AnimationState::Closing, _, _) => StepResult::Idle,
        _ => StepResult::Idle,
    }
}

/// A step to animate: which foot swings, and what for.
#[derive(Debug, Copy, Clone, PartialEq, Eq, Structural)]
pub struct StepOrder {
    pub foot: Foot,
    pub intent: StepIntent,
}

/// The walk cycle after one frame, and what the frame has to animate.
#[derive(Debug, Copy, Clone, PartialEq, Eq, Structural)]
pub struct GaitUpdate {
    pub state: AnimationState,
    /// The foot of the step under way.
    pub active: Option<Foot>,
    /// The pose settles into standing still.
    pub go_idle: bool,
    /// A step to start, after settling where `go_idle` is set.
    pub step: Option<StepOrder>,
}

/// The walk cycle after one frame: when the current step is over (`phase_done`)
/// the next one follows as `finish_step_spec` says; a walker that stands still
/// and is told to move starts with the left foot.
pub open spec fn gait_spec(
    state: AnimationState,
    active: Option<Foot>,
    phase_done: bool,
    move_forward: bool,
) -> GaitUpdate {
    let after = if !phase_done {
        GaitUpdate { state, active, go_idle: false, step: None }
    } else {
        match finish_step_spec(state, active, move_forward) {
            StepResult::Idle => GaitUpdate {
                state: AnimationState::Idle,
                active: None,
                go_idle: true,
                step: None,
            },
            StepResult::Advance(f) => GaitUpdate {
                state: AnimationState::Stepping,
                active: Some(f),
                go_idle: false,
                step: Some(StepOrder { foot: f, intent: StepIntent::Advance }),
            },
            StepResult::Close(f) => GaitUpdate {
                state: AnimationState::Closing,
                active: Some(f),
                go_idle: false,
                step: Some(StepOrder { foot: f, intent: StepIntent::Close }),
            },
        }
    };
    if after.state == AnimationState::Idle && move_forward {
        GaitUpdate {
            state: AnimationState::Stepping,
            active: Some(Foot::Left),
            go_idle: after.go_idle,
            step: Some(StepOrder { foot: Foot::Left, intent: StepIntent::Advance }),
        }
    } else {
        after
    }
}

/// Advances the walk cycle by one frame.
pub fn gait_update(state: AnimationState, active: Option<Foot>, phase_done: bool, move_forward: bool) -> (r: GaitUpdate)
    ensures
        r == gait_spec(state, active, phase_done, move_forward),
{
    let mut next = GaitUpdate { state, active, go_idle: false, step: None };
    if phase_done {
        match finish_step(state, active, move_forward) {
            StepResult::Idle => {
                next = GaitUpdate { state: AnimationState::Idle, active: None, go_idle: true, step: None };
            },
            StepResult::Advance(foot) => {
                next = GaitUpdate {
                    state: AnimationState::Stepping,
                    active: Some(foot),
                    go_idle: false,
                    step: Some(StepOrder { foot, intent: StepIntent::Advance }),
                };
            },
            StepResult::Close(foot) => {
                next = GaitUpdate {
                    state: AnimationState::Closing,
                    active: Some(foot),
                    go_idle: false,
                    step: Some(StepOrder { foot, intent: StepIntent::Close }),
                };
            },
        }
    }
    if next.state == AnimationState::Idle && move_forward {
        next = GaitUpdate {
            state: AnimationState::Stepping,
            active: Some(Foot::Left),
            go_idle: next.go_idle,
            step: Some(StepOrder { foot: Foot::Left, intent: StepIntent::Advance }),
        };
    }
    next
}

} // verus!
