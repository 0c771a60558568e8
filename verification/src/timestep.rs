//! The fixed-interval trigger: an accumulator of elapsed time, a policy that
//! says whether it advances while the state gate is closed, and the number of
//! times the gated action is due in each tick.
//!
//! Time is counted in whole units (the caller picks the unit), so that every
//! interval boundary is hit exactly.

use vstd::prelude::*;
use crate::state::AppState;

verus! {

/// What the accumulator does during ticks in which the state gate is closed.
#[derive(Clone, Copy, PartialEq, Eq, Debug, Hash, Structural)]
pub enum Policy {
    /// The accumulator advances only during ticks in state `Go`; on re-entry
    /// interval counting resumes from where it left off.
    PauseOnExit,
    /// The accumulator advances in every tick; the state is consulted only
    /// when deciding whether to fire.
    FreeRunning,
}

/// One scheduler tick as the trigger sees it: the state snapshot taken for the
/// tick and the time that has passed since the tick before.
#[derive(Clone, Copy, PartialEq, Eq, Debug, Hash, Structural)]
pub struct Tick {
    pub state: AppState,
    pub delta: u64,
}

/// The trigger over unbounded naturals.
pub struct Timer {
    /// The fixed interval between two fires.
    pub step: nat,
    /// Elapsed time not yet paid out as fires.
    pub accumulator: nat,
    pub policy: Policy,
}

impl Timer {
    /// The interval is positive.
    pub open spec fn wf(self) -> bool {
        self.step > 0
    }

    /// Whether the accumulator advances in a tick taken in `state`.
    pub open spec fn advances(self, state: AppState) -> bool {
        state == AppState::Go || self.policy == Policy::FreeRunning
    }

    /// The accumulated time of a tick before any fire is paid out of it.
    pub open spec fn advanced(self, state: AppState, delta: nat) -> nat {
        if self.advances(state) {
            self.accumulator + delta
        } else {
            self.accumulator
        }
    }

    /// How often the action fires in a tick: once for each whole interval
    /// accumulated if the state is `Go`, never if it is `Stop`.
    pub open spec fn fires(self, state: AppState, delta: nat) -> nat {
        if state == AppState::Go {
            self.advanced(state, delta) / self.step
        } else {
            0
        }
    }

    /// The trigger after a tick: each fire has taken one interval out of the
    /// accumulator, and the remainder stays.
    pub open spec fn next(self, state: AppState, delta: nat) -> Timer {
        Timer {
            step: self.step,
            accumulator: if state == AppState::Go {
                self.advanced(state, delta) % self.step
            } else {
                self.advanced(state, delta)
            },
            policy: self.policy,
        }
    }

    /// The trigger after a sequence of ticks, taken in order.
    pub open spec fn run(self, ticks: Seq<Tick>) -> Timer
        decreases ticks.len(),
    {
        if ticks.len() == 0 {
            self
        } else {
            self.run(ticks.drop_last()).next(ticks.last().state, ticks.last().delta as nat)
        }
    }

    /// The number of fires over a sequence of ticks.
    pub open spec fn fires_over(self, ticks: Seq<Tick>) -> nat
        decreases ticks.len(),
    {
        if ticks.len() == 0 {
            0
        } else {
            self.fires_over(ticks.drop_last()) + self.run(ticks.drop_last()).fires(
                ticks.last().state,
                ticks.last().delta as nat,
            )
        }
    }
}

/// The time that passes over a sequence of ticks.
pub open spec fn total_time(ticks: Seq<Tick>) -> nat
    decreases ticks.len(),
{
    if ticks.len() == 0 {
        0
    } else {
        total_time(ticks.drop_last()) + ticks.last().delta as nat
    }
}

/// Every tick of the sequence was taken in `state`.
pub open spec fn held_at(ticks: Seq<Tick>, state: AppState) -> bool {
    forall|i: int| 0 <= i < ticks.len() ==> (#[trigger] ticks[i]).state == state
}

/// A fixed-interval trigger with its accumulator and its policy.
pub struct FixedTimestep {
    step: u64,
    accumulator: u64,
    policy: Policy,
}

impl View for FixedTimestep {
    type V = Timer;

    closed spec fn view(&self) -> Timer {
        Timer {
            step: self.step as nat,
            accumulator: self.accumulator as nat,
            policy: self.policy,
        }
    }
}

impl FixedTimestep {
    /// The interval is positive.
    #[verifier::type_invariant]
    closed spec fn positive_interval(&self) -> bool {
        self.step > 0
    }

    /// A trigger that is due once every `step` units of time, with nothing
    /// accumulated yet.
    pub fn step(step: u64, policy: Policy) -> (timestep: Self)
        requires
            step > 0,
        ensures
            timestep@ == (Timer { step: step as nat, accumulator: 0, policy }),
            timestep@.wf(),
    {
        FixedTimestep { step, accumulator: 0, policy }
    }

    /// The fixed interval between two fires.
    pub fn interval(&self) -> (step: u64)
        ensures
            step == self@.step,
            self@.wf(),
    {
        proof {
            use_type_invariant(self);
        }
        self.step
    }

    /// The time left over from the last fire.
    pub fn accumulator(&self) -> (accumulator: u64)
        ensures
            accumulator == self@.accumulator,
    {
        self.accumulator
    }

    /// The policy the trigger was made with.
    pub fn policy(&self) -> (policy: Policy)
        ensures
            policy == self@.policy,
    {
        self.policy
    }

    /// Whether a tick of `delta` in `state` keeps the accumulated time within
    /// what the accumulator can hold.
    pub fn fits(&self, state: AppState, delta: u64) -> (fits: bool)
        ensures
            fits == (self@.advanced(state, delta as nat) <= u64::MAX),
    {
        let advances = match state {
            AppState::Go => true,
            AppState::Stop => match self.policy {
                Policy::FreeRunning => true,
                Policy::PauseOnExit => false,
            },
        };
        !advances || delta <= u64::MAX - self.accumulator
    }

    /// Takes one tick: advances the accumulator as the policy says and
    /// returns how many times the action is due in this tick. While the
    /// state is `Go` that is once for every whole interval accumulated, each
    /// taken out of the accumulator; while it is `Stop` that is zero, and
    /// nothing is taken out of the accumulator.
    pub fn tick(&mut self, state: AppState, delta: u64) -> (fires: u64)
        requires
            old(self)@.advanced(state, delta as nat) <= u64::MAX,
        ensures
            fires == old(self)@.fires(state, delta as nat),
            final(self)@ == old(self)@.next(state, delta as nat),
            final(self)@.wf(),
    {
        proof {
            use_type_invariant(&*self);
        }
        match state {
            AppState::Go => {
                let advanced: u64 = self.accumulator + delta;
                self.accumulator = advanced % self.step;
                advanced / self.step
            },
            AppState::Stop => {
                match self.policy {
                    Policy::FreeRunning => {
                        self.accumulator = self.accumulator + delta;
                    },
                    Policy::PauseOnExit => {},
                }
                0
            },
        }
    }
}

} // verus!
