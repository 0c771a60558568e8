//! The tick loop's decisions: one state flag, one counter and one trigger,
//! advanced a frame at a time.

use vstd::prelude::*;
use crate::counter::{generate_ids, generated, id_after, id_space, IDManager};
use crate::state::{button_system, state_after, AppState, Interaction};
use crate::timestep::{FixedTimestep, Policy, Timer};

verus! {

/// What one frame brings: the time that has passed since the frame before and
/// the interaction events of the tracked widget.
pub struct Frame {
    pub delta: u64,
    pub events: Seq<Interaction>,
}

/// The scheduler's state over unbounded naturals.
pub struct World {
    pub state: AppState,
    /// The last generated ID.
    pub id: nat,
    pub timer: Timer,
}

impl World {
    /// The interval is positive and the ID is one that the counter can hold.
    pub open spec fn wf(self) -> bool {
        self.timer.wf() && self.id < id_space()
    }

    /// How often the counter action runs in a frame that lasts `delta`.
    pub open spec fn fires(self, delta: u64) -> nat {
        self.timer.fires(self.state, delta as nat)
    }

    /// The world after one frame. The trigger and the counter go by the state
    /// as it stands when the frame begins; what the frame's events do to the
    /// state shows from the next frame on.
    pub open spec fn step(self, frame: Frame) -> World {
        World {
            state: state_after(self.state, frame.events),
            id: id_after(self.id, self.fires(frame.delta)),
            timer: self.timer.next(self.state, frame.delta as nat),
        }
    }

    /// The world after a sequence of frames, taken in order.
    pub open spec fn run(self, frames: Seq<Frame>) -> World
        decreases frames.len(),
    {
        if frames.len() == 0 {
            self
        } else {
            self.run(frames.drop_last()).step(frames.last())
        }
    }
}

/// The state flag, the counter record and the trigger, owned in one place
/// and handed to each handler explicitly.
pub struct Scheduler {
    pub state: AppState,
    pub ids: IDManager,
    pub timestep: FixedTimestep,
}

impl View for Scheduler {
    type V = World;

    open spec fn view(&self) -> World {
        World { state: self.state, id: self.ids@, timer: self.timestep@ }
    }
}

impl Scheduler {
    /// A scheduler at process start: state `Go`, no ID generated yet, and a
    /// trigger of the given interval and policy with nothing accumulated.
    pub fn new(step: u64, policy: Policy) -> (scheduler: Self)
        requires
            step > 0,
        ensures
            scheduler@ == (World {
                state: AppState::Go,
                id: 0,
                timer: Timer { step: step as nat, accumulator: 0, policy },
            }),
            scheduler@.wf(),
    {
        Scheduler {
            state: AppState::Go,
            ids: IDManager::default(),
            timestep: FixedTimestep::step(step, policy),
        }
    }

    /// Whether a frame that lasts `delta` keeps the accumulated time within
    /// what the trigger can hold.
    pub fn fits(&self, delta: u64) -> (fits: bool)
        ensures
            fits == (self@.timer.advanced(self@.state, delta as nat) <= u64::MAX),
    {
        self.timestep.fits(self.state, delta)
    }

    /// Runs one frame. The state is read once, as the frame begins: the
    /// trigger takes its tick under it, and the counter action runs once for
    /// each fire. Then the frame's events are handled. Returns the IDs
    /// generated in this frame, oldest first.
    pub fn tick(&mut self, delta: u64, interactions: &Vec<Interaction>) -> (ids: Vec<usize>)
        requires
            old(self)@.timer.advanced(old(self)@.state, delta as nat) <= u64::MAX,
        ensures
            final(self)@ == old(self)@.step(Frame { delta, events: interactions@ }),
            final(self)@.wf(),
            generated(ids@, old(self)@.id, old(self)@.fires(delta)),
    {
        let snapshot = self.state;
        let fires: u64 = self.timestep.tick(snapshot, delta);
        let ids = generate_ids(&mut self.ids, fires);
        button_system(interactions, &mut self.state);
        proof {
            self.ids.lemma_in_space();
        }
        ids
    }
}

} // verus!
