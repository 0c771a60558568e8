//! The application state flag and the handler that flips it.

use vstd::prelude::*;

verus! {

/// Whether periodic actions are permitted to fire.
#[derive(Clone, Copy, PartialEq, Eq, Debug, Hash, Structural)]
pub enum AppState {
    Go,
    Stop,
}

/// What a button-like widget reports of itself in one tick.
#[derive(Clone, Copy, PartialEq, Eq, Debug, Hash, Structural)]
pub enum Interaction {
    Clicked,
    Hovered,
    Idle,
}

/// True when at least one of the events is a click.
pub open spec fn any_clicked(events: Seq<Interaction>) -> bool {
    exists|i: int| 0 <= i < events.len() && events[i] == Interaction::Clicked
}

/// The state that a tick's events leave behind: `Stop` once any of them is a
/// click, the state as it was otherwise.
pub open spec fn state_after(state: AppState, events: Seq<Interaction>) -> AppState {
    if any_clicked(events) {
        AppState::Stop
    } else {
        state
    }
}

/// Processes the interaction events of one tick: each click sets the state to
/// `Stop`; every other event leaves it alone.
pub fn button_system(interactions: &Vec<Interaction>, state: &mut AppState)
    ensures
        *final(state) == state_after(*old(state), interactions@),
{
    let ghost before = *state;
    let mut i: usize = 0;
    while i < interactions.len()
        invariant
            0 <= i <= interactions@.len(),
            *state == state_after(before, interactions@.subrange(0, i as int)),
        decreases interactions@.len() - i,
    {
        let ghost seen = interactions@.subrange(0, i as int);
        let ghost next = interactions@.subrange(0, i + 1);
        match interactions[i] {
            Interaction::Clicked => {
                *state = AppState::Stop;
                assert(next[i as int] == Interaction::Clicked);
            },
            _ => {
                assert(any_clicked(next) ==> any_clicked(seen)) by {
                    if any_clicked(next) {
                        let j: int = choose|j: int| 0 <= j < next.len() && next[j] == Interaction::Clicked;
                        assert(seen[j] == Interaction::Clicked);
                    }
                }
                assert(any_clicked(seen) ==> any_clicked(next)) by {
                    if any_clicked(seen) {
                        let j: int = choose|j: int| 0 <= j < seen.len() && seen[j] == Interaction::Clicked;
                        assert(next[j] == Interaction::Clicked);
                    }
                }
            },
        }
        i = i + 1;
    }
    assert(interactions@.subrange(0, i as int) =~= interactions@);
}

} // verus!
