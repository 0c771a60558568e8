//! What holds of the trigger and the counter over whole sequences of ticks.

use vstd::prelude::*;
use vstd::arithmetic::div_mod::{lemma_fundamental_div_mod, lemma_fundamental_div_mod_converse};
use crate::counter::{id_after, id_space, lemma_id_after_add};
use crate::scheduler::{Frame, World};
use crate::state::{any_clicked, AppState};
use crate::timestep::{held_at, total_time, Policy, Tick, Timer};

verus! {

/// The counter after a sequence of ticks, advanced tick by tick: in each tick
/// it takes one wrapping increment for each fire of that tick.
pub open spec fn counter_over(id: nat, timer: Timer, ticks: Seq<Tick>) -> nat
    decreases ticks.len(),
{
    if ticks.len() == 0 {
        id
    } else {
        id_after(
            counter_over(id, timer, ticks.drop_last()),
            timer.run(ticks.drop_last()).fires(ticks.last().state, ticks.last().delta as nat),
        )
    }
}

/// Paying whole intervals out of an accumulator tick by tick pays as many as
/// paying them out of the sum at once, and leaves the same remainder.
proof fn lemma_carry(total: nat, delta: nat, step: nat)
    requires
        step > 0,
    ensures
        total / step + (total % step + delta) / step == (total + delta) / step,
        (total % step + delta) % step == (total + delta) % step,
{
    let s: int = step as int;
    let q1: int = total as int / s;
    let r1: int = total as int % s;
    let q2: int = (r1 + delta) / s;
    let r2: int = (r1 + delta) % s;
    lemma_fundamental_div_mod(total as int, s);
    lemma_fundamental_div_mod(r1 + delta, s);
    assert(total + delta == (q1 + q2) * s + r2) by (nonlinear_arith)
        requires
            total == s * q1 + r1,
            r1 + delta == s * q2 + r2,
    ;
    lemma_fundamental_div_mod_converse((total + delta) as int, s, q1 + q2, r2);
}

/// What holds of every tick holds of all but the last.
proof fn lemma_held_at_prefix(ticks: Seq<Tick>, state: AppState)
    requires
        held_at(ticks, state),
        ticks.len() > 0,
    ensures
        held_at(ticks.drop_last(), state),
        ticks.last().state == state,
{
    let before: Seq<Tick> = ticks.drop_last();
    assert forall|i: int| 0 <= i < before.len() implies (#[trigger] before[i]).state == state by {
        assert(before[i] == ticks[i]);
    }
    assert(ticks.last() == ticks[ticks.len() - 1]);
}

/// A sequence of ticks never changes the interval or the policy.
pub proof fn law_run_keeps_configuration(timer: Timer, ticks: Seq<Tick>)
    ensures
        timer.run(ticks).step == timer.step,
        timer.run(ticks).policy == timer.policy,
    decreases ticks.len(),
{
    if ticks.len() > 0 {
        law_run_keeps_configuration(timer, ticks.drop_last());
    }
}

/// While the state is held at `Go`, the action fires exactly once for every
/// whole interval of accumulated time, whatever the lengths of the single
/// ticks: over the whole sequence the fires are the accumulated time divided
/// by the interval, and the accumulator keeps the remainder. A fire falls due
/// in the very tick in which the accumulated time reaches a multiple of the
/// interval. Whole intervals that the accumulator already holds are paid out
/// in the first tick, so without a tick the accumulator must hold none.
pub proof fn law_go_fires_once_per_interval(timer: Timer, ticks: Seq<Tick>)
    requires
        timer.wf(),
        held_at(ticks, AppState::Go),
        ticks.len() > 0 || timer.accumulator < timer.step,
    ensures
        timer.fires_over(ticks) == (timer.accumulator + total_time(ticks)) / timer.step,
        timer.run(ticks).accumulator == (timer.accumulator + total_time(ticks)) % timer.step,
    decreases ticks.len(),
{
    if ticks.len() == 0 {
        vstd::arithmetic::div_mod::lemma_small_mod(timer.accumulator, timer.step);
        vstd::arithmetic::div_mod::lemma_basic_div(timer.accumulator as int, timer.step as int);
    } else {
        let before: Seq<Tick> = ticks.drop_last();
        let last: Tick = ticks.last();
        assert(last == ticks[ticks.len() - 1]);
        if before.len() == 0 {
            assert(timer.run(before) == timer);
            assert(timer.fires_over(before) == 0);
            assert(total_time(before) == 0);
        } else {
            lemma_held_at_prefix(ticks, AppState::Go);
            law_go_fires_once_per_interval(timer, before);
            law_run_keeps_configuration(timer, before);
            lemma_carry(timer.accumulator + total_time(before), last.delta as nat, timer.step);
        }
    }
}

/// The counter counts the fires: advanced tick by tick, with wraparound, it
/// stands where one wrapping addition of all the fires would put it.
pub proof fn law_counter_counts_fires(id: nat, timer: Timer, ticks: Seq<Tick>)
    requires
        id < id_space(),
    ensures
        counter_over(id, timer, ticks) == id_after(id, timer.fires_over(ticks)),
    decreases ticks.len(),
{
    if ticks.len() == 0 {
        vstd::arithmetic::div_mod::lemma_small_mod(id, id_space());
    } else {
        let before: Seq<Tick> = ticks.drop_last();
        law_counter_counts_fires(id, timer, before);
        lemma_id_after_add(
            id,
            timer.fires_over(before),
            timer.run(before).fires(ticks.last().state, ticks.last().delta as nat),
        );
    }
}

/// While the state is held at `Go` the counter has advanced, with wraparound,
/// by exactly the number of whole intervals in the accumulated time.
pub proof fn law_go_counts_intervals(id: nat, timer: Timer, ticks: Seq<Tick>)
    requires
        id < id_space(),
        timer.wf(),
        held_at(ticks, AppState::Go),
        ticks.len() > 0 || timer.accumulator < timer.step,
    ensures
        counter_over(id, timer, ticks) == id_after(
            id,
            (timer.accumulator + total_time(ticks)) / timer.step,
        ),
{
    law_go_fires_once_per_interval(timer, ticks);
    law_counter_counts_fires(id, timer, ticks);
}

/// Pause on exit: while the state is held at `Stop` nothing fires, the
/// counter stays where it is, and the trigger is frozen as it was when the
/// state changed; the accumulator is neither advanced nor reset.
pub proof fn law_pause_on_exit_freezes(id: nat, timer: Timer, ticks: Seq<Tick>)
    requires
        id < id_space(),
        timer.policy == Policy::PauseOnExit,
        held_at(ticks, AppState::Stop),
    ensures
        timer.fires_over(ticks) == 0,
        counter_over(id, timer, ticks) == id,
        timer.run(ticks) == timer,
    decreases ticks.len(),
{
    if ticks.len() > 0 {
        lemma_held_at_prefix(ticks, AppState::Stop);
        law_pause_on_exit_freezes(id, timer, ticks.drop_last());
    }
    law_counter_counts_fires(id, timer, ticks);
    vstd::arithmetic::div_mod::lemma_small_mod(id, id_space());
}

/// Free running: while the state is held at `Stop` nothing fires and the
/// counter stays where it is, but the accumulator takes up all the time that
/// passes.
pub proof fn law_free_running_accumulates(id: nat, timer: Timer, ticks: Seq<Tick>)
    requires
        id < id_space(),
        timer.policy == Policy::FreeRunning,
        held_at(ticks, AppState::Stop),
    ensures
        timer.fires_over(ticks) == 0,
        counter_over(id, timer, ticks) == id,
        timer.run(ticks) == (Timer {
            accumulator: timer.accumulator + total_time(ticks),
            ..timer
        }),
    decreases ticks.len(),
{
    if ticks.len() > 0 {
        lemma_held_at_prefix(ticks, AppState::Stop);
        law_free_running_accumulates(id, timer, ticks.drop_last());
    }
    law_counter_counts_fires(id, timer, ticks);
    vstd::arithmetic::div_mod::lemma_small_mod(id, id_space());
}

/// When the state returns to `Go` after a stretch of `Stop`, what the first
/// tick fires depends on the policy: a free-running trigger pays out the time
/// of the stretch as well, a paused one only what it held before the stretch
/// and the time of the tick itself.
pub proof fn law_reentry_depends_on_policy(timer: Timer, stopped: Seq<Tick>, delta: nat)
    requires
        held_at(stopped, AppState::Stop),
    ensures
        timer.policy == Policy::FreeRunning ==> timer.run(stopped).fires(AppState::Go, delta) == (
        timer.accumulator + total_time(stopped) + delta) / timer.step,
        timer.policy == Policy::PauseOnExit ==> timer.run(stopped).fires(AppState::Go, delta) == (
        timer.accumulator + delta) / timer.step,
{
    if timer.policy == Policy::FreeRunning {
        law_free_running_accumulates(0, timer, stopped);
    } else {
        law_pause_on_exit_freezes(0, timer, stopped);
    }
}

/// The time that passes over a sequence of frames.
pub open spec fn total_delta(frames: Seq<Frame>) -> nat
    decreases frames.len(),
{
    if frames.len() == 0 {
        0
    } else {
        total_delta(frames.drop_last()) + frames.last().delta as nat
    }
}

/// None of the frames carries a click.
pub open spec fn quiet(frames: Seq<Frame>) -> bool {
    forall|i: int| 0 <= i < frames.len() ==> !any_clicked((#[trigger] frames[i]).events)
}

/// As long as no click arrives the state stays `Go`, and the counter has
/// advanced by exactly one for every whole interval of the time that has
/// passed, with the remainder kept in the accumulator.
pub proof fn law_go_world_counts_intervals(world: World, frames: Seq<Frame>)
    requires
        world.wf(),
        world.state == AppState::Go,
        quiet(frames),
        frames.len() > 0 || world.timer.accumulator < world.timer.step,
    ensures
        world.run(frames).state == AppState::Go,
        world.run(frames).id == id_after(
            world.id,
            (world.timer.accumulator + total_delta(frames)) / world.timer.step,
        ),
        world.run(frames).timer == (Timer {
            accumulator: (world.timer.accumulator + total_delta(frames)) % world.timer.step,
            ..world.timer
        }),
    decreases frames.len(),
{
    let step: nat = world.timer.step;
    let held: nat = world.timer.accumulator;
    if frames.len() == 0 {
        vstd::arithmetic::div_mod::lemma_small_mod(held, step);
        vstd::arithmetic::div_mod::lemma_basic_div(held as int, step as int);
        vstd::arithmetic::div_mod::lemma_small_mod(world.id, id_space());
    } else {
        let before: Seq<Frame> = frames.drop_last();
        let last: Frame = frames.last();
        assert(last == frames[frames.len() - 1]);
        if before.len() == 0 {
            assert(world.run(before) == world);
            assert(total_delta(before) == 0);
        } else {
            assert(quiet(before)) by {
                assert forall|i: int| 0 <= i < before.len() implies !any_clicked(
                    (#[trigger] before[i]).events,
                ) by {
                    assert(before[i] == frames[i]);
                }
            }
            law_go_world_counts_intervals(world, before);
            lemma_carry(held + total_delta(before), last.delta as nat, step);
            lemma_id_after_add(
                world.id,
                (held + total_delta(before)) / step,
                (((held + total_delta(before)) % step) + last.delta as nat) / step,
            );
        }
    }
}

/// Once the state is `Stop` it stays `Stop` whatever events arrive, and the
/// counter is never incremented again. Under pause on exit the trigger is
/// frozen as it stood at the transition; under free running its accumulator
/// goes on taking up the time that passes.
pub proof fn law_stop_world_is_silent(world: World, frames: Seq<Frame>)
    requires
        world.wf(),
        world.state == AppState::Stop,
    ensures
        world.run(frames).state == AppState::Stop,
        world.run(frames).id == world.id,
        world.timer.policy == Policy::PauseOnExit ==> world.run(frames).timer == world.timer,
        world.timer.policy == Policy::FreeRunning ==> world.run(frames).timer == (Timer {
            accumulator: world.timer.accumulator + total_delta(frames),
            ..world.timer
        }),
    decreases frames.len(),
{
    if frames.len() > 0 {
        law_stop_world_is_silent(world, frames.drop_last());
        vstd::arithmetic::div_mod::lemma_small_mod(world.id, id_space());
    }
}

} // verus!
