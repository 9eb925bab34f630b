//! What holds of an engine over any sequence of ticks.

use crate::edge::EdgeModel;
use crate::engine::{
    after_tick, lemma_tick_follows_retention, lemma_tick_keeps_invariant, samples_at,
    tick_outcome, well_formed, EngineModel, TickOutcome,
};
use crate::keys::Key;
use crate::recorder::{
    changed, changes, edges_recorded, front_state, kept, lemma_edge_triggering,
    lemma_kept_from_nothing,
};
use crate::sampler::sample_of;
use crate::timeline::{lemma_shared_boundary, lemma_timestamps_decrease};
use vstd::prelude::*;

verus! {

/// What the host hands to one tick: a clock reading and the keys that are
/// down.
pub ghost struct TickInput {
    pub now: int,
    pub active: Seq<Key>,
}

/// The engine after the ticks in `ticks`, in order.
pub open spec fn after_ticks(m: EngineModel, ticks: Seq<TickInput>) -> EngineModel
    decreases ticks.len(),
{
    if ticks.len() == 0 {
        m
    } else {
        after_ticks(after_tick(m, ticks[0].now, ticks[0].active), ticks.skip(1))
    }
}

/// How many of the ticks in `ticks` record an edge.
pub open spec fn edges_after(m: EngineModel, ticks: Seq<TickInput>) -> nat
    decreases ticks.len(),
{
    if ticks.len() == 0 {
        0
    } else {
        let first: nat = if tick_outcome(m, ticks[0].now, ticks[0].active)
            == TickOutcome::Recorded {
            1
        } else {
            0
        };
        first + edges_after(after_tick(m, ticks[0].now, ticks[0].active), ticks.skip(1))
    }
}

/// The samples taken during the ticks in `ticks`: one for each tick that the
/// clock and the rate limit let through.
pub open spec fn samples_taken(m: EngineModel, ticks: Seq<TickInput>) -> Seq<Seq<bool>>
    decreases ticks.len(),
{
    if ticks.len() == 0 {
        Seq::empty()
    } else {
        let rest = samples_taken(after_tick(m, ticks[0].now, ticks[0].active), ticks.skip(1));
        if samples_at(m, ticks[0].now) {
            seq![sample_of(m.channels, ticks[0].active)] + rest
        } else {
            rest
        }
    }
}

/// Whatever the ticks, the engine's invariant holds after them.
pub proof fn lemma_ticks_keep_invariant(m: EngineModel, ticks: Seq<TickInput>)
    requires
        well_formed(m),
    ensures
        well_formed(after_ticks(m, ticks)),
    decreases ticks.len(),
{
    if ticks.len() > 0 {
        lemma_tick_keeps_invariant(m, ticks[0].now, ticks[0].active);
        lemma_ticks_keep_invariant(
            after_tick(m, ticks[0].now, ticks[0].active),
            ticks.skip(1),
        );
    }
}

/// After any sequence of ticks the timeline holds no more edges than its
/// capacity, its timestamps strictly decrease from front to back, every edge
/// shares its `dt_after` with the `dt_before` of the edge recorded next, and
/// neighbouring edges differ in state.
pub proof fn lemma_history_after_ticks(m: EngineModel, ticks: Seq<TickInput>, i: int, j: int)
    requires
        well_formed(m),
        0 <= i < j < after_ticks(m, ticks).timeline.len(),
    ensures
        after_ticks(m, ticks).timeline.len() <= m.capacity,
        after_ticks(m, ticks).timeline[i].timestamp > after_ticks(m, ticks).timeline[j].timestamp,
        after_ticks(m, ticks).timeline[i + 1].dt_after == Some(
            after_ticks(m, ticks).timeline[i].dt_before,
        ),
        after_ticks(m, ticks).timeline[i + 1].state != after_ticks(m, ticks).timeline[i].state,
{
    let end = after_ticks(m, ticks);
    lemma_ticks_keep_invariant(m, ticks);
    lemma_capacity_is_fixed(m, ticks);
    lemma_timestamps_decrease(end.timeline, i, j);
    lemma_shared_boundary(end.timeline, i + 1);
}

/// Ticks change neither the capacity nor the rest of the configuration.
pub proof fn lemma_capacity_is_fixed(m: EngineModel, ticks: Seq<TickInput>)
    ensures
        after_ticks(m, ticks).capacity == m.capacity,
        after_ticks(m, ticks).channels == m.channels,
        after_ticks(m, ticks).frame_duration_nanos == m.frame_duration_nanos,
        after_ticks(m, ticks).rate_limit == m.rate_limit,
    decreases ticks.len(),
{
    if ticks.len() > 0 {
        lemma_capacity_is_fixed(after_tick(m, ticks[0].now, ticks[0].active), ticks.skip(1));
    }
}

/// Whether no tick of `ticks` has its sample withheld: whenever a sample
/// differs from the newest edge, the clock has moved on since that edge.
pub open spec fn unhindered(m: EngineModel, ticks: Seq<TickInput>) -> bool
    decreases ticks.len(),
{
    ticks.len() == 0 || (tick_outcome(m, ticks[0].now, ticks[0].active) != TickOutcome::Withheld
        && unhindered(after_tick(m, ticks[0].now, ticks[0].active), ticks.skip(1)))
}

/// Whether every tick of `ticks` reads the clock later than the tick before
/// it.
pub open spec fn rising(ticks: Seq<TickInput>) -> bool {
    forall|i: int, j: int| 0 <= i < j < ticks.len() ==> ticks[i].now < ticks[j].now
}

/// Whether every tick of `ticks` reads the clock later than `bound`.
pub open spec fn all_later(bound: int, ticks: Seq<TickInput>) -> bool {
    forall|i: int| 0 <= i < ticks.len() ==> bound < (#[trigger] ticks[i]).now
}

/// Under a clock that rises from tick to tick, and has passed the newest
/// edge if there is one, no sample is ever withheld.
pub proof fn lemma_rising_clock_is_unhindered(m: EngineModel, ticks: Seq<TickInput>)
    requires
        well_formed(m),
        rising(ticks),
        m.timeline.len() > 0 ==> all_later(m.timeline[0].timestamp, ticks),
    ensures
        unhindered(m, ticks),
    decreases ticks.len(),
{
    if ticks.len() > 0 {
        let now = ticks[0].now;
        let active = ticks[0].active;
        let next = after_tick(m, now, active);
        let rest = ticks.skip(1);
        lemma_tick_keeps_invariant(m, now, active);
        lemma_tick_follows_retention(m, now, active);
        assert forall|i: int, j: int| 0 <= i < j < rest.len() implies rest[i].now
            < rest[j].now by {
            assert(rest[i] == ticks[i + 1]);
            assert(rest[j] == ticks[j + 1]);
        }
        if next.timeline.len() > 0 {
            assert forall|i: int| 0 <= i < rest.len() implies next.timeline[0].timestamp < (
            #[trigger] rest[i]).now by {
                assert(rest[i] == ticks[i + 1]);
                assert(ticks[0].now < ticks[i + 1].now);
                if m.timeline.len() > 0 {
                    assert(m.timeline[0].timestamp < ticks[i + 1].now);
                }
            }
        }
        lemma_rising_clock_is_unhindered(next, rest);
    }
}

/// Where no sample is withheld, the ticks record exactly the samples that
/// the retention rule keeps.
pub proof fn lemma_edges_follow_samples(m: EngineModel, ticks: Seq<TickInput>)
    requires
        well_formed(m),
        unhindered(m, ticks),
    ensures
        edges_after(m, ticks) == edges_recorded(front_state(m.timeline), samples_taken(m, ticks)),
    decreases ticks.len(),
{
    if ticks.len() > 0 {
        let now = ticks[0].now;
        let active = ticks[0].active;
        let next = after_tick(m, now, active);
        let rest = samples_taken(next, ticks.skip(1));
        lemma_tick_keeps_invariant(m, now, active);
        lemma_tick_follows_retention(m, now, active);
        lemma_edges_follow_samples(next, ticks.skip(1));
        if samples_at(m, now) {
            let sample = sample_of(m.channels, active);
            let taken = seq![sample] + rest;
            assert(taken[0] == sample);
            assert(taken.skip(1) =~= rest);
        }
    }
}

/// Edge-triggering over a whole run: starting with an empty timeline and
/// under a clock that rises from tick to tick, the ticks record one edge for
/// the first sample taken and one more for every sample that differs from
/// the sample taken before it.
pub proof fn lemma_run_is_edge_triggered(m: EngineModel, ticks: Seq<TickInput>)
    requires
        well_formed(m),
        m.timeline.len() == 0,
        rising(ticks),
        samples_taken(m, ticks).len() > 0,
    ensures
        edges_after(m, ticks) == 1 + changes(samples_taken(m, ticks)),
{
    lemma_rising_clock_is_unhindered(m, ticks);
    lemma_edges_follow_samples(m, ticks);
    lemma_edge_triggering(samples_taken(m, ticks));
}

/// The states of the edges of a timeline, newest first.
pub open spec fn states_of(timeline: Seq<EdgeModel>) -> Seq<Seq<bool>> {
    Seq::new(timeline.len(), |i: int| timeline[i].state)
}

/// While the timeline has room for every edge that the ticks record, and no
/// sample is withheld, the timeline holds after the ticks the states of the
/// retained samples, newest first, in front of the states it held before.
pub proof fn lemma_run_keeps_retained_samples(m: EngineModel, ticks: Seq<TickInput>)
    requires
        well_formed(m),
        unhindered(m, ticks),
        m.timeline.len() + edges_after(m, ticks) <= m.capacity,
    ensures
        states_of(after_ticks(m, ticks).timeline) == kept(
            front_state(m.timeline),
            samples_taken(m, ticks),
        ) + states_of(m.timeline),
    decreases ticks.len(),
{
    let front = front_state(m.timeline);
    if ticks.len() == 0 {
        assert(states_of(m.timeline) =~= Seq::<Seq<bool>>::empty() + states_of(m.timeline));
    } else {
        let now = ticks[0].now;
        let active = ticks[0].active;
        let next = after_tick(m, now, active);
        let rest = samples_taken(next, ticks.skip(1));
        lemma_tick_keeps_invariant(m, now, active);
        lemma_tick_follows_retention(m, now, active);
        if tick_outcome(m, now, active) == TickOutcome::Recorded {
            assert(m.timeline.len() < m.capacity);
        }
        lemma_run_keeps_retained_samples(next, ticks.skip(1));
        if samples_at(m, now) {
            let sample = sample_of(m.channels, active);
            let taken = seq![sample] + rest;
            assert(taken[0] == sample);
            assert(taken.skip(1) =~= rest);
            if tick_outcome(m, now, active) == TickOutcome::Recorded {
                assert(states_of(next.timeline) =~= seq![sample] + states_of(m.timeline));
                assert(kept(Some(sample), rest).push(sample) + states_of(m.timeline) =~= kept(
                    Some(sample),
                    rest,
                ) + (seq![sample] + states_of(m.timeline)));
            }
        }
    }
}

/// Starting with an empty timeline that has room for every edge, and under
/// a clock that rises from tick to tick, the timeline holds after the ticks
/// exactly the first sample taken and every later sample that differs from
/// the sample taken before it, newest first.
pub proof fn lemma_run_keeps_changed_samples(m: EngineModel, ticks: Seq<TickInput>)
    requires
        well_formed(m),
        m.timeline.len() == 0,
        rising(ticks),
        samples_taken(m, ticks).len() > 0,
        edges_after(m, ticks) <= m.capacity,
    ensures
        states_of(after_ticks(m, ticks).timeline) == changed(
            samples_taken(m, ticks)[0],
            samples_taken(m, ticks).skip(1),
        ).push(samples_taken(m, ticks)[0]),
{
    let taken = samples_taken(m, ticks);
    lemma_rising_clock_is_unhindered(m, ticks);
    lemma_run_keeps_retained_samples(m, ticks);
    lemma_kept_from_nothing(taken);
    assert(kept(None, taken) + states_of(m.timeline) =~= kept(None, taken));
}

} // verus!
