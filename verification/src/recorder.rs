//! The retention rule: which samples become edges.

use crate::edge::EdgeModel;
use vstd::prelude::*;

verus! {

/// The state of the newest edge, if there is one.
pub open spec fn front_state(timeline: Seq<EdgeModel>) -> Option<Seq<bool>> {
    if timeline.len() == 0 {
        None
    } else {
        Some(timeline[0].state)
    }
}

/// Whether a sample is retained: always when nothing was retained before,
/// else exactly when it differs from the last retained state.
pub open spec fn retains(front: Option<Seq<bool>>, sample: Seq<bool>) -> bool {
    match front {
        None => true,
        Some(state) => state != sample,
    }
}

/// The last retained state once `sample` was offered.
pub open spec fn front_after(front: Option<Seq<bool>>, sample: Seq<bool>) -> Option<Seq<bool>> {
    if retains(front, sample) {
        Some(sample)
    } else {
        front
    }
}

/// How many of `samples`, offered in order, are recorded when `front` is the
/// last retained state.
pub open spec fn edges_recorded(front: Option<Seq<bool>>, samples: Seq<Seq<bool>>) -> nat
    decreases samples.len(),
{
    if samples.len() == 0 {
        0
    } else {
        let first: nat = if retains(front, samples[0]) {
            1
        } else {
            0
        };
        first + edges_recorded(front_after(front, samples[0]), samples.skip(1))
    }
}

/// How many samples differ from the sample right before them.
pub open spec fn changes(samples: Seq<Seq<bool>>) -> nat
    decreases samples.len(),
{
    if samples.len() <= 1 {
        0
    } else {
        let first: nat = if samples[0] != samples[1] {
            1
        } else {
            0
        };
        first + changes(samples.skip(1))
    }
}

/// After a retained state, as many samples are recorded as there are
/// changes among them, and one more if the first differs from that state.
pub proof fn lemma_edges_follow_changes(state: Seq<bool>, samples: Seq<Seq<bool>>)
    requires
        samples.len() > 0,
    ensures
        edges_recorded(Some(state), samples) == changes(samples) + if state != samples[0] {
            1nat
        } else {
            0nat
        },
    decreases samples.len(),
{
    let rest = samples.skip(1);
    assert(front_after(Some(state), samples[0]) == Some(samples[0]));
    if rest.len() > 0 {
        assert(rest[0] == samples[1]);
        lemma_edges_follow_changes(samples[0], rest);
    } else {
        assert(edges_recorded(Some(samples[0]), rest) == 0);
    }
}

/// Recording is triggered by change alone: from an empty history, the
/// number of edges recorded is one for the first sample plus the number of
/// samples that differ from their predecessor.
pub proof fn lemma_edge_triggering(samples: Seq<Seq<bool>>)
    requires
        samples.len() > 0,
    ensures
        edges_recorded(None, samples) == 1 + changes(samples),
{
    let rest = samples.skip(1);
    assert(front_after(None, samples[0]) == Some(samples[0]));
    if rest.len() > 0 {
        assert(rest[0] == samples[1]);
        lemma_edges_follow_changes(samples[0], rest);
    } else {
        assert(edges_recorded(Some(samples[0]), rest) == 0);
    }
}

/// Offering the last retained state again, any number of times, records
/// nothing.
pub proof fn lemma_repeats_record_nothing(state: Seq<bool>, times: nat)
    ensures
        edges_recorded(Some(state), Seq::new(times, |i: int| state)) == 0,
    decreases times,
{
    let samples = Seq::new(times, |i: int| state);
    if times > 0 {
        assert(samples.skip(1) =~= Seq::new((times - 1) as nat, |i: int| state));
        lemma_repeats_record_nothing(state, (times - 1) as nat);
    }
}

/// The samples among `samples`, offered in order, that are retained when
/// `front` is the last retained state; the newest comes first.
pub open spec fn kept(front: Option<Seq<bool>>, samples: Seq<Seq<bool>>) -> Seq<Seq<bool>>
    decreases samples.len(),
{
    if samples.len() == 0 {
        Seq::empty()
    } else {
        let later = kept(front_after(front, samples[0]), samples.skip(1));
        if retains(front, samples[0]) {
            later.push(samples[0])
        } else {
            later
        }
    }
}

/// The samples that differ from the sample right before them, `before`
/// standing before the first; the newest comes first.
pub open spec fn changed(before: Seq<bool>, samples: Seq<Seq<bool>>) -> Seq<Seq<bool>>
    decreases samples.len(),
{
    if samples.len() == 0 {
        Seq::empty()
    } else {
        let later = changed(samples[0], samples.skip(1));
        if samples[0] != before {
            later.push(samples[0])
        } else {
            later
        }
    }
}

/// After a retained state, the samples retained are exactly those that
/// differ from the sample before them.
pub proof fn lemma_kept_are_changed(state: Seq<bool>, samples: Seq<Seq<bool>>)
    ensures
        kept(Some(state), samples) == changed(state, samples),
    decreases samples.len(),
{
    if samples.len() > 0 {
        assert(front_after(Some(state), samples[0]) == Some(samples[0]));
        lemma_kept_are_changed(samples[0], samples.skip(1));
    }
}

/// From an empty history, the samples retained are the first sample and
/// every later one that differs from the sample before it.
pub proof fn lemma_kept_from_nothing(samples: Seq<Seq<bool>>)
    requires
        samples.len() > 0,
    ensures
        kept(None, samples) == changed(samples[0], samples.skip(1)).push(samples[0]),
{
    assert(front_after(None, samples[0]) == Some(samples[0]));
    lemma_kept_are_changed(samples[0], samples.skip(1));
}

/// As many samples are retained as edges are recorded.
pub proof fn lemma_kept_count(front: Option<Seq<bool>>, samples: Seq<Seq<bool>>)
    ensures
        kept(front, samples).len() == edges_recorded(front, samples),
    decreases samples.len(),
{
    if samples.len() > 0 {
        lemma_kept_count(front_after(front, samples[0]), samples.skip(1));
    }
}

} // verus!
