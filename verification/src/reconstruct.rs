//! How long a state was held, reconstructed from two neighbouring edges.

use crate::edge::{Edge, EdgeModel};
use crate::timeline::{lemma_shared_boundary, Timeline};
use vstd::prelude::*;

verus! {

/// The shortest time the older edge's state can have been held.
pub open spec fn min_nanos_held(raw_dt: int, dt_after: int) -> int {
    raw_dt - dt_after
}

/// Half the combined width of the sampling intervals on both sides of a hold.
pub open spec fn epsilon(dt_before: int, dt_after: int) -> int {
    (dt_after + dt_before) / 2
}

/// The hold centred within its uncertainty band, in nanoseconds.
pub open spec fn held_nanos(raw_dt: int, dt_before: int, dt_after: int) -> int {
    min_nanos_held(raw_dt, dt_after) + epsilon(dt_before, dt_after)
}

/// A time in hundredths of a frame, rounded down.
pub open spec fn hundredths_of_frame(nanos: int, frame_duration_nanos: int) -> int
    recommends
        frame_duration_nanos > 0,
{
    (nanos * 100) / frame_duration_nanos
}

/// Whether a hold can be reported for `poll` and the edge after it: `poll`
/// knows its `dt_after`, is not newer than `next_poll`, and the interval it
/// shares with `next_poll` fits between the two.
pub open spec fn reportable(poll: EdgeModel, next_poll: EdgeModel) -> bool {
    match poll.dt_after {
        Some(dt_after) => poll.timestamp <= next_poll.timestamp && dt_after <= next_poll.timestamp
            - poll.timestamp,
        None => false,
    }
}

/// A reconstructed hold: the estimate is `min_nanos_held + epsilon_nanos`
/// nanoseconds, give or take `epsilon_nanos`.
#[derive(Clone, Copy, Debug, PartialEq, Eq, Structural)]
pub struct HeldEstimate {
    /// The shortest time the state can have been held.
    pub min_nanos_held: u64,
    /// Half-width of the uncertainty band.
    pub epsilon_nanos: u64,
}

impl HeldEstimate {
    /// The estimate in nanoseconds.
    pub fn held_nanos(&self) -> (nanos: u128)
        ensures
            nanos == self.min_nanos_held + self.epsilon_nanos,
    {
        self.min_nanos_held as u128 + self.epsilon_nanos as u128
    }

    /// The estimate in whole frames, rounded down; `None` for a frame of no
    /// duration.
    pub fn whole_frames(&self, frame_duration_nanos: u64) -> (frames: Option<u128>)
        ensures
            frames is Some <==> frame_duration_nanos > 0,
            frames matches Some(f) ==> f == (self.min_nanos_held + self.epsilon_nanos)
                / frame_duration_nanos as int,
    {
        if frame_duration_nanos == 0 {
            None
        } else {
            Some(self.held_nanos() / (frame_duration_nanos as u128))
        }
    }

    /// The estimate in hundredths of a frame, rounded down; `None` for a
    /// frame of no duration.
    pub fn held_hundredths(&self, frame_duration_nanos: u64) -> (frames: Option<u128>)
        ensures
            frames is Some <==> frame_duration_nanos > 0,
            frames matches Some(f) ==> f == hundredths_of_frame(
                self.min_nanos_held + self.epsilon_nanos,
                frame_duration_nanos as int,
            ),
    {
        if frame_duration_nanos == 0 {
            None
        } else {
            Some((self.held_nanos() * 100) / (frame_duration_nanos as u128))
        }
    }

    /// The uncertainty in hundredths of a frame, rounded down; `None` for a
    /// frame of no duration.
    pub fn uncertainty_hundredths(&self, frame_duration_nanos: u64) -> (frames: Option<u128>)
        ensures
            frames is Some <==> frame_duration_nanos > 0,
            frames matches Some(f) ==> f == hundredths_of_frame(
                self.epsilon_nanos as int,
                frame_duration_nanos as int,
            ),
    {
        if frame_duration_nanos == 0 {
            None
        } else {
            Some((self.epsilon_nanos as u128 * 100) / (frame_duration_nanos as u128))
        }
    }
}

/// Estimates how long the state of `poll` was held before `next_poll`
/// superseded it; `None` where no hold can be reported for the pair.
pub fn estimate_held(poll: &Edge, next_poll: &Edge) -> (estimate: Option<HeldEstimate>)
    ensures
        estimate is Some <==> reportable(poll@, next_poll@),
        estimate matches Some(e) ==> {
            &&& poll@.dt_after matches Some(dt_after)
            &&& e.min_nanos_held == min_nanos_held(
                next_poll@.timestamp - poll@.timestamp,
                dt_after,
            )
            &&& e.epsilon_nanos == epsilon(poll@.dt_before, dt_after)
        },
{
    match poll.dt_after {
        None => None,
        Some(dt_after) => {
            if next_poll.timestamp < poll.timestamp {
                return None;
            }
            let raw_dt: u64 = next_poll.timestamp - poll.timestamp;
            if raw_dt < dt_after {
                return None;
            }
            let sum: u128 = dt_after as u128 + poll.dt_before as u128;
            let half: u128 = sum / 2;
            Some(HeldEstimate { min_nanos_held: raw_dt - dt_after, epsilon_nanos: half as u64 })
        },
    }
}

/// The hold of the edge at `index`, counted from the newest. Every edge but
/// the newest has one; the newest is still in progress.
pub fn held_at(timeline: &Timeline, index: usize) -> (estimate: Option<HeldEstimate>)
    requires
        timeline.wf(),
    ensures
        estimate is Some <==> 0 < index < timeline@.len(),
        estimate matches Some(e) ==> {
            &&& timeline@[index as int].dt_after matches Some(dt_after)
            &&& e.min_nanos_held == min_nanos_held(
                timeline@[index - 1].timestamp - timeline@[index as int].timestamp,
                dt_after,
            )
            &&& e.epsilon_nanos == epsilon(timeline@[index as int].dt_before, dt_after)
        },
{
    if index == 0 {
        return None;
    }
    match (timeline.get(index), timeline.get(index - 1)) {
        (Some(poll), Some(next_poll)) => {
            proof {
                lemma_shared_boundary(timeline@, index as int);
            }
            estimate_held(poll, next_poll)
        },
        _ => None,
    }
}

/// With both sampling intervals fixed, a longer time between two edges gives
/// a strictly longer estimate, in nanoseconds and therefore in frames, and
/// never fewer hundredths of a frame.
pub proof fn lemma_estimate_increases(
    raw_dt: int,
    longer_raw_dt: int,
    dt_before: int,
    dt_after: int,
    frame_duration_nanos: int,
)
    requires
        raw_dt < longer_raw_dt,
        frame_duration_nanos > 0,
    ensures
        held_nanos(raw_dt, dt_before, dt_after) < held_nanos(longer_raw_dt, dt_before, dt_after),
        held_nanos(longer_raw_dt, dt_before, dt_after) - held_nanos(raw_dt, dt_before, dt_after)
            == longer_raw_dt - raw_dt,
        held_nanos(raw_dt, dt_before, dt_after) * frame_duration_nanos < held_nanos(
            longer_raw_dt,
            dt_before,
            dt_after,
        ) * frame_duration_nanos,
        hundredths_of_frame(held_nanos(raw_dt, dt_before, dt_after), frame_duration_nanos)
            <= hundredths_of_frame(
            held_nanos(longer_raw_dt, dt_before, dt_after),
            frame_duration_nanos,
        ),
{
    vstd::arithmetic::mul::lemma_mul_strict_inequality(
        held_nanos(raw_dt, dt_before, dt_after),
        held_nanos(longer_raw_dt, dt_before, dt_after),
        frame_duration_nanos,
    );
    vstd::arithmetic::div_mod::lemma_div_is_ordered(
        held_nanos(raw_dt, dt_before, dt_after) * 100,
        held_nanos(longer_raw_dt, dt_before, dt_after) * 100,
        frame_duration_nanos,
    );
}

} // verus!
