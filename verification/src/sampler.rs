//! Building a sample from the set of active keys, and the rate gate.

use crate::config::{gate_representable, lemma_product_fits_within_a_frame, RateLimit};
use crate::keys::{holds_key, Key};
use vstd::prelude::*;

verus! {

/// The sample seen when the keys in `active` are down: channel `i` is active
/// exactly if its key is among them.
pub open spec fn sample_of(channels: Seq<Key>, active: Seq<Key>) -> Seq<bool> {
    Seq::new(channels.len(), |i: int| active.contains(channels[i]))
}

/// Whether the rate limit lets a query through `elapsed` nanoseconds after
/// the previous one.
pub open spec fn gate_passes(rate_limit: RateLimit, frame_duration_nanos: int, elapsed: int) -> bool {
    match rate_limit {
        RateLimit::Unlimited => true,
        RateLimit::Limited { max_attempts_per_frame } => elapsed * max_attempts_per_frame
            >= frame_duration_nanos,
    }
}

/// The state of every tracked channel, given the keys that are down.
pub fn get_pressed_keys(channels: &Vec<Key>, active: &Vec<Key>) -> (keys: Vec<bool>)
    ensures
        keys@ == sample_of(channels@, active@),
{
    let mut keys: Vec<bool> = Vec::new();
    let mut idx: usize = 0;
    while idx < channels.len()
        invariant
            idx <= channels.len(),
            keys@.len() == idx,
            forall|k: int| 0 <= k < idx ==> keys@[k] == active@.contains(channels@[k]),
        decreases channels.len() - idx,
    {
        keys.push(holds_key(active, channels[idx]));
        idx += 1;
    }
    assert(keys@ =~= sample_of(channels@, active@));
    keys
}

/// Decides the rate limit by cross-multiplication, without dividing.
///
/// The product is formed only for intervals shorter than a frame; a longer
/// interval passes whenever any attempt is allowed at all. So the
/// multiplication cannot overflow under a rate limit that validation has
/// accepted.
pub fn gate_open(rate_limit: RateLimit, frame_duration_nanos: u64, elapsed: u64) -> (open: bool)
    requires
        gate_representable(rate_limit, frame_duration_nanos as int),
    ensures
        open == gate_passes(rate_limit, frame_duration_nanos as int, elapsed as int),
{
    match rate_limit {
        RateLimit::Unlimited => true,
        RateLimit::Limited { max_attempts_per_frame } => {
            if elapsed >= frame_duration_nanos {
                proof {
                    lemma_long_interval_passes(
                        max_attempts_per_frame,
                        frame_duration_nanos as int,
                        elapsed as int,
                    );
                }
                max_attempts_per_frame > 0 || frame_duration_nanos == 0
            } else {
                proof {
                    lemma_product_fits_within_a_frame(
                        max_attempts_per_frame,
                        frame_duration_nanos as int,
                        elapsed as int,
                    );
                }
                elapsed * max_attempts_per_frame >= frame_duration_nanos
            }
        },
    }
}

/// An interval of at least one frame passes the rate limit exactly if at
/// least one attempt per frame is allowed, or a frame has no duration.
pub proof fn lemma_long_interval_passes(
    max_attempts_per_frame: u64,
    frame_duration_nanos: int,
    elapsed: int,
)
    requires
        0 <= frame_duration_nanos <= elapsed,
    ensures
        elapsed * max_attempts_per_frame >= frame_duration_nanos <==> max_attempts_per_frame > 0
            || frame_duration_nanos == 0,
{
    if max_attempts_per_frame > 0 {
        assert(elapsed * max_attempts_per_frame >= elapsed) by (nonlinear_arith)
            requires
                elapsed >= 0,
                max_attempts_per_frame >= 1,
        ;
    } else {
        assert(elapsed * max_attempts_per_frame == 0) by (nonlinear_arith)
            requires
                max_attempts_per_frame == 0,
        ;
    }
}

} // verus!
