//! The configuration of a run, and its validation.

use crate::keys::Key;
use vstd::prelude::*;

verus! {

/// How often the key-state source may be queried.
#[derive(Clone, Copy, Debug, PartialEq, Eq, Structural)]
pub enum RateLimit {
    /// Every tick queries the source.
    Unlimited,
    /// At most `max_attempts_per_frame` queries per frame duration.
    Limited { max_attempts_per_frame: u64 },
}

/// Why a configuration cannot be run.
#[derive(Clone, Copy, Debug, PartialEq, Eq, Structural)]
pub enum ConfigError {
    /// No channel is tracked.
    NoChannels,
    /// The timeline could hold no edge.
    ZeroCapacity,
    /// A frame of no duration cannot measure a hold.
    ZeroFrameDuration,
    /// The frame duration times the attempts per frame does not fit in 64
    /// bits, so the rate limit's comparison could overflow on an interval
    /// shorter than a frame.
    GateOverflow,
}

/// What the host supplies once, at startup.
pub struct Config {
    /// The key of each tracked channel, in display order.
    pub channels: Vec<Key>,
    /// Duration of one frame of the observed program, in nanoseconds.
    pub frame_duration_nanos: u64,
    /// The sampling rate limit.
    pub rate_limit: RateLimit,
    /// The number of edges that the timeline keeps.
    pub capacity: usize,
}

/// Whether the product that the rate limit compares with the frame duration
/// stays within 64 bits for every interval of up to one frame.
pub open spec fn gate_representable(rate_limit: RateLimit, frame_duration_nanos: int) -> bool {
    match rate_limit {
        RateLimit::Unlimited => true,
        RateLimit::Limited { max_attempts_per_frame } => frame_duration_nanos
            * max_attempts_per_frame <= u64::MAX,
    }
}

/// Under a representable rate limit no interval of up to one frame
/// overflows the product that is compared with the frame duration.
pub proof fn lemma_product_fits_within_a_frame(
    max_attempts_per_frame: u64,
    frame_duration_nanos: int,
    elapsed: int,
)
    requires
        gate_representable(
            (RateLimit::Limited { max_attempts_per_frame }),
            frame_duration_nanos,
        ),
        0 <= elapsed <= frame_duration_nanos,
    ensures
        0 <= elapsed * max_attempts_per_frame <= u64::MAX,
{
    assert(0 <= elapsed * max_attempts_per_frame <= frame_duration_nanos
        * max_attempts_per_frame) by (nonlinear_arith)
        requires
            0 <= elapsed <= frame_duration_nanos,
            0 <= max_attempts_per_frame,
    ;
}

impl Config {
    /// The first fault of this configuration, if it has one.
    pub open spec fn fault(&self) -> Option<ConfigError> {
        if self.channels@.len() == 0 {
            Some(ConfigError::NoChannels)
        } else if self.capacity == 0 {
            Some(ConfigError::ZeroCapacity)
        } else if self.frame_duration_nanos == 0 {
            Some(ConfigError::ZeroFrameDuration)
        } else if !gate_representable(self.rate_limit, self.frame_duration_nanos as int) {
            Some(ConfigError::GateOverflow)
        } else {
            None
        }
    }

    /// Checks the configuration, reporting its first fault.
    pub fn validate(&self) -> (checked: Result<(), ConfigError>)
        ensures
            checked is Ok <==> self.fault() is None,
            checked matches Err(e) ==> self.fault() == Some(e),
    {
        if self.channels.len() == 0 {
            return Err(ConfigError::NoChannels);
        }
        if self.capacity == 0 {
            return Err(ConfigError::ZeroCapacity);
        }
        if self.frame_duration_nanos == 0 {
            return Err(ConfigError::ZeroFrameDuration);
        }
        match self.rate_limit {
            RateLimit::Unlimited => Ok(()),
            RateLimit::Limited { max_attempts_per_frame } => {
                match self.frame_duration_nanos.checked_mul(max_attempts_per_frame) {
                    Some(_) => Ok(()),
                    None => Err(ConfigError::GateOverflow),
                }
            },
        }
    }
}

} // verus!
