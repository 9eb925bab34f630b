//! The sampling engine: rate gate, change detection, recording and metrics,
//! driven by one call per host tick.

use crate::config::{gate_representable, Config, ConfigError, RateLimit};
use crate::edge::{inputs_changed, EdgeModel};
use crate::keys::Key;
use crate::recorder::{front_after, front_state, retains};
use crate::metrics::{lemma_rate_is_nearest, sampling_rate, sampling_rate_of};
use crate::sampler::{gate_open, gate_passes, get_pressed_keys, sample_of};
use crate::timeline::{admissible, chained, pushed, Timeline};
use vstd::prelude::*;

verus! {

/// What one tick did.
#[derive(Clone, Copy, Debug, PartialEq, Eq, Structural)]
pub enum TickOutcome {
    /// The clock reading lies before the previous attempt; nothing was
    /// sampled.
    ClockRegressed,
    /// The rate limit held the query back; nothing was sampled.
    Gated,
    /// A sample was taken and equals the newest edge's state.
    Unchanged,
    /// A sample was taken and differs from the newest edge's state, but the
    /// clock still reads the instant at which that edge was recorded. The
    /// attempt counts; no edge is recorded, since two edges never share a
    /// timestamp.
    Withheld,
    /// A sample was taken and recorded as a new edge: the host should
    /// redraw.
    Recorded,
}

/// Mathematical value of an [`Engine`].
pub ghost struct EngineModel {
    pub channels: Seq<Key>,
    pub frame_duration_nanos: int,
    pub rate_limit: RateLimit,
    pub capacity: int,
    pub last_fps: int,
    pub last_dt: int,
    pub last_poll_attempt: int,
    pub attempts_since_last_poll: int,
    pub timeline: Seq<EdgeModel>,
}

/// The engine that a valid configuration starts as, at clock reading `start`.
pub open spec fn initial(config: Config, start: int) -> EngineModel {
    EngineModel {
        channels: config.channels@,
        frame_duration_nanos: config.frame_duration_nanos as int,
        rate_limit: config.rate_limit,
        capacity: config.capacity as int,
        last_fps: 0,
        last_dt: 0,
        last_poll_attempt: start,
        attempts_since_last_poll: 0,
        timeline: Seq::empty(),
    }
}

/// Whether `now` is a usable clock reading: not before the previous attempt.
pub open spec fn clock_in_order(m: EngineModel, now: int) -> bool {
    now >= m.last_poll_attempt
}

/// The attempt counter after one more attempt: it stops at the largest
/// 64-bit number.
pub open spec fn counted(attempts: int) -> int {
    if attempts < u64::MAX {
        attempts + 1
    } else {
        attempts
    }
}

/// Whether an edge stamped `now` can go in front of the timeline: it must be
/// strictly newer than the newest edge.
pub open spec fn recordable(timeline: Seq<EdgeModel>, now: int) -> bool {
    timeline.len() == 0 || timeline[0].timestamp < now
}

/// Whether a tick at `now` queries the key-state source.
pub open spec fn samples_at(m: EngineModel, now: int) -> bool {
    clock_in_order(m, now) && gate_passes(
        m.rate_limit,
        m.frame_duration_nanos,
        now - m.last_poll_attempt,
    )
}

/// The engine once an attempt at `now` is counted and timed.
pub open spec fn attempted(m: EngineModel, now: int) -> EngineModel {
    EngineModel {
        attempts_since_last_poll: counted(m.attempts_since_last_poll),
        last_dt: now - m.last_poll_attempt,
        last_poll_attempt: now,
        ..m
    }
}

/// The sampling rate to report when an edge is recorded at `now`: zero for
/// the first edge, else the attempts since the newest edge over the time
/// since it.
pub open spec fn rate_at(m: EngineModel, now: int) -> int {
    if m.timeline.len() == 0 {
        0
    } else {
        sampling_rate_of(m.attempts_since_last_poll, now - m.timeline[0].timestamp)
    }
}

/// The engine once `sample`, taken at `now`, is recorded.
pub open spec fn recorded(m: EngineModel, now: int, sample: Seq<bool>) -> EngineModel {
    EngineModel {
        last_fps: rate_at(m, now),
        attempts_since_last_poll: 0,
        timeline: pushed(
            m.timeline,
            m.capacity,
            EdgeModel { timestamp: now, state: sample, dt_before: m.last_dt, dt_after: None },
        ),
        ..m
    }
}

/// What offering `sample`, taken at `now`, reports.
pub open spec fn poll_outcome(m: EngineModel, now: int, sample: Seq<bool>) -> TickOutcome {
    if !retains(front_state(m.timeline), sample) {
        TickOutcome::Unchanged
    } else if !recordable(m.timeline, now) {
        TickOutcome::Withheld
    } else {
        TickOutcome::Recorded
    }
}

/// The engine once `sample`, taken at `now`, was offered for recording.
pub open spec fn polled(m: EngineModel, now: int, sample: Seq<bool>) -> EngineModel {
    if poll_outcome(m, now, sample) == TickOutcome::Recorded {
        recorded(m, now, sample)
    } else {
        m
    }
}

/// The engine after a tick at `now` during which the keys in `active` were
/// down.
pub open spec fn after_tick(m: EngineModel, now: int, active: Seq<Key>) -> EngineModel {
    if samples_at(m, now) {
        polled(attempted(m, now), now, sample_of(m.channels, active))
    } else {
        m
    }
}

/// What a tick at `now` reports.
pub open spec fn tick_outcome(m: EngineModel, now: int, active: Seq<Key>) -> TickOutcome {
    if !clock_in_order(m, now) {
        TickOutcome::ClockRegressed
    } else if !samples_at(m, now) {
        TickOutcome::Gated
    } else {
        poll_outcome(m, now, sample_of(m.channels, active))
    }
}

/// The invariant between ticks: a valid configuration, a chained history
/// within its capacity whose neighbouring edges differ in state, no edge
/// newer than the latest attempt, and a counter within 64 bits.
pub open spec fn well_formed(m: EngineModel) -> bool {
    &&& m.channels.len() > 0
    &&& m.frame_duration_nanos > 0
    &&& gate_representable(m.rate_limit, m.frame_duration_nanos)
    &&& m.capacity > 0
    &&& m.timeline.len() <= m.capacity
    &&& chained(m.timeline)
    &&& forall|i: int|
        0 < i < m.timeline.len() ==> (#[trigger] m.timeline[i]).state != m.timeline[i - 1].state
    &&& forall|i: int|
        0 <= i < m.timeline.len() ==> (#[trigger] m.timeline[i]).state.len() == m.channels.len()
    &&& m.timeline.len() > 0 ==> m.timeline[0].timestamp <= m.last_poll_attempt
    &&& 0 <= m.attempts_since_last_poll <= u64::MAX
}

/// The state within a tick, once the attempt is counted and timed and before
/// its sample is offered: the time since the previous attempt reaches back no
/// further than the newest edge.
pub open spec fn mid_attempt(m: EngineModel) -> bool {
    &&& well_formed(m)
    &&& m.timeline.len() > 0 ==> 0 <= m.last_dt <= m.last_poll_attempt - m.timeline[0].timestamp
}

/// The sampling, change-detection and recording state of one run.
pub struct Engine {
    channels: Vec<Key>,
    frame_duration_nanos: u64,
    rate_limit: RateLimit,
    last_fps: u128,
    last_dt: u64,
    last_poll_attempt: u64,
    attempts_since_last_poll: u64,
    timeline: Timeline,
}

impl View for Engine {
    type V = EngineModel;

    closed spec fn view(&self) -> EngineModel {
        EngineModel {
            channels: self.channels@,
            frame_duration_nanos: self.frame_duration_nanos as int,
            rate_limit: self.rate_limit,
            capacity: self.timeline.spec_capacity(),
            last_fps: self.last_fps as int,
            last_dt: self.last_dt as int,
            last_poll_attempt: self.last_poll_attempt as int,
            attempts_since_last_poll: self.attempts_since_last_poll as int,
            timeline: self.timeline@,
        }
    }
}

impl Engine {
    /// The invariant that construction establishes and every tick keeps.
    pub open spec fn wf(&self) -> bool {
        well_formed(self@)
    }

    /// Starts a run at clock reading `start`, or reports the configuration's
    /// first fault.
    pub fn new(config: Config, start: u64) -> (engine: Result<Engine, ConfigError>)
        ensures
            engine is Ok <==> config.fault() is None,
            engine matches Err(e) ==> config.fault() == Some(e),
            engine matches Ok(e) ==> e.wf() && e@ == initial(config, start as int),
    {
        match config.validate() {
            Err(e) => Err(e),
            Ok(_) => {
                match Timeline::new(config.capacity) {
                    None => Err(ConfigError::ZeroCapacity),
                    Some(timeline) => Ok(
                        Engine {
                            channels: config.channels,
                            frame_duration_nanos: config.frame_duration_nanos,
                            rate_limit: config.rate_limit,
                            last_fps: 0,
                            last_dt: 0,
                            last_poll_attempt: start,
                            attempts_since_last_poll: 0,
                            timeline,
                        },
                    ),
                }
            },
        }
    }

    /// Sampling attempts per second between the two newest edges, rounded to
    /// the nearest integer; zero until there are two.
    pub fn last_fps(&self) -> (fps: u128)
        ensures
            fps == self@.last_fps,
    {
        self.last_fps
    }

    /// Nanoseconds between the two latest sampling attempts.
    pub fn last_dt(&self) -> (dt: u64)
        ensures
            dt == self@.last_dt,
    {
        self.last_dt
    }

    /// Clock reading of the latest sampling attempt, or of the start.
    pub fn last_poll_attempt(&self) -> (at: u64)
        ensures
            at == self@.last_poll_attempt,
    {
        self.last_poll_attempt
    }

    /// Sampling attempts since the newest edge was recorded; the count stops
    /// at the largest 64-bit number.
    pub fn attempts_since_last_poll(&self) -> (attempts: u64)
        ensures
            attempts == self@.attempts_since_last_poll,
    {
        self.attempts_since_last_poll
    }

    /// Duration of one frame, in nanoseconds.
    pub fn frame_duration_nanos(&self) -> (nanos: u64)
        ensures
            nanos == self@.frame_duration_nanos,
    {
        self.frame_duration_nanos
    }

    /// The sampling rate limit.
    pub fn rate_limit(&self) -> (limit: RateLimit)
        ensures
            limit == self@.rate_limit,
    {
        self.rate_limit
    }

    /// The keys of the tracked channels, in display order.
    pub fn channels(&self) -> (channels: &Vec<Key>)
        ensures
            channels@ == self@.channels,
    {
        &self.channels
    }

    /// The recorded edges, for reading.
    pub fn timeline(&self) -> (timeline: &Timeline)
        ensures
            timeline@ == self@.timeline,
            timeline.spec_capacity() == self@.capacity,
            self.wf() ==> timeline.wf(),
    {
        &self.timeline
    }

    /// Whether a tick at `now` would query the key-state source. A host for
    /// which the query is costly asks this first.
    pub fn should_sample(&self, now: u64) -> (sample: bool)
        requires
            self.wf(),
        ensures
            sample == samples_at(self@, now as int),
    {
        if now < self.last_poll_attempt {
            return false;
        }
        gate_open(self.rate_limit, self.frame_duration_nanos, now - self.last_poll_attempt)
    }

    /// Handles one host tick at clock reading `now`, during which the keys
    /// in `active` were down.
    ///
    /// Unless the clock went back or the rate limit holds the query back,
    /// the attempt is counted and timed and the sample is built. The sample
    /// is recorded if it is the first, or if it differs from the newest edge
    /// and the clock has moved on since that edge.
    pub fn tick(&mut self, now: u64, active: &Vec<Key>) -> (outcome: TickOutcome)
        requires
            old(self).wf(),
        ensures
            final(self).wf(),
            outcome == tick_outcome(old(self)@, now as int, active@),
            final(self)@ == after_tick(old(self)@, now as int, active@),
    {
        if now < self.last_poll_attempt {
            return TickOutcome::ClockRegressed;
        }
        let dt: u64 = now - self.last_poll_attempt;
        if !gate_open(self.rate_limit, self.frame_duration_nanos, dt) {
            return TickOutcome::Gated;
        }
        proof {
            lemma_attempt_opens(self@, now as int);
        }
        if self.attempts_since_last_poll < u64::MAX {
            self.attempts_since_last_poll += 1;
        }
        self.last_dt = dt;
        self.last_poll_attempt = now;
        assert(self@ == attempted(old(self)@, now as int));
        self.poll(now, active)
    }

    /// Builds the sample of the attempt in progress and records it if it is
    /// the first, or if it differs from the newest edge and is newer.
    fn poll(&mut self, now: u64, active: &Vec<Key>) -> (outcome: TickOutcome)
        requires
            mid_attempt(old(self)@),
            now == old(self)@.last_poll_attempt,
        ensures
            final(self).wf(),
            outcome == poll_outcome(
                old(self)@,
                now as int,
                sample_of(old(self)@.channels, active@),
            ),
            final(self)@ == polled(old(self)@, now as int, sample_of(old(self)@.channels, active@)),
    {
        let sample = get_pressed_keys(&self.channels, active);
        let (changed, newer) = match self.timeline.front() {
            None => (true, true),
            Some(last_poll) => (
                inputs_changed(&sample, &last_poll.state),
                last_poll.timestamp < now,
            ),
        };
        if !changed {
            TickOutcome::Unchanged
        } else if !newer {
            TickOutcome::Withheld
        } else {
            self.record_poll(now, sample);
            TickOutcome::Recorded
        }
    }

    /// Records the sample of the attempt in progress: the sampling rate is
    /// recomputed, the attempt counter starts over, and the timeline takes
    /// the new edge.
    fn record_poll(&mut self, now: u64, sample: Vec<bool>)
        requires
            mid_attempt(old(self)@),
            now == old(self)@.last_poll_attempt,
            sample@.len() == old(self)@.channels.len(),
            retains(front_state(old(self)@.timeline), sample@),
            recordable(old(self)@.timeline, now as int),
        ensures
            final(self).wf(),
            final(self)@ == recorded(old(self)@, now as int, sample@),
    {
        let ghost before = self@;
        let fps: u128 = match self.timeline.front() {
            Some(last_poll) => {
                match sampling_rate(self.attempts_since_last_poll, now - last_poll.timestamp) {
                    Some(rate) => rate,
                    None => 0,
                }
            },
            None => 0,
        };
        self.last_fps = fps;
        self.attempts_since_last_poll = 0;
        proof {
            lemma_recorded_settled(before, now as int, sample@);
        }
        let accepted = self.timeline.push(now, sample, self.last_dt);
        assert(accepted);
    }
}

/// Recording a retained sample in the middle of an attempt restores the
/// invariant that holds between ticks.
pub proof fn lemma_recorded_settled(m: EngineModel, now: int, sample: Seq<bool>)
    requires
        mid_attempt(m),
        now == m.last_poll_attempt,
        sample.len() == m.channels.len(),
        retains(front_state(m.timeline), sample),
        recordable(m.timeline, now),
    ensures
        well_formed(recorded(m, now, sample)),
        admissible(m.timeline, now, m.last_dt),
{
    let edge = EdgeModel { timestamp: now, state: sample, dt_before: m.last_dt, dt_after: None };
    let after = recorded(m, now, sample);
    assert(after.timeline[0] == edge);
    assert forall|i: int| 0 < i < after.timeline.len() implies (#[trigger] after.timeline[i]).state
        != after.timeline[i - 1].state by {
        if i == 1 {
            assert(after.timeline[1].state == m.timeline[0].state);
        } else {
            assert(after.timeline[i].state == m.timeline[i - 1].state);
            assert(after.timeline[i - 1].state == m.timeline[i - 2].state);
        }
    }
    assert forall|i: int| 0 <= i < after.timeline.len() implies (#[trigger] after.timeline[i]).state.len()
        == after.channels.len() by {
        if i > 0 {
            assert(after.timeline[i].state == m.timeline[i - 1].state);
        }
    }
}

/// A tick that does not sample changes nothing. A tick that samples counts
/// the attempt, notes the time since the previous attempt and the clock
/// reading, and reports what became of its sample; unless the sample is
/// withheld, its state is then the newest edge's state.
pub proof fn lemma_tick_follows_retention(m: EngineModel, now: int, active: Seq<Key>)
    requires
        well_formed(m),
    ensures
        !samples_at(m, now) ==> after_tick(m, now, active) == m,
        samples_at(m, now) ==> {
            let sample = sample_of(m.channels, active);
            let outcome = tick_outcome(m, now, active);
            let after = after_tick(m, now, active);
            &&& after.last_dt == now - m.last_poll_attempt
            &&& after.last_poll_attempt == now
            &&& after.attempts_since_last_poll == if outcome == TickOutcome::Recorded {
                0
            } else {
                counted(m.attempts_since_last_poll)
            }
            &&& (outcome == TickOutcome::Unchanged) == !retains(front_state(m.timeline), sample)
            &&& (outcome == TickOutcome::Withheld) == (retains(front_state(m.timeline), sample)
                && m.timeline.len() > 0 && now == m.timeline[0].timestamp)
            &&& (outcome == TickOutcome::Recorded) == (retains(front_state(m.timeline), sample)
                && recordable(m.timeline, now))
            &&& outcome != TickOutcome::Withheld ==> front_state(after.timeline) == front_after(
                front_state(m.timeline),
                sample,
            ) && front_state(after.timeline) == Some(sample)
            &&& outcome == TickOutcome::Withheld ==> after.timeline == m.timeline
        },
{
}

/// Without a rate limit, every tick whose clock reading is not before the
/// previous attempt queries the key-state source.
pub proof fn lemma_unlimited_always_samples(m: EngineModel, now: int)
    requires
        m.rate_limit == RateLimit::Unlimited,
        now >= m.last_poll_attempt,
    ensures
        samples_at(m, now),
{
}

/// Counting and timing an attempt that the clock and the rate limit allow
/// leads from the invariant between ticks to the state within a tick.
pub proof fn lemma_attempt_opens(m: EngineModel, now: int)
    requires
        well_formed(m),
        samples_at(m, now),
    ensures
        mid_attempt(attempted(m, now)),
        attempted(m, now).last_poll_attempt == now,
{
}

/// Every tick keeps the invariant.
pub proof fn lemma_tick_keeps_invariant(m: EngineModel, now: int, active: Seq<Key>)
    requires
        well_formed(m),
    ensures
        well_formed(after_tick(m, now, active)),
{
    if samples_at(m, now) {
        let sample = sample_of(m.channels, active);
        lemma_attempt_opens(m, now);
        if poll_outcome(attempted(m, now), now, sample) == TickOutcome::Recorded {
            lemma_recorded_settled(attempted(m, now), now, sample);
        }
    }
}

/// The edge that a tick records is stamped with the tick's clock reading and
/// the time since the previous attempt, and the sampling rate becomes zero
/// with the first edge; with every later one it becomes the nearest integer
/// to the attempts counted since the newest edge, this one included, over
/// the seconds since that edge, which is never negative.
pub proof fn lemma_recorded_rate(m: EngineModel, now: int, active: Seq<Key>)
    requires
        well_formed(m),
        tick_outcome(m, now, active) == TickOutcome::Recorded,
    ensures
        after_tick(m, now, active).timeline[0] == (EdgeModel {
            timestamp: now,
            state: sample_of(m.channels, active),
            dt_before: now - m.last_poll_attempt,
            dt_after: None,
        }),
        after_tick(m, now, active).attempts_since_last_poll == 0,
        m.timeline.len() == 0 ==> after_tick(m, now, active).last_fps == 0,
        m.timeline.len() > 0 ==> {
            let fps = after_tick(m, now, active).last_fps;
            let attempts = counted(m.attempts_since_last_poll);
            let elapsed = now - m.timeline[0].timestamp;
            &&& elapsed > 0
            &&& fps >= 0
            &&& fps == sampling_rate_of(attempts, elapsed)
            &&& 2 * fps * elapsed - elapsed <= 2 * (attempts * 1_000_000_000)
            &&& 2 * (attempts * 1_000_000_000) < 2 * fps * elapsed + elapsed
        },
{
    if m.timeline.len() > 0 {
        lemma_rate_is_nearest(counted(m.attempts_since_last_poll), now - m.timeline[0].timestamp);
    }
}

} // verus!
