//! The bounded, newest-first history of retained samples.

use crate::edge::{Edge, EdgeModel};
use std::collections::VecDeque;
use vstd::prelude::*;

verus! {

/// How an edge relates to the one retained right after it: it is strictly
/// older, its `dt_after` is the newer edge's `dt_before`, and that shared
/// interval lies within the time between the two.
pub open spec fn linked(older: EdgeModel, newer: EdgeModel) -> bool {
    &&& older.timestamp < newer.timestamp
    &&& older.dt_after == Some(newer.dt_before)
    &&& 0 <= newer.dt_before <= newer.timestamp - older.timestamp
}

/// A history, newest first, in which every edge is linked to its newer
/// neighbour and the newest edge has no `dt_after` yet.
pub open spec fn chained(edges: Seq<EdgeModel>) -> bool {
    &&& edges.len() > 0 ==> edges[0].dt_after is None
    &&& forall|i: int| 0 < i < edges.len() ==> linked(#[trigger] edges[i], edges[i - 1])
}

/// Whether a sample taken at `timestamp`, `dt_before` after the previous
/// attempt, may be put in front of `edges`.
pub open spec fn admissible(edges: Seq<EdgeModel>, timestamp: int, dt_before: int) -> bool {
    edges.len() > 0 ==> edges[0].timestamp < timestamp && dt_before <= timestamp
        - edges[0].timestamp
}

/// The history after making room for one more edge: a full history loses its
/// last, oldest edge.
pub open spec fn evicted(edges: Seq<EdgeModel>, capacity: int) -> Seq<EdgeModel> {
    if edges.len() > 0 && edges.len() >= capacity {
        edges.drop_last()
    } else {
        edges
    }
}

/// The history with the `dt_after` of its newest edge set to `dt`.
pub open spec fn back_filled(edges: Seq<EdgeModel>, dt: int) -> Seq<EdgeModel> {
    if edges.len() == 0 {
        edges
    } else {
        edges.update(0, EdgeModel { dt_after: Some(dt), ..edges[0] })
    }
}

/// The history after `edge` was recorded: room is made, the former newest
/// edge learns its `dt_after`, and `edge` goes to the front.
pub open spec fn pushed(edges: Seq<EdgeModel>, capacity: int, edge: EdgeModel) -> Seq<EdgeModel> {
    seq![edge] + back_filled(evicted(edges, capacity), edge.dt_before)
}

/// The mathematical values of a sequence of edges.
pub open spec fn models(edges: Seq<Edge>) -> Seq<EdgeModel> {
    edges.map_values(|e: Edge| e@)
}

/// A bounded history of edges, newest at index 0.
pub struct Timeline {
    edges: VecDeque<Edge>,
    capacity: usize,
}

impl View for Timeline {
    type V = Seq<EdgeModel>;

    closed spec fn view(&self) -> Seq<EdgeModel> {
        models(self.edges@)
    }
}

impl Timeline {
    /// The largest number of edges kept.
    pub closed spec fn spec_capacity(&self) -> int {
        self.capacity as int
    }

    /// The invariant of every timeline: a positive capacity that the length
    /// never exceeds, and a chained history.
    pub open spec fn wf(&self) -> bool {
        &&& self.spec_capacity() > 0
        &&& self@.len() <= self.spec_capacity()
        &&& chained(self@)
    }

    /// Every stored time is a 64-bit number of nanoseconds.
    pub proof fn lemma_times_in_range(&self, i: int)
        requires
            0 <= i < self@.len(),
        ensures
            0 <= self@[i].timestamp <= u64::MAX,
            0 <= self@[i].dt_before <= u64::MAX,
            self@[i].dt_after matches Some(dt) ==> 0 <= dt <= u64::MAX,
    {
    }

    /// An empty timeline that keeps at most `capacity` edges, or `None` for a
    /// capacity of zero.
    pub fn new(capacity: usize) -> (timeline: Option<Timeline>)
        ensures
            timeline is Some <==> capacity > 0,
            timeline matches Some(t) ==> t.wf() && t@ == Seq::<EdgeModel>::empty()
                && t.spec_capacity() == capacity,
    {
        if capacity == 0 {
            return None;
        }
        let t = Timeline { edges: VecDeque::new(), capacity };
        assert(t@ =~= Seq::<EdgeModel>::empty());
        Some(t)
    }

    /// The largest number of edges kept.
    pub fn capacity(&self) -> (capacity: usize)
        ensures
            capacity == self.spec_capacity(),
    {
        self.capacity
    }

    /// The number of edges held.
    pub fn len(&self) -> (len: usize)
        ensures
            len == self@.len(),
    {
        self.edges.len()
    }

    /// Whether no edge is held.
    pub fn is_empty(&self) -> (empty: bool)
        ensures
            empty <==> self@.len() == 0,
    {
        self.edges.len() == 0
    }

    /// The newest edge, if there is one.
    pub fn front(&self) -> (edge: Option<&Edge>)
        ensures
            edge is Some <==> self@.len() > 0,
            edge matches Some(e) ==> e@ == self@[0],
    {
        if self.edges.len() == 0 {
            None
        } else {
            Some(&self.edges[0])
        }
    }

    /// The edge at `index`, counted from the newest, if there is one.
    pub fn get(&self, index: usize) -> (edge: Option<&Edge>)
        ensures
            edge is Some <==> index < self@.len(),
            edge matches Some(e) ==> e@ == self@[index as int],
    {
        if index < self.edges.len() {
            Some(&self.edges[index])
        } else {
            None
        }
    }

    /// Records a sample taken at `timestamp`, `dt_before` after the previous
    /// sampling attempt.
    ///
    /// The sample is refused, and nothing changes, unless it is strictly
    /// newer than the newest edge and its `dt_before` reaches back no further
    /// than that edge. Otherwise the oldest edge leaves a full timeline, the
    /// newest edge gets `dt_before` as its `dt_after`, and the sample becomes
    /// the newest edge.
    pub fn push(&mut self, timestamp: u64, state: Vec<bool>, dt_before: u64) -> (accepted: bool)
        requires
            old(self).wf(),
        ensures
            final(self).wf(),
            final(self).spec_capacity() == old(self).spec_capacity(),
            accepted <==> admissible(old(self)@, timestamp as int, dt_before as int),
            accepted ==> final(self)@ == pushed(
                old(self)@,
                old(self).spec_capacity(),
                (EdgeModel {
                    timestamp: timestamp as int,
                    state: state@,
                    dt_before: dt_before as int,
                    dt_after: None,
                }),
            ),
            !accepted ==> final(self)@ == old(self)@,
    {
        if self.edges.len() > 0 {
            let front = &self.edges[0];
            if front.timestamp >= timestamp || dt_before > timestamp - front.timestamp {
                return false;
            }
        }
        let ghost before = self@;
        let ghost edge = EdgeModel {
            timestamp: timestamp as int,
            state: state@,
            dt_before: dt_before as int,
            dt_after: None,
        };
        if self.edges.len() >= self.capacity {
            self.edges.pop_back();
        }
        assert(self@ =~= evicted(before, self.capacity as int));
        match self.edges.pop_front() {
            Some(prev) => {
                let mut prev = prev;
                prev.dt_after = Some(dt_before);
                self.edges.push_front(prev);
            },
            None => {},
        }
        assert(self@ =~= back_filled(evicted(before, self.capacity as int), dt_before as int));
        self.edges.push_front(Edge { timestamp, state, dt_before, dt_after: None });
        assert(self@ =~= pushed(before, self.capacity as int, edge));
        proof {
            lemma_pushed_chained(before, self.capacity as int, edge);
        }
        true
    }

    /// Copies of the edges, newest first.
    pub fn newest_first(&self) -> (edges: Vec<Edge>)
        ensures
            models(edges@) == self@,
    {
        let n: usize = self.edges.len();
        let mut out: Vec<Edge> = Vec::new();
        let mut i: usize = 0;
        while i < n
            invariant
                i <= n,
                n == self.edges.len(),
                out@.len() == i,
                forall|k: int| 0 <= k < i ==> (#[trigger] out@[k])@ == self@[k],
            decreases n - i,
        {
            out.push(self.edges[i].duplicate());
            i += 1;
        }
        assert(models(out@) =~= self@);
        out
    }

    /// Copies of the edges, oldest first.
    pub fn oldest_first(&self) -> (edges: Vec<Edge>)
        ensures
            models(edges@) == self@.reverse(),
    {
        let n: usize = self.edges.len();
        let mut out: Vec<Edge> = Vec::new();
        let mut i: usize = 0;
        while i < n
            invariant
                i <= n,
                n == self.edges.len(),
                out@.len() == i,
                forall|k: int| 0 <= k < i ==> (#[trigger] out@[k])@ == self@[n - 1 - k],
            decreases n - i,
        {
            out.push(self.edges[n - 1 - i].duplicate());
            i += 1;
        }
        assert(models(out@) =~= self@.reverse());
        out
    }
}

/// Recording an admissible edge keeps a history chained.
pub proof fn lemma_pushed_chained(edges: Seq<EdgeModel>, capacity: int, edge: EdgeModel)
    requires
        chained(edges),
        capacity > 0,
        edges.len() <= capacity,
        admissible(edges, edge.timestamp, edge.dt_before),
        edge.dt_before >= 0,
        edge.dt_after is None,
    ensures
        chained(pushed(edges, capacity, edge)),
        pushed(edges, capacity, edge).len() <= capacity,
        pushed(edges, capacity, edge).len() == if edges.len() < capacity {
            edges.len() + 1
        } else {
            capacity as nat
        },
{
    let kept = evicted(edges, capacity);
    let filled = back_filled(kept, edge.dt_before);
    let after = pushed(edges, capacity, edge);
    assert(after[0] == edge);
    assert forall|i: int| 0 < i < after.len() implies linked(#[trigger] after[i], after[i - 1]) by {
        assert(after[i] == filled[i - 1]);
        if i == 1 {
            assert(kept[0] == edges[0]);
        } else {
            assert(after[i - 1] == filled[i - 2]);
            assert(kept[i - 1] == edges[i - 1]);
            assert(kept[i - 2] == edges[i - 2]);
            assert(linked(edges[i - 1], edges[i - 2]));
        }
    }
}

/// Front to back, timestamps strictly decrease: of any two edges the one
/// nearer the front is the newer.
pub proof fn lemma_timestamps_decrease(edges: Seq<EdgeModel>, i: int, j: int)
    requires
        chained(edges),
        0 <= i < j < edges.len(),
    ensures
        edges[i].timestamp > edges[j].timestamp,
    decreases j - i,
{
    assert(linked(edges[j], edges[j - 1]));
    if i < j - 1 {
        lemma_timestamps_decrease(edges, i, j - 1);
    }
}

/// The edge that leaves a full history is the one with the smallest
/// timestamp, and the history never grows beyond its capacity.
pub proof fn lemma_eviction_drops_oldest(edges: Seq<EdgeModel>, capacity: int, edge: EdgeModel)
    requires
        chained(edges),
        0 < capacity,
        edges.len() == capacity,
    ensures
        pushed(edges, capacity, edge).len() == capacity,
        evicted(edges, capacity) == edges.drop_last(),
        forall|i: int| 0 <= i < edges.len() - 1 ==> edges.last().timestamp < (#[trigger] edges[i]).timestamp,
{
    assert forall|i: int| 0 <= i < edges.len() - 1 implies edges.last().timestamp < (#[trigger] edges[i]).timestamp by {
        lemma_timestamps_decrease(edges, i, edges.len() - 1);
    }
}

/// Two neighbouring edges share one interval: the older edge's `dt_after`
/// is the newer edge's `dt_before`, and it is no longer than the time
/// between them.
pub proof fn lemma_shared_boundary(edges: Seq<EdgeModel>, i: int)
    requires
        chained(edges),
        0 < i < edges.len(),
    ensures
        edges[i].dt_after == Some(edges[i - 1].dt_before),
        edges[i - 1].dt_before <= edges[i - 1].timestamp - edges[i].timestamp,
{
    assert(linked(edges[i], edges[i - 1]));
}

} // verus!
