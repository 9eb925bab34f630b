//! Retained samples and the comparison that decides retention.

use vstd::prelude::*;

verus! {

/// A retained sample: the channel states seen at one sampling attempt,
/// together with the widths of the sampling intervals on both sides of it.
///
/// All times are nanoseconds on the host's monotonic clock.
pub struct Edge {
    /// Moment at which the sample was taken.
    pub timestamp: u64,
    /// One entry per tracked channel, `true` meaning active.
    pub state: Vec<bool>,
    /// Time between the previous sampling attempt and this one.
    pub dt_before: u64,
    /// Time between the attempt preceding the next retained sample and that
    /// sample; `None` until that next sample exists.
    pub dt_after: Option<u64>,
}

/// Mathematical value of an [`Edge`].
pub ghost struct EdgeModel {
    pub timestamp: int,
    pub state: Seq<bool>,
    pub dt_before: int,
    pub dt_after: Option<int>,
}

/// The model's `dt_after` for a stored one.
pub open spec fn dt_model(dt: Option<u64>) -> Option<int> {
    match dt {
        Some(d) => Some(d as int),
        None => None,
    }
}

impl View for Edge {
    type V = EdgeModel;

    open spec fn view(&self) -> EdgeModel {
        EdgeModel {
            timestamp: self.timestamp as int,
            state: self.state@,
            dt_before: self.dt_before as int,
            dt_after: dt_model(self.dt_after),
        }
    }
}

impl Edge {
    /// An independent copy of this edge.
    pub fn duplicate(&self) -> (copy: Edge)
        ensures
            copy@ == self@,
    {
        Edge {
            timestamp: self.timestamp,
            state: copy_state(&self.state),
            dt_before: self.dt_before,
            dt_after: self.dt_after,
        }
    }
}

/// An independent copy of a state vector.
pub fn copy_state(state: &Vec<bool>) -> (copy: Vec<bool>)
    ensures
        copy@ == state@,
{
    let mut copy: Vec<bool> = Vec::with_capacity(state.len());
    let mut i: usize = 0;
    while i < state.len()
        invariant
            i <= state.len(),
            copy@ == state@.subrange(0, i as int),
        decreases state.len() - i,
    {
        copy.push(state[i]);
        i += 1;
        assert(copy@ =~= state@.subrange(0, i as int));
    }
    assert(state@.subrange(0, state.len() as int) =~= state@);
    copy
}

/// Whether two state vectors differ: in length, or in at least one entry.
pub fn inputs_changed(this_state: &Vec<bool>, last_state: &Vec<bool>) -> (changed: bool)
    ensures
        changed <==> this_state@ != last_state@,
{
    if this_state.len() != last_state.len() {
        return true;
    }
    let mut i: usize = 0;
    while i < this_state.len()
        invariant
            i <= this_state.len(),
            this_state.len() == last_state.len(),
            this_state@.subrange(0, i as int) == last_state@.subrange(0, i as int),
        decreases this_state.len() - i,
    {
        if this_state[i] != last_state[i] {
            return true;
        }
        assert(this_state@.subrange(0, i + 1) =~= this_state@.subrange(0, i as int).push(
            this_state@[i as int],
        ));
        assert(last_state@.subrange(0, i + 1) =~= last_state@.subrange(0, i as int).push(
            last_state@[i as int],
        ));
        i += 1;
    }
    assert(this_state@.subrange(0, this_state.len() as int) =~= this_state@);
    assert(last_state@.subrange(0, last_state.len() as int) =~= last_state@);
    false
}

} // verus!
