//! Collecting the time intervals during which an entity is active.

use crate::timestamp::TimeStamp;
use vstd::prelude::*;

verus! {

/// Accumulates closed `[start, end]` intervals of activity.
pub struct EntityBuilder {
    active_intervals: Vec<[TimeStamp; 2]>,
}

impl View for EntityBuilder {
    type V = Seq<[TimeStamp; 2]>;

    /// The intervals added so far, in order.
    closed spec fn view(&self) -> Seq<[TimeStamp; 2]> {
        self.active_intervals@
    }
}

impl EntityBuilder {
    /// A builder with no intervals.
    pub fn new() -> (r: EntityBuilder)
        ensures
            r@ == Seq::<[TimeStamp; 2]>::empty(),
    {
        EntityBuilder { active_intervals: Vec::new() }
    }

    /// Adds one interval after those already held.
    pub fn add_active_interval(&mut self, interval: [TimeStamp; 2]) -> (r: &mut Self)
        ensures
            r@ == old(self)@.push(interval),
            final(self)@ == final(r)@,
    {
        self.active_intervals.push(interval);
        self
    }

    /// The intervals, or `None` when there are none (which means always active).
    pub fn build_active_ranges(self) -> (r: Option<Vec<[TimeStamp; 2]>>)
        ensures
            self@.len() == 0 ==> r is None,
            self@.len() > 0 ==> r is Some && r->0@ == self@,
    {
        if self.active_intervals.len() == 0 {
            None
        } else {
            Some(self.active_intervals)
        }
    }
}

} // verus!
