//! Compact timestamps that advance at the library's default frame rate.

use std::cmp::Ordering;
use vstd::prelude::*;

verus! {

/// The frame rate that these timestamps count at.
pub const DEFAULT_FPS: u8 = 24;

/// A point on the timeline, as minute, second and frame, each in one byte. A second
/// holds the frames `0..=DEFAULT_FPS`.
#[derive(PartialEq, Eq, Structural, Debug, Copy, Clone)]
pub struct TimeStamp {
    pub minute: u8,
    pub second: u8,
    pub frame: u8,
}

impl TimeStamp {
    /// The timestamp with these components.
    pub fn new(minute: u8, second: u8, frame: u8) -> (r: TimeStamp)
        ensures
            r == (TimeStamp { minute, second, frame }),
    {
        TimeStamp { minute, second, frame }
    }

    /// The timestamp one frame later: the frame carries into the second once it passes
    /// `DEFAULT_FPS`, and the second into the minute past 59.
    pub open spec fn incremented(self) -> TimeStamp {
        let f = self.frame + 1;
        let (f, s) = if f > DEFAULT_FPS { (0int, self.second + 1) } else { (f, self.second as int) };
        let (s, m) = if s > 59 { (0int, self.minute + 1) } else { (s, self.minute as int) };
        TimeStamp { minute: m as u8, second: s as u8, frame: f as u8 }
    }

    /// The components of one increment fit in a byte.
    pub open spec fn can_increment(self) -> bool {
        &&& self.frame < u8::MAX
        &&& self.frame + 1 > DEFAULT_FPS ==> self.second < u8::MAX
        &&& (if self.frame + 1 > DEFAULT_FPS { self.second + 1 } else { self.second as int }) > 59
            ==> self.minute < u8::MAX
    }

    /// Advances by one frame.
    pub fn increment(&mut self)
        requires
            old(self).can_increment(),
        ensures
            *final(self) == old(self).incremented(),
    {
        self.frame += 1;
        if self.frame > DEFAULT_FPS {
            self.frame = 0;
            self.second += 1;
        }
        if self.second > 59 {
            self.second = 0;
            self.minute += 1;
        }
    }

    /// `[minute, second, frame]`.
    pub fn time_as_array(&self) -> (r: [u8; 3])
        ensures
            r@ == seq![self.minute, self.second, self.frame],
    {
        let r = [self.minute, self.second, self.frame];
        assert(r@ =~= seq![self.minute, self.second, self.frame]);
        r
    }

    /// Lexicographic order on (minute, second, frame): `self` comes strictly first.
    pub open spec fn precedes(self, other: TimeStamp) -> bool {
        self.minute < other.minute || (self.minute == other.minute && (self.second
            < other.second || (self.second == other.second && self.frame < other.frame)))
    }

    fn is_before(&self, other: &TimeStamp) -> (r: bool)
        ensures
            r == self.precedes(*other),
    {
        other.minute > self.minute || (other.minute == self.minute && (other.second > self.second
            || (other.second == self.second && other.frame > self.frame)))
    }
}

impl PartialOrd for TimeStamp {
    fn partial_cmp(&self, other: &TimeStamp) -> Option<Ordering> {
        if self.is_before(other) {
            Some(Ordering::Less)
        } else if self == other {
            Some(Ordering::Equal)
        } else {
            Some(Ordering::Greater)
        }
    }

    fn lt(&self, other: &TimeStamp) -> bool {
        self.is_before(other)
    }

    fn le(&self, other: &TimeStamp) -> bool {
        self.is_before(other) || self == other
    }

    fn gt(&self, other: &TimeStamp) -> bool {
        other.is_before(self)
    }

    fn ge(&self, other: &TimeStamp) -> bool {
        other.is_before(self) || self == other
    }
}

impl vstd::std_specs::cmp::PartialOrdSpecImpl for TimeStamp {
    open spec fn obeys_partial_cmp_spec() -> bool {
        true
    }

    open spec fn partial_cmp_spec(&self, other: &TimeStamp) -> Option<Ordering> {
        if self.precedes(*other) {
            Some(Ordering::Less)
        } else if *self == *other {
            Some(Ordering::Equal)
        } else {
            Some(Ordering::Greater)
        }
    }
}

} // verus!
