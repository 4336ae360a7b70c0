//! Minute/second/frame timestamps, measured against an evaluation frame rate.

use std::cmp::Ordering;
use vstd::prelude::*;

verus! {

/// The frame rate used where none is given.
pub const DEFAULT_FPS: u32 = 24;

/// A point on the timeline, as minute, second and frame within the second.
#[derive(PartialEq, Eq, Structural, Debug, Default, Copy, Clone)]
pub struct TimeStamp {
    pub minute: u32,
    pub second: u32,
    pub frame: u32,
}

impl TimeStamp {
    /// The absolute frame count of this timestamp at `fps` frames per second.
    pub open spec fn frames(self, fps: u32) -> int {
        self.minute * 60 * fps + self.second * fps + self.frame
    }

    /// The timestamp with these components.
    pub fn new(minute: u32, second: u32, frame: u32) -> (r: TimeStamp)
        ensures
            r == (TimeStamp { minute, second, frame }),
    {
        TimeStamp { minute, second, frame }
    }

    /// `minute * 60 * fps + second * fps + frame`.
    pub fn as_num_frames(&self, fps: u32) -> (r: u32)
        requires
            self.frames(fps) <= u32::MAX,
        ensures
            r == self.frames(fps),
    {
        let m = self.minute as u128;
        let s = self.second as u128;
        let f = fps as u128;
        proof {
            assert(m * 60 <= 0xffff_ffffu128 * 60) by (nonlinear_arith)
                requires m <= 0xffff_ffffu128;
            assert(m * 60 * f <= 0xffff_ffffu128 * 60 * 0xffff_ffffu128) by (nonlinear_arith)
                requires m <= 0xffff_ffffu128, f <= 0xffff_ffffu128;
            assert(s * f <= 0xffff_ffffu128 * 0xffff_ffffu128) by (nonlinear_arith)
                requires s <= 0xffff_ffffu128, f <= 0xffff_ffffu128;
        }
        (m * 60 * f + s * f + self.frame as u128) as u32
    }

    /// Builds a timestamp, taking zero for each component that is absent.
    pub fn new_with_defaults(minute: Option<u32>, second: Option<u32>, frame: Option<u32>) -> (r:
        TimeStamp)
        ensures
            r.minute == (match minute { Some(m) => m, None => 0 }),
            r.second == (match second { Some(s) => s, None => 0 }),
            r.frame == (match frame { Some(f) => f, None => 0 }),
    {
        TimeStamp {
            minute: match minute { Some(m) => m, None => 0 },
            second: match second { Some(s) => s, None => 0 },
            frame: match frame { Some(f) => f, None => 0 },
        }
    }

    /// The timestamp one frame later at `fps`: the frame carries into the
    /// second when it reaches `fps`, and the second into the minute past 59.
    pub open spec fn incremented(self, fps: u32) -> TimeStamp {
        let f = self.frame + 1;
        let (f, s) = if f >= fps { (0int, self.second + 1) } else { (f, self.second as int) };
        let (s, m) = if s > 59 { (0int, self.minute + 1) } else { (s, self.minute as int) };
        TimeStamp { minute: m as u32, second: s as u32, frame: f as u32 }
    }

    /// The components of one increment at `fps` fit in `u32`.
    pub open spec fn can_increment(self, fps: u32) -> bool {
        &&& self.frame < u32::MAX
        &&& self.frame + 1 >= fps ==> self.second < u32::MAX
        &&& (if self.frame + 1 >= fps { self.second + 1 } else { self.second as int }) > 59
            ==> self.minute < u32::MAX
    }

    /// Within range for `fps`: the frame below `fps` and the second below 60.
    pub open spec fn is_normal(self, fps: u32) -> bool {
        self.frame < fps && self.second < 60
    }

    /// Advances by exactly one frame at `fps`.
    pub fn increment(&mut self, fps: u32)
        requires
            old(self).can_increment(fps),
        ensures
            *final(self) == old(self).incremented(fps),
            fps >= 1 ==> final(self).is_normal(fps),
    {
        self.frame += 1;
        if self.frame >= fps {
            self.frame = 0;
            self.second += 1;
        }
        if self.second > 59 {
            self.second = 0;
            self.minute += 1;
        }
    }

    /// `[minute, second, frame]`.
    pub fn time_as_array(&self) -> (r: [u32; 3])
        ensures
            r@ == seq![self.minute, self.second, self.frame],
    {
        let r = [self.minute, self.second, self.frame];
        assert(r@ =~= seq![self.minute, self.second, self.frame]);
        r
    }

    /// Lexicographic order on (minute, second, frame): `self` comes strictly first.
    pub open spec fn precedes(self, other: TimeStamp) -> bool {
        self.minute < other.minute || (self.minute == other.minute && (self.second
            < other.second || (self.second == other.second && self.frame < other.frame)))
    }

    /// `self` comes first or equals `other`.
    pub open spec fn not_after(self, other: TimeStamp) -> bool {
        self.precedes(other) || self == other
    }

    /// `self` lies in the closed interval `[interval[0], interval[1]]`.
    pub open spec fn within(self, interval: [TimeStamp; 2]) -> bool {
        interval[0].not_after(self) && self.not_after(interval[1])
    }

    /// `self` lies in at least one of the closed intervals.
    pub open spec fn within_any(self, intervals: Seq<[TimeStamp; 2]>) -> bool {
        exists|i: int| 0 <= i < intervals.len() && self.within(#[trigger] intervals[i])
    }

    /// Whether the timestamp falls within any of the closed intervals.
    pub fn in_range(&self, intervals: &Vec<[TimeStamp; 2]>) -> (r: bool)
        ensures
            r == self.within_any(intervals@),
    {
        let mut i: usize = 0;
        while i < intervals.len()
            invariant
                0 <= i <= intervals@.len(),
                forall|j: int| 0 <= j < i ==> !self.within(#[trigger] intervals@[j]),
            decreases intervals@.len() - i,
        {
            let interval = &intervals[i];
            if interval[0] <= *self && *self <= interval[1] {
                return true;
            }
            i += 1;
        }
        false
    }

    /// Always true without intervals (no range means always active); otherwise `in_range`.
    pub fn matches_range(&self, range: &Option<Vec<[TimeStamp; 2]>>) -> (r: bool)
        ensures
            r == (match range {
                None => true,
                Some(intervals) => self.within_any(intervals@),
            }),
    {
        match range {
            None => true,
            Some(intervals) => self.in_range(intervals),
        }
    }
}

impl TimeStamp {
    fn is_before(&self, other: &TimeStamp) -> (r: bool)
        ensures
            r == self.precedes(*other),
    {
        other.minute > self.minute || (other.minute == self.minute && (other.second > self.second
            || (other.second == self.second && other.frame > self.frame)))
    }
}

impl PartialOrd for TimeStamp {
    fn partial_cmp(&self, other: &TimeStamp) -> Option<Ordering> {
        if self.is_before(other) {
            Some(Ordering::Less)
        } else if self == other {
            Some(Ordering::Equal)
        } else {
            Some(Ordering::Greater)
        }
    }

    fn lt(&self, other: &TimeStamp) -> bool {
        self.is_before(other)
    }

    fn le(&self, other: &TimeStamp) -> bool {
        self.is_before(other) || self == other
    }

    fn gt(&self, other: &TimeStamp) -> bool {
        other.is_before(self)
    }

    fn ge(&self, other: &TimeStamp) -> bool {
        other.is_before(self) || self == other
    }
}

impl vstd::std_specs::cmp::PartialOrdSpecImpl for TimeStamp {
    open spec fn obeys_partial_cmp_spec() -> bool {
        true
    }

    open spec fn partial_cmp_spec(&self, other: &TimeStamp) -> Option<Ordering> {
        if self.precedes(*other) {
            Some(Ordering::Less)
        } else if *self == *other {
            Some(Ordering::Equal)
        } else {
            Some(Ordering::Greater)
        }
    }
}

/// The order is a strict total order: exactly one of `a < b`, `a == b`, `b < a` holds.
pub proof fn lemma_order_total(a: TimeStamp, b: TimeStamp)
    ensures
        a.precedes(b) || a == b || b.precedes(a),
        !(a.precedes(b) && b.precedes(a)),
        !a.precedes(a),
        a.not_after(b) <==> (a.precedes(b) || a == b),
{
}

/// The order is transitive.
pub proof fn lemma_order_transitive(a: TimeStamp, b: TimeStamp, c: TimeStamp)
    requires
        a.precedes(b),
        b.precedes(c),
    ensures
        a.precedes(c),
{
}

/// On the last frame of a second, one increment carries into the next second.
pub proof fn lemma_frame_carry(fps: u32)
    requires
        fps >= 1,
    ensures
        (TimeStamp { minute: 0, second: 0, frame: (fps - 1) as u32 }).incremented(fps)
            == (TimeStamp { minute: 0, second: 1, frame: 0 }),
{
}

/// On the last frame of a minute, one increment carries through the second into the minute.
pub proof fn lemma_minute_carry(fps: u32)
    requires
        fps >= 1,
    ensures
        (TimeStamp { minute: 0, second: 59, frame: (fps - 1) as u32 }).incremented(fps)
            == (TimeStamp { minute: 1, second: 0, frame: 0 }),
{
}

/// From an in-range timestamp, an increment adds exactly one to the frame count and
/// stays in range.
pub proof fn lemma_increment_adds_one_frame(ts: TimeStamp, fps: u32)
    requires
        ts.is_normal(fps),
        ts.can_increment(fps),
    ensures
        ts.incremented(fps).frames(fps) == ts.frames(fps) + 1,
        ts.incremented(fps).is_normal(fps),
{
    let n = ts.incremented(fps);
    let m = ts.minute as int;
    let s = ts.second as int;
    let f = fps as int;
    if ts.frame + 1 < fps {
        assert(n == TimeStamp { frame: (ts.frame + 1) as u32, ..ts });
    } else if ts.second + 1 < 60 {
        assert(n == TimeStamp { second: (ts.second + 1) as u32, frame: 0, ..ts });
        assert((s + 1) * f == s * f + f) by (nonlinear_arith);
    } else {
        assert(n == TimeStamp { minute: (ts.minute + 1) as u32, second: 0, frame: 0 });
        assert((m + 1) * 60 * f == m * 60 * f + 60 * f) by (nonlinear_arith);
        assert(59 * f + f == 60 * f) by (nonlinear_arith);
        assert(n.minute == m + 1);
        assert(0 * f == 0) by (nonlinear_arith);
        assert(n.frames(fps) == (m + 1) * 60 * f);
        assert(ts.frame == f - 1);
        assert(ts.frames(fps) == m * 60 * f + 59 * f + f - 1);
    }
}

} // verus!
