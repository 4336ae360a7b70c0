//! Values that can be interpolated, and the curves that interpolate them over time.

use crate::easing::{lemma_ease_endpoints, EasingFunction, Ratio};
use crate::timestamp::TimeStamp;
use vstd::arithmetic::div_mod::{lemma_div_by_multiple, lemma_div_is_ordered, lemma_div_pos_is_pos};
use vstd::arithmetic::mul::lemma_mul_upper_bound;
use vstd::prelude::*;

verus! {

/// A value type that can be linearly interpolated toward another value of its type.
pub trait Interpolatable: Copy + Sized {
    /// The value a fraction `t` of the way from `self` to `other`.
    spec fn lerp_spec(self, other: Self, t: Ratio) -> Self;

    /// Interpolation keeps equal endpoints, starts at `self` and ends at `other`.
    proof fn lemma_lerp_endpoints(x: Self, y: Self, t: Ratio)
        requires
            t.is_unit(),
        ensures
            x.lerp_spec(x, t) == x,
            t.num == 0 ==> x.lerp_spec(y, t) == x,
            t.num == t.den ==> x.lerp_spec(y, t) == y,
    ;

    /// Linear interpolation from `self` toward `other` at progress `t`.
    fn lerp(&self, other: &Self, t: Ratio) -> (r: Self)
        requires
            t.is_unit(),
        ensures
            r == self.lerp_spec(*other, t),
    ;
}

/// `diff * t`, rounded down.
pub open spec fn scaled(diff: int, t: Ratio) -> int {
    diff * (t.num as int) / (t.den as int)
}

/// `diff * t` for a unit ratio `t`, rounded down: at most `diff`, zero at `t = 0`, `diff`
/// at `t = 1`.
proof fn lemma_scaled_part(diff: int, t: Ratio)
    requires
        0 <= diff,
        t.is_unit(),
    ensures
        0 <= scaled(diff, t) <= diff,
        t.num == 0 ==> scaled(diff, t) == 0,
        t.num == t.den ==> scaled(diff, t) == diff,
{
    let n = t.num as int;
    let d = t.den as int;
    lemma_mul_upper_bound(diff, diff, n, d);
    assert(0 <= diff * n) by (nonlinear_arith)
        requires 0 <= diff, 0 <= n;
    lemma_div_pos_is_pos(diff * n, d);
    lemma_div_is_ordered(diff * n, diff * d, d);
    lemma_div_by_multiple(diff, d);
}

/// Integers move toward the target by the rounded-down part of the distance.
impl Interpolatable for i64 {
    open spec fn lerp_spec(self, other: i64, t: Ratio) -> i64 {
        if self <= other {
            (self + scaled(other - self, t)) as i64
        } else {
            (self - scaled(self - other, t)) as i64
        }
    }

    proof fn lemma_lerp_endpoints(x: i64, y: i64, t: Ratio) {
        lemma_scaled_part(0, t);
        if x <= y {
            lemma_scaled_part(y - x, t);
        } else {
            lemma_scaled_part(x - y, t);
        }
    }

    fn lerp(&self, other: &i64, t: Ratio) -> (r: i64) {
        let a = *self;
        let b = *other;
        if a <= b {
            let diff: u128 = (b as i128 - a as i128) as u128;
            proof {
                lemma_scaled_part(diff as int, t);
                lemma_mul_upper_bound(diff as int, u64::MAX as int, t.num as int, u64::MAX as int);
            }
            let part: u128 = diff * (t.num as u128) / (t.den as u128);
            (a as i128 + part as i128) as i64
        } else {
            let diff: u128 = (a as i128 - b as i128) as u128;
            proof {
                lemma_scaled_part(diff as int, t);
                lemma_mul_upper_bound(diff as int, u64::MAX as int, t.num as int, u64::MAX as int);
            }
            let part: u128 = diff * (t.num as u128) / (t.den as u128);
            (a as i128 - part as i128) as i64
        }
    }
}

/// Each component of `r` is the interpolation of the matching components of `a` and `b`.
pub open spec fn lerps_componentwise<const N: usize>(a: [i64; N], b: [i64; N], t: Ratio, r: [i64; N]) -> bool {
    forall|i: int| 0 <= i < N ==> #[trigger] r[i] == a[i].lerp_spec(b[i], t)
}

proof fn lemma_componentwise_unique<const N: usize>(a: [i64; N], b: [i64; N], t: Ratio, r: [i64; N], s: [i64; N])
    requires
        lerps_componentwise(a, b, t, r),
        lerps_componentwise(a, b, t, s),
    ensures
        r == s,
{
    assert(r =~= s);
}

/// Integer vectors interpolate component by component.
impl<const N: usize> Interpolatable for [i64; N] {
    open spec fn lerp_spec(self, other: [i64; N], t: Ratio) -> [i64; N] {
        choose|r: [i64; N]| lerps_componentwise(self, other, t, r)
    }

    proof fn lemma_lerp_endpoints(x: [i64; N], y: [i64; N], t: Ratio) {
        assert forall|i: int| 0 <= i < N implies #[trigger] x[i] == x[i].lerp_spec(x[i], t) && (t.num
            == 0 ==> x[i] == x[i].lerp_spec(y[i], t)) && (t.num == t.den ==> y[i] == x[i].lerp_spec(
            y[i],
            t,
        )) by {
            <i64 as Interpolatable>::lemma_lerp_endpoints(x[i], y[i], t);
            <i64 as Interpolatable>::lemma_lerp_endpoints(x[i], x[i], t);
        }
        assert(lerps_componentwise(x, x, t, x));
        lemma_componentwise_unique(x, x, t, x, x.lerp_spec(x, t));
        if t.num == 0 {
            assert(lerps_componentwise(x, y, t, x));
            lemma_componentwise_unique(x, y, t, x, x.lerp_spec(y, t));
        }
        if t.num == t.den {
            assert(lerps_componentwise(x, y, t, y));
            lemma_componentwise_unique(x, y, t, y, x.lerp_spec(y, t));
        }
    }

    fn lerp(&self, other: &[i64; N], t: Ratio) -> (r: [i64; N]) {
        let mut r = *self;
        let mut i: usize = 0;
        while i < N
            invariant
                0 <= i <= N,
                t.is_unit(),
                forall|j: int| 0 <= j < i ==> #[trigger] r[j] == self[j].lerp_spec(other[j], t),
            decreases N - i,
        {
            r[i] = self[i].lerp(&other[i], t);
            i += 1;
        }
        proof {
            lemma_componentwise_unique(*self, *other, t, r, self.lerp_spec(*other, t));
        }
        r
    }
}

/// Progress of `current` through `[start, end]` at `fps`, by frame counts: one when the
/// bounds are equal, zero at or before `start`, one at or after `end`, and in between the
/// elapsed frames over the frames of the span.
pub open spec fn progress(current: TimeStamp, start: TimeStamp, end: TimeStamp, fps: u32) -> Ratio {
    let c = current.frames(fps);
    let s = start.frames(fps);
    let e = end.frames(fps);
    if start == end {
        Ratio { num: 1, den: 1 }
    } else if c <= s {
        Ratio { num: 0, den: 1 }
    } else if c >= e {
        Ratio { num: 1, den: 1 }
    } else {
        Ratio { num: (c - s) as u64, den: (e - s) as u64 }
    }
}

/// The frame count of `ts` at `fps` fits in `u32`.
pub open spec fn fits(ts: TimeStamp, fps: u32) -> bool {
    ts.frames(fps) <= u32::MAX
}

/// The pairwise interpolations of adjacent points at `t`: one point fewer.
pub open spec fn lerp_pairs<T: Interpolatable>(points: Seq<T>, t: Ratio) -> Seq<T> {
    Seq::new((points.len() - 1) as nat, |i: int| points[i].lerp_spec(points[i + 1], t))
}

/// De Casteljau's algorithm: reduce by adjacent interpolation until one point remains.
pub open spec fn de_casteljau_spec<T: Interpolatable>(points: Seq<T>, t: Ratio) -> T
    decreases points.len(),
{
    if points.len() <= 1 {
        points[0]
    } else {
        de_casteljau_spec(lerp_pairs(points, t), t)
    }
}

/// De Casteljau's algorithm unrolled for four points.
pub open spec fn cubic_spec<T: Interpolatable>(p0: T, p1: T, p2: T, p3: T, t: Ratio) -> T {
    let q0 = p0.lerp_spec(p1, t);
    let q1 = p1.lerp_spec(p2, t);
    let q2 = p2.lerp_spec(p3, t);
    let r0 = q0.lerp_spec(q1, t);
    let r1 = q1.lerp_spec(q2, t);
    r0.lerp_spec(r1, t)
}

/// The index of the first keyframe, from `i` on, whose time is not before `time`
/// (the length when there is none).
pub open spec fn first_not_before<T>(keyframes: Seq<(TimeStamp, T)>, time: TimeStamp, i: int) -> int
    decreases keyframes.len() - i,
{
    if i < 0 || i >= keyframes.len() {
        keyframes.len() as int
    } else if time.not_after(keyframes[i].0) {
        i
    } else {
        first_not_before(keyframes, time, i + 1)
    }
}

/// The value of a keyframe track at `time`: the first value before the first keyframe,
/// the last value at or past the last keyframe, and otherwise the eased interpolation
/// between the bracketing keyframes (`next` the first not before `time`, `prev` that one
/// when it sits exactly at `time`, else the one before it).
pub open spec fn keyframe_value<T: Interpolatable>(
    keyframes: Seq<(TimeStamp, T)>,
    easing: EasingFunction,
    time: TimeStamp,
    fps: u32,
) -> T {
    let last = keyframes.len() - 1;
    if time.precedes(keyframes[0].0) {
        keyframes[0].1
    } else if keyframes[last].0.not_after(time) {
        keyframes[last].1
    } else {
        let next = first_not_before(keyframes, time, 0);
        let prev = if keyframes[next].0 == time { next } else { next - 1 };
        keyframes[prev].1.lerp_spec(
            keyframes[next].1,
            easing.ease_spec(progress(time, keyframes[prev].0, keyframes[next].0, fps)),
        )
    }
}

/// An animation curve: a value of `T` for every point in time.
#[derive(Clone, Debug)]
pub enum Interpolator<T: Interpolatable> {
    /// The same value at all times.
    Constant(T),
    /// From `from` to `to` over `[start, end]`, shaped by `easing`.
    Linear { from: T, to: T, start: TimeStamp, end: TimeStamp, easing: EasingFunction },
    /// Through keyframes in ascending time order, shaped by `easing` between each pair.
    Keyframes { keyframes: Vec<(TimeStamp, T)>, easing: EasingFunction },
    /// A cubic Bezier curve: start point, two control points, end point.
    Cubic { p0: T, p1: T, p2: T, p3: T, start: TimeStamp, end: TimeStamp },
    /// A Bezier curve through any number (at least one) of points.
    Bezier { points: Vec<T>, start: TimeStamp, end: TimeStamp },
}

impl<T: Interpolatable> Interpolator<T> {
    /// The curve can be evaluated at `time` and `fps`: every frame count it reads fits in
    /// `u32`, and keyframe and point sequences are not empty.
    pub open spec fn can_sample(self, time: TimeStamp, fps: u32) -> bool {
        match self {
            Interpolator::Constant(_) => true,
            Interpolator::Linear { start, end, .. } => fits(time, fps) && fits(start, fps) && fits(
                end,
                fps,
            ),
            Interpolator::Keyframes { keyframes, .. } => fits(time, fps) && keyframes@.len() >= 1
                && forall|i: int| 0 <= i < keyframes@.len() ==> fits(#[trigger] keyframes@[i].0, fps),
            Interpolator::Cubic { start, end, .. } => fits(time, fps) && fits(start, fps) && fits(
                end,
                fps,
            ),
            Interpolator::Bezier { points, start, end } => fits(time, fps) && points@.len() >= 1
                && fits(start, fps) && fits(end, fps),
        }
    }

    /// The value of the curve at `time` when sampled at `fps`.
    pub open spec fn value_at(self, time: TimeStamp, fps: u32) -> T {
        match self {
            Interpolator::Constant(value) => value,
            Interpolator::Linear { from, to, start, end, easing } => from.lerp_spec(
                to,
                easing.ease_spec(progress(time, start, end, fps)),
            ),
            Interpolator::Keyframes { keyframes, easing } => keyframe_value(
                keyframes@,
                easing,
                time,
                fps,
            ),
            Interpolator::Cubic { p0, p1, p2, p3, start, end } => cubic_spec(
                p0,
                p1,
                p2,
                p3,
                progress(time, start, end, fps),
            ),
            Interpolator::Bezier { points, start, end } => de_casteljau_spec(
                points@,
                progress(time, start, end, fps),
            ),
        }
    }
}

/// The interpolation of each adjacent pair of `points` at `t`.
fn lerp_adjacent<T: Interpolatable>(points: &[T], t: Ratio) -> (r: Vec<T>)
    requires
        points@.len() >= 1,
        t.is_unit(),
    ensures
        r@ == lerp_pairs(points@, t),
{
    let mut r: Vec<T> = Vec::new();
    let mut i: usize = 0;
    while i < points.len() - 1
        invariant
            0 <= i < points@.len(),
            t.is_unit(),
            r@ == lerp_pairs(points@, t).take(i as int),
        decreases points@.len() - i,
    {
        r.push(points[i].lerp(&points[i + 1], t));
        i += 1;
        assert(r@ =~= lerp_pairs(points@, t).take(i as int));
    }
    assert(r@ =~= lerp_pairs(points@, t));
    r
}

/// De Casteljau's algorithm: the point of the Bezier curve through `points` at `t`.
pub fn de_casteljau<T: Interpolatable>(points: &[T], t: Ratio) -> (r: T)
    requires
        points@.len() >= 1,
        t.is_unit(),
    ensures
        r == de_casteljau_spec(points@, t),
{
    if points.len() == 1 {
        return points[0];
    }
    let mut working = lerp_adjacent(points, t);
    while working.len() > 1
        invariant
            working@.len() >= 1,
            t.is_unit(),
            de_casteljau_spec(working@, t) == de_casteljau_spec(points@, t),
        decreases working@.len(),
    {
        working = lerp_adjacent(working.as_slice(), t);
    }
    working[0]
}

/// Progress of `current` through `[start, end]`, as a ratio of frame counts.
fn compute_progress(current: &TimeStamp, start: &TimeStamp, end: &TimeStamp, fps: u32) -> (r:
    Ratio)
    requires
        fits(*current, fps),
        fits(*start, fps),
        fits(*end, fps),
    ensures
        r == progress(*current, *start, *end, fps),
        r.is_unit(),
        r.den <= u32::MAX,
{
    if *start == *end {
        return Ratio { num: 1, den: 1 };
    }
    let c = current.as_num_frames(fps);
    let s = start.as_num_frames(fps);
    let e = end.as_num_frames(fps);
    if c <= s {
        Ratio { num: 0, den: 1 }
    } else if c >= e {
        Ratio { num: 1, den: 1 }
    } else {
        Ratio { num: (c - s) as u64, den: (e - s) as u64 }
    }
}

impl<T: Interpolatable> Interpolator<T> {
    /// Evaluates the curve at `time`, converting timestamps to frames at `fps`.
    pub fn at(&self, time: &TimeStamp, fps: u32) -> (r: T)
        requires
            self.can_sample(*time, fps),
        ensures
            r == self.value_at(*time, fps),
    {
        match self {
            Interpolator::Constant(value) => *value,
            Interpolator::Linear { from, to, start, end, easing } => {
                let progress = compute_progress(time, start, end, fps);
                let eased = easing.ease(progress);
                from.lerp(to, eased)
            },
            Interpolator::Keyframes { keyframes, easing } => {
                keyframes_at(keyframes, *easing, time, fps)
            },
            Interpolator::Cubic { p0, p1, p2, p3, start, end } => {
                let t = compute_progress(time, start, end, fps);
                let q0 = p0.lerp(p1, t);
                let q1 = p1.lerp(p2, t);
                let q2 = p2.lerp(p3, t);
                let r0 = q0.lerp(&q1, t);
                let r1 = q1.lerp(&q2, t);
                r0.lerp(&r1, t)
            },
            Interpolator::Bezier { points, start, end } => {
                let t = compute_progress(time, start, end, fps);
                de_casteljau(points.as_slice(), t)
            },
        }
    }
}

/// Evaluates a keyframe track at `time`.
fn keyframes_at<T: Interpolatable>(
    keyframes: &Vec<(TimeStamp, T)>,
    easing: EasingFunction,
    time: &TimeStamp,
    fps: u32,
) -> (r: T)
    requires
        keyframes@.len() >= 1,
        fits(*time, fps),
        forall|i: int| 0 <= i < keyframes@.len() ==> fits(#[trigger] keyframes@[i].0, fps),
    ensures
        r == keyframe_value(keyframes@, easing, *time, fps),
{
    let len = keyframes.len();
    if *time < keyframes[0].0 {
        return keyframes[0].1;
    }
    if keyframes[len - 1].0 <= *time {
        return keyframes[len - 1].1;
    }
    let mut next: usize = 0;
    while !(*time <= keyframes[next].0)
        invariant
            0 <= next < len,
            len == keyframes@.len(),
            !keyframes@[len - 1].0.not_after(*time),
            first_not_before(keyframes@, *time, 0) == first_not_before(keyframes@, *time,
                next as int),
        decreases len - next,
    {
        next += 1;
    }
    let prev: usize = if keyframes[next].0 == *time {
        next
    } else {
        next - 1
    };
    let progress = compute_progress(time, &keyframes[prev].0, &keyframes[next].0, fps);
    let eased = easing.ease(progress);
    keyframes[prev].1.lerp(&keyframes[next].1, eased)
}

impl<T: Interpolatable> Interpolator<T> {
    /// A curve that holds `value` at all times.
    pub fn constant(value: T) -> (r: Self)
        ensures
            r == Interpolator::Constant(value),
    {
        Interpolator::Constant(value)
    }

    /// A straight move from `from` to `to` over `[start, end]`, without easing.
    pub fn linear(from: T, to: T, start: TimeStamp, end: TimeStamp) -> (r: Self)
        ensures
            r == (Interpolator::Linear { from, to, start, end, easing: EasingFunction::Linear }),
    {
        Interpolator::Linear { from, to, start, end, easing: EasingFunction::Linear }
    }

    /// A move from `from` to `to` over `[start, end]` that speeds up, then slows down.
    pub fn ease_in_out(from: T, to: T, start: TimeStamp, end: TimeStamp) -> (r: Self)
        ensures
            r == (Interpolator::Linear { from, to, start, end, easing: EasingFunction::EaseInOut }),
    {
        Interpolator::Linear { from, to, start, end, easing: EasingFunction::EaseInOut }
    }

    /// A cubic Bezier curve from `p0` to `p3` with control points `p1` and `p2`.
    pub fn cubic(p0: T, p1: T, p2: T, p3: T, start: TimeStamp, end: TimeStamp) -> (r: Self)
        ensures
            r == (Interpolator::Cubic { p0, p1, p2, p3, start, end }),
    {
        Interpolator::Cubic { p0, p1, p2, p3, start, end }
    }

    /// A Bezier curve through any number of points.
    pub fn bezier(points: Vec<T>, start: TimeStamp, end: TimeStamp) -> (r: Self)
        ensures
            r == (Interpolator::Bezier { points, start, end }),
    {
        Interpolator::Bezier { points, start, end }
    }
}

/// Anything that yields a value of `T` for each point in time.
pub trait Interpolate<T: Interpolatable> {
    /// `at` may be called for `time` and `fps`.
    spec fn defined_at(&self, time: TimeStamp, fps: u32) -> bool;

    /// The value at `time` when sampled at `fps`.
    spec fn sample_spec(&self, time: TimeStamp, fps: u32) -> T;

    /// Evaluates at `time`, converting timestamps to frames at `fps`.
    fn at(&self, time: &TimeStamp, fps: u32) -> (r: T)
        requires
            self.defined_at(*time, fps),
        ensures
            r == self.sample_spec(*time, fps),
    ;
}

impl<T: Interpolatable> Interpolate<T> for Interpolator<T> {
    open spec fn defined_at(&self, time: TimeStamp, fps: u32) -> bool {
        self.can_sample(time, fps)
    }

    open spec fn sample_spec(&self, time: TimeStamp, fps: u32) -> T {
        self.value_at(time, fps)
    }

    fn at(&self, time: &TimeStamp, fps: u32) -> (r: T) {
        Interpolator::at(self, time, fps)
    }
}

/// A linear curve over a span of at least one frame yields exactly `from` at its start
/// and exactly `to` at its end, whatever its easing.
pub proof fn lemma_linear_endpoints<T: Interpolatable>(
    from: T,
    to: T,
    start: TimeStamp,
    end: TimeStamp,
    easing: EasingFunction,
    fps: u32,
)
    requires
        start.frames(fps) < end.frames(fps),
        fits(end, fps),
    ensures
        (Interpolator::Linear { from, to, start, end, easing }).value_at(start, fps) == from,
        (Interpolator::Linear { from, to, start, end, easing }).value_at(end, fps) == to,
{
    let zero = Ratio { num: 0, den: 1 };
    let one = Ratio { num: 1, den: 1 };
    assert(progress(start, start, end, fps) == zero);
    assert(progress(end, start, end, fps) == one);
    lemma_ease_endpoints(easing, zero);
    lemma_ease_endpoints(easing, one);
    T::lemma_lerp_endpoints(from, to, easing.ease_spec(zero));
    T::lemma_lerp_endpoints(from, to, easing.ease_spec(one));
}

/// De Casteljau's algorithm over four points agrees with the unrolled cubic form.
pub proof fn lemma_cubic_matches_de_casteljau<T: Interpolatable>(p0: T, p1: T, p2: T, p3: T, t: Ratio)
    ensures
        cubic_spec(p0, p1, p2, p3, t) == de_casteljau_spec(seq![p0, p1, p2, p3], t),
{
    let s = seq![p0, p1, p2, p3];
    let l1 = lerp_pairs(s, t);
    assert(l1 =~= seq![p0.lerp_spec(p1, t), p1.lerp_spec(p2, t), p2.lerp_spec(p3, t)]);
    let l2 = lerp_pairs(l1, t);
    assert(l2 =~= seq![l1[0].lerp_spec(l1[1], t), l1[1].lerp_spec(l1[2], t)]);
    let l3 = lerp_pairs(l2, t);
    assert(l3 =~= seq![l2[0].lerp_spec(l2[1], t)]);
    assert(de_casteljau_spec(l3, t) == l3[0]);
    assert(de_casteljau_spec(l2, t) == de_casteljau_spec(l3, t));
    assert(de_casteljau_spec(l1, t) == de_casteljau_spec(l2, t));
    assert(de_casteljau_spec(s, t) == de_casteljau_spec(l1, t));
}

/// For three keyframes at strictly increasing times: the middle value at the middle time,
/// the first value before the first time, and the last value after the last time.
pub proof fn lemma_three_keyframes<T: Interpolatable>(
    t0: TimeStamp,
    a: T,
    t1: TimeStamp,
    b: T,
    t2: TimeStamp,
    c: T,
    easing: EasingFunction,
    time: TimeStamp,
    fps: u32,
)
    requires
        t0.precedes(t1),
        t1.precedes(t2),
    ensures
        keyframe_value(seq![(t0, a), (t1, b), (t2, c)], easing, t1, fps) == b,
        time.precedes(t0) ==> keyframe_value(seq![(t0, a), (t1, b), (t2, c)], easing, time, fps)
            == a,
        t2.precedes(time) ==> keyframe_value(seq![(t0, a), (t1, b), (t2, c)], easing, time, fps)
            == c,
{
    let kfs = seq![(t0, a), (t1, b), (t2, c)];
    assert(first_not_before(kfs, t1, 2) == 2);
    assert(first_not_before(kfs, t1, 1) == 1);
    assert(first_not_before(kfs, t1, 0) == 1);
    let one = Ratio { num: 1, den: 1 };
    assert(progress(t1, t1, t1, fps) == one);
    lemma_ease_endpoints(easing, one);
    T::lemma_lerp_endpoints(b, b, easing.ease_spec(one));
}

/// Keyframe times in strictly increasing order.
pub open spec fn strictly_increasing<T>(keyframes: Seq<(TimeStamp, T)>) -> bool {
    forall|i: int, j: int|
        0 <= i < j < keyframes.len() ==> (#[trigger] keyframes[i]).0.precedes((#[trigger] keyframes[j]).0)
}

proof fn lemma_first_not_before_hits<T>(keyframes: Seq<(TimeStamp, T)>, k: int, i: int)
    requires
        strictly_increasing(keyframes),
        0 <= i <= k < keyframes.len(),
    ensures
        first_not_before(keyframes, keyframes[k].0, i) == k,
    decreases k - i,
{
    if i < k {
        assert(keyframes[i].0.precedes(keyframes[k].0));
        lemma_first_not_before_hits(keyframes, k, i + 1);
    }
}

/// On a track with strictly increasing times, sampling exactly at a keyframe's time yields
/// that keyframe's value.
pub proof fn lemma_keyframe_times_hit_values<T: Interpolatable>(
    keyframes: Seq<(TimeStamp, T)>,
    easing: EasingFunction,
    k: int,
    fps: u32,
)
    requires
        strictly_increasing(keyframes),
        0 <= k < keyframes.len(),
    ensures
        keyframe_value(keyframes, easing, keyframes[k].0, fps) == keyframes[k].1,
{
    let time = keyframes[k].0;
    let last = keyframes.len() - 1;
    if k > 0 {
        assert(keyframes[0].0.precedes(time));
    }
    if k < last {
        assert(time.precedes(keyframes[last].0));
        lemma_first_not_before_hits(keyframes, k, 0);
        let one = Ratio { num: 1, den: 1 };
        assert(progress(time, time, time, fps) == one);
        lemma_ease_endpoints(easing, one);
        T::lemma_lerp_endpoints(keyframes[k].1, keyframes[k].1, easing.ease_spec(one));
    }
}

} // verus!
