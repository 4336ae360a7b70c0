//! A staged builder for interpolators: a start value, then an end value, then any
//! control points and an easing, then a time range.

use crate::easing::EasingFunction;
use crate::interpolate::{Interpolatable, Interpolator};
use crate::timestamp::TimeStamp;
use std::marker::PhantomData;
use vstd::prelude::*;

verus! {

/// Stage of a builder that still needs its end value.
pub struct NeedsTo;

/// Stage of a builder that has its end values and needs its time range.
pub struct NeedsTime;

/// Collects the parts of an interpolator; `State` is the stage reached.
pub struct InterpolatorBuilder<T: Interpolatable, State> {
    pub from: T,
    pub to_: Option<T>,
    pub easing: Option<EasingFunction>,
    pub control_points: Vec<T>,
    pub _state: PhantomData<State>,
}

/// `r` is the curve built from these parts: linear without control points (easing linear
/// unless one was set), cubic with exactly two, and otherwise a general Bezier curve
/// through `from`, the control points and `to`; easing applies only to the linear form.
pub open spec fn is_built_from<T: Interpolatable>(
    r: Interpolator<T>,
    from: T,
    to: T,
    easing: Option<EasingFunction>,
    controls: Seq<T>,
    start: TimeStamp,
    end: TimeStamp,
) -> bool {
    if controls.len() == 0 {
        r == Interpolator::Linear {
            from,
            to,
            start,
            end,
            easing: match easing {
                Some(e) => e,
                None => EasingFunction::Linear,
            },
        }
    } else if controls.len() == 2 {
        r == Interpolator::Cubic { p0: from, p1: controls[0], p2: controls[1], p3: to, start, end }
    } else {
        match r {
            Interpolator::Bezier { points, start: s, end: e } => points@ == seq![from] + controls
                + seq![to] && s == start && e == end,
            _ => false,
        }
    }
}

impl<T: Interpolatable> Interpolator<T> {
    /// Starts a builder at `value`.
    pub fn from(value: T) -> (r: InterpolatorBuilder<T, NeedsTo>)
        ensures
            r.from == value,
            r.to_ is None,
            r.easing is None,
            r.control_points@.len() == 0,
    {
        InterpolatorBuilder {
            from: value,
            to_: None,
            easing: None,
            control_points: Vec::new(),
            _state: PhantomData,
        }
    }
}

impl<T: Interpolatable> InterpolatorBuilder<T, NeedsTo> {
    /// Sets the end value.
    pub fn to(self, to_: T) -> (r: InterpolatorBuilder<T, NeedsTime>)
        ensures
            r.from == self.from,
            r.to_ == Some(to_),
            r.easing is None,
            r.control_points@.len() == 0,
    {
        InterpolatorBuilder {
            from: self.from,
            to_: Some(to_),
            easing: None,
            control_points: Vec::new(),
            _state: PhantomData,
        }
    }
}

impl<T: Interpolatable> InterpolatorBuilder<T, NeedsTime> {
    /// Sets the easing, used when the result is linear.
    pub fn ease(self, easing: EasingFunction) -> (r: Self)
        ensures
            r.from == self.from,
            r.to_ == self.to_,
            r.easing == Some(easing),
            r.control_points@ == self.control_points@,
    {
        let mut b = self;
        b.easing = Some(easing);
        b
    }

    /// Appends one control point.
    pub fn through(self, control_point: T) -> (r: Self)
        ensures
            r.from == self.from,
            r.to_ == self.to_,
            r.easing == self.easing,
            r.control_points@ == self.control_points@.push(control_point),
    {
        let mut b = self;
        b.control_points.push(control_point);
        b
    }

    /// Finishes the curve over `[start, end]`; the number of control points picks its form.
    pub fn over(self, start: TimeStamp, end: TimeStamp) -> (r: Interpolator<T>)
        requires
            self.to_ is Some,
        ensures
            is_built_from(r, self.from, self.to_->0, self.easing, self.control_points@, start, end),
    {
        let to_ = match self.to_ {
            Some(v) => v,
            None => self.from,
        };
        let num_controls = self.control_points.len();
        if num_controls == 0 {
            Interpolator::Linear {
                from: self.from,
                to: to_,
                start,
                end,
                easing: match self.easing {
                    Some(e) => e,
                    None => EasingFunction::Linear,
                },
            }
        } else if num_controls == 2 {
            Interpolator::Cubic {
                p0: self.from,
                p1: self.control_points[0],
                p2: self.control_points[1],
                p3: to_,
                start,
                end,
            }
        } else {
            let mut points: Vec<T> = Vec::new();
            points.push(self.from);
            let mut i: usize = 0;
            while i < num_controls
                invariant
                    num_controls == self.control_points@.len(),
                    0 <= i <= num_controls,
                    points@ == seq![self.from] + self.control_points@.take(i as int),
                decreases num_controls - i,
            {
                points.push(self.control_points[i]);
                i += 1;
                assert(points@ =~= seq![self.from] + self.control_points@.take(i as int));
            }
            assert(self.control_points@.take(num_controls as int) =~= self.control_points@);
            points.push(to_);
            assert(points@ =~= seq![self.from] + self.control_points@ + seq![to_]);
            Interpolator::Bezier { points, start, end }
        }
    }
}

} // verus!
