//! Exact progress values and the easing curves that reshape them.

use vstd::prelude::*;

verus! {

/// A non-negative rational number `num / den`, used for progress along a curve.
#[derive(PartialEq, Eq, Structural, Debug, Copy, Clone)]
pub struct Ratio {
    pub num: u64,
    pub den: u64,
}

impl Ratio {
    /// A ratio in `[0, 1]` with a positive denominator.
    pub open spec fn is_unit(self) -> bool {
        self.den > 0 && self.num <= self.den
    }

    /// `self <= other` as rationals (both denominators positive).
    pub open spec fn at_most(self, other: Ratio) -> bool {
        self.num * other.den <= other.num * self.den
    }

    /// The ratio `num / den`.
    pub fn new(num: u64, den: u64) -> (r: Ratio)
        ensures
            r == (Ratio { num, den }),
    {
        Ratio { num, den }
    }
}

/// Easing curves: monotonic remappings of progress in `[0, 1]`.
#[derive(PartialEq, Eq, Structural, Debug, Copy, Clone)]
pub enum EasingFunction {
    Linear,
    EaseIn,
    EaseOut,
    EaseInOut,
}

impl EasingFunction {
    /// The eased value of `t` clamped to `[0, 1]`, with `n / d` the clamped input:
    /// `n / d`, `(n / d)^2`, `(n / d)(2 - n / d)`, and for ease-in-out `2(n / d)^2` below
    /// one half, else `-1 + (4 - 2n / d)(n / d)`, each written over the denominator `d^2`.
    pub open spec fn ease_spec(self, t: Ratio) -> Ratio {
        let n: int = if t.num <= t.den { t.num as int } else { t.den as int };
        let d: int = t.den as int;
        match self {
            EasingFunction::Linear => Ratio { num: n as u64, den: d as u64 },
            EasingFunction::EaseIn => Ratio { num: (n * n) as u64, den: (d * d) as u64 },
            EasingFunction::EaseOut => Ratio { num: (n * (2 * d - n)) as u64, den: (d * d) as u64 },
            EasingFunction::EaseInOut => if 2 * n < d {
                Ratio { num: (2 * n * n) as u64, den: (d * d) as u64 }
            } else {
                Ratio { num: (-d * d + (4 * d - 2 * n) * n) as u64, den: (d * d) as u64 }
            },
        }
    }

    /// Clamps `t` to `[0, 1]`, then applies the curve.
    pub fn ease(&self, t: Ratio) -> (r: Ratio)
        requires
            0 < t.den <= u32::MAX,
        ensures
            r == self.ease_spec(t),
            r.is_unit(),
    {
        let n: u64 = if t.num <= t.den { t.num } else { t.den };
        let d: u64 = t.den;
        proof {
            lemma_square_bounds(n as int, d as int);
        }
        match self {
            EasingFunction::Linear => Ratio { num: n, den: d },
            EasingFunction::EaseIn => Ratio { num: n * n, den: d * d },
            EasingFunction::EaseOut => Ratio { num: n * (2 * d - n), den: d * d },
            EasingFunction::EaseInOut => {
                if 2 * n < d {
                    Ratio { num: 2 * n * n, den: d * d }
                } else {
                    Ratio { num: d * d - 2 * (d - n) * (d - n), den: d * d }
                }
            },
        }
    }
}

proof fn lemma_square_bounds(n: int, d: int)
    requires
        0 <= n <= d,
        0 < d <= u32::MAX,
    ensures
        0 <= n * n <= d * d,
        0 < d * d <= u64::MAX,
        0 <= n * (2 * d - n) <= d * d,
        2 * n < d ==> 2 * n * n <= d * d,
        2 * n >= d ==> 0 <= 2 * (d - n) * (d - n) <= d * d,
        -d * d + (4 * d - 2 * n) * n == d * d - 2 * (d - n) * (d - n),
{
    assert(0 <= n * n <= d * d) by (nonlinear_arith)
        requires 0 <= n <= d;
    assert(0 < d * d <= u64::MAX) by (nonlinear_arith)
        requires 0 < d <= u32::MAX;
    assert(0 <= n * (2 * d - n) <= d * d) by (nonlinear_arith)
        requires 0 <= n <= d;
    assert(2 * n < d ==> 2 * n * n <= d * d) by (nonlinear_arith)
        requires 0 <= n <= d;
    assert(2 * n >= d ==> 0 <= 2 * (d - n) * (d - n) <= d * d) by (nonlinear_arith)
        requires 0 <= n <= d;
    assert(-d * d + (4 * d - 2 * n) * n == d * d - 2 * (d - n) * (d - n)) by (nonlinear_arith);
}

/// Every easing curve maps zero to zero and one (or more, after clamping) to one.
pub proof fn lemma_ease_endpoints(e: EasingFunction, t: Ratio)
    requires
        0 < t.den <= u32::MAX,
    ensures
        t.num == 0 ==> e.ease_spec(t).num == 0,
        t.num >= t.den ==> e.ease_spec(t).num == e.ease_spec(t).den,
        e.ease_spec(t).is_unit(),
{
    let n: int = if t.num <= t.den { t.num as int } else { t.den as int };
    let d = t.den as int;
    lemma_square_bounds(n, d);
    if t.num >= t.den {
        assert(n == d);
        assert(n * (2 * d - n) == d * d) by (nonlinear_arith)
            requires n == d;
        assert(2 * (d - n) * (d - n) == 0) by (nonlinear_arith)
            requires n == d;
    }
    if t.num == 0 {
        assert(n * n == 0 && n * (2 * d - n) == 0 && 2 * n * n == 0) by (nonlinear_arith)
            requires n == 0;
    }
}

/// Clamping to one keeps the order of two ratios.
proof fn lemma_clamp_keeps_order(na: int, da: int, nb: int, db: int)
    requires
        0 <= na,
        0 <= nb,
        0 < da,
        0 < db,
        na * db <= nb * da,
    ensures
        (if na <= da { na } else { da }) * db <= (if nb <= db { nb } else { db }) * da,
{
    assert(da * db == db * da) by (nonlinear_arith);
    if nb > db {
        if na <= da {
            assert(na * db <= da * db) by (nonlinear_arith)
                requires na <= da, 0 < db;
        }
    } else {
        assert(nb * da <= db * da) by (nonlinear_arith)
            requires nb <= db, 0 < da;
        if na > da {
            assert(da * db < na * db) by (nonlinear_arith)
                requires na > da, 0 < db;
        }
    }
}

/// Every easing curve is non-decreasing: a smaller (or equal) progress never eases to a
/// larger value.
pub proof fn lemma_ease_monotonic(e: EasingFunction, a: Ratio, b: Ratio)
    requires
        0 < a.den <= u32::MAX,
        0 < b.den <= u32::MAX,
        a.at_most(b),
    ensures
        e.ease_spec(a).at_most(e.ease_spec(b)),
{
    let da = a.den as int;
    let db = b.den as int;
    let na: int = if a.num <= a.den { a.num as int } else { da };
    let nb: int = if b.num <= b.den { b.num as int } else { db };
    lemma_clamp_keeps_order(a.num as int, da, b.num as int, db);
    lemma_square_bounds(na, da);
    lemma_square_bounds(nb, db);
    let x = na * db;
    let y = nb * da;
    let d = da * db;
    assert(0 <= x <= y <= d) by (nonlinear_arith)
        requires 0 <= na <= da, 0 <= nb <= db, 0 < da, 0 < db, x == na * db, y == nb * da,
            d == da * db, na * db <= nb * da;
    let ea = e.ease_spec(a);
    let eb = e.ease_spec(b);
    match e {
        EasingFunction::Linear => {
            assert(ea.num == na && ea.den == da && eb.num == nb && eb.den == db);
        },
        EasingFunction::EaseIn => {
            assert((na * na) * (db * db) == x * x && (nb * nb) * (da * da) == y * y)
                by (nonlinear_arith) requires x == na * db, y == nb * da;
            assert(x * x <= y * y) by (nonlinear_arith) requires 0 <= x <= y;
        },
        EasingFunction::EaseOut => {
            assert((na * (2 * da - na)) * (db * db) == 2 * x * d - x * x) by (nonlinear_arith)
                requires x == na * db, d == da * db;
            assert((nb * (2 * db - nb)) * (da * da) == 2 * y * d - y * y) by (nonlinear_arith)
                requires y == nb * da, d == da * db;
            assert(2 * x * d - x * x <= 2 * y * d - y * y) by (nonlinear_arith)
                requires 0 <= x <= y <= d;
        },
        EasingFunction::EaseInOut => {
            assert((2 * na < da) == (2 * x < d)) by (nonlinear_arith)
                requires x == na * db, d == da * db, 0 < db;
            assert((2 * nb < db) == (2 * y < d)) by (nonlinear_arith)
                requires y == nb * da, d == da * db, 0 < da;
            let u = da - na;
            let v = db - nb;
            let lo_a = (2 * na * na) * (db * db);
            let lo_b = (2 * nb * nb) * (da * da);
            let hi_a = (da * da - 2 * u * u) * (db * db);
            let hi_b = (db * db - 2 * v * v) * (da * da);
            assert(lo_a == 2 * x * x && lo_b == 2 * y * y) by (nonlinear_arith)
                requires x == na * db, y == nb * da, lo_a == (2 * na * na) * (db * db), lo_b == (2
                    * nb * nb) * (da * da);
            assert(u * db == d - x) by (nonlinear_arith)
                requires u == da - na, x == na * db, d == da * db;
            assert(v * da == d - y) by (nonlinear_arith)
                requires v == db - nb, y == nb * da, d == da * db;
            assert((da * da - 2 * u * u) * (db * db) == (da * db) * (da * db) - 2 * (u * db) * (u
                * db)) by (nonlinear_arith);
            assert((db * db - 2 * v * v) * (da * da) == (da * db) * (da * db) - 2 * (v * da) * (v
                * da)) by (nonlinear_arith);
            assert(hi_a == d * d - 2 * (d - x) * (d - x));
            assert(hi_b == d * d - 2 * (d - y) * (d - y));
            assert(ea.den == da * da && eb.den == db * db);
            if 2 * na < da {
                assert(ea.num == 2 * na * na);
                assert(ea.num * eb.den == lo_a);
            } else {
                assert(ea.num == da * da - 2 * u * u);
                assert(ea.num * eb.den == hi_a);
            }
            if 2 * nb < db {
                assert(eb.num == 2 * nb * nb);
                assert(eb.num * ea.den == lo_b);
            } else {
                assert(eb.num == db * db - 2 * v * v);
                assert(eb.num * ea.den == hi_b);
            }
            assert(2 * x * x <= 2 * y * y) by (nonlinear_arith)
                requires 0 <= x <= y;
            assert(d * d - 2 * (d - x) * (d - x) <= d * d - 2 * (d - y) * (d - y))
                by (nonlinear_arith) requires 0 <= x <= y <= d;
            if 2 * x < d && 2 * y >= d {
                assert(2 * x * x <= d * d - 2 * (d - y) * (d - y)) by (nonlinear_arith)
                    requires 0 <= 2 * x < d, 0 <= 2 * (d - y) <= d;
            }
            assert(ea.num * eb.den <= eb.num * ea.den);
        },
    }
}

} // verus!
