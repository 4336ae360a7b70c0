use ferrocious::easing::{EasingFunction, Ratio};

fn value(r: Ratio) -> f64 {
    r.num as f64 / r.den as f64
}

#[test]
fn easing_exact_values() {
    let half = Ratio::new(1, 2);
    assert_eq!(EasingFunction::Linear.ease(half), Ratio::new(1, 2));
    assert_eq!(EasingFunction::EaseIn.ease(half), Ratio::new(1, 4));
    assert_eq!(EasingFunction::EaseOut.ease(half), Ratio::new(3, 4));
    assert_eq!(EasingFunction::EaseInOut.ease(half), Ratio::new(2, 4));
    assert_eq!(EasingFunction::EaseInOut.ease(Ratio::new(1, 4)), Ratio::new(2, 16));
    assert_eq!(EasingFunction::EaseInOut.ease(Ratio::new(3, 4)), Ratio::new(14, 16));
}

#[test]
fn easing_clamps_and_hits_endpoints() {
    for e in [
        EasingFunction::Linear,
        EasingFunction::EaseIn,
        EasingFunction::EaseOut,
        EasingFunction::EaseInOut,
    ] {
        assert_eq!(e.ease(Ratio::new(0, 7)).num, 0);
        let one = e.ease(Ratio::new(7, 7));
        assert_eq!(one.num, one.den);
        let over = e.ease(Ratio::new(30, 7));
        assert_eq!(over.num, over.den);
    }
}

#[test]
fn easing_is_non_decreasing() {
    for e in [
        EasingFunction::Linear,
        EasingFunction::EaseIn,
        EasingFunction::EaseOut,
        EasingFunction::EaseInOut,
    ] {
        let mut last = 0.0f64;
        for k in 0..=100u64 {
            let v = value(e.ease(Ratio::new(k, 100)));
            assert!(v >= last && v <= 1.0);
            last = v;
        }
    }
}

#[test]
fn easing_with_largest_denominator() {
    let d = u32::MAX as u64;
    let r = EasingFunction::EaseInOut.ease(Ratio::new(d - 1, d));
    assert_eq!(r.den, d * d);
    assert!(r.num <= r.den);
    let r = EasingFunction::EaseOut.ease(Ratio::new(d, d));
    assert_eq!(r.num, r.den);
}
