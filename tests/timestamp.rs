use ferrocious::timestamp::{TimeStamp, DEFAULT_FPS};

#[test]
fn test_timestamp_incrementer() {
    // One second of frames brings the same frame in the next second; one more moves it on.
    let mut ts = TimeStamp::new(1, 3, 2);
    for _n in 0..DEFAULT_FPS + 1 {
        ts.increment(DEFAULT_FPS);
    }
    assert_eq!(ts, TimeStamp::new(1, 4, 3));
}

#[test]
fn increment_full_second_returns_to_same_frame() {
    let mut ts = TimeStamp::new(1, 3, 2);
    for _n in 0..DEFAULT_FPS {
        ts.increment(DEFAULT_FPS);
    }
    assert_eq!(ts, TimeStamp::new(1, 4, 2));
}

#[test]
fn test_timestamp_minute_rollover() {
    let mut ts = TimeStamp::new(1, 59, DEFAULT_FPS);
    ts.increment(DEFAULT_FPS);
    assert_eq!(ts, TimeStamp::new(2, 0, 0));
}

#[test]
fn test_timestamp_second_rollover() {
    let mut ts = TimeStamp::new(0, 0, DEFAULT_FPS - 1);
    ts.increment(DEFAULT_FPS);
    assert_eq!(ts, TimeStamp::new(0, 1, 0));
}

#[test]
fn test_timestamp_off_by_one_rollover() {
    // One frame short of the carry stays within the second.
    let mut ts = TimeStamp::new(0, 0, DEFAULT_FPS - 2);
    ts.increment(DEFAULT_FPS);
    assert_eq!(ts, TimeStamp::new(0, 0, DEFAULT_FPS - 1));
    ts.increment(DEFAULT_FPS);
    assert_eq!(ts, TimeStamp::new(0, 1, 0));
}

#[test]
fn test_timestamp_lt() {
    let ts_less = TimeStamp::new(1, 3, 2);
    let ts_more = TimeStamp::new(3, 0, 4);
    assert!(ts_less < ts_more);
}

#[test]
fn test_timestamp_gt() {
    let ts_less = TimeStamp::new(1, 3, 2);
    let ts_more = TimeStamp::new(3, 0, 4);
    assert!(ts_more > ts_less);
}

#[test]
fn test_timestamp_eq() {
    let ts_one = TimeStamp::new(1, 0, 0);
    let ts_two = TimeStamp::new(1, 0, 0);
    assert_eq!(ts_one, ts_two);
}

#[test]
fn test_timestamp_leq() {
    let ts_less = TimeStamp::new(1, 3, 2);
    let ts_more = TimeStamp::new(3, 0, 4);
    assert!(ts_less <= ts_more);
}

#[test]
fn test_timestamp_geq() {
    let ts_less = TimeStamp::new(1, 3, 2);
    let ts_more = TimeStamp::new(3, 0, 4);
    assert!(ts_more >= ts_less);
}

#[test]
fn test_timestamp_array() {
    assert_eq!(TimeStamp::new(1, 3, 2).time_as_array(), [1, 3, 2]);
}

#[test]
fn test_timestamp_as_num_frames() {
    let expected_num_frames: u32 = 2 + 3 * DEFAULT_FPS as u32 + 1 * 60 * DEFAULT_FPS as u32;
    assert_eq!(TimeStamp::new(1, 3, 2).as_num_frames(DEFAULT_FPS), expected_num_frames);
}

#[test]
fn as_num_frames_depends_on_fps() {
    let ts = TimeStamp::new(2, 5, 7);
    assert_eq!(ts.as_num_frames(30), 2 * 60 * 30 + 5 * 30 + 7);
    assert_eq!(ts.as_num_frames(1), 2 * 60 + 5 + 7);
    assert_eq!(ts.as_num_frames(0), 7);
}

#[test]
fn frame_carry_for_several_rates() {
    for fps in [1u32, 2, 24, 30, 60, 1000] {
        let mut ts = TimeStamp::new(0, 0, fps - 1);
        ts.increment(fps);
        assert_eq!(ts, TimeStamp::new(0, 1, 0));
    }
}

#[test]
fn minute_carry_for_several_rates() {
    for fps in [1u32, 2, 24, 30, 60, 1000] {
        let mut ts = TimeStamp::new(0, 59, fps - 1);
        ts.increment(fps);
        assert_eq!(ts, TimeStamp::new(1, 0, 0));
    }
}

#[test]
fn successive_increments_reach_the_minute() {
    let mut ts = TimeStamp::new(0, 0, 0);
    for _n in 0..60 * 24 {
        ts.increment(24);
    }
    assert_eq!(ts, TimeStamp::new(1, 0, 0));
}

#[test]
fn increments_add_one_frame_each() {
    let mut ts = TimeStamp::new(0, 58, 20);
    let before = ts.as_num_frames(24);
    for k in 1..100u32 {
        ts.increment(24);
        assert_eq!(ts.as_num_frames(24), before + k);
        assert!(ts.frame < 24 && ts.second < 60);
    }
}

#[test]
fn new_with_defaults_fills_zeros() {
    assert_eq!(TimeStamp::new_with_defaults(None, None, None), TimeStamp::new(0, 0, 0));
    assert_eq!(TimeStamp::new_with_defaults(Some(3), None, Some(9)), TimeStamp::new(3, 0, 9));
    assert_eq!(TimeStamp::new_with_defaults(None, Some(4), None), TimeStamp::new(0, 4, 0));
}

#[test]
fn ordering_is_lexicographic() {
    let a = TimeStamp::new(0, 59, 23);
    let b = TimeStamp::new(1, 0, 0);
    assert!(a < b && b > a && a <= b && b >= a);
    assert!(!(a < a) && a <= a && a >= a);
    assert!(TimeStamp::new(0, 1, 5) < TimeStamp::new(0, 2, 0));
    assert!(TimeStamp::new(0, 1, 5) < TimeStamp::new(0, 1, 6));
    assert_eq!(a.partial_cmp(&b), Some(std::cmp::Ordering::Less));
    assert_eq!(b.partial_cmp(&a), Some(std::cmp::Ordering::Greater));
    assert_eq!(a.partial_cmp(&a), Some(std::cmp::Ordering::Equal));
}

#[test]
fn in_range_uses_closed_intervals() {
    let intervals = vec![
        [TimeStamp::new(0, 1, 0), TimeStamp::new(0, 2, 0)],
        [TimeStamp::new(0, 5, 0), TimeStamp::new(0, 6, 0)],
    ];
    assert!(TimeStamp::new(0, 1, 0).in_range(&intervals));
    assert!(TimeStamp::new(0, 2, 0).in_range(&intervals));
    assert!(TimeStamp::new(0, 5, 12).in_range(&intervals));
    assert!(!TimeStamp::new(0, 2, 1).in_range(&intervals));
    assert!(!TimeStamp::new(0, 0, 23).in_range(&intervals));
    assert!(!TimeStamp::new(0, 6, 1).in_range(&intervals));
    assert!(!TimeStamp::new(0, 1, 0).in_range(&Vec::new()));
}

#[test]
fn matches_range_without_intervals_is_always_true() {
    let ts = TimeStamp::new(7, 7, 7);
    assert!(ts.matches_range(&None));
    assert!(!ts.matches_range(&Some(Vec::new())));
    let around = vec![[TimeStamp::new(7, 0, 0), TimeStamp::new(8, 0, 0)]];
    assert!(ts.matches_range(&Some(around)));
    let before = vec![[TimeStamp::new(0, 0, 0), TimeStamp::new(7, 7, 6)]];
    assert!(!ts.matches_range(&Some(before)));
}
