use ferrocious::entity::EntityBuilder;
use ferrocious::timestamp::TimeStamp;

#[test]
fn empty_builder_gives_no_ranges() {
    assert_eq!(EntityBuilder::new().build_active_ranges(), None);
}

#[test]
fn builder_keeps_intervals_in_order() {
    let a = [TimeStamp::new(0, 0, 0), TimeStamp::new(0, 1, 0)];
    let b = [TimeStamp::new(0, 5, 0), TimeStamp::new(0, 6, 0)];
    let mut builder = EntityBuilder::new();
    builder.add_active_interval(a).add_active_interval(b);
    assert_eq!(builder.build_active_ranges(), Some(vec![a, b]));
}
