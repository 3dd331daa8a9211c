use vision_lab::counter::{MonotonicCounter, PublishTally};

#[test]
fn counter_is_monotonic() {
    let mut counter = MonotonicCounter::default();
    assert_eq!(counter.advance(), 1);
    assert_eq!(counter.advance(), 2);
    assert_eq!(counter.current(), 2);
}

#[test]
fn latest_value_counts_replacements() {
    let mut tally = PublishTally::new();
    tally.record_publish();
    tally.record_publish();
    assert_eq!(tally.published_count(), 2);
    assert_eq!(tally.replaced_count(), 1);
}

#[test]
fn counters_start_where_asked() {
    let mut counter = MonotonicCounter::new(41);
    assert_eq!(counter.current(), 41);
    assert_eq!(counter.advance(), 42);
    let fresh = PublishTally::new();
    assert_eq!((fresh.published_count(), fresh.replaced_count()), (0, 0));
}
