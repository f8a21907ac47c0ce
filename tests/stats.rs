use mountain::stats::{subsec_millis, Stats};

#[test]
fn record_counts_and_adds_up() {
    let mut stats = Stats::default();
    assert_eq!(0, stats.num_events());
    assert_eq!(250, stats.record(3_250_000_000));
    assert_eq!(7, stats.record(7_000_001));
    assert_eq!(2, stats.num_events());
    assert_eq!(3_257_000_001, stats.total_nanos());
}

#[test]
fn subsec_millis_drops_whole_seconds() {
    assert_eq!(0, subsec_millis(0));
    assert_eq!(999, subsec_millis(1_999_999_999));
    assert_eq!(1, subsec_millis(5_001_000_000));
}

#[test]
fn time_records_one_event() {
    let mut stats = Stats::default();
    let mut ran = false;
    stats.time(|| ran = true);
    assert!(ran);
    assert_eq!(1, stats.num_events());
}

#[test]
fn end_event_records_one_event() {
    let mut stats = Stats::default();
    stats.start_event();
    let ms = stats.end_event();
    assert!(ms < 1000);
    assert_eq!(1, stats.num_events());
}
