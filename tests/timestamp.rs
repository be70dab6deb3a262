use text_compare::Timestamp;

fn later_than(ts1: &Timestamp) -> Timestamp {
    let mut ts2 = Timestamp::new();
    while ts2 == *ts1 {
        ts2 = Timestamp::new();
    }
    ts2
}

#[test]
fn test_timestamp_comparison() {
    let ts1 = Timestamp::new();
    assert!(ts1 == ts1);
    assert!(ts1.is_current(&ts1));

    let ts2 = later_than(&ts1);
    assert!(ts2 == ts2);
    assert!(ts2 > ts1);
    assert!(ts2.is_current(&ts2));
    assert!(ts2.is_current(&ts1));
    assert!(!ts1.is_current(&ts2));
}

#[test]
fn timestamp_parts_round_trip() {
    let ts1 = Timestamp::new();
    let ts2 = later_than(&ts1);
    let back1 = Timestamp::create(ts1.seconds(), ts1.nanos()).unwrap();
    let back2 = Timestamp::create(ts2.seconds(), ts2.nanos()).unwrap();
    assert!(ts1 == back1);
    assert!(ts2 == back2);
    assert!(back2 > back1);
    assert!(back2.is_current(&back1));
    assert!(!back1.is_current(&back2));
}

#[test]
fn now_is_after_2020() {
    let ts = Timestamp::new();
    assert!(ts.seconds() > 1_577_836_800);
    assert!(ts.nanos() < 1_000_000_000);
}

#[test]
fn create_keeps_parts() {
    let t = Timestamp::create(1_771_934_400, 123_000_000).unwrap();
    assert_eq!(t.seconds(), 1_771_934_400);
    assert_eq!(t.nanos(), 123_000_000);
}

#[test]
fn create_rejects_invalid_parts() {
    assert!(Timestamp::create(0, 2_000_000_000).is_none());
    assert!(Timestamp::create(0, 1_500_000_000).is_none());
    assert!(Timestamp::create(59, 1_500_000_000).is_some());
    assert!(Timestamp::create(i64::MAX, 0).is_none());
    assert!(Timestamp::create(i64::MIN, 0).is_none());
}

#[test]
fn is_current_orders_by_seconds_then_nanos() {
    let a = Timestamp::create(100, 5).unwrap();
    let b = Timestamp::create(100, 6).unwrap();
    let c = Timestamp::create(101, 0).unwrap();
    assert!(b.is_current(&a));
    assert!(!a.is_current(&b));
    assert!(c.is_current(&b));
    assert!(!b.is_current(&c));
    assert!(a.is_current(&a));
    assert!(c > b && b > a);
    let leap = Timestamp::create(119, 1_200_000_000).unwrap();
    let next = Timestamp::create(120, 0).unwrap();
    assert!(next.is_current(&leap));
    assert!(!leap.is_current(&next));
}

#[test]
fn default_is_now() {
    let before = Timestamp::new();
    let d = Timestamp::default();
    assert!(d.is_current(&before));
}
