use gemini_marketplace::time::Timestamp;

#[test]
fn clock_readings_become_instants() {
    assert_eq!(Timestamp::from_clock_reading(Ok((3, 250))).unix_nanos(), 3_000_000_250);
    assert_eq!(Timestamp::from_clock_reading(Err((2, 5))).unix_nanos(), -2_000_000_005);
    assert_eq!(Timestamp::from_clock_reading(Ok((0, 0))), Timestamp::unix_epoch());
    assert_eq!(
        Timestamp::from_clock_reading(Ok((u64::MAX, 0))).unix_nanos(),
        9_223_372_036_854_775_807_999_999_999
    );
}

#[test]
fn now_is_after_the_epoch() {
    assert!(Timestamp::unix_epoch().is_before(&Timestamp::now()));
}
