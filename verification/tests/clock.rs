use stoicdreams_timestamp::clock::{saturated, since_unix_epoch};

#[test]
fn counts_that_fit_are_kept() {
    assert_eq!(saturated(0), 0);
    assert_eq!(saturated(1), 1);
    assert_eq!(saturated(1_685_284_606_076), 1_685_284_606_076);
    assert_eq!(saturated(9_223_372_036_854_775_806), i64::MAX - 1);
    assert_eq!(saturated(9_223_372_036_854_775_807), i64::MAX);
}

#[test]
fn counts_past_the_largest_stay_at_it() {
    assert_eq!(saturated(9_223_372_036_854_775_808), i64::MAX);
    assert_eq!(saturated(u64::MAX as u128), i64::MAX);
    assert_eq!(saturated(u128::MAX), i64::MAX);
}

#[test]
fn the_clock_is_read_as_the_time_since_the_unix_epoch() {
    let before = std::time::SystemTime::now()
        .duration_since(std::time::UNIX_EPOCH)
        .unwrap();
    let reading = since_unix_epoch().unwrap();
    let after = std::time::SystemTime::now()
        .duration_since(std::time::UNIX_EPOCH)
        .unwrap();
    assert!(before <= reading);
    assert!(reading <= after);
}
