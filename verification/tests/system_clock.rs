use zorca::clock::{count_seconds, unix_now};

#[test]
fn seconds_before_the_epoch_count_as_zero() {
    assert_eq!(count_seconds(-1), 0);
    assert_eq!(count_seconds(i64::MIN), 0);
    assert_eq!(count_seconds(0), 0);
    assert_eq!(count_seconds(7), 7);
    assert_eq!(count_seconds(i64::MAX), i64::MAX as u64);
}

#[test]
fn clock_stands_after_the_epoch() {
    let now = unix_now();
    assert!(now > 1_500_000_000);
    assert!(now <= i64::MAX as u64);
    assert!(unix_now() >= now);
}
