use rench::duration::Duration;

#[test]
fn splits_into_seconds_and_nanos() {
    let d = Duration::new(2, 500000000);
    assert_eq!(d.as_secs(), 2);
    assert_eq!(d.subsec_nanos(), 500000000);
}

#[test]
fn carries_whole_seconds_out_of_the_nanos() {
    let d = Duration::new(1, 2500000000);
    assert_eq!(d.as_secs(), 3);
    assert_eq!(d.subsec_nanos(), 500000000);
}

#[test]
fn builds_from_a_nanosecond_total() {
    let d = Duration::from_nanos(1290994448);
    assert_eq!(d, Duration::new(1, 290994448));
    assert_eq!(d.total_nanos(), 1290994448);
}
