use smolgnet::time::{Duration, Instant, PollAt};

#[test]
fn arithmetic_is_saturating() {
    let now = Instant::from_millis(100);
    assert_eq!(now.add(Duration::from_millis(25)).total_millis(), 125);
    assert_eq!(now.sub_duration(Duration::from_millis(150)).total_millis(), 0);
    assert_eq!(Instant::from_millis(180).sub_instant(now).total_millis(), 80);
}

#[test]
fn checked_add_reports_overflow() {
    let late = Instant::from_millis(u64::MAX - 1);
    assert_eq!(late.checked_add(Duration::from_millis(1)).map(|i| i.total_millis()), Some(u64::MAX));
    assert!(late.checked_add(Duration::from_millis(2)).is_none());
    assert_eq!(late.add(Duration::from_millis(10)).total_millis(), u64::MAX);
}

#[test]
fn duration_seconds_convert_to_millis() {
    assert_eq!(Duration::from_secs(3).total_millis(), 3000);
    assert_eq!(Duration::from_millis(4999).total_secs(), 4);
}

#[test]
fn poll_delay_is_zero_once_due() {
    let now = Instant::from_millis(1000);
    assert_eq!(PollAt::Now.delay_from(now).map(|d| d.total_millis()), Some(0));
    assert_eq!(
        PollAt::Time(Instant::from_millis(1250)).delay_from(now).map(|d| d.total_millis()),
        Some(250)
    );
    assert_eq!(
        PollAt::Time(Instant::from_millis(10)).delay_from(now).map(|d| d.total_millis()),
        Some(0)
    );
}
