use chapaty_garden::time::{minutes_between, same_utc_date};

#[test]
fn same_date_in_utc() {
    let day_start = 1_705_276_800_000; // 2024-01-15 00:00 UTC
    assert!(same_utc_date(day_start, day_start + 86_399_999));
    assert!(!same_utc_date(day_start - 1, day_start));
    assert!(same_utc_date(-1, -86_400_000));
    assert!(!same_utc_date(-1, 0));
}

#[test]
fn minutes_truncate_toward_zero() {
    assert_eq!(minutes_between(0, 90_000), 1);
    assert_eq!(minutes_between(0, 59_999), 0);
    assert_eq!(minutes_between(0, 60_000), 1);
    assert_eq!(minutes_between(59_999, 0), 0);
    assert_eq!(minutes_between(60_000, 0), -1);
    assert_eq!(minutes_between(150_000, 0), -2);
}
