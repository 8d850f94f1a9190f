use calendar_events::datetime::UtcDateTime;
use calendar_events::{compare_dates, EventDateType};

#[test]
fn compare_dates_more_time() {
    let d = UtcDateTime::from_ymd_hms(2024, 5, 5, 0, 0, 0).unwrap();
    let res = compare_dates("2024-05-09T00:00:00Z", &d);

    assert!(res.is_none());
}

#[test]
fn compare_dates_three_days_fail() {
    let d = UtcDateTime::from_ymd_hms(2024, 5, 6, 0, 0, 0).unwrap();
    let res = compare_dates("2024-05-09T01:00:00Z", &d);

    assert!(res.is_none());
}

#[test]
fn compare_dates_three_days() {
    let d = UtcDateTime::from_ymd_hms(2024, 5, 6, 22, 00, 00).unwrap();
    let res = compare_dates("2024-05-09T00:00:00Z", &d);

    assert_eq!(res, Some(EventDateType::ThreeDays));
}

#[test]
fn compare_dates_one_hour() {
    let d = UtcDateTime::from_ymd_hms(2024, 5, 9, 8, 10, 0).unwrap();
    let res = compare_dates("2024-05-09T09:10:00Z", &d);

    assert_eq!(res, Some(EventDateType::OneHour));
}

#[test]
fn compare_dates_one_hour_with_seconds() {
    let d = UtcDateTime::from_ymd_hms(2024, 5, 9, 8, 10, 17).unwrap();
    let res = compare_dates("2024-05-09T09:10:00Z", &d);

    assert_eq!(res, Some(EventDateType::OneHour));
}
