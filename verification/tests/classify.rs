use calendar_events::datetime::UtcDateTime;
use calendar_events::{classify, compare_dates, EventDateType};

fn epoch(y: u16, mo: u8, d: u8, h: u8, mi: u8, s: u8) -> i64 {
    UtcDateTime::from_ymd_hms(y, mo, d, h, mi, s)
        .unwrap()
        .epoch_seconds()
}

#[test]
fn one_hour_boundaries() {
    let now = epoch(2024, 5, 9, 8, 10, 0);
    assert_eq!(classify(now, now), Some(EventDateType::OneHour));
    assert_eq!(classify(now, now + 3600), Some(EventDateType::OneHour));
    assert_eq!(classify(now, now + 3660), None);
    assert_eq!(classify(now, now - 1), None);
}

#[test]
fn three_day_boundaries() {
    let event = epoch(2024, 5, 9, 0, 0, 0);
    let at_announcement = epoch(2024, 5, 6, 22, 0, 0);
    let wrong_hour = epoch(2024, 5, 6, 21, 0, 0);
    let wrong_day = epoch(2024, 5, 5, 22, 0, 0);
    assert_eq!(
        classify(at_announcement, event),
        Some(EventDateType::ThreeDays)
    );
    assert_eq!(classify(wrong_hour, event), None);
    assert_eq!(classify(wrong_day, event), None);
}

#[test]
fn three_day_minute_truncation() {
    // an event starting at 00:45 still matches the run three days before
    let event = epoch(2024, 5, 9, 0, 45, 0);
    let at_announcement = epoch(2024, 5, 6, 22, 0, 0);
    assert_eq!(
        classify(at_announcement, event),
        Some(EventDateType::ThreeDays)
    );
}

#[test]
fn classification_never_both() {
    // sweep a window around an event start: at most one class per instant
    let event = epoch(2024, 5, 9, 22, 30, 0);
    let mut found_three = 0;
    let mut found_one = 0;
    for off in -262000i64..=-257000 {
        match classify(event + off, event) {
            Some(EventDateType::ThreeDays) => found_three += 1,
            Some(EventDateType::OneHour) => found_one += 1,
            None => {}
        }
    }
    assert!(found_three > 0);
    assert_eq!(found_one, 0);
}

#[test]
fn classify_is_pure() {
    let now = epoch(2024, 5, 6, 22, 0, 0);
    let event = epoch(2024, 5, 9, 0, 0, 0);
    assert_eq!(classify(now, event), classify(now, event));
    let d = UtcDateTime::from_ymd_hms(2024, 5, 6, 22, 0, 0).unwrap();
    assert_eq!(
        compare_dates("2024-05-09T00:00:00Z", &d),
        compare_dates("2024-05-09T00:00:00Z", &d)
    );
}

#[test]
fn unparseable_start_is_rejected() {
    // inside what would be the one-hour window, a bad start yields nothing
    let d = UtcDateTime::from_ymd_hms(2024, 5, 9, 8, 10, 0).unwrap();
    assert!(compare_dates("not a timestamp", &d).is_none());
    assert!(compare_dates("2024-13-09T00:00:00Z", &d).is_none());
    assert!(compare_dates("2024-05-32T00:00:00Z", &d).is_none());
    assert!(compare_dates("2024-05-09T09:10:00", &d).is_none());
    assert!(compare_dates("", &d).is_none());
}
