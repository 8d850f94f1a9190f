use calendar_events::datetime::{format_rfc3339, UtcDateTime};

#[test]
fn test_format_date_rfc3339() {
    let d = UtcDateTime::from_ymd_hms(2024, 5, 6, 0, 0, 0);

    assert!(d.is_some());

    let d = format_rfc3339(&d.unwrap());
    assert_eq!(d.as_str(), "2024-05-06T00:00:00Z");
}

#[test]
fn test_format_next_date_rfc3339() {
    let d = UtcDateTime::from_ymd_hms(2024, 5, 6, 0, 0, 0).unwrap();

    let d = d.add_days(3);
    assert!(d.is_some());

    let d = d.unwrap();
    assert_eq!(d.day_of_month(), 9);

    let d = format_rfc3339(&d);
    assert_eq!(d.as_str(), "2024-05-09T00:00:00Z");
}
