use calendar_events::datetime::{parse_rfc3339_epoch, UtcDateTime};

fn epoch(y: u16, mo: u8, d: u8, h: u8, mi: u8, s: u8) -> i64 {
    UtcDateTime::from_ymd_hms(y, mo, d, h, mi, s)
        .unwrap()
        .epoch_seconds()
}

#[test]
fn epoch_of_known_instants() {
    assert_eq!(epoch(1970, 1, 1, 0, 0, 0), 0);
    assert_eq!(epoch(2024, 1, 1, 0, 0, 0), 1704067200);
    assert_eq!(epoch(2024, 5, 6, 22, 0, 0), 1715032800);
}

#[test]
fn parse_utc_designator() {
    assert_eq!(
        parse_rfc3339_epoch("2024-05-09T00:00:00Z"),
        Some(epoch(2024, 5, 9, 0, 0, 0))
    );
    assert_eq!(
        parse_rfc3339_epoch("2024-05-09t00:00:00z"),
        Some(epoch(2024, 5, 9, 0, 0, 0))
    );
}

#[test]
fn parse_numeric_offsets() {
    assert_eq!(
        parse_rfc3339_epoch("2024-05-09T02:00:00+02:00"),
        Some(epoch(2024, 5, 9, 0, 0, 0))
    );
    assert_eq!(
        parse_rfc3339_epoch("2024-05-08T19:00:00-05:00"),
        Some(epoch(2024, 5, 9, 0, 0, 0))
    );
}

#[test]
fn parse_fractional_seconds_round_down() {
    assert_eq!(
        parse_rfc3339_epoch("2024-05-09T00:00:00.999Z"),
        Some(epoch(2024, 5, 9, 0, 0, 0))
    );
}

#[test]
fn parse_rejects_malformed() {
    assert_eq!(parse_rfc3339_epoch("2024-05-09T00:00:00"), None);
    assert_eq!(parse_rfc3339_epoch("2024-05-09 00:00"), None);
    assert_eq!(parse_rfc3339_epoch("2024-05-09T00:00:00.Z"), None);
    assert_eq!(parse_rfc3339_epoch("2024-05-09T24:00:00Z"), None);
    assert_eq!(parse_rfc3339_epoch("2024-02-30T00:00:00Z"), None);
    assert_eq!(parse_rfc3339_epoch("2024-05-09T00:00:00+24:00"), None);
    assert_eq!(parse_rfc3339_epoch("2024-05-09T00:00:00Zjunk"), None);
}

#[test]
fn calendar_field_validation() {
    assert!(UtcDateTime::from_ymd_hms(2024, 2, 29, 0, 0, 0).is_some());
    assert!(UtcDateTime::from_ymd_hms(2023, 2, 29, 0, 0, 0).is_none());
    assert!(UtcDateTime::from_ymd_hms(2024, 0, 1, 0, 0, 0).is_none());
    assert!(UtcDateTime::from_ymd_hms(2024, 13, 1, 0, 0, 0).is_none());
    assert!(UtcDateTime::from_ymd_hms(2024, 4, 31, 0, 0, 0).is_none());
    assert!(UtcDateTime::from_ymd_hms(2024, 4, 30, 24, 0, 0).is_none());
}

#[test]
fn from_epoch_inverts_epoch_seconds() {
    let samples = [
        (1970, 1, 1, 0, 0, 0),
        (2000, 2, 29, 23, 59, 59),
        (2024, 5, 6, 22, 0, 0),
        (2024, 12, 31, 0, 30, 7),
        (1969, 7, 20, 20, 17, 40),
    ];
    for (y, mo, d, h, mi, s) in samples {
        let dt = UtcDateTime::from_ymd_hms(y, mo, d, h, mi, s).unwrap();
        let back = UtcDateTime::from_epoch_seconds(dt.epoch_seconds()).unwrap();
        assert_eq!(back, dt);
    }
    assert_eq!(
        UtcDateTime::from_epoch_seconds(0),
        UtcDateTime::from_ymd_hms(1970, 1, 1, 0, 0, 0)
    );
}

#[test]
fn add_days_rolls_over_months_and_years() {
    let d = UtcDateTime::from_ymd_hms(2024, 2, 28, 12, 0, 0).unwrap();
    let d = d.add_days(2).unwrap();
    assert_eq!(d.day_of_month(), 1);
    let e = UtcDateTime::from_ymd_hms(2023, 12, 31, 0, 0, 0).unwrap();
    let e = e.add_days(1).unwrap();
    assert_eq!(e.day_of_month(), 1);
    assert_eq!(e.epoch_seconds(), epoch(2024, 1, 1, 0, 0, 0));
    let top = UtcDateTime::from_ymd_hms(9999, 12, 31, 0, 0, 0).unwrap();
    assert!(top.add_days(1).is_none());
}
