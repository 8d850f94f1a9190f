use calendar_events::calendar::{classify_events, Creator, Event, Start};
use calendar_events::datetime::UtcDateTime;

fn event(summary: &str, start: &str) -> Event {
    Event {
        kind: String::from("calendar#event"),
        html_link: String::from("http://ev"),
        summary: String::from(summary),
        description: None,
        location: None,
        creator: Creator {
            email: None,
            display_name: None,
        },
        start: Start {
            date_time: String::from(start),
            time_zone: String::from("UTC"),
        },
    }
}

#[test]
fn partition_keeps_feed_order_and_drops_the_rest() {
    // the run happens at the announcement hour, one hour before two events
    let now = UtcDateTime::from_ymd_hms(2024, 5, 6, 22, 0, 0).unwrap();
    let events = vec![
        event("soon-a", "2024-05-06T22:30:00Z"),
        event("in-three-days-a", "2024-05-09T00:00:00Z"),
        event("broken", "no date"),
        event("soon-b", "2024-05-06T23:00:00Z"),
        event("far", "2024-06-01T00:00:00Z"),
        event("in-three-days-b", "2024-05-09T12:00:00Z"),
    ];
    let (three, one) = classify_events(events, &now);
    let three_names: Vec<&str> = three.iter().map(|e| e.summary.as_str()).collect();
    let one_names: Vec<&str> = one.iter().map(|e| e.summary.as_str()).collect();
    assert_eq!(three_names, vec!["in-three-days-a", "in-three-days-b"]);
    assert_eq!(one_names, vec!["soon-a", "soon-b"]);
}

#[test]
fn partition_of_empty_run() {
    let now = UtcDateTime::from_ymd_hms(2024, 5, 6, 22, 0, 0).unwrap();
    let (three, one) = classify_events(Vec::new(), &now);
    assert!(three.is_empty());
    assert!(one.is_empty());
}
