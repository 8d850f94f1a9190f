use calendar_events::calendar::{Creator, Event, Start};
use calendar_events::render::{render_one_hour_digest, render_three_day};

const DIGEST_NOTE: &str = "\n\n> **NOTA:** Haciendo click en cada evento pueden ver los detalles en el calendario\n> Y recuerda que puedes agregar el calendario para estar al dia de los eventos en Español desde [este enlace](<https://calendar.google.com/calendar/u/0?cid=ZGFmYzYyODQwMzRkOWJlZjNlMzFkZTNiZDE1OTI2OGQ5OGU4YzlhOGY2MjU3Mzk4NGI3MGE1OWQ2NjU3ZjVhZkBncm91cC5jYWxlbmRhci5nb29nbGUuY29t>)\n";

fn event(
    summary: &str,
    link: &str,
    description: Option<&str>,
    location: Option<&str>,
    start: &str,
) -> Event {
    Event {
        kind: String::from("calendar#event"),
        html_link: String::from(link),
        summary: String::from(summary),
        description: description.map(String::from),
        location: location.map(String::from),
        creator: Creator {
            email: None,
            display_name: None,
        },
        start: Start {
            date_time: String::from(start),
            time_zone: String::from("UTC"),
        },
    }
}

#[test]
fn three_day_without_optional_fields_omits_lines() {
    // 2024-05-09T00:00:00Z is epoch second 1715212800
    let e = event("Charla", "http://ev", None, None, "2024-05-09T00:00:00Z");
    let msg = render_three_day(&e, "📢 ¡Atencion @anuncios !").unwrap();
    assert_eq!(
        msg,
        "📢 ¡Atencion @anuncios !\n\n**Charla**\n📅 Fecha: <t:1715212800:D>\n🕓 Hora: <t:1715212800:t>\n🖥️ Enlace: <http://ev>"
    );
    assert!(!msg.contains("Lugar"));
}

#[test]
fn three_day_with_description_and_location() {
    let e = event(
        "Charla",
        "http://ev",
        Some("<b>ven</b>"),
        Some("Madrid"),
        "2024-05-09T00:00:00Z",
    );
    let msg = render_three_day(&e, "B").unwrap();
    assert_eq!(
        msg,
        "B\n\n**Charla**\n**ven**\n\n📅 Fecha: <t:1715212800:D>\n🕓 Hora: <t:1715212800:t>\n📍 Lugar: Madrid\n🖥️ Enlace: <http://ev>"
    );
}

#[test]
fn three_day_unparseable_start_renders_nothing() {
    let e = event("Charla", "http://ev", None, None, "mañana");
    assert!(render_three_day(&e, "B").is_none());
}

#[test]
fn digest_of_zero_events_is_no_message() {
    let events: Vec<Event> = Vec::new();
    assert!(render_one_hour_digest(&events).is_none());
}

#[test]
fn digest_of_one_event_is_singular() {
    let events = vec![event("T1", "L1", None, None, "2024-05-09T00:00:00Z")];
    let msg = render_one_hour_digest(&events).unwrap();
    let expected = format!(
        ":warning: :warning: Atenciooon!!!! :warning: :warning: \nEn una hora comienza el evento:\n\n- [T1](<L1>){}",
        DIGEST_NOTE
    );
    assert_eq!(msg, expected);
}

#[test]
fn digest_of_two_events_is_plural_in_order() {
    let events = vec![
        event("T1", "L1", None, None, "2024-05-09T00:00:00Z"),
        event("T2", "L2", None, None, "2024-05-09T01:00:00Z"),
    ];
    let msg = render_one_hour_digest(&events).unwrap();
    let expected = format!(
        ":warning: :warning: Atenciooon!!!! :warning: :warning: \nEn una hora comienzan los eventos de:\n\n- [T1](<L1>)\n- [T2](<L2>){}",
        DIGEST_NOTE
    );
    assert_eq!(msg, expected);
}

#[test]
fn rendering_is_pure() {
    let e = event("T", "L", Some("<i>x</i>"), Some("Y"), "2024-05-09T00:00:00Z");
    assert_eq!(render_three_day(&e, "B"), render_three_day(&e, "B"));
    let events = vec![e];
    assert_eq!(
        render_one_hour_digest(&events),
        render_one_hour_digest(&events)
    );
}
