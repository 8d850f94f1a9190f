//! Message renderer: fills the fixed Spanish templates per event. A
//! three-day reminder is one message per event; the one-hour reminders of a
//! run become a single digest message, or none at all when the run collected
//! no such event. Date and time render as platform-relative timestamp tokens
//! derived from the event's epoch seconds alone.
use vstd::prelude::*;
use vstd::string::*;

use crate::calendar::Event;
use crate::datetime::{parse_rfc3339_epoch, parse_rfc3339_spec};
use crate::normalize::{norm_spec, normalize};
use crate::strutil::{i64_digits, push_i64};

verus! {

/// The three-day message from its parts: banner line, bold title, optional
/// normalized description followed by a blank line, date line, time line,
/// optional location line, and the permalink line. Absent optional fields
/// contribute nothing — not even a blank line.
pub open spec fn three_day_message_spec(
    banner: Seq<char>,
    title: Seq<char>,
    description: Option<Seq<char>>,
    epoch: int,
    location: Option<Seq<char>>,
    link: Seq<char>,
) -> Seq<char> {
    banner + "\n\n**"@ + title + "**\n"@ + (match description {
        Some(d) => d + "\n\n"@,
        None => Seq::<char>::empty(),
    }) + "📅 Fecha: <t:"@ + i64_digits(epoch) + ":D>\n🕓 Hora: <t:"@ + i64_digits(epoch)
        + ":t>\n"@ + (match location {
        Some(l) => "📍 Lugar: "@ + l + "\n"@,
        None => Seq::<char>::empty(),
    }) + "🖥️ Enlace: <"@ + link + ">"@
}

/// The three-day message of an event whose start parses to `epoch`: its
/// description normalized, its location verbatim.
pub open spec fn render_three_day_spec(e: Event, banner: Seq<char>, epoch: int) -> Seq<char> {
    three_day_message_spec(
        banner,
        e.summary@,
        match e.description {
            Some(d) => Some(norm_spec(d@)),
            None => None,
        },
        epoch,
        match e.location {
            Some(l) => Some(l@),
            None => None,
        },
        e.html_link@,
    )
}

/// Renders the three-day reminder for one event under the given banner.
/// `None` exactly when the event's start does not parse; a missing
/// description or location never fails the rendering, the line is omitted.
pub fn render_three_day(e: &Event, banner: &str) -> (r: Option<String>)
    ensures
        r is Some <==> parse_rfc3339_spec(e.start.date_time@) is Some,
        r is Some ==> Some(r->0@) == Some(
            render_three_day_spec(*e, banner@, parse_rfc3339_spec(e.start.date_time@)->0),
        ),
{
    let epoch = match parse_rfc3339_epoch(e.start.date_time.as_str()) {
        Some(t) => t,
        None => { return None },
    };
    let mut out = String::new();
    out.append(banner);
    out.append("\n\n**");
    out.append(e.summary.as_str());
    out.append("**\n");
    match &e.description {
        Some(d) => {
            let nd = normalize(d.as_str());
            out.append(nd.as_str());
            out.append("\n\n");
        },
        None => {},
    }
    out.append("📅 Fecha: <t:");
    push_i64(&mut out, epoch);
    out.append(":D>\n🕓 Hora: <t:");
    push_i64(&mut out, epoch);
    out.append(":t>\n");
    match &e.location {
        Some(l) => {
            out.append("📍 Lugar: ");
            out.append(l.as_str());
            out.append("\n");
        },
        None => {},
    }
    out.append("🖥️ Enlace: <");
    out.append(e.html_link.as_str());
    out.append(">");
    proof {
        assert(out@ =~= render_three_day_spec(*e, banner@, epoch as int));
    }
    Some(out)
}

/// The digest's fixed opening, up to the pluralization-sensitive lead-in.
pub open spec fn digest_header() -> Seq<char> {
    ":warning: :warning: Atenciooon!!!! :warning: :warning: \nEn una hora "@
}

/// Lead-in for a digest of exactly one event.
pub open spec fn singular_lead_in() -> Seq<char> {
    "comienza el evento"@
}

/// Lead-in for a digest of two or more events.
pub open spec fn plural_lead_in() -> Seq<char> {
    "comienzan los eventos de"@
}

/// The lead-in chosen for a digest of `n` events.
pub open spec fn lead_in(n: int) -> Seq<char> {
    if n > 1 {
        plural_lead_in()
    } else {
        singular_lead_in()
    }
}

/// The digest's fixed closing note.
pub open spec fn digest_note() -> Seq<char> {
    "\n\n> **NOTA:** Haciendo click en cada evento pueden ver los detalles en el calendario\n> Y recuerda que puedes agregar el calendario para estar al dia de los eventos en Español desde [este enlace](<https://calendar.google.com/calendar/u/0?cid=ZGFmYzYyODQwMzRkOWJlZjNlMzFkZTNiZDE1OTI2OGQ5OGU4YzlhOGY2MjU3Mzk4NGI3MGE1OWQ2NjU3ZjVhZkBncm91cC5jYWxlbmRhci5nb29nbGUuY29t>)\n"@
}

/// One digest bullet: the event's title linking to its permalink.
pub open spec fn bullet_spec(e: Event) -> Seq<char> {
    "- ["@ + e.summary@ + "](<"@ + e.html_link@ + ">)"@
}

/// The digest bullets in feed order, one line per event.
pub open spec fn bullets_spec(s: Seq<Event>) -> Seq<char>
    decreases s.len(),
{
    if s.len() == 0 {
        Seq::empty()
    } else if s.len() == 1 {
        bullet_spec(s[0])
    } else {
        bullets_spec(s.drop_last()) + "\n"@ + bullet_spec(s.last())
    }
}

/// The whole digest message for a nonempty run of one-hour events.
pub open spec fn one_hour_digest_spec(s: Seq<Event>) -> Seq<char> {
    digest_header() + lead_in(s.len() as int) + ":\n\n"@ + bullets_spec(s) + digest_note()
}

/// Renders the single digest message for the run's one-hour events, in the
/// order received. `None` exactly when there is no such event: an empty run
/// dispatches nothing.
pub fn render_one_hour_digest(events: &Vec<Event>) -> (r: Option<String>)
    ensures
        r is Some <==> events@.len() > 0,
        r is Some ==> r->0@ == one_hour_digest_spec(events@),
{
    let n = events.len();
    if n == 0 {
        return None;
    }
    let ghost pre = digest_header() + lead_in(events@.len() as int) + ":\n\n"@;
    let mut body = String::new();
    body.append(":warning: :warning: Atenciooon!!!! :warning: :warning: \nEn una hora ");
    if n > 1 {
        body.append("comienzan los eventos de");
    } else {
        body.append("comienza el evento");
    }
    body.append(":\n\n");
    proof {
        assert(body@ =~= pre + bullets_spec(events@.take(0)));
    }
    let mut i: usize = 0;
    while i < n
        invariant
            i <= n,
            n == events@.len(),
            body@ == pre + bullets_spec(events@.take(i as int)),
        decreases n - i,
    {
        let ghost prefix_bullets = bullets_spec(events@.take(i as int));
        if i > 0 {
            body.append("\n");
        }
        body.append("- [");
        body.append(events[i].summary.as_str());
        body.append("](<");
        body.append(events[i].html_link.as_str());
        body.append(">)");
        proof {
            assert(events@.take(i + 1).drop_last() =~= events@.take(i as int));
            assert(events@.take(i + 1).last() == events@[i as int]);
            if i == 0 {
                assert(bullets_spec(events@.take(1)) == bullet_spec(events@[0]));
            }
            assert(body@ =~= pre + bullets_spec(events@.take(i + 1)));
        }
        i = i + 1;
    }
    proof {
        assert(events@.take(n as int) =~= events@);
    }
    body.append(
        "\n\n> **NOTA:** Haciendo click en cada evento pueden ver los detalles en el calendario\n> Y recuerda que puedes agregar el calendario para estar al dia de los eventos en Español desde [este enlace](<https://calendar.google.com/calendar/u/0?cid=ZGFmYzYyODQwMzRkOWJlZjNlMzFkZTNiZDE1OTI2OGQ5OGU4YzlhOGY2MjU3Mzk4NGI3MGE1OWQ2NjU3ZjVhZkBncm91cC5jYWxlbmRhci5nb29nbGUuY29t>)\n",
    );
    proof {
        assert(body@ =~= one_hour_digest_spec(events@));
    }
    Some(body)
}

/// With no description and no location, the three-day message is exactly
/// banner, bold title, date line, time line and link line: the two optional
/// lines are omitted entirely and leave no blank line behind.
pub proof fn lemma_three_day_omits_optional(
    banner: Seq<char>,
    title: Seq<char>,
    epoch: int,
    link: Seq<char>,
)
    ensures
        three_day_message_spec(banner, title, None, epoch, None, link) == banner + "\n\n**"@
            + title + "**\n"@ + "📅 Fecha: <t:"@ + i64_digits(epoch) + ":D>\n🕓 Hora: <t:"@
            + i64_digits(epoch) + ":t>\n"@ + "🖥️ Enlace: <"@ + link + ">"@,
{
    assert(three_day_message_spec(banner, title, None, epoch, None, link) =~= banner + "\n\n**"@
        + title + "**\n"@ + "📅 Fecha: <t:"@ + i64_digits(epoch) + ":D>\n🕓 Hora: <t:"@
        + i64_digits(epoch) + ":t>\n"@ + "🖥️ Enlace: <"@ + link + ">"@);
}

/// Pluralization of the digest lead-in: exactly one event gives the singular
/// phrasing, two or more the plural one. (The empty case renders no message
/// at all; see `render_one_hour_digest`.)
pub proof fn lemma_digest_lead_in(s: Seq<Event>)
    ensures
        s.len() == 1 ==> one_hour_digest_spec(s) == digest_header() + singular_lead_in()
            + ":\n\n"@ + bullets_spec(s) + digest_note(),
        s.len() >= 2 ==> one_hour_digest_spec(s) == digest_header() + plural_lead_in() + ":\n\n"@
            + bullets_spec(s) + digest_note(),
{
}

/// Rendering is a pure function of the event, banner and instant: two
/// evaluations of identical inputs agree — there is no hidden state.
pub proof fn lemma_render_three_day_deterministic(
    e: Event,
    banner: Seq<char>,
    epoch: int,
    r1: Seq<char>,
    r2: Seq<char>,
)
    requires
        r1 == render_three_day_spec(e, banner, epoch),
        r2 == render_three_day_spec(e, banner, epoch),
    ensures
        r1 == r2,
{
}

/// The digest is a pure function of the event sequence: two evaluations of
/// identical inputs agree — there is no hidden state.
pub proof fn lemma_render_digest_deterministic(s: Seq<Event>, r1: Seq<char>, r2: Seq<char>)
    requires
        r1 == one_hour_digest_spec(s),
        r2 == one_hour_digest_spec(s),
    ensures
        r1 == r2,
{
}

} // verus!
