//! Scheduled calendar-reminder core: classifies events against the current
//! instant, normalizes HTML descriptions to a markdown-like plain form,
//! renders reminder messages, and frames the outbound dispatch body.
use vstd::prelude::*;

pub mod calendar;
pub mod datetime;
pub mod dispatch;
pub mod normalize;
pub mod render;
pub mod strutil;

verus! {

/// The reminder class an event can fall into on a given run: announced three
/// calendar days ahead at the fixed announcement hour, or within the final
/// hour before it starts.
#[derive(Debug, PartialEq, Eq, Structural, Clone, Copy)]
pub enum EventDateType {
    ThreeDays,
    OneHour,
}

/// Instants are UTC epoch seconds. The library supports the range of
/// four-digit calendar years, 0000-01-01T00:00:00Z through
/// 9999-12-31T23:59:59Z.
pub open spec fn valid_epoch(e: int) -> bool {
    -62167219200 <= e <= 253402300799
}

/// Calendar day index of an instant: days since 1970-01-01, rounding down.
pub open spec fn day_number(e: int) -> int {
    e / 86400
}

/// Hour of day (0..24) of an instant, in UTC.
pub open spec fn hour_of_day(e: int) -> int {
    (e % 86400) / 3600
}

/// The instant truncated down to a whole hour.
pub open spec fn hour_trunc(e: int) -> int {
    e - e % 3600
}

/// Hour of day at which three-day reminders are emitted (22:00 UTC).
pub open spec fn announcement_hour() -> int {
    22
}

/// The three-day window: the run happens at the announcement hour, and the
/// event's start (truncated to a whole hour) minus three days falls on the
/// same calendar day as the run.
pub open spec fn three_day_window(now: int, start: int) -> bool {
    &&& hour_of_day(now) == announcement_hour()
    &&& day_number(hour_trunc(start) - 3 * 86400) == day_number(now)
}

/// The one-hour window: the run happens at most one hour before the event's
/// start and not after it, both bounds inclusive.
pub open spec fn one_hour_window(now: int, start: int) -> bool {
    0 <= start - now <= 3600
}

/// Classification of an event start against the current instant: the
/// three-day window takes precedence, then the one-hour window, else none.
/// (The two windows are in fact disjoint; see `lemma_classify_exactly_one`.)
pub open spec fn classify_spec(now: int, start: int) -> Option<EventDateType> {
    if three_day_window(now, start) {
        Some(EventDateType::ThreeDays)
    } else if one_hour_window(now, start) {
        Some(EventDateType::OneHour)
    } else {
        None
    }
}

/// Decides which reminder class, if any, an event with start instant
/// `event_start` belongs to when evaluated at instant `now`. Both are UTC
/// epoch seconds.
pub fn classify(now: i64, event_start: i64) -> (r: Option<EventDateType>)
    requires
        valid_epoch(now as int),
        valid_epoch(event_start as int),
    ensures
        r == classify_spec(now as int, event_start as int),
{
    let n: u64 = (now + 62167219200) as u64;
    let s: u64 = (event_start + 62167219200) as u64;
    let now_hour: u64 = (n % 86400) / 3600;
    let s_trunc: u64 = s - s % 3600;
    proof {
        lemma_shifted_classify_parts(now as int, event_start as int);
    }
    if now_hour == 22 && s_trunc >= 259200 && (s_trunc - 259200) / 86400 == n / 86400 {
        Some(EventDateType::ThreeDays)
    } else if event_start >= now && event_start - now <= 3600 {
        Some(EventDateType::OneHour)
    } else {
        None
    }
}

/// Relates the arithmetic on shifted (nonnegative) instants used by `classify`
/// to the spec-level day/hour functions on raw epoch seconds.
proof fn lemma_shifted_classify_parts(now: int, start: int)
    requires
        valid_epoch(now),
        valid_epoch(start),
    ensures
        (now + 62167219200) % 86400 == now % 86400,
        ((now + 62167219200) % 86400) / 3600 == hour_of_day(now),
        (start + 62167219200) % 3600 == start % 3600,
        (start + 62167219200) - (start + 62167219200) % 3600 == hour_trunc(start)
            + 62167219200,
        hour_trunc(start) + 62167219200 >= 259200 ==> (hour_trunc(start) + 62167219200
            - 259200) / 86400 == day_number(hour_trunc(start) - 3 * 86400) + 719528,
        (now + 62167219200) / 86400 == day_number(now) + 719528,
        hour_trunc(start) + 62167219200 < 259200 ==> day_number(hour_trunc(start) - 3 * 86400)
            != day_number(now),
{
    broadcast use vstd::arithmetic::div_mod::lemma_mod_multiples_vanish;

    assert(62167219200 == 719528 * 86400);
    assert(62167219200 == 17268672 * 3600);
    assert((now + 719528 * 86400) % 86400 == now % 86400);
    assert((start + 17268672 * 3600) % 3600 == start % 3600);
    lemma_div_add_multiple(now, 719528, 86400);
    // hour truncation commutes with the shift
    assert((start + 62167219200) - (start + 62167219200) % 3600 == hour_trunc(start)
        + 62167219200);
    let t = hour_trunc(start);
    assert(t - 3 * 86400 + 62167219200 == t + 62167219200 - 259200);
    if t + 62167219200 >= 259200 {
        lemma_div_add_multiple(t - 3 * 86400, 719528, 86400);
    } else {
        // start would be within three days of the representable minimum;
        // its shifted-by-three-days day index is below every valid day.
        vstd::arithmetic::div_mod::lemma_div_is_ordered(t - 3 * 86400, -62167219201, 86400);
        lemma_div_add_multiple(-62167219201, 719528, 86400);
        assert(day_number(-62167219201) == -719529);
        vstd::arithmetic::div_mod::lemma_div_is_ordered(-62167219200, now, 86400);
        lemma_div_add_multiple(-62167219200, 719528, 86400);
        assert(day_number(-62167219200) == -719528);
    }
}

/// Classification of an event whose start is given as an RFC 3339 string:
/// a start that does not parse rejects the event (no reminder, the run goes
/// on), otherwise the instant is classified against `now`.
pub open spec fn compare_dates_spec(event_date: Seq<char>, now_epoch: int) -> Option<
    EventDateType,
> {
    match datetime::parse_rfc3339_spec(event_date) {
        Some(e) => classify_spec(now_epoch, e),
        None => None,
    }
}

/// Decides the reminder class of an event from its RFC 3339 start string and
/// the current instant. `None` when the start does not parse (the event is
/// rejected and the run goes on) or when the start sits in neither window.
pub fn compare_dates(event_date: &str, now: &datetime::UtcDateTime) -> (r: Option<EventDateType>)
    requires
        now.wf(),
    ensures
        r == compare_dates_spec(event_date@, now.epoch_spec()),
{
    match datetime::parse_rfc3339_epoch(event_date) {
        Some(e) => classify(now.epoch_seconds(), e),
        None => None,
    }
}

/// Any instant strictly more than a day before `now` lies on an earlier
/// calendar day.
proof fn lemma_day_before(x: int, now: int)
    requires
        x <= now - 86400,
    ensures
        day_number(x) < day_number(now),
{
    vstd::arithmetic::div_mod::lemma_div_is_ordered(x, now - 86400, 86400);
    lemma_div_add_multiple(now, -1, 86400);
    assert(now + (-1) * 86400 == now - 86400);
}

/// Truncating to a whole hour moves an instant down by less than an hour.
proof fn lemma_hour_trunc_bounds(e: int)
    ensures
        e - 3600 < hour_trunc(e) <= e,
{
    broadcast use vstd::arithmetic::div_mod::lemma_mod_division_less_than_divisor;

    assert(0 <= e % 3600 < 3600);
}

/// A classification is exactly one of the three outcomes: the result is
/// `ThreeDays` precisely in the three-day window, `OneHour` precisely in the
/// one-hour window, and absent precisely outside both — in particular the two
/// windows can never both hold of the same pair of instants.
pub proof fn lemma_classify_exactly_one(now: int, start: int)
    ensures
        !(three_day_window(now, start) && one_hour_window(now, start)),
        classify_spec(now, start) == Some(EventDateType::ThreeDays) <==> three_day_window(
            now,
            start,
        ),
        classify_spec(now, start) == Some(EventDateType::OneHour) <==> one_hour_window(
            now,
            start,
        ),
        classify_spec(now, start) is None <==> (!three_day_window(now, start)
            && !one_hour_window(now, start)),
{
    if one_hour_window(now, start) {
        // the event starts within the next hour, so its start minus three
        // days lies on an earlier calendar day than the run
        lemma_hour_trunc_bounds(start);
        lemma_day_before(hour_trunc(start) - 3 * 86400, now);
    }
}

/// Boundary behavior of the one-hour window, for every instant `now`: the
/// exact start and the instant one hour ahead both qualify; one minute beyond
/// the hour, or one second past the start, does not (and never lands in the
/// three-day window either).
pub proof fn lemma_one_hour_boundary(now: int)
    ensures
        classify_spec(now, now) == Some(EventDateType::OneHour),
        classify_spec(now, now + 3600) == Some(EventDateType::OneHour),
        classify_spec(now, now + 3660) is None,
        classify_spec(now, now - 1) is None,
{
    lemma_classify_exactly_one(now, now);
    lemma_classify_exactly_one(now, now + 3600);
    lemma_hour_trunc_bounds(now + 3660);
    lemma_day_before(hour_trunc(now + 3660) - 3 * 86400, now);
    lemma_hour_trunc_bounds(now - 1);
    lemma_day_before(hour_trunc(now - 1) - 3 * 86400, now);
}

/// Classification is a pure function of the pair of instants: two evaluations
/// of identical inputs agree — there is no hidden state to diverge on.
pub proof fn lemma_classify_deterministic(
    now: int,
    start: int,
    r1: Option<EventDateType>,
    r2: Option<EventDateType>,
)
    requires
        r1 == classify_spec(now, start),
        r2 == classify_spec(now, start),
    ensures
        r1 == r2,
{
}

/// `(x + j * d) / d == x / d + j` for a positive divisor.
pub(crate) proof fn lemma_div_add_multiple(x: int, j: int, d: int)
    requires
        d > 0,
    ensures
        (x + j * d) / d == x / d + j,
{
    vstd::arithmetic::div_mod::lemma_hoist_over_denominator(x, j, d as nat);
}

} // verus!
