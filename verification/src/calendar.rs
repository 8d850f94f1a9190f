//! The calendar feed's data model — a feed, its events, and their start
//! records — and the order-preserving partition of a run's events into the
//! two reminder classes.
use vstd::prelude::*;

use crate::datetime::UtcDateTime;
use crate::{compare_dates, compare_dates_spec, EventDateType};

verus! {

/// A calendar feed: its metadata and the events it returned for the queried
/// window.
#[derive(Debug, Clone, PartialEq)]
pub struct Calendar {
    pub kind: String,
    pub summary: String,
    pub description: Option<String>,
    pub updated: String,
    pub time_zone: String,
    pub items: Vec<Event>,
}

/// One calendar entry: title, optional HTML-capable description, optional
/// location, start record, and permalink.
#[derive(Debug, Clone, PartialEq)]
pub struct Event {
    pub kind: String,
    pub html_link: String,
    pub summary: String,
    pub description: Option<String>,
    pub location: Option<String>,
    pub creator: Creator,
    pub start: Start,
}

/// Who created a calendar entry.
#[derive(Debug, Clone, PartialEq)]
pub struct Creator {
    pub email: Option<String>,
    pub display_name: Option<String>,
}

/// An event's start: an RFC 3339 timestamp and the feed's named time zone.
#[derive(Debug, Clone, PartialEq)]
pub struct Start {
    pub date_time: String,
    pub time_zone: String,
}

/// The events of `s` whose start string classifies as `class` at `now_epoch`,
/// in their original order.
pub open spec fn events_in_class(s: Seq<Event>, now_epoch: int, class: EventDateType) -> Seq<
    Event,
>
    decreases s.len(),
{
    if s.len() == 0 {
        Seq::empty()
    } else {
        let prefix = events_in_class(s.drop_last(), now_epoch, class);
        if compare_dates_spec(s.last().start.date_time@, now_epoch) == Some(class) {
            prefix.push(s.last())
        } else {
            prefix
        }
    }
}

/// Splits a run's events into the three-day and the one-hour class, keeping
/// the feed's order within each class; events whose start does not parse, or
/// that sit in neither window, are dropped.
#[verifier::rlimit(50)]
pub fn classify_events(events: Vec<Event>, now: &UtcDateTime) -> (r: (Vec<Event>, Vec<Event>))
    requires
        now.wf(),
    ensures
        r.0@ == events_in_class(events@, now.epoch_spec(), EventDateType::ThreeDays),
        r.1@ == events_in_class(events@, now.epoch_spec(), EventDateType::OneHour),
{
    let ghost orig = events@;
    let mut rest = events;
    let n = rest.len();
    assert(orig.len() == n as int);
    let mut three: Vec<Event> = Vec::new();
    let mut one: Vec<Event> = Vec::new();
    let mut i: usize = 0;
    while rest.len() > 0
        invariant
            now.wf(),
            orig.len() <= usize::MAX,
            i + rest@.len() == orig.len(),
            rest@ == orig.skip(i as int),
            three@ == events_in_class(orig.take(i as int), now.epoch_spec(), EventDateType::ThreeDays),
            one@ == events_in_class(orig.take(i as int), now.epoch_spec(), EventDateType::OneHour),
        decreases rest@.len(),
    {
        let e = rest.remove(0);
        proof {
            assert(e == orig[i as int]);
            assert(rest@ =~= orig.skip(i + 1));
            assert(orig.take(i + 1).drop_last() =~= orig.take(i as int));
            assert(orig.take(i + 1).last() == orig[i as int]);
        }
        let ghost three_next = events_in_class(
            orig.take(i + 1),
            now.epoch_spec(),
            EventDateType::ThreeDays,
        );
        let ghost one_next = events_in_class(
            orig.take(i + 1),
            now.epoch_spec(),
            EventDateType::OneHour,
        );
        let class = compare_dates(e.start.date_time.as_str(), now);
        match class {
            Some(EventDateType::ThreeDays) => {
                three.push(e);
                proof {
                    assert(three@ == three_next);
                    assert(one@ == one_next);
                }
            },
            Some(EventDateType::OneHour) => {
                one.push(e);
                proof {
                    assert(three@ == three_next);
                    assert(one@ == one_next);
                }
            },
            None => {
                proof {
                    assert(three@ == three_next);
                    assert(one@ == one_next);
                }
            },
        }
        i = i + 1;
    }
    proof {
        assert(orig.take(orig.len() as int) =~= orig);
    }
    (three, one)
}

} // verus!
