//! When a queue is open: a one-time opening instant and a weekly opening
//! time, both in UTC.
use vstd::prelude::*;
use crate::clock::{
    instant_lt, is_before, minute_of_day, minute_of_day_of, parse_rfc3339, representable,
    rfc3339_parse, weekday_of, Instant,
};
use crate::model::{Queue, QueueModel};
use crate::text::{decimal, owned, push_two_digits, two_digits};
use crate::utils::{weekday_label, weekday_text};

verus! {

/// The one-time opening instant has passed, or there is none, or it does
/// not parse.
pub open spec fn past_opening(q: QueueModel, now: Instant) -> bool {
    match q.opens_at {
        None => true,
        Some(t) => match rfc3339_parse(t) {
            Ok((s, n)) => !instant_lt(now, Instant { secs: s, nanos: n }),
            Err(_) => true,
        },
    }
}

/// Whether requesters can see and join the queue at `now`: past its
/// one-time opening, and within its week once the weekly opening time has
/// come (the week runs from Sunday, UTC).
pub open spec fn queue_open(q: QueueModel, now: Instant) -> bool {
    past_opening(q, now) && match q.weekly_schedule {
        None => true,
        Some(w) => weekday_of(now.secs) > w.weekday || (weekday_of(now.secs) == w.weekday
            && minute_of_day_of(now.secs) >= w.minute_of_day),
    }
}

/// The one-time opening instant is still ahead.
pub open spec fn before_opening(q: QueueModel, now: Instant) -> bool {
    match q.opens_at {
        None => false,
        Some(t) => match rfc3339_parse(t) {
            Ok((s, n)) => instant_lt(now, Instant { secs: s, nanos: n }),
            Err(_) => false,
        },
    }
}

/// What a requester is told about a queue that is not open.
pub open spec fn not_open_message(q: QueueModel, now: Instant) -> Seq<char> {
    if before_opening(q, now) {
        "This queue opens at "@ + q.opens_at->0 + "."@
    } else {
        match q.weekly_schedule {
            Some(w) => "This queue opens weekly on "@ + weekday_text(w.weekday) + " at "@
                + two_digits((w.minute_of_day / 60) as nat) + ":"@ + two_digits(
                (w.minute_of_day % 60) as nat,
            ) + " UTC."@,
            None => "This queue is not open yet."@,
        }
    }
}

fn opening_instant(q: &Queue) -> (r: Option<Instant>)
    ensures
        match q@.opens_at {
            None => r is None,
            Some(t) => match rfc3339_parse(t) {
                Ok((s, n)) => r == Some(Instant { secs: s, nanos: n }),
                Err(_) => r is None,
            },
        },
{
    match &q.opens_at {
        None => None,
        Some(t) => match parse_rfc3339(t.as_str()) {
            Ok(x) => Some(x),
            Err(_) => None,
        },
    }
}

/// Whether the queue is open at `now`.
pub fn queue_is_open_at(q: &Queue, now: Instant) -> (r: bool)
    requires
        representable(now),
    ensures
        r == queue_open(q@, now),
{
    match opening_instant(q) {
        Some(x) => {
            if is_before(now, x) {
                return false;
            }
        },
        None => {},
    }
    match q.weekly_schedule {
        None => true,
        Some(w) => {
            let (weekday, minute) = minute_of_day(now);
            weekday > w.weekday || (weekday == w.weekday && minute >= w.minute_of_day)
        },
    }
}

/// The message for a queue that is not open at `now`.
pub fn queue_not_open_message_at(q: &Queue, now: Instant) -> (r: String)
    ensures
        r@ == not_open_message(q@, now),
{
    match opening_instant(q) {
        Some(x) => {
            if is_before(now, x) {
                let mut m = owned("This queue opens at ");
                match &q.opens_at {
                    Some(t) => m.append(t.as_str()),
                    None => {},
                }
                m.append(".");
                return m;
            }
        },
        None => {},
    }
    match q.weekly_schedule {
        Some(w) => {
            let mut m = owned("This queue opens weekly on ");
            m.append(weekday_label(w.weekday));
            m.append(" at ");
            push_two_digits(&mut m, (w.minute_of_day / 60) as u64);
            m.append(":");
            push_two_digits(&mut m, (w.minute_of_day % 60) as u64);
            m.append(" UTC.");
            m
        },
        None => owned("This queue is not open yet."),
    }
}

} // verus!
