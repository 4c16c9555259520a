//! Points in time, read from and rendered by `chrono`.
use chrono::{Datelike, Timelike};
use vstd::prelude::*;

verus! {

/// A UTC point in time: seconds since the Unix epoch and the nanoseconds
/// past that second (at or above one billion only inside a leap second).
#[derive(Clone, Copy, Debug, PartialEq, Eq, Structural)]
pub struct Instant {
    pub secs: i64,
    pub nanos: u32,
}

/// `a` is strictly earlier than `b`.
pub open spec fn instant_lt(a: Instant, b: Instant) -> bool {
    a.secs < b.secs || (a.secs == b.secs && a.nanos < b.nanos)
}

pub fn is_before(a: Instant, b: Instant) -> (r: bool)
    ensures
        r == instant_lt(a, b),
{
    a.secs < b.secs || (a.secs == b.secs && a.nanos < b.nanos)
}

/// The RFC 3339 text `chrono` writes for the instant, or `None` where the
/// instant lies outside the range `chrono` can represent.
pub uninterp spec fn rfc3339_text(secs: i64, nanos: u32) -> Option<Seq<char>>;

/// What `chrono` reads from an RFC 3339 text, converted to UTC, or the text
/// of its parse error.
pub uninterp spec fn rfc3339_parse(s: Seq<char>) -> Result<(i64, u32), Seq<char>>;

/// The instant `delta` whole seconds after the given one, as `chrono` adds
/// it, or `None` where the sum leaves `chrono`'s range.
pub uninterp spec fn seconds_later(secs: i64, nanos: u32, delta: i64) -> Option<(i64, u32)>;

/// `(a - b).num_seconds()` as `chrono` computes it.
pub uninterp spec fn whole_seconds_between(a_secs: i64, a_nanos: u32, b_secs: i64, b_nanos: u32) -> i64;

/// The timestamp falls in a year from 0 to 9999.
pub open spec fn four_digit_year(secs: i64) -> bool {
    -62_167_219_200 <= secs <= 253_402_300_799
}

pub open spec fn representable(t: Instant) -> bool {
    rfc3339_text(t.secs, t.nanos) is Some
}

/// Day of the week, counted from Sunday, of a UTC timestamp.
pub open spec fn weekday_of(secs: i64) -> int {
    (secs as int / 86400 + 4) % 7
}

/// Minute of the UTC day of a timestamp.
pub open spec fn minute_of_day_of(secs: i64) -> int {
    (secs as int % 86400) / 60
}

/// The current time: `chrono::Utc::now()`. The contract claims only that
/// `chrono` can render the instant it returns.
#[verifier::external_body]
pub(crate) fn now() -> (t: Instant)
    ensures
        representable(t),
{
    let now = chrono::Utc::now();
    Instant { secs: now.timestamp(), nanos: now.timestamp_subsec_nanos() }
}

/// `DateTime::<Utc>::from_timestamp(secs, nanos)` rendered with
/// `to_rfc3339`; the contract ties the result to `rfc3339_text`, and claims
/// that `parse_from_rfc3339` reads a text written for a year from 0 to 9999
/// back as the same instant (the text carries every nonzero digit of the
/// nanoseconds and the offset `+00:00`; a leap second is written as second
/// 60 and read back as such; other years are written with a sign, which
/// the parser refuses).
#[verifier::external_body]
pub(crate) fn to_rfc3339(t: Instant) -> (r: Option<String>)
    ensures
        match r {
            Some(s) => rfc3339_text(t.secs, t.nanos) == Some(s@) && (four_digit_year(t.secs) ==> rfc3339_parse(s@)
                == Ok::<(i64, u32), Seq<char>>((t.secs, t.nanos))),
            None => rfc3339_text(t.secs, t.nanos) is None,
        },
{
    chrono::DateTime::from_timestamp(t.secs, t.nanos).map(|d| d.to_rfc3339())
}

/// `DateTime::parse_from_rfc3339` followed by `with_timezone(&Utc)`, or the
/// parse error's text. The contract ties the result to `rfc3339_parse` and
/// claims that a parsed instant can be rendered again.
#[verifier::external_body]
pub(crate) fn parse_rfc3339(s: &str) -> (r: Result<Instant, String>)
    ensures
        match rfc3339_parse(s@) {
            Ok((a, b)) => r == Ok::<Instant, String>(Instant { secs: a, nanos: b }),
            Err(m) => r is Err && r->Err_0@ == m,
        },
        r is Ok ==> representable(r->Ok_0),
{
    match chrono::DateTime::parse_from_rfc3339(s) {
        Ok(d) => {
            let u = d.with_timezone(&chrono::Utc);
            Ok(Instant { secs: u.timestamp(), nanos: u.timestamp_subsec_nanos() })
        },
        Err(e) => Err(e.to_string()),
    }
}

/// `checked_add_signed(TimeDelta::try_seconds(delta))` on the instant.
/// Besides tying the result to `seconds_later`, the contract claims that a
/// sum `chrono` produced can be rendered again.
#[verifier::external_body]
pub(crate) fn add_seconds(t: Instant, delta: i64) -> (r: Option<Instant>)
    ensures
        match seconds_later(t.secs, t.nanos, delta) {
            Some((a, b)) => r == Some(Instant { secs: a, nanos: b }),
            None => r is None,
        },
        r is Some ==> representable(r->0),
{
    chrono::DateTime::from_timestamp(t.secs, t.nanos)
        .and_then(|d| chrono::TimeDelta::try_seconds(delta).and_then(|x| d.checked_add_signed(x)))
        .map(|d| Instant { secs: d.timestamp(), nanos: d.timestamp_subsec_nanos() })
}

/// `a.signed_duration_since(b).num_seconds()` for two instants `chrono` can
/// represent.
#[verifier::external_body]
pub(crate) fn seconds_between(a: Instant, b: Instant) -> (r: i64)
    requires
        representable(a),
        representable(b),
    ensures
        r == whole_seconds_between(a.secs, a.nanos, b.secs, b.nanos),
{
    let x = chrono::DateTime::from_timestamp(a.secs, a.nanos).unwrap_or_default();
    let y = chrono::DateTime::from_timestamp(b.secs, b.nanos).unwrap_or_default();
    x.signed_duration_since(y).num_seconds()
}

/// The UTC weekday (from Sunday), hour and minute of an instant `chrono`
/// can represent, as `Datelike::weekday` and `Timelike::hour`/`minute`
/// give them; the contract states the calendar arithmetic they follow.
#[verifier::external_body]
pub(crate) fn utc_clock(t: Instant) -> (r: (u8, u8, u8))
    requires
        representable(t),
    ensures
        r.0 as int == weekday_of(t.secs),
        r.1 as int == (t.secs as int % 86400) / 3600,
        r.2 as int == ((t.secs as int % 86400) % 3600) / 60,
{
    let d = chrono::DateTime::from_timestamp(t.secs, t.nanos).unwrap_or_default();
    (d.weekday().num_days_from_sunday() as u8, d.hour() as u8, d.minute() as u8)
}

/// Minute of the UTC day of an instant `chrono` can represent.
pub fn minute_of_day(t: Instant) -> (r: (u8, u16))
    requires
        representable(t),
    ensures
        r.0 as int == weekday_of(t.secs),
        r.1 as int == minute_of_day_of(t.secs),
{
    let (w, h, m) = utc_clock(t);
    let minute: u16 = (h as u16) * 60 + (m as u16);
    proof {
        let s = t.secs as int % 86400;
        assert(0 <= s < 86400);
        assert(s / 60 == (s / 3600) * 60 + (s % 3600) / 60) by (nonlinear_arith)
            requires
                0 <= s < 86400,
        ;
    }
    (w, minute)
}

} // verus!
