//! The wake-up scheduler: under the single-leader lease, decide the one
//! instant at which the fleet's timer must fire next, and encode it as a
//! one-shot cron expression to the minute.

use vstd::prelude::*;
use chrono::Datelike;
use chrono::Timelike;
use crate::text::{u64_to_string, spec_digits};

verus! {

/// Safety wake-up horizon when no batch is pending, in seconds.
pub const SAFETY_WAKE_UP_SECONDS: i64 = 3600;

/// Lease time-to-live for the scheduler lock, in seconds.
pub const SCHEDULER_LEASE_TTL_SECONDS: u64 = 300;

/// A civil UTC instant, to the minute.
#[derive(Clone, Copy, Debug, PartialEq, Eq, Structural)]
pub struct TimeParts {
    pub year: i32,
    pub month: u32,
    pub day: u32,
    pub hour: u32,
    pub minute: u32,
}

/// The civil UTC decomposition of an epoch instant — year, month, day,
/// hour, minute — a function of the instant alone.  `None` stands for
/// an instant outside the representable civil range.
pub uninterp spec fn utc_parts_of(epoch: i64) -> Option<(int, int, int, int, int)>;

/// The epoch instant an RFC 3339 timestamp denotes, when it parses; a
/// function of the text alone.
pub uninterp spec fn rfc3339_epoch_of(s: Seq<char>) -> Option<i64>;

/// Relies on `chrono::DateTime::parse_from_rfc3339` and
/// `DateTime::timestamp`: whether a text parses, and the instant it
/// denotes, depend on the text alone.
#[verifier::external_body]
pub fn parse_rfc3339_epoch(s: &str) -> (r: Option<i64>)
    ensures
        r == rfc3339_epoch_of(s@),
{
    match chrono::DateTime::parse_from_rfc3339(s) {
        Ok(t) => Some(t.timestamp()),
        Err(_) => None,
    }
}

/// Relies on `chrono::DateTime::<Utc>::from_timestamp` and the
/// `Datelike` / `Timelike` accessors: the civil UTC decomposition is a
/// function of the instant, and `from_timestamp` returns `None`
/// exactly when the instant's day count leaves the representable
/// range, a condition on the instant alone; `month` ranges over
/// 1..=12, `day` over 1..=31, `hour` over 0..=23 and `minute` over
/// 0..=59, as their documentation states.
#[verifier::external_body]
pub fn utc_parts(epoch: i64) -> (r: Option<TimeParts>)
    ensures
        r is Some <==> utc_parts_of(epoch) is Some,
        r matches Some(p) ==> {
            &&& Some(
                (p.year as int, p.month as int, p.day as int, p.hour as int, p.minute as int),
            ) == utc_parts_of(epoch)
            &&& 1 <= p.month <= 12
            &&& 1 <= p.day <= 31
            &&& p.hour <= 23
            &&& p.minute <= 59
        },
{
    match chrono::DateTime::<chrono::Utc>::from_timestamp(epoch, 0) {
        Some(t) => Some(
            TimeParts {
                year: t.year(),
                month: t.month(),
                day: t.day(),
                hour: t.hour(),
                minute: t.minute(),
            },
        ),
        None => None,
    }
}

/// The cron text armed for a civil instant: minute, hour, day of month,
/// month, any day of week, year.
pub open spec fn spec_cron_expression(
    minute: u64,
    hour: u64,
    day: u64,
    month: u64,
    year: u64,
) -> Seq<char> {
    "cron("@ + spec_digits(minute as int) + " "@ + spec_digits(hour as int) + " "@ + spec_digits(
        day as int,
    ) + " "@ + spec_digits(month as int) + " ? "@ + spec_digits(year as int) + ")"@
}

/// The one-shot cron expression for a civil instant, to the minute.
pub fn cron_expression(minute: u64, hour: u64, day: u64, month: u64, year: u64) -> (r: String)
    ensures
        r@ == spec_cron_expression(minute, hour, day, month, year),
{
    let mut s = String::new();
    s.append("cron(");
    s.append(u64_to_string(minute).as_str());
    s.append(" ");
    s.append(u64_to_string(hour).as_str());
    s.append(" ");
    s.append(u64_to_string(day).as_str());
    s.append(" ");
    s.append(u64_to_string(month).as_str());
    s.append(" ? ");
    s.append(u64_to_string(year).as_str());
    s.append(")");
    assert(s@ =~= spec_cron_expression(minute, hour, day, month, year));
    s
}

/// The instant the wake-up timer must encode, given whether the lease
/// was acquired, the earliest pending batch time, and the present
/// instant: the earliest pending time when one exists, else the safety
/// wake-up an hour out; nothing at all without the lease.
pub open spec fn spec_wake_up_plan(acquired: bool, earliest: Option<i64>, now: i64) -> Option<
    i64,
> {
    if acquired {
        match earliest {
            Some(t) => Some(t),
            None => Some((now + SAFETY_WAKE_UP_SECONDS) as i64),
        }
    } else {
        None
    }
}

/// Decide the single timer target of this invocation.
pub fn wake_up_plan(acquired: bool, earliest: Option<i64>, now: i64) -> (r: Option<i64>)
    requires
        now + SAFETY_WAKE_UP_SECONDS <= i64::MAX,
    ensures
        r == spec_wake_up_plan(acquired, earliest, now),
{
    if acquired {
        match earliest {
            Some(t) => Some(t),
            None => Some(now + SAFETY_WAKE_UP_SECONDS),
        }
    } else {
        None
    }
}

/// The cron expression a wake-up instant encodes to, to the minute.
///
/// The encoding succeeds exactly when the instant has a civil
/// decomposition whose year is non-negative, so for every instant the
/// store can return a timer is owed and armed; only an instant outside
/// the cron-representable range yields `None`.
pub fn wake_up_cron(epoch: i64) -> (r: Option<String>)
    ensures
        r is Some <==> (utc_parts_of(epoch) matches Some(p) && p.0 >= 0),
        r matches Some(s) ==> {
            let (year, month, day, hour, minute) = utc_parts_of(epoch)->0;
            &&& year >= 0
            &&& s@ == spec_cron_expression(
                minute as u64,
                hour as u64,
                day as u64,
                month as u64,
                year as u64,
            )
        },
{
    match utc_parts(epoch) {
        Some(p) => {
            if p.year >= 0 {
                Some(
                    cron_expression(
                        p.minute as u64,
                        p.hour as u64,
                        p.day as u64,
                        p.month as u64,
                        p.year as u64,
                    ),
                )
            } else {
                None
            }
        }
        None => None,
    }
}

/// Single-timer law: an invocation that acquires the lease arms exactly
/// one wake-up instant — the earliest pending batch time when any batch
/// is pending, else the safety wake-up one hour from now — and an
/// invocation that does not acquire it arms none.
pub proof fn lemma_single_timer(acquired: bool, earliest: Option<i64>, now: i64)
    ensures
        acquired ==> spec_wake_up_plan(acquired, earliest, now) == Some(
            if earliest is Some {
                earliest->0
            } else {
                (now + SAFETY_WAKE_UP_SECONDS) as i64
            },
        ),
        !acquired ==> spec_wake_up_plan(acquired, earliest, now) is None,
{
}

} // verus!
