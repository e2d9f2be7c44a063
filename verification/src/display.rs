//! How a point in time is shown: as its distance from now.

use vstd::prelude::*;
use vstd::string::StringExecFns;
use crate::text::{decimal_digits, push_decimal};

verus! {

/// Names the point in time that `DateTime::parse_from_rfc3339` reads from a
/// text, in milliseconds since the Unix epoch; `None` where it reads none.
pub uninterp spec fn rfc3339_millis(text: Seq<char>) -> Option<i64>;

/// `DateTime::parse_from_rfc3339` of the crate `chrono`, then
/// `timestamp_millis`. What comes back is a function of the text alone.
#[verifier::external_body]
pub(crate) fn parse_rfc3339(text: &str) -> (millis: Option<i64>)
    ensures
        millis == rfc3339_millis(text@),
{
    chrono::DateTime::parse_from_rfc3339(text).ok().map(|t| t.timestamp_millis())
}

/// A number with a unit behind it and the word `ago`.
pub open spec fn ago(n: nat, unit: Seq<char>) -> Seq<char> {
    decimal_digits(n) + unit + " ago"@
}

/// How an age of so many milliseconds is shown: in the largest of years of
/// 365 days, months of 30 days, weeks, days, hours and minutes of which at
/// least one has passed; as `just now` where not even a minute has passed, or
/// the time lies ahead.
pub open spec fn age_label(age_millis: int) -> Seq<char> {
    if age_millis < 60_000 {
        "just now"@
    } else {
        let seconds = age_millis / 1000;
        let days = seconds / 86_400;
        if days / 365 > 0 {
            ago((days / 365) as nat, "y"@)
        } else if days / 30 > 0 {
            ago((days / 30) as nat, "mo"@)
        } else if days / 7 > 0 {
            ago((days / 7) as nat, "w"@)
        } else if days > 0 {
            ago(days as nat, "d"@)
        } else if seconds / 3600 > 0 {
            ago((seconds / 3600) as nat, "h"@)
        } else {
            ago((seconds / 60) as nat, "m"@)
        }
    }
}

/// A number with a unit behind it and the word `ago`.
fn some_ago(n: u64, unit: &str) -> (text: String)
    ensures
        text@ == ago(n as nat, unit@),
{
    let mut text = String::new();
    push_decimal(&mut text, n);
    text.append(unit);
    text.append(" ago");
    proof {
        assert(text@ =~= ago(n as nat, unit@));
    }
    text
}

/// How the age between `then` and `now` is shown, both in milliseconds since
/// the Unix epoch.
pub fn describe_age(then: i64, now: i64) -> (text: String)
    ensures
        text@ == age_label(now - then),
{
    let age: i128 = now as i128 - then as i128;
    if age < 60_000 {
        return String::from_str("just now");
    }
    let seconds: u64 = (age / 1000) as u64;
    let days: u64 = seconds / 86_400;
    if days / 365 > 0 {
        some_ago(days / 365, "y")
    } else if days / 30 > 0 {
        some_ago(days / 30, "mo")
    } else if days / 7 > 0 {
        some_ago(days / 7, "w")
    } else if days > 0 {
        some_ago(days, "d")
    } else if seconds / 3600 > 0 {
        some_ago(seconds / 3600, "h")
    } else {
        some_ago(seconds / 60, "m")
    }
}

/// How a time stamp is shown at the time `now`, in milliseconds since the
/// Unix epoch: as its age, or as it stands where it is no RFC 3339 time.
pub open spec fn relative_label(timestamp: Seq<char>, now: i64) -> Seq<char> {
    match rfc3339_millis(timestamp) {
        Some(then) => age_label(now - then),
        None => timestamp,
    }
}

/// How `timestamp` is shown at the time `now`.
pub fn relative_time(timestamp: &str, now: i64) -> (text: String)
    ensures
        text@ == relative_label(timestamp@, now),
{
    match parse_rfc3339(timestamp) {
        Some(then) => describe_age(then, now),
        None => String::from_str(timestamp),
    }
}

} // verus!
