//! Time windows and timestamps of the reporting routes.

use vstd::prelude::*;
use crate::text::{push_str, string_of};

verus! {

/// Days a DORA window covers when none is requested.
pub const DEFAULT_WINDOW_DAYS: i64 = 90;

/// The days of a DORA window: the requested number when positive, else
/// `DEFAULT_WINDOW_DAYS`.
pub fn window_days(days: Option<i64>) -> (d: i64)
    ensures
        d == match days {
            Some(n) => if n > 0 {
                n
            } else {
                DEFAULT_WINDOW_DAYS
            },
            None => DEFAULT_WINDOW_DAYS,
        },
{
    match days {
        Some(n) => if n > 0 {
            n
        } else {
            DEFAULT_WINDOW_DAYS
        },
        None => DEFAULT_WINDOW_DAYS,
    }
}

/// The days of a metric-trend window: the requested number (default 90)
/// clamped to `[1, 1825]`.
pub fn series_window_days(window: Option<i64>) -> (d: i64)
    ensures
        d == {
            let w = match window {
                Some(w) => w as int,
                None => 90,
            };
            if w < 1 {
                1
            } else if w > 1825 {
                1825
            } else {
                w
            }
        },
{
    let w = match window {
        Some(w) => w,
        None => 90,
    };
    if w < 1 {
        1
    } else if w > 1825 {
        1825
    } else {
        w
    }
}

/// What `chrono`'s `DateTime::parse_from_rfc3339` gives for `s`: the instant
/// as UTC seconds since the Unix epoch and sub-second nanoseconds, or the
/// text of the parse error.
pub uninterp spec fn rfc3339_instant(s: Seq<char>) -> Result<(i64, u32), Seq<char>>;

/// `chrono`'s `DateTime::parse_from_rfc3339`, converted to UTC and taken
/// apart into seconds since the epoch and sub-second nanoseconds.
#[verifier::external_body]
fn parse_rfc3339(s: &str) -> (r: Result<(i64, u32), String>)
    ensures
        match (r, rfc3339_instant(s@)) {
            (Ok(a), Ok(b)) => a == b,
            (Err(e), Err(t)) => e@ == t,
            _ => false,
        },
{
    match chrono::DateTime::parse_from_rfc3339(s) {
        Ok(d) => {
            let u = d.with_timezone(&chrono::Utc);
            Ok((u.timestamp(), u.timestamp_subsec_nanos()))
        },
        Err(e) => Err(e.to_string()),
    }
}

/// A query timestamp: the default when absent, else the parsed RFC 3339
/// instant, or an error naming the text and the parse failure.
pub fn parse_time(raw: Option<&str>, default: (i64, u32)) -> (r: Result<(i64, u32), String>)
    ensures
        match raw {
            None => r == Ok::<(i64, u32), String>(default),
            Some(s) => match rfc3339_instant(s@) {
                Ok(t) => r == Ok::<(i64, u32), String>(t),
                Err(e) => r matches Err(m) && m@ == "invalid timestamp '"@ + s@ + "': "@ + e,
            },
        },
{
    match raw {
        None => Ok(default),
        Some(s) => match parse_rfc3339(s) {
            Ok(t) => Ok(t),
            Err(e) => {
                let mut m: Vec<char> = Vec::new();
                push_str(&mut m, "invalid timestamp '");
                push_str(&mut m, s);
                push_str(&mut m, "': ");
                push_str(&mut m, e.as_str());
                Err(string_of(&m))
            },
        },
    }
}

} // verus!
