//! Instants and textual timestamps.
//!
//! Every instant is a count of nanoseconds since the Unix epoch, so window
//! tests are plain integer comparisons.  Textual timestamps (RFC 3339) are
//! turned into instants by chrono; the parse result is named by
//! `rfc3339_nanos` and everything else is stated in terms of that name.

use vstd::prelude::*;

verus! {

/// The instant denoted by an RFC 3339 string, in nanoseconds since the Unix
/// epoch, or `None` when the text is not a valid RFC 3339 date-time or
/// denotes an instant outside the range an `i64` nanosecond count carries.
pub uninterp spec fn rfc3339_nanos(s: Seq<char>) -> Option<i64>;

/// Relies on chrono's `DateTime::parse_from_rfc3339` and
/// `DateTime::timestamp_nanos_opt`: both depend on the text alone, so the
/// combined outcome is a function of `s` and is named by `rfc3339_nanos`.
#[verifier::external_body]
pub(crate) fn parse_rfc3339(s: &str) -> (r: Option<i64>)
    ensures
        r == rfc3339_nanos(s@),
{
    match chrono::DateTime::parse_from_rfc3339(s) {
        Ok(dt) => dt.timestamp_nanos_opt(),
        Err(_) => None,
    }
}

/// An instant lies inside a closed window, both ends included.
pub open spec fn ts_in_window(t: int, since: int, until: int) -> bool {
    since <= t && t <= until
}

/// The view of an optional textual timestamp.
pub open spec fn opt_str_view(o: Option<String>) -> Option<Seq<char>> {
    match o {
        Some(s) => Some(s@),
        None => None,
    }
}

/// A textual timestamp denotes an instant.
pub open spec fn ts_str_valid(s: Seq<char>) -> bool {
    rfc3339_nanos(s) is Some
}

/// An absent timestamp is fine; a present one must denote an instant.
pub open spec fn opt_ts_valid(o: Option<Seq<char>>) -> bool {
    match o {
        Some(s) => ts_str_valid(s),
        None => true,
    }
}

/// A textual timestamp lies inside a closed window; text that denotes no
/// instant never does.
pub open spec fn ts_str_in_window(s: Seq<char>, since: int, until: int) -> bool {
    match rfc3339_nanos(s) {
        Some(n) => ts_in_window(n as int, since, until),
        None => false,
    }
}

/// An absent timestamp never lies inside a window.
pub open spec fn opt_ts_in_window(o: Option<Seq<char>>, since: int, until: int) -> bool {
    match o {
        Some(s) => ts_str_in_window(s, since, until),
        None => false,
    }
}

/// A textual timestamp denotes an instant at or after `since`.
pub open spec fn ts_str_at_or_after(s: Seq<char>, since: int) -> bool {
    match rfc3339_nanos(s) {
        Some(n) => n as int >= since,
        None => false,
    }
}

/// An absent timestamp is never at or after `since`.
pub open spec fn opt_ts_at_or_after(o: Option<Seq<char>>, since: int) -> bool {
    match o {
        Some(s) => ts_str_at_or_after(s, since),
        None => false,
    }
}

/// The error for a present textual timestamp that denotes no instant.
/// The engine refuses to coerce such text to "not in the window": it is
/// handed back to the caller, which aborts the run.
#[derive(Debug)]
pub struct InvalidTimestamp {
    pub timestamp: String,
}

impl InvalidTimestamp {
    pub fn new(timestamp: String) -> (r: Self)
        ensures
            r.timestamp@ == timestamp@,
    {
        InvalidTimestamp { timestamp }
    }
}

impl Clone for InvalidTimestamp {
    fn clone(&self) -> (r: Self)
        ensures
            r.timestamp@ == self.timestamp@,
    {
        InvalidTimestamp { timestamp: self.timestamp.clone() }
    }
}

} // verus!
