//! Trusted boundary to the chrono crate: parsing a timestamp text under a
//! format string into an instant.

use vstd::prelude::*;

verus! {

/// The instant a text denotes under a timestamp format: `None` when the text
/// does not conform to the format, otherwise the whole seconds since the
/// epoch and the microseconds since the last second boundary.
pub uninterp spec fn datetime_of(text: Seq<char>, fmt: Seq<char>) -> Option<(int, int)>;

/// Relies on chrono's NaiveDateTime::parse_from_str together with
/// and_utc().timestamp() and and_utc().timestamp_subsec_micros(): whether the
/// text conforms to the format, and the instant it denotes, depend on the
/// text and the format alone. The subsecond count stays below two million; it
/// exceeds 999_999 only inside a leap second.
#[verifier::external_body]
pub(crate) fn parse_datetime(text: &str, fmt: &str) -> (r: Option<(i64, u32)>)
    ensures
        r is Some <==> datetime_of(text@, fmt@) is Some,
        r is Some ==> datetime_of(text@, fmt@) == Some(
            (r.unwrap().0 as int, r.unwrap().1 as int),
        ),
        r is Some ==> r.unwrap().1 < 2000000,
{
    match chrono::NaiveDateTime::parse_from_str(text, fmt) {
        Ok(dt) => Some((dt.and_utc().timestamp(), dt.and_utc().timestamp_subsec_micros())),
        Err(_) => None,
    }
}

} // verus!
