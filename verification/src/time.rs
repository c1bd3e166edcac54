//! Instants as Unix nanoseconds, and their RFC 3339 text (through `chrono`).

use vstd::prelude::*;

verus! {

/// The RFC 3339 text `chrono` gives the UTC instant `nanos` nanoseconds after
/// the Unix epoch (`DateTime::<Utc>::to_rfc3339`).
pub uninterp spec fn rfc3339_text(nanos: i64) -> Seq<char>;

/// What `chrono::DateTime::parse_from_rfc3339` makes of a text: the instant
/// in Unix nanoseconds when it parses and the instant fits in `i64`
/// nanoseconds (`Some`), or `None` when it parses but does not fit; the
/// parse error's text otherwise.
pub uninterp spec fn rfc3339_parse(text: Seq<char>) -> Result<Option<i64>, Seq<char>>;

/// Formats an instant with `chrono::DateTime::<Utc>::from_timestamp_nanos`
/// and `to_rfc3339`. Trusted: the result is the named `rfc3339_text`.
#[verifier::external_body]
pub(crate) fn format_rfc3339(nanos: i64) -> (s: String)
    ensures
        s@ == rfc3339_text(nanos),
{
    chrono::DateTime::<chrono::Utc>::from_timestamp_nanos(nanos).to_rfc3339()
}

/// Parses a text with `chrono::DateTime::parse_from_rfc3339` and converts the
/// instant with `timestamp_nanos_opt`. Trusted: the result is the named
/// `rfc3339_parse`.
#[verifier::external_body]
pub(crate) fn parse_rfc3339(text: &str) -> (r: Result<Option<i64>, String>)
    ensures
        match r {
            Ok(n) => rfc3339_parse(text@) == Ok::<Option<i64>, Seq<char>>(n),
            Err(e) => rfc3339_parse(text@) == Err::<Option<i64>, Seq<char>>(e@),
        },
{
    match chrono::DateTime::parse_from_rfc3339(text) {
        Ok(t) => Ok(t.timestamp_nanos_opt()),
        Err(e) => Err(e.to_string()),
    }
}

} // verus!
