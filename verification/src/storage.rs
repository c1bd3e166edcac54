//! Reading the stored form of a project: its identifier and timestamps.
//!
//! Identifiers are stored as UUID text and instants as RFC 3339 text; a row
//! whose text does not parse is reported as a storage error naming it.

use vstd::prelude::*;

use crate::error::{CoreError, ErrorView};
use crate::text::{concat2, concat3};
use crate::time::{format_rfc3339, parse_rfc3339, rfc3339_parse, rfc3339_text};
use crate::types::ProjectId;

verus! {

/// What `uuid::Uuid::parse_str` makes of a text: the UUID's value, or the
/// parse error's text.
pub uninterp spec fn uuid_parse(text: Seq<char>) -> Result<u128, Seq<char>>;

/// Parses a UUID with `uuid::Uuid::parse_str` and takes its value
/// (`Uuid::as_u128`). Trusted: the result is the named `uuid_parse`.
#[verifier::external_body]
fn parse_uuid(text: &str) -> (r: Result<u128, String>)
    ensures
        match r {
            Ok(v) => uuid_parse(text@) == Ok::<u128, Seq<char>>(v),
            Err(e) => uuid_parse(text@) == Err::<u128, Seq<char>>(e@),
        },
{
    match uuid::Uuid::parse_str(text) {
        Ok(u) => Ok(u.as_u128()),
        Err(e) => Err(e.to_string()),
    }
}

/// The stored text of an instant.
pub fn timestamp_text(nanos: i64) -> (s: String)
    ensures
        s@ == rfc3339_text(nanos),
{
    format_rfc3339(nanos)
}

/// The instant a stored timestamp names, or why it cannot be read:
/// `invalid timestamp '<text>': <reason>`, where an instant that parses but
/// lies beyond the nanosecond range reads `out of range`.
pub open spec fn timestamp_of(text: Seq<char>) -> Result<i64, ErrorView> {
    match rfc3339_parse(text) {
        Ok(Some(n)) => Ok(n),
        Ok(None) => Err(ErrorView::Storage("invalid timestamp '"@ + text + "': out of range"@)),
        Err(e) => Err(ErrorView::Storage("invalid timestamp '"@ + text + "': "@ + e)),
    }
}

/// Reads a stored timestamp.
pub fn parse_timestamp(text: &str) -> (r: Result<i64, CoreError>)
    ensures
        crate::error::result_view(r) == timestamp_of(text@),
{
    match parse_rfc3339(text) {
        Ok(Some(n)) => Ok(n),
        Ok(None) => Err(CoreError::Storage(concat3("invalid timestamp '", text, "': out of range"))),
        Err(e) => {
            let mut m = concat3("invalid timestamp '", text, "': ");
            m.append(e.as_str());
            Err(CoreError::Storage(m))
        },
    }
}

/// The identity part of a stored project row, or the first problem with it:
/// the identifier, then the discovery time, then the last scan time.
pub open spec fn row_identity(
    id: Seq<char>,
    discovered: Seq<char>,
    scanned: Option<Seq<char>>,
) -> Result<(u128, i64, Option<i64>), ErrorView> {
    match uuid_parse(id) {
        Err(e) => Err(ErrorView::Storage("invalid project UUID '"@ + id + "': "@ + e)),
        Ok(v) => match timestamp_of(discovered) {
            Err(e) => Err(e),
            Ok(d) => match scanned {
                None => Ok((v, d, None)),
                Some(s) => match timestamp_of(s) {
                    Err(e) => Err(e),
                    Ok(t) => Ok((v, d, Some(t))),
                },
            },
        },
    }
}

/// Reads the identifier, discovery time and last scan time of a stored project.
pub fn parse_row_identity(id: &str, discovered: &str, scanned: Option<String>) -> (r: Result<
    (ProjectId, i64, Option<i64>),
    CoreError,
>)
    ensures
        match r {
            Ok((pid, d, s)) => row_identity(id@, discovered@, scanned.deep_view()) == Ok::<
                (u128, i64, Option<i64>),
                ErrorView,
            >((pid.0, d, s)),
            Err(e) => row_identity(id@, discovered@, scanned.deep_view()) == Err::<
                (u128, i64, Option<i64>),
                ErrorView,
            >(e@),
        },
{
    let v = match parse_uuid(id) {
        Ok(v) => v,
        Err(e) => {
            let mut m = concat3("invalid project UUID '", id, "': ");
            m.append(e.as_str());
            return Err(CoreError::Storage(m));
        },
    };
    let d = match parse_timestamp(discovered) {
        Ok(d) => d,
        Err(e) => return Err(e),
    };
    match scanned {
        None => Ok((ProjectId(v), d, None)),
        Some(s) => match parse_timestamp(s.as_str()) {
            Ok(t) => Ok((ProjectId(v), d, Some(t))),
            Err(e) => Err(e),
        },
    }
}

} // verus!
