//! Checks on the form of a text that outside crates decide: UUIDs and
//! timestamps.

use vstd::prelude::*;

verus! {
/// Whether `uuid::Uuid::parse_str` accepts a text.
pub uninterp spec fn uuid_syntax(text: Seq<char>) -> bool;

/// Whether `chrono::DateTime::parse_from_rfc3339` accepts a text.
pub uninterp spec fn rfc3339_syntax(text: Seq<char>) -> bool;

/// Whether `chrono::NaiveDateTime::parse_from_str` accepts a text under a
/// format.
pub uninterp spec fn naive_datetime_syntax(text: Seq<char>, format: Seq<char>) -> bool;

/// `uuid::Uuid::parse_str`, asked only whether it accepts the text.
#[verifier::external_body]
fn uuid_parses(text: &str) -> (r: bool)
    ensures
        r == uuid_syntax(text@),
{
    uuid::Uuid::parse_str(text).is_ok()
}

/// `chrono::DateTime::parse_from_rfc3339`, asked only whether it accepts the
/// text.
#[verifier::external_body]
fn rfc3339_parses(text: &str) -> (r: bool)
    ensures
        r == rfc3339_syntax(text@),
{
    chrono::DateTime::parse_from_rfc3339(text).is_ok()
}

/// `chrono::NaiveDateTime::parse_from_str`, asked only whether it accepts the
/// text under the format.
#[verifier::external_body]
fn naive_datetime_parses(text: &str, format: &str) -> (r: bool)
    ensures
        r == naive_datetime_syntax(text@, format@),
{
    chrono::NaiveDateTime::parse_from_str(text, format).is_ok()
}

/// Whether a text has the form of a timestamp: an RFC 3339 date and time, or
/// a date and time without zone, `YYYY-MM-DDTHH:MM:SS`.
pub open spec fn iso8601_syntax(text: Seq<char>) -> bool {
    rfc3339_syntax(text) || naive_datetime_syntax(text, "%Y-%m-%dT%H:%M:%S"@)
}

/// Whether `s` has the form of a UUID.
pub fn is_uuid(s: &str) -> (r: bool)
    ensures
        r == uuid_syntax(s@),
{
    uuid_parses(s)
}

/// Whether `s` has the form of a timestamp.
pub fn is_iso8601(s: &str) -> (r: bool)
    ensures
        r == iso8601_syntax(s@),
{
    rfc3339_parses(s) || naive_datetime_parses(s, "%Y-%m-%dT%H:%M:%S")
}

} // verus!
