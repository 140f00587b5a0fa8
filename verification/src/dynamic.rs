//! Fresh values for the reserved names: each call makes a new one.

use vstd::prelude::*;
use crate::checks::{rfc3339_syntax, uuid_syntax};
use crate::template::DynamicToken;
use crate::text::{decimal_chars, decimal_text, is_digit, string_of};

verus! {
/// Whether `c` is a hexadecimal digit in lower case.
pub open spec fn is_lower_hex(c: char) -> bool {
    is_digit(c) || 'a' as int <= c as int <= 'f' as int
}

/// Whether a text has the hyphenated form of a UUID: 36 characters, a
/// hyphen behind the 8th, 12th, 16th and 20th of its 32 hexadecimal digits,
/// which are in lower case.
pub open spec fn is_hyphenated_uuid(text: Seq<char>) -> bool {
    &&& text.len() == 36
    &&& forall|i: int|
        0 <= i < 36 ==> if i == 8 || i == 13 || i == 18 || i == 23 {
            text[i] == '-'
        } else {
            is_lower_hex(#[trigger] text[i])
        }
}

/// Whether a text has the form of a date: four digits of the year, two of
/// the month and two of the day, with a hyphen between them.
pub open spec fn is_date_shape(text: Seq<char>) -> bool {
    &&& text.len() == 10
    &&& forall|i: int|
        0 <= i < 10 ==> if i == 4 || i == 7 {
            text[i] == '-'
        } else {
            is_digit(#[trigger] text[i])
        }
}

/// The last second of the year 9999, counted from the Unix epoch: up to
/// it, a year is written with four digits.
pub open spec fn last_four_digit_second() -> nat {
    253_402_300_799
}

/// The text that `format` of `chrono::DateTime` writes, as year, month and
/// day, for the time that `chrono::DateTime::from_timestamp` makes of the
/// seconds and nanoseconds since the Unix epoch.
pub uninterp spec fn utc_date_text(seconds: nat, nanos: nat) -> Seq<char>;

/// The text that `to_rfc3339` of `chrono::DateTime` writes for the time
/// that `chrono::DateTime::from_timestamp` makes of the seconds and
/// nanoseconds since the Unix epoch.
pub uninterp spec fn utc_datetime_text(seconds: nat, nanos: nat) -> Seq<char>;

/// `uuid::Uuid::new_v4`, written by the `Display` of `uuid::Uuid`: a random
/// UUID in the hyphenated form with digits in lower case, which
/// `uuid::Uuid::parse_str` accepts.
#[verifier::external_body]
fn fresh_uuid() -> (r: String)
    ensures
        uuid_syntax(r@),
        is_hyphenated_uuid(r@),
{
    uuid::Uuid::new_v4().to_string()
}

/// The seconds, and the nanoseconds of the second, that
/// `std::time::SystemTime::now` lies behind the Unix epoch, by
/// `duration_since`, `as_secs` and `subsec_nanos`; zero for a clock that
/// stands before it.
#[verifier::external_body]
fn clock_reading() -> (r: (u64, u32))
{
    let since = std::time::SystemTime::now().duration_since(std::time::UNIX_EPOCH);
    let elapsed = since.unwrap_or_default();
    (elapsed.as_secs(), elapsed.subsec_nanos())
}

/// `chrono::DateTime::from_timestamp` on the seconds as a signed number,
/// written by `format` as year, month and day; the epoch itself where the
/// seconds or the nanoseconds are out of range. Up to the year 9999 the text
/// has the form of a date.
#[verifier::external_body]
fn date_of(seconds: u64, nanos: u32) -> (r: String)
    ensures
        r@ == utc_date_text(seconds as nat, nanos as nat),
        seconds <= last_four_digit_second() ==> is_date_shape(r@),
{
    let time = chrono::DateTime::from_timestamp(seconds as i64, nanos).unwrap_or_default();
    time.format("%Y-%m-%d").to_string()
}

/// `chrono::DateTime::from_timestamp` on the seconds as a signed number,
/// written by `to_rfc3339`; the epoch itself where the seconds or the
/// nanoseconds are out of range. Up to the year 9999
/// `chrono::DateTime::parse_from_rfc3339` accepts the text.
#[verifier::external_body]
fn datetime_of(seconds: u64, nanos: u32) -> (r: String)
    ensures
        r@ == utc_datetime_text(seconds as nat, nanos as nat),
        seconds <= last_four_digit_second() ==> rfc3339_syntax(r@),
{
    chrono::DateTime::from_timestamp(seconds as i64, nanos).unwrap_or_default().to_rfc3339()
}

/// The nanoseconds that `std::time::SystemTime::now` lies behind the Unix
/// epoch; zero for a clock that stands before it.
#[verifier::external_body]
fn nanos_since_epoch() -> (r: u128)
{
    std::time::SystemTime::now().duration_since(std::time::UNIX_EPOCH).unwrap_or_default().as_nanos()
}

/// A number below one million, taken from the clock.
pub fn rand_number() -> (r: u32)
    ensures
        r < 1_000_000,
{
    number_of(nanos_since_epoch())
}

/// The number that a reading of the clock in nanoseconds gives: what is
/// left of it below one million.
pub fn number_of(nanos: u128) -> (r: u32)
    ensures
        r == nanos % 1_000_000,
{
    (nanos % 1_000_000) as u32
}

/// The value that a reading of the clock gives for a reserved name that
/// stands for a time: the seconds in decimal for a timestamp, and the date
/// and the date and time in UTC as `chrono` writes them.
pub open spec fn timed_text(token: DynamicToken, seconds: nat, nanos: nat) -> Seq<char> {
    match token {
        DynamicToken::Date => utc_date_text(seconds, nanos),
        DynamicToken::Datetime => utc_datetime_text(seconds, nanos),
        _ => decimal_text(seconds),
    }
}

/// What is known of a fresh value for a reserved name. A UUID has the
/// hyphenated form, which `is_uuid` accepts. A random number is below one
/// million, in decimal. A timestamp, a date and a date and time are what
/// some reading of the clock gives; up to the year 9999 the date has the
/// form of a date, and `is_iso8601` accepts the date and time.
pub open spec fn is_fresh_value(token: DynamicToken, text: Seq<char>) -> bool {
    match token {
        DynamicToken::Uuid => uuid_syntax(text) && is_hyphenated_uuid(text),
        DynamicToken::Random => exists|n: nat| n < 1_000_000 && text == #[trigger] decimal_text(n),
        DynamicToken::Timestamp => exists|seconds: nat|
            seconds <= u64::MAX && text == #[trigger] decimal_text(seconds),
        DynamicToken::Date => exists|seconds: nat, nanos: nat|
            text == #[trigger] utc_date_text(seconds, nanos) && (seconds
                <= last_four_digit_second() ==> is_date_shape(text)),
        DynamicToken::Datetime => exists|seconds: nat, nanos: nat|
            text == #[trigger] utc_datetime_text(seconds, nanos) && (seconds
                <= last_four_digit_second() ==> rfc3339_syntax(text)),
    }
}

/// The value for a reserved name that stands for a time, at a reading of
/// the clock in seconds and nanoseconds since the Unix epoch.
pub fn timed_value(token: DynamicToken, seconds: u64, nanos: u32) -> (r: String)
    ensures
        r@ == timed_text(token, seconds as nat, nanos as nat),
        token is Timestamp || token is Date || token is Datetime ==> is_fresh_value(token, r@),
{
    match token {
        DynamicToken::Date => date_of(seconds, nanos),
        DynamicToken::Datetime => datetime_of(seconds, nanos),
        _ => string_of(&decimal_chars(seconds)),
    }
}

/// A fresh value for a reserved name.
pub fn generate(token: DynamicToken) -> (r: String)
    ensures
        is_fresh_value(token, r@),
{
    match token {
        DynamicToken::Uuid => fresh_uuid(),
        DynamicToken::Random => {
            let n = rand_number();
            let r = string_of(&decimal_chars(n as u64));
            r
        },
        _ => {
            let reading = clock_reading();
            timed_value(token, reading.0, reading.1)
        },
    }
}

/// Each text is a fresh value for the token at its position.
pub open spec fn are_fresh_values(tokens: Seq<DynamicToken>, texts: Seq<Seq<char>>) -> bool {
    &&& texts.len() == tokens.len()
    &&& forall|i: int| 0 <= i < tokens.len() ==> is_fresh_value(tokens[i], #[trigger] texts[i])
}

} // verus!
