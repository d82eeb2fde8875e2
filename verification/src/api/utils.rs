//! Coercions for the fields that the remote API writes in its own way: dates
//! in a format of its own, booleans as text or as a number, and absent values
//! as an empty string or as zero.

use crate::api::models::Timestamp;
use crate::text::same_text;
use vstd::prelude::*;

verus! {

/// A scalar as it stands in a payload.
#[derive(Debug, Clone, PartialEq, Eq)]
pub enum Scalar {
    Text(String),
    Number(u64),
}

/// Why a field could not be coerced. Each variant carries the offending
/// input.
#[derive(Debug, Clone, PartialEq, Eq)]
pub enum FieldError {
    /// The text is no date in the format of the remote API.
    Date(String),
    /// The text is neither `true` nor `false`.
    BoolText(String),
    /// The number is neither `0` nor `1`.
    BoolNumber(u64),
    /// The number does not fit in 32 bits.
    Width(u64),
}

/// The instant that `text` denotes when read by the `strftime`-style
/// `format`, as `chrono` parses it: seconds since the Unix epoch and the
/// nanoseconds within the second. `None` where `text` does not match.
pub uninterp spec fn parsed_instant(text: Seq<char>, format: Seq<char>) -> Option<(i64, u32)>;

/// `chrono::DateTime::parse_from_str`, reduced to the instant by
/// `DateTime::timestamp` and `DateTime::timestamp_subsec_nanos`. The text
/// must carry its own offset from UTC, so the result depends on the two
/// arguments alone.
#[verifier::external_body]
fn parse_instant(text: &str, format: &str) -> (instant: Option<(i64, u32)>)
    ensures
        instant == parsed_instant(text@, format@),
{
    match chrono::DateTime::parse_from_str(text, format) {
        Ok(parsed) => Some((parsed.timestamp(), parsed.timestamp_subsec_nanos())),
        Err(_) => None,
    }
}

/// The format in which the remote API writes dates, for example
/// `Sat Nov 23 11:30:03 -0600 2024`.
pub open spec fn api_date_format() -> Seq<char> {
    "%a %b %d %T %z %Y"@
}

/// Turns the outcome of parsing a date field into the field's value: the
/// instant where there is one, and otherwise an error that carries the text.
pub fn date_from_instant(text: &str, instant: Option<(i64, u32)>) -> (date: Result<
    Timestamp,
    FieldError,
>)
    ensures
        match instant {
            Some((secs, nanos)) => date == Ok::<Timestamp, FieldError>(Timestamp { secs, nanos }),
            None => date matches Err(FieldError::Date(t)) && t@ == text@,
        },
{
    match instant {
        Some((secs, nanos)) => Ok(Timestamp { secs, nanos }),
        None => Err(FieldError::Date(String::from_str(text))),
    }
}

/// Reads a date in the format of the remote API.
pub fn api_date(v: &str) -> (date: Result<Timestamp, FieldError>)
    ensures
        match parsed_instant(v@, api_date_format()) {
            Some((secs, nanos)) => date == Ok::<Timestamp, FieldError>(Timestamp { secs, nanos }),
            None => date matches Err(FieldError::Date(t)) && t@ == v@,
        },
{
    date_from_instant(v, parse_instant(v, "%a %b %d %T %z %Y"))
}

/// Reads a boolean that is written as the text `true` or `false`, or as the
/// number `1` or `0`.
pub fn api_bool(v: &Scalar) -> (flag: Result<bool, FieldError>)
    ensures
        match *v {
            Scalar::Text(text) => if text@ == "true"@ {
                flag == Ok::<bool, FieldError>(true)
            } else if text@ == "false"@ {
                flag == Ok::<bool, FieldError>(false)
            } else {
                flag matches Err(FieldError::BoolText(t)) && t@ == text@
            },
            Scalar::Number(number) => if number == 0 {
                flag == Ok::<bool, FieldError>(false)
            } else if number == 1 {
                flag == Ok::<bool, FieldError>(true)
            } else {
                flag == Err::<bool, FieldError>(FieldError::BoolNumber(number))
            },
        },
{
    match v {
        Scalar::Text(text) => {
            if same_text(text.as_str(), "true") {
                Ok(true)
            } else if same_text(text.as_str(), "false") {
                Ok(false)
            } else {
                Err(FieldError::BoolText(text.clone()))
            }
        },
        Scalar::Number(number) => {
            if *number == 0 {
                Ok(false)
            } else if *number == 1 {
                Ok(true)
            } else {
                Err(FieldError::BoolNumber(*number))
            }
        },
    }
}

/// Reads a text field in which the empty string stands for "absent".
pub fn api_option_str(v: &str) -> (text: Option<String>)
    ensures
        v@.len() == 0 ==> text is None,
        v@.len() != 0 ==> (text matches Some(t) && t@ == v@),
{
    if v.is_empty() {
        None
    } else {
        Some(String::from_str(v))
    }
}

/// Reads a number field in which zero stands for "absent".
pub fn api_option_u64(v: u64) -> (number: Option<u64>)
    ensures
        number == if v == 0 {
            None
        } else {
            Some(v)
        },
{
    if v == 0 {
        None
    } else {
        Some(v)
    }
}

/// Reads a 32-bit number field in which zero stands for "absent".
pub fn api_option_u32(v: u64) -> (number: Result<Option<u32>, FieldError>)
    ensures
        number == if v == 0 {
            Ok::<Option<u32>, FieldError>(None)
        } else if v <= u32::MAX {
            Ok::<Option<u32>, FieldError>(Some(v as u32))
        } else {
            Err::<Option<u32>, FieldError>(FieldError::Width(v))
        },
{
    if v == 0 {
        Ok(None)
    } else if v <= 0xffff_ffff {
        Ok(Some(v as u32))
    } else {
        Err(FieldError::Width(v))
    }
}

} // verus!
