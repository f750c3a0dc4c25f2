//! Message timestamps.
use crate::decimal::{decimal, law_decimal_reads_back, lemma_decimal_digits, parse_u64, parsed_u64};
use crate::json::{number_as_u64, Json, JsonValue, Number};
use crate::relation::{blank, pads};
use crate::text::{
    law_trimming_keeps_solid_text, law_trimming_takes_only_white_space, lemma_trimmed_fixed, trim,
    trimmed,
};
use vstd::prelude::*;

verus! {

/// The timestamp that a payload reports: a number, or a string that writes one.
pub open spec fn reported(value: Option<Json>) -> Option<u64> {
    match value {
        Some(Json::Number(n)) => number_as_u64(n),
        Some(Json::Text(s)) => parsed_u64(trimmed(s)),
        _ => None,
    }
}

/// `raw` in seconds: a value above 10^12 is taken as milliseconds.
pub open spec fn in_seconds(raw: u64) -> u64 {
    if raw > 1_000_000_000_000 {
        raw / 1000
    } else {
        raw
    }
}

/// The timestamp of a message, in seconds: the reported one, else `now`.
pub open spec fn timestamp_seconds(raw: Option<u64>, now: u64) -> u64 {
    in_seconds(
        match raw {
            Some(raw) => raw,
            None => now,
        },
    )
}

/// The timestamp that a payload reports: a number, or a string that writes one.
pub fn reported_timestamp(value: Option<&JsonValue>) -> (raw: Option<u64>)
    ensures
        raw == reported(
            match value {
                Some(value) => Some(value@),
                None => None,
            },
        ),
{
    match value {
        Some(JsonValue::Number(n)) => n.as_u64(),
        Some(JsonValue::String(s)) => parse_u64(trim(s.as_str())),
        _ => None,
    }
}

/// The timestamp of a message, in seconds: the reported one, else `now`. A value above
/// 10^12 is taken as milliseconds.
pub fn timestamp_secs(raw: Option<u64>, now: u64) -> (seconds: u64)
    ensures
        seconds == timestamp_seconds(raw, now),
{
    let raw: u64 = match raw {
        Some(raw) => raw,
        None => now,
    };
    if raw > 1_000_000_000_000 {
        raw / 1000
    } else {
        raw
    }
}

/// A time reported in milliseconds counts the same as reported in seconds, where it is
/// above 10^12 milliseconds and no more than 10^12 seconds.
pub proof fn law_milliseconds_become_seconds(seconds: u64, milliseconds: u64, now: u64)
    requires
        1_000_000_000_000 < milliseconds,
        seconds <= 1_000_000_000_000,
        seconds == milliseconds / 1000,
    ensures
        timestamp_seconds(Some(milliseconds), now) == timestamp_seconds(Some(seconds), now),
        timestamp_seconds(Some(seconds), now) == seconds,
{
}

/// A timestamp reads the same as a number and as a string that writes this number.
pub proof fn law_text_timestamps_read_like_numbers(n: u64)
    ensures
        reported(Some(Json::Text(decimal(n as nat)))) == Some(n),
        reported(Some(Json::Number(Number::Integer(n as int)))) == Some(n),
{
    law_decimal_reads_back(n);
    let s = decimal(n as nat);
    lemma_trimmed_fixed(s);
    lemma_decimal_digits(n as nat);
    assert('0' <= s[0] <= '9');
    assert('0' <= s[s.len() - 1] <= '9');
}

/// A time of up to 10^12 stands as it is; one above is counted down to whole seconds from
/// milliseconds. It is the reported time wherever one is reported, and the clock's time
/// wherever none is.
pub proof fn law_seconds(raw: u64, now: u64, other: u64)
    ensures
        raw <= 1_000_000_000_000 ==> timestamp_seconds(Some(raw), now) == raw,
        raw > 1_000_000_000_000 ==> 1000 * timestamp_seconds(Some(raw), now) <= raw < 1000 * (
        timestamp_seconds(Some(raw), now) + 1),
        timestamp_seconds(Some(raw), now) == timestamp_seconds(Some(raw), other),
        timestamp_seconds(None, now) == timestamp_seconds(Some(now), other),
{
}

/// What a payload reports as the time: a whole number from 0 up that fits, as it is, or text
/// that writes one, with white space around it or none; nothing else.
pub proof fn law_reported_time(value: Json, text: Seq<char>, inner: Seq<char>, n: int)
    requires
        pads(text, inner),
    ensures
        reported(Some(Json::Number(Number::Integer(n)))) == (if 0 <= n <= u64::MAX {
            Some(n as u64)
        } else {
            None
        }),
        reported(Some(Json::Number(Number::Float(text)))) is None,
        reported(Some(Json::Text(text))) == parsed_u64(inner),
        forall|empty: Seq<char>| #[trigger]
            blank(empty) ==> reported(Some(Json::Text(empty))) is None,
        reported(Some(value)) is Some ==> value is Number || value is Text,
        reported(None) is None,
{
    law_trimming_keeps_solid_text(text, inner);
    assert forall|empty: Seq<char>| #[trigger] blank(empty) implies reported(
        Some(Json::Text(empty)),
    ) is None by {
        law_trimming_takes_only_white_space(empty);
    }
}

} // verus!
