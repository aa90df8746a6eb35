//! Durations written as a whole number followed by `ms`, `s` or `m`.

use vstd::prelude::*;

use std::time::Duration;

use crate::errors::WattchError;
use crate::numeric::{lemma_decimal_digits, lemma_parse_decimal, parse_u64, spec_parse_u64, IntErrorKind};
use crate::text::{chars_of, debug_str, decimal, push_str, str_debug};

verus! {

/// `Duration::from_millis(ms)`.
pub uninterp spec fn duration_from_millis(ms: u64) -> Duration;

/// `Duration::from_secs(secs)`.
pub uninterp spec fn duration_from_secs(secs: u64) -> Duration;

/// `Duration::from_millis`: the duration of `ms` milliseconds.
#[verifier::external_body]
fn millis(ms: u64) -> (d: Duration)
    ensures
        d == duration_from_millis(ms),
{
    Duration::from_millis(ms)
}

/// `Duration::from_secs`: the duration of `secs` seconds.
#[verifier::external_body]
fn secs(n: u64) -> (d: Duration)
    ensures
        d == duration_from_secs(n),
{
    Duration::from_secs(n)
}

/// The unit a duration's suffix names.
#[derive(Debug, Clone, Copy, PartialEq, Eq)]
pub enum DurationUnit {
    Millis,
    Secs,
    Minutes,
}

/// How a duration text reads.
pub enum DurationReading {
    /// The text is empty.
    Empty,
    /// The text ends in none of `ms`, `s`, `m`.
    NoSuffix,
    /// Nothing stands before the suffix.
    MissingNumber,
    /// What stands before the suffix is no `u64`.
    BadNumber(IntErrorKind),
    /// A count of the unit.
    Count(u64, DurationUnit),
}

/// How the number before a suffix of `unit` reads.
pub open spec fn read_count(number: Seq<char>, unit: DurationUnit) -> DurationReading {
    if number.len() == 0 {
        DurationReading::MissingNumber
    } else {
        match spec_parse_u64(number) {
            Ok(n) => DurationReading::Count(n as u64, unit),
            Err(k) => DurationReading::BadNumber(k),
        }
    }
}

/// How the text `v` reads: the suffix `ms` is tried before `s`, then `m`.
pub open spec fn read_duration(v: Seq<char>) -> DurationReading {
    if v.len() == 0 {
        DurationReading::Empty
    } else if v.len() >= 2 && v[v.len() - 2] == 'm' && v[v.len() - 1] == 's' {
        read_count(v.take(v.len() - 2), DurationUnit::Millis)
    } else if v.last() == 's' {
        read_count(v.drop_last(), DurationUnit::Secs)
    } else if v.last() == 'm' {
        read_count(v.drop_last(), DurationUnit::Minutes)
    } else {
        DurationReading::NoSuffix
    }
}

/// Whether a count of minutes in `v` has more seconds than a `u64` holds.
pub open spec fn minutes_overflow(v: Seq<char>) -> bool {
    read_duration(v) matches DurationReading::Count(n, DurationUnit::Minutes) && n * 60 > u64::MAX
}

/// The message of the error that `parse_duration` gives for `v`, if any.
pub open spec fn duration_error_message(v: Seq<char>) -> Option<Seq<char>> {
    match read_duration(v) {
        DurationReading::Empty => Some("duration must not be empty"@),
        DurationReading::NoSuffix => Some(
            "invalid duration "@ + debug_str(v) + ": expected suffix ms, s, or m"@,
        ),
        DurationReading::MissingNumber => Some(
            "invalid duration "@ + debug_str(v) + ": missing number"@,
        ),
        DurationReading::BadNumber(k) => Some(
            "invalid duration "@ + debug_str(v) + ": "@ + k.spec_message(),
        ),
        DurationReading::Count(..) => None,
    }
}

/// The duration that `v` denotes, if it denotes one.
pub open spec fn spec_duration(v: Seq<char>) -> Option<Duration> {
    match read_duration(v) {
        DurationReading::Count(n, DurationUnit::Millis) => Some(duration_from_millis(n)),
        DurationReading::Count(n, DurationUnit::Secs) => Some(duration_from_secs(n)),
        DurationReading::Count(n, DurationUnit::Minutes) => Some(
            duration_from_secs((n * 60) as u64),
        ),
        _ => None,
    }
}

/// Whether `r` is what parsing `v` gives: the duration it denotes, or a
/// bad-request error with the message for `v`.
pub open spec fn is_duration_result(v: Seq<char>, r: Result<Duration, WattchError>) -> bool {
    &&& spec_duration(v) matches Some(d) ==> r == Ok::<Duration, WattchError>(d)
    &&& duration_error_message(v) matches Some(m) ==> (r matches Err(WattchError::BadRequest(e))
        && e@ == m)
}

/// Every text either denotes a duration or has an error message, never
/// both.
pub proof fn lemma_duration_outcome_total(v: Seq<char>)
    ensures
        spec_duration(v) is Some <==> duration_error_message(v) is None,
{
}

/// Parses `100ms`, `5s` or `2m`.
pub fn parse_duration(value: &str) -> (r: Result<Duration, WattchError>)
    requires
        !minutes_overflow(value@),
    ensures
        is_duration_result(value@, r),
{
    let v = chars_of(value);
    let n = v.len();
    if n == 0 {
        return Err(WattchError::BadRequest("duration must not be empty".to_string()));
    }
    if n >= 2 && v[n - 2] == 'm' && v[n - 1] == 's' {
        let number = vstd::slice::slice_subrange(v.as_slice(), 0, n - 2);
        assert(number@ == value@.take(n - 2));
        return match parse_number(number, value) {
            Ok(count) => Ok(millis(count)),
            Err(e) => Err(e),
        };
    }
    if v[n - 1] == 's' {
        let number = vstd::slice::slice_subrange(v.as_slice(), 0, n - 1);
        assert(number@ == value@.drop_last());
        return match parse_number(number, value) {
            Ok(count) => Ok(secs(count)),
            Err(e) => Err(e),
        };
    }
    if v[n - 1] == 'm' {
        let number = vstd::slice::slice_subrange(v.as_slice(), 0, n - 1);
        assert(number@ == value@.drop_last());
        return match parse_number(number, value) {
            Ok(minutes) => Ok(secs(minutes * 60)),
            Err(e) => Err(e),
        };
    }
    let mut message = "invalid duration ".to_string();
    let shown = str_debug(value);
    push_str(&mut message, shown.as_str());
    push_str(&mut message, ": expected suffix ms, s, or m");
    Err(WattchError::BadRequest(message))
}

/// Parses the count before a duration's suffix; `original` is the whole
/// duration text, for the message.
fn parse_number(number: &[char], original: &str) -> (r: Result<u64, WattchError>)
    ensures
        number@.len() == 0 ==> (r matches Err(WattchError::BadRequest(e)) && e@
            == "invalid duration "@ + debug_str(original@) + ": missing number"@),
        number@.len() > 0 ==> match spec_parse_u64(number@) {
            Ok(n) => r == Ok::<u64, WattchError>(n as u64),
            Err(k) => r matches Err(WattchError::BadRequest(e)) && e@ == "invalid duration "@
                + debug_str(original@) + ": "@ + k.spec_message(),
        },
{
    if number.len() == 0 {
        let mut message = "invalid duration ".to_string();
        let shown = str_debug(original);
        push_str(&mut message, shown.as_str());
        push_str(&mut message, ": missing number");
        return Err(WattchError::BadRequest(message));
    }
    match parse_u64(number) {
        Ok(n) => Ok(n),
        Err(k) => {
            let mut message = "invalid duration ".to_string();
            let shown = str_debug(original);
            push_str(&mut message, shown.as_str());
            push_str(&mut message, ": ");
            let reason = k.to_string();
            push_str(&mut message, reason.as_str());
            Err(WattchError::BadRequest(message))
        },
    }
}

} // verus!

verus! {

/// A whole number followed by `ms`, `s` or `m` reads as that many
/// milliseconds, seconds or minutes.
pub proof fn lemma_duration_units(n: u64)
    ensures
        spec_duration(decimal(n as nat) + "ms"@) == Some(duration_from_millis(n)),
        spec_duration(decimal(n as nat) + "s"@) == Some(duration_from_secs(n)),
        n * 60 <= u64::MAX ==> spec_duration(decimal(n as nat) + "m"@) == Some(
            duration_from_secs((n * 60) as u64),
        ),
{
    reveal_strlit("ms");
    reveal_strlit("s");
    reveal_strlit("m");
    lemma_parse_decimal(n as nat, u64::MAX as nat);
    lemma_decimal_digits(n as nat);
    let d = decimal(n as nat);
    let ms = d + "ms"@;
    assert(ms.take(ms.len() - 2) =~= d);
    assert(ms[ms.len() - 2] == 'm' && ms[ms.len() - 1] == 's');
    let s = d + "s"@;
    assert(s.drop_last() =~= d);
    assert(s[s.len() - 2] == d[d.len() - 1]);
    let m = d + "m"@;
    assert(m.drop_last() =~= d);
    assert(m[m.len() - 1] == 'm');
}

} // verus!
