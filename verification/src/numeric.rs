//! Unsigned integer parsing with the grammar and error kinds of the
//! standard library's `from_str` / `from_str_radix`: an optional leading
//! `+`, then one or more digits of the radix, with a value that fits.

use vstd::prelude::*;

use crate::text::{decimal, digit_char};

verus! {

/// Why a text is not an unsigned integer.
#[derive(Debug, Clone, Copy, PartialEq, Eq)]
pub enum IntErrorKind {
    Empty,
    InvalidDigit,
    PosOverflow,
}

/// The value of `c` as a digit of `radix` (at most 10), if it is one.
pub open spec fn digit_value(c: char, radix: nat) -> Option<nat> {
    if '0' <= c && c <= '9' && (c as nat) - 48 < radix {
        Some(((c as nat) - 48) as nat)
    } else {
        None
    }
}

/// Reads the digits `d` left to right onto `acc`, stopping at the first
/// character that is no digit or at the first digit that takes the value
/// past `max`.
pub open spec fn scan_digits(d: Seq<char>, radix: nat, max: nat, acc: nat) -> Result<
    nat,
    IntErrorKind,
>
    decreases d.len(),
{
    if d.len() == 0 {
        Ok(acc)
    } else {
        match digit_value(d[0], radix) {
            None => Err(IntErrorKind::InvalidDigit),
            Some(x) => if acc * radix + x > max {
                Err(IntErrorKind::PosOverflow)
            } else {
                scan_digits(d.drop_first(), radix, max, acc * radix + x)
            },
        }
    }
}

/// The unsigned integer (at most `max`) that `s` spells in `radix`.
pub open spec fn spec_parse_uint(s: Seq<char>, radix: nat, max: nat) -> Result<nat, IntErrorKind> {
    if s.len() == 0 {
        Err(IntErrorKind::Empty)
    } else if s == seq!['+'] || s == seq!['-'] {
        Err(IntErrorKind::InvalidDigit)
    } else if s[0] == '+' {
        scan_digits(s.drop_first(), radix, max, 0)
    } else {
        scan_digits(s, radix, max, 0)
    }
}

/// The decimal `u64` that `s` spells.
pub open spec fn spec_parse_u64(s: Seq<char>) -> Result<nat, IntErrorKind> {
    spec_parse_uint(s, 10, u64::MAX as nat)
}

/// The decimal `u32` that `s` spells.
pub open spec fn spec_parse_u32(s: Seq<char>) -> Result<nat, IntErrorKind> {
    spec_parse_uint(s, 10, u32::MAX as nat)
}

proof fn lemma_scan_bounded(d: Seq<char>, radix: nat, max: nat, acc: nat)
    requires
        acc <= max,
    ensures
        scan_digits(d, radix, max, acc) matches Ok(v) ==> v <= max,
    decreases d.len(),
{
    if d.len() > 0 {
        if let Some(x) = digit_value(d[0], radix) {
            if acc * radix + x <= max {
                lemma_scan_bounded(d.drop_first(), radix, max, acc * radix + x);
            }
        }
    }
}

impl IntErrorKind {
    /// The standard library's message for this kind of error.
    pub open spec fn spec_message(self) -> Seq<char> {
        match self {
            IntErrorKind::Empty => "cannot parse integer from empty string"@,
            IntErrorKind::InvalidDigit => "invalid digit found in string"@,
            IntErrorKind::PosOverflow => "number too large to fit in target type"@,
        }
    }

    /// Renders the error as text.
    pub fn to_string(&self) -> (r: String)
        ensures
            r@ == self.spec_message(),
    {
        match self {
            IntErrorKind::Empty => "cannot parse integer from empty string".to_string(),
            IntErrorKind::InvalidDigit => "invalid digit found in string".to_string(),
            IntErrorKind::PosOverflow => "number too large to fit in target type".to_string(),
        }
    }
}

/// Parses `s` as an unsigned integer of `radix` no larger than `max`.
pub fn parse_uint(s: &[char], radix: u64, max: u64) -> (r: Result<u64, IntErrorKind>)
    requires
        2 <= radix <= 10,
    ensures
        match r {
            Ok(v) => spec_parse_uint(s@, radix as nat, max as nat) == Ok::<nat, IntErrorKind>(
                v as nat,
            ),
            Err(k) => spec_parse_uint(s@, radix as nat, max as nat) == Err::<nat, IntErrorKind>(
                k,
            ),
        },
{
    let n = s.len();
    if n == 0 {
        return Err(IntErrorKind::Empty);
    }
    if n == 1 && (s[0] == '+' || s[0] == '-') {
        assert(s@ =~= seq![s@[0]]);
        return Err(IntErrorKind::InvalidDigit);
    }
    let start: usize = if s[0] == '+' {
        1
    } else {
        0
    };
    proof {
        if s@ == seq!['+'] || s@ == seq!['-'] {
            assert(s@.len() == 1);
        }
    }
    let ghost d = s@.skip(start as int);
    assert(start == 1 ==> d =~= s@.drop_first());
    assert(start == 0 ==> d =~= s@);
    assert(spec_parse_uint(s@, radix as nat, max as nat) == scan_digits(d, radix as nat, max as nat, 0));
    let mut acc: u64 = 0;
    let mut i: usize = start;
    while i < n
        invariant
            start <= i <= n,
            n == s@.len(),
            2 <= radix <= 10,
            acc <= max,
            d == s@.skip(start as int),
            scan_digits(d, radix as nat, max as nat, 0) == scan_digits(
                s@.skip(i as int),
                radix as nat,
                max as nat,
                acc as nat,
            ),
            spec_parse_uint(s@, radix as nat, max as nat) == scan_digits(
                d,
                radix as nat,
                max as nat,
                0,
            ),
        decreases n - i,
    {
        let c = s[i];
        assert(s@.skip(i as int)[0] == c);
        assert(s@.skip(i as int).drop_first() =~= s@.skip(i + 1));
        if !('0' <= c && c <= '9' && (c as u64) - 48 < radix) {
            assert(digit_value(c, radix as nat) is None);
            assert(scan_digits(s@.skip(i as int), radix as nat, max as nat, acc as nat) == Err::<
                nat,
                IntErrorKind,
            >(IntErrorKind::InvalidDigit));
            return Err(IntErrorKind::InvalidDigit);
        }
        let x: u64 = (c as u64) - 48;
        assert(digit_value(c, radix as nat) == Some(x as nat));
        assert((acc as u128) * (radix as u128) <= 10 * (u64::MAX as u128)) by (nonlinear_arith)
            requires
                acc <= u64::MAX,
                radix <= 10,
        ;
        let next: u128 = (acc as u128) * (radix as u128) + (x as u128);
        if next > max as u128 {
            assert(scan_digits(s@.skip(i as int), radix as nat, max as nat, acc as nat) == Err::<
                nat,
                IntErrorKind,
            >(IntErrorKind::PosOverflow));
            return Err(IntErrorKind::PosOverflow);
        }
        acc = next as u64;
        i += 1;
    }
    assert(s@.skip(n as int) =~= Seq::<char>::empty());
    Ok(acc)
}

/// Parses a decimal `u64` as the standard library's `str::parse` does.
pub fn parse_u64(s: &[char]) -> (r: Result<u64, IntErrorKind>)
    ensures
        match r {
            Ok(v) => spec_parse_u64(s@) == Ok::<nat, IntErrorKind>(v as nat),
            Err(k) => spec_parse_u64(s@) == Err::<nat, IntErrorKind>(k),
        },
{
    parse_uint(s, 10, u64::MAX)
}

/// Parses a decimal `u32` as the standard library's `str::parse` does.
pub fn parse_u32(s: &[char]) -> (r: Result<u32, IntErrorKind>)
    ensures
        match r {
            Ok(v) => spec_parse_u32(s@) == Ok::<nat, IntErrorKind>(v as nat),
            Err(k) => spec_parse_u32(s@) == Err::<nat, IntErrorKind>(k),
        },
{
    match parse_uint(s, 10, u32::MAX as u64) {
        Ok(v) => {
            proof {
                lemma_parse_bounded(s@, 10, u32::MAX as nat);
            }
            Ok(v as u32)
        },
        Err(k) => Err(k),
    }
}

/// Parses an octal `u32` as the standard library's `u32::from_str_radix(_, 8)` does.
pub fn parse_u32_octal(s: &[char]) -> (r: Result<u32, IntErrorKind>)
    ensures
        match r {
            Ok(v) => spec_parse_uint(s@, 8, u32::MAX as nat) == Ok::<nat, IntErrorKind>(v as nat),
            Err(k) => spec_parse_uint(s@, 8, u32::MAX as nat) == Err::<nat, IntErrorKind>(k),
        },
{
    match parse_uint(s, 8, u32::MAX as u64) {
        Ok(v) => {
            proof {
                lemma_parse_bounded(s@, 8, u32::MAX as nat);
            }
            Ok(v as u32)
        },
        Err(k) => Err(k),
    }
}

proof fn lemma_parse_bounded(s: Seq<char>, radix: nat, max: nat)
    ensures
        spec_parse_uint(s, radix, max) matches Ok(v) ==> v <= max,
{
    if s.len() > 0 {
        if s[0] == '+' {
            lemma_scan_bounded(s.drop_first(), radix, max, 0);
        } else {
            lemma_scan_bounded(s, radix, max, 0);
        }
    }
}

} // verus!

verus! {

proof fn lemma_scan_push(s: Seq<char>, c: char, radix: nat, max: nat, acc: nat)
    ensures
        scan_digits(s, radix, max, acc) matches Ok(v) ==> scan_digits(s.push(c), radix, max, acc)
            == match digit_value(c, radix) {
            None => Err(IntErrorKind::InvalidDigit),
            Some(x) => if v * radix + x > max {
                Err(IntErrorKind::PosOverflow)
            } else {
                Ok(v * radix + x)
            },
        },
    decreases s.len(),
{
    let t = s.push(c);
    if s.len() == 0 {
        assert(t.drop_first() =~= Seq::<char>::empty());
        assert(t[0] == c);
        if let Some(x) = digit_value(c, radix) {
            assert(scan_digits(Seq::<char>::empty(), radix, max, acc * radix + x) == Ok::<
                nat,
                IntErrorKind,
            >(acc * radix + x));
        }
    } else {
        assert(t[0] == s[0]);
        assert(t.drop_first() =~= s.drop_first().push(c));
        if let Some(x) = digit_value(s[0], radix) {
            if acc * radix + x <= max {
                lemma_scan_push(s.drop_first(), c, radix, max, acc * radix + x);
            }
        }
    }
}

pub proof fn lemma_decimal_digits(n: nat)
    ensures
        decimal(n).len() >= 1,
        forall|i: int| 0 <= i < decimal(n).len() ==> '0' <= #[trigger] decimal(n)[i] <= '9',
    decreases n,
{
    if n >= 10 {
        lemma_decimal_digits(n / 10);
        let d = decimal(n / 10);
        assert forall|i: int| 0 <= i < decimal(n).len() implies '0' <= #[trigger] decimal(n)[i]
            <= '9' by {
            if i < d.len() {
                assert(decimal(n)[i] == d[i]);
            }
        }
    }
}

proof fn lemma_scan_decimal(n: nat, max: nat)
    requires
        n <= max,
    ensures
        scan_digits(decimal(n), 10, max, 0) == Ok::<nat, IntErrorKind>(n),
    decreases n,
{
    if n < 10 {
        assert(decimal(n) == seq![digit_char(n)]);
        assert(decimal(n).drop_first() =~= Seq::<char>::empty());
        assert(digit_value(digit_char(n), 10) == Some(n));
        assert(scan_digits(Seq::<char>::empty(), 10, max, n) == Ok::<nat, IntErrorKind>(n));
    } else {
        lemma_scan_decimal(n / 10, max);
        lemma_scan_push(decimal(n / 10), digit_char(n % 10), 10, max, 0);
        assert(digit_value(digit_char(n % 10), 10) == Some(n % 10));
        assert((n / 10) * 10 + n % 10 == n);
        assert(decimal(n) == decimal(n / 10).push(digit_char(n % 10)));
    }
}

/// The decimal spelling of a number reads back as that number.
pub proof fn lemma_parse_decimal(n: nat, max: nat)
    requires
        n <= max,
    ensures
        spec_parse_uint(decimal(n), 10, max) == Ok::<nat, IntErrorKind>(n),
{
    lemma_decimal_digits(n);
    lemma_scan_decimal(n, max);
    let d = decimal(n);
    assert('0' <= d[0] <= '9');
    if d == seq!['+'] || d == seq!['-'] {
        assert(d[0] == '+' || d[0] == '-');
    }
}

} // verus!
