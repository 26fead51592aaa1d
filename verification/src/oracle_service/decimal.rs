use vstd::prelude::*;

verus! {

/// Why a string is not a decimal `i64`; the kinds and messages of Rust's
/// integer parsing.
#[derive(Debug, Clone, Copy, PartialEq, Eq, Structural)]
pub enum IntParseError {
    /// The string is empty.
    Empty,
    /// A character that is not a decimal digit (a lone sign counts too).
    InvalidDigit,
    /// The number is larger than `i64::MAX`.
    PosOverflow,
    /// The number is smaller than `i64::MIN`.
    NegOverflow,
}

pub open spec fn int_parse_message(e: IntParseError) -> Seq<char> {
    match e {
        IntParseError::Empty => "cannot parse integer from empty string"@,
        IntParseError::InvalidDigit => "invalid digit found in string"@,
        IntParseError::PosOverflow => "number too large to fit in target type"@,
        IntParseError::NegOverflow => "number too small to fit in target type"@,
    }
}

impl IntParseError {
    /// The error's message.
    pub fn message(&self) -> (r: String)
        ensures
            r@ == int_parse_message(*self),
    {
        match self {
            IntParseError::Empty => String::from_str("cannot parse integer from empty string"),
            IntParseError::InvalidDigit => String::from_str("invalid digit found in string"),
            IntParseError::PosOverflow => String::from_str("number too large to fit in target type"),
            IntParseError::NegOverflow => String::from_str("number too small to fit in target type"),
        }
    }
}

pub open spec fn is_digit(c: char) -> bool {
    '0' <= c <= '9'
}

pub open spec fn digit_value(c: char) -> int {
    c as int - '0' as int
}

/// Largest magnitude allowed: `i64::MAX`, or `-(i64::MIN)` for a negative
/// number.
pub open spec fn magnitude_bound(negative: bool) -> int {
    if negative { i64::MAX as int + 1 } else { i64::MAX as int }
}

/// Scan `digits` left to right: the first character that is not a digit,
/// or the first prefix whose value exceeds the bound, decides the error;
/// otherwise the digits' value.
pub open spec fn scan_digits(digits: Seq<char>, negative: bool) -> Result<int, IntParseError>
    decreases digits.len(),
{
    if digits.len() == 0 {
        Ok(0)
    } else {
        match scan_digits(digits.drop_last(), negative) {
            Err(e) => Err(e),
            Ok(v) => {
                let c = digits.last();
                if !is_digit(c) {
                    Err(IntParseError::InvalidDigit)
                } else if v * 10 + digit_value(c) > magnitude_bound(negative) {
                    if negative { Err(IntParseError::NegOverflow) } else { Err(IntParseError::PosOverflow) }
                } else {
                    Ok(v * 10 + digit_value(c))
                }
            },
        }
    }
}

/// `s` read as a decimal `i64`: an optional `+` or `-` followed by at least
/// one digit.
pub open spec fn parse_i64_spec(s: Seq<char>) -> Result<i64, IntParseError> {
    if s.len() == 0 {
        Err(IntParseError::Empty)
    } else if (s[0] == '+' || s[0] == '-') && s.len() == 1 {
        Err(IntParseError::InvalidDigit)
    } else {
        let negative = s[0] == '-';
        let digits = if s[0] == '+' || s[0] == '-' { s.drop_first() } else { s };
        match scan_digits(digits, negative) {
            Err(e) => Err(e),
            Ok(v) => Ok((if negative { -v } else { v }) as i64),
        }
    }
}

/// Read `s` as a decimal `i64`, as Rust's `str::parse::<i64>` does.
pub fn parse_i64(s: &str) -> (r: Result<i64, IntParseError>)
    ensures
        r == parse_i64_spec(s@),
{
    let n = s.unicode_len();
    if n == 0 {
        return Err(IntParseError::Empty);
    }
    let first = s.get_char(0);
    if (first == '+' || first == '-') && n == 1 {
        return Err(IntParseError::InvalidDigit);
    }
    let negative = first == '-';
    let start: usize = if first == '+' || first == '-' { 1 } else { 0 };
    let ghost digits = if first == '+' || first == '-' { s@.drop_first() } else { s@ };
    let bound: u128 = if negative { 9223372036854775808u128 } else { 9223372036854775807u128 };
    let mut v: u128 = 0;
    let mut i: usize = start;
    assert(digits =~= s@.subrange(start as int, n as int));
    assert(digits.take(0) =~= Seq::<char>::empty());
    while i < n
        invariant
            n == s@.len(),
            n > 0,
            first == s@[0],
            !((first == '+' || first == '-') && n == 1),
            negative == (first == '-'),
            digits == (if first == '+' || first == '-' { s@.drop_first() } else { s@ }),
            start <= i <= n,
            start == 0 || start == 1,
            digits == s@.subrange(start as int, n as int),
            bound == magnitude_bound(negative),
            scan_digits(digits.take(i - start), negative) == Ok::<int, IntParseError>(v as int),
            v <= bound,
        decreases n - i,
    {
        let c = s.get_char(i);
        let ghost pre = digits.take(i - start);
        assert(digits.take(i + 1 - start).drop_last() =~= pre);
        assert(digits.take(i + 1 - start).last() == c);
        if !('0' <= c && c <= '9') {
            proof {
                lemma_scan_prefix_err(digits, (i + 1 - start) as int, negative);
            }
            return Err(IntParseError::InvalidDigit);
        }
        let d: u128 = (c as u32 - '0' as u32) as u128;
        let next: u128 = v * 10 + d;
        if next > bound {
            proof {
                lemma_scan_prefix_err(digits, (i + 1 - start) as int, negative);
            }
            if negative {
                return Err(IntParseError::NegOverflow);
            } else {
                return Err(IntParseError::PosOverflow);
            }
        }
        v = next;
        i = i + 1;
    }
    assert(digits.take(i - start) =~= digits);
    if negative {
        if v == 9223372036854775808u128 {
            Ok(i64::MIN)
        } else {
            let m: i64 = v as i64;
            Ok(-m)
        }
    } else {
        Ok(v as i64)
    }
}

/// Once a prefix of the digits fails to scan, the whole fails the same way.
proof fn lemma_scan_prefix_err(digits: Seq<char>, k: int, negative: bool)
    requires
        0 <= k <= digits.len(),
        scan_digits(digits.take(k), negative) is Err,
    ensures
        scan_digits(digits, negative) == scan_digits(digits.take(k), negative),
    decreases digits.len() - k,
{
    if k < digits.len() {
        assert(digits.take(k + 1).drop_last() =~= digits.take(k));
        lemma_scan_prefix_err(digits, k + 1, negative);
    } else {
        assert(digits.take(k) =~= digits);
    }
}

} // verus!
