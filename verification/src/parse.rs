//! Decimal numerals, as the values of numeric options are written: an
//! optional sign, then one or more digits.

use vstd::prelude::*;
use vstd::string::StringSliceAdditionalSpecFns;

verus! {

/// The byte `+`.
pub const PLUS: u8 = 0x2b;

/// The byte `-`.
pub const MINUS: u8 = 0x2d;

/// The byte `0`.
pub const ZERO: u8 = 0x30;

/// The byte `9`.
pub const NINE: u8 = 0x39;

/// Whether the byte is a decimal digit.
pub open spec fn is_digit(b: u8) -> bool {
    ZERO <= b <= NINE
}

/// The value of a decimal digit; zero for any other byte.
pub open spec fn digit_value(b: u8) -> nat {
    if is_digit(b) {
        (b - ZERO) as nat
    } else {
        0
    }
}

/// Whether every byte is a decimal digit.
pub open spec fn all_digits(s: Seq<u8>) -> bool {
    forall|i: int| 0 <= i < s.len() ==> is_digit(#[trigger] s[i])
}

/// The number that a row of decimal digits denotes, the first digit weighing
/// most.
pub open spec fn digits_value(s: Seq<u8>) -> nat
    decreases s.len(),
{
    if s.len() == 0 {
        0
    } else {
        10 * digits_value(s.drop_last()) + digit_value(s.last())
    }
}

/// The number that the numeral `s` denotes, where `s` is an optional `+`
/// followed by one or more digits and the number is at most `max`; else
/// `None`.
pub open spec fn spec_parse_unsigned(s: Seq<u8>, max: int) -> Option<int> {
    let signed = s.len() > 0 && s[0] == PLUS;
    let digits = if signed {
        s.subrange(1, s.len() as int)
    } else {
        s
    };
    if digits.len() > 0 && all_digits(digits) && digits_value(digits) <= max {
        Some(digits_value(digits) as int)
    } else {
        None
    }
}

/// The number that the numeral `s` denotes, where `s` is an optional `+` or
/// `-` followed by one or more digits and the number lies between `min` and
/// `max`; else `None`.
pub open spec fn spec_parse_signed(s: Seq<u8>, min: int, max: int) -> Option<int> {
    let negative = s.len() > 0 && s[0] == MINUS;
    let signed = s.len() > 0 && (s[0] == PLUS || s[0] == MINUS);
    let digits = if signed {
        s.subrange(1, s.len() as int)
    } else {
        s
    };
    let value = if negative {
        -(digits_value(digits) as int)
    } else {
        digits_value(digits) as int
    };
    if digits.len() > 0 && all_digits(digits) && min <= value <= max {
        Some(value)
    } else {
        None
    }
}

/// One more digit at the end multiplies the value by ten and adds the digit.
proof fn lemma_value_step(s: Seq<u8>, from: int, to: int)
    requires
        0 <= from <= to < s.len(),
    ensures
        digits_value(s.subrange(from, to + 1)) == 10 * digits_value(s.subrange(from, to))
            + digit_value(s[to]),
{
    assert(s.subrange(from, to + 1).drop_last() =~= s.subrange(from, to));
}

/// A longer row of digits denotes no smaller number than its beginning.
proof fn lemma_value_grows(s: Seq<u8>, from: int, mid: int, to: int)
    requires
        0 <= from <= mid <= to <= s.len(),
    ensures
        digits_value(s.subrange(from, mid)) <= digits_value(s.subrange(from, to)),
    decreases to - mid,
{
    if mid < to {
        lemma_value_grows(s, from, mid, to - 1);
        lemma_value_step(s, from, to - 1);
    }
}

/// The number that the digits from place `from` to the end denote, where
/// there is at least one, all are digits, and the number is at most `max`.
fn parse_digits(bytes: &[u8], from: usize, max: u64) -> (r: Option<u64>)
    requires
        from <= bytes@.len(),
    ensures
        r.is_some() == ({
            let digits = bytes@.subrange(from as int, bytes@.len() as int);
            digits.len() > 0 && all_digits(digits) && digits_value(digits) <= max
        }),
        r matches Some(v) ==> v == digits_value(
            bytes@.subrange(from as int, bytes@.len() as int),
        ),
{
    let ghost digits = bytes@.subrange(from as int, bytes@.len() as int);
    if from >= bytes.len() {
        return None;
    }
    let mut value: u64 = 0;
    let mut i: usize = from;
    while i < bytes.len()
        invariant
            from <= i <= bytes@.len(),
            digits == bytes@.subrange(from as int, bytes@.len() as int),
            all_digits(bytes@.subrange(from as int, i as int)),
            value == digits_value(bytes@.subrange(from as int, i as int)),
            value <= max,
        decreases bytes@.len() - i,
    {
        let b: u8 = bytes[i];
        if b < ZERO || b > NINE {
            assert(!is_digit(digits[i - from]));
            return None;
        }
        proof {
            lemma_value_step(bytes@, from as int, i as int);
            lemma_value_grows(bytes@, from as int, i as int + 1, bytes@.len() as int);
        }
        let digit: u64 = (b - ZERO) as u64;
        let next: Option<u64> = match value.checked_mul(10) {
            Some(tens) => tens.checked_add(digit),
            None => None,
        };
        match next {
            Some(v) => {
                if v > max {
                    return None;
                }
                value = v;
            },
            None => {
                return None;
            },
        }
        i += 1;
    }
    Some(value)
}

/// Reads a numeral without a sign, or with `+`, whose number is at most
/// `max`.
fn parse_unsigned(bytes: &[u8], max: u64) -> (r: Option<u64>)
    ensures
        spec_parse_unsigned(bytes@, max as int) == match r {
            Some(v) => Some(v as int),
            None => None,
        },
{
    if bytes.len() > 0 && bytes[0] == PLUS {
        parse_digits(bytes, 1, max)
    } else {
        assert(bytes@.subrange(0, bytes@.len() as int) == bytes@);
        parse_digits(bytes, 0, max)
    }
}

/// Reads a `u64` from its decimal numeral: an optional `+`, then one or more
/// digits. Anything else, and a number that a `u64` cannot hold, gives
/// `None`.
pub fn parse_u64(s: &str) -> (r: Option<u64>)
    ensures
        spec_parse_unsigned(s.spec_bytes(), u64::MAX as int) == match r {
            Some(v) => Some(v as int),
            None => None,
        },
{
    parse_unsigned(s.as_bytes(), u64::MAX)
}

/// Reads a `usize` from its decimal numeral: an optional `+`, then one or
/// more digits. Anything else, and a number that a `usize` cannot hold,
/// gives `None`.
pub fn parse_usize(s: &str) -> (r: Option<usize>)
    ensures
        spec_parse_unsigned(s.spec_bytes(), usize::MAX as int) == match r {
            Some(v) => Some(v as int),
            None => None,
        },
{
    match parse_unsigned(s.as_bytes(), usize::MAX as u64) {
        Some(v) => Some(v as usize),
        None => None,
    }
}

/// Reads an `isize` from its decimal numeral: an optional `+` or `-`, then
/// one or more digits. Anything else, and a number that an `isize` cannot
/// hold, gives `None`.
pub fn parse_isize(s: &str) -> (r: Option<isize>)
    ensures
        spec_parse_signed(s.spec_bytes(), isize::MIN as int, isize::MAX as int) == match r {
            Some(v) => Some(v as int),
            None => None,
        },
{
    let bytes: &[u8] = s.as_bytes();
    if bytes.len() > 0 && bytes[0] == MINUS {
        match parse_digits(bytes, 1, isize::MAX as u64 + 1) {
            Some(magnitude) => Some((0 - magnitude as i128) as isize),
            None => None,
        }
    } else if bytes.len() > 0 && bytes[0] == PLUS {
        match parse_digits(bytes, 1, isize::MAX as u64) {
            Some(v) => Some(v as isize),
            None => None,
        }
    } else {
        assert(bytes@.subrange(0, bytes@.len() as int) == bytes@);
        match parse_digits(bytes, 0, isize::MAX as u64) {
            Some(v) => Some(v as isize),
            None => None,
        }
    }
}

} // verus!
