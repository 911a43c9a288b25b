//! Conversion of integer literals: digit-group separators are dropped, and
//! what is left is read as a signed decimal number.

use vstd::prelude::*;
use vstd::utf8::encode_utf8;

verus! {

/// The ways in which a text fails to be an integer literal.
#[derive(Debug, Clone, Copy, PartialEq, Eq, Structural)]
pub enum IntError {
    /// There is nothing to read.
    Empty,
    /// A character is not a decimal digit, or a sign stands alone.
    InvalidDigit,
    /// The number is above the largest integer.
    PosOverflow,
    /// The number is below the smallest integer.
    NegOverflow,
}

/// The byte of the digit-group separator `_`.
pub const SEPARATOR: u8 = 95;

/// The byte of the sign `+`.
pub const PLUS_SIGN: u8 = 43;

/// The byte of the sign `-`.
pub const MINUS_SIGN: u8 = 45;

/// The byte of the digit `0`.
pub const DIGIT_ZERO: u8 = 48;

/// The byte of the digit `9`.
pub const DIGIT_NINE: u8 = 57;

/// The bytes of `bytes` that are not separators, in order.
pub open spec fn strip_separators(bytes: Seq<u8>) -> Seq<u8>
    decreases bytes.len(),
{
    if bytes.len() == 0 {
        Seq::empty()
    } else if bytes.last() == SEPARATOR {
        strip_separators(bytes.drop_last())
    } else {
        strip_separators(bytes.drop_last()).push(bytes.last())
    }
}

/// The number that the first `k` of `digits` denote, negated where
/// `negative` holds, or the first failure met from the left: a byte that is
/// no digit, or a number that leaves the range of the integer type.
pub open spec fn scan(digits: Seq<u8>, negative: bool, k: int) -> Result<int, IntError>
    decreases k,
{
    if k <= 0 {
        Ok(0)
    } else {
        match scan(digits, negative, k - 1) {
            Err(e) => Err(e),
            Ok(acc) => {
                let c = digits[k - 1];
                if !(DIGIT_ZERO <= c <= DIGIT_NINE) {
                    Err(IntError::InvalidDigit)
                } else {
                    let v = if negative {
                        acc * 10 - (c - DIGIT_ZERO)
                    } else {
                        acc * 10 + (c - DIGIT_ZERO)
                    };
                    if v > i64::MAX {
                        Err(IntError::PosOverflow)
                    } else if v < i64::MIN {
                        Err(IntError::NegOverflow)
                    } else {
                        Ok(v)
                    }
                }
            },
        }
    }
}

/// The integer that `text` denotes: an optional sign followed by at least
/// one decimal digit.
pub open spec fn int_of(text: Seq<u8>) -> Result<i64, IntError> {
    if text.len() == 0 {
        Err(IntError::Empty)
    } else {
        let signed = text[0] == PLUS_SIGN || text[0] == MINUS_SIGN;
        let digits = if signed {
            text.drop_first()
        } else {
            text
        };
        if digits.len() == 0 {
            Err(IntError::InvalidDigit)
        } else {
            match scan(digits, text[0] == MINUS_SIGN, digits.len() as int) {
                Ok(v) => Ok(v as i64),
                Err(e) => Err(e),
            }
        }
    }
}

/// The integer that the literal `text` denotes, once its separators are
/// dropped.
pub open spec fn literal_value(text: Seq<char>) -> Result<i64, IntError> {
    int_of(strip_separators(encode_utf8(text)))
}

/// The text that describes the failure `e`.
pub open spec fn error_text(e: IntError) -> Seq<char> {
    match e {
        IntError::Empty => "cannot parse integer from empty string"@,
        IntError::InvalidDigit => "invalid digit found in string"@,
        IntError::PosOverflow => "number too large to fit in target type"@,
        IntError::NegOverflow => "number too small to fit in target type"@,
    }
}

impl IntError {
    /// The text that describes this failure.
    pub fn message(&self) -> (s: &'static str)
        ensures
            s@ == error_text(*self),
    {
        match self {
            IntError::Empty => "cannot parse integer from empty string",
            IntError::InvalidDigit => "invalid digit found in string",
            IntError::PosOverflow => "number too large to fit in target type",
            IntError::NegOverflow => "number too small to fit in target type",
        }
    }
}

/// The bytes of `bytes` without the separators.
pub fn without_separators(bytes: &[u8]) -> (r: Vec<u8>)
    ensures
        r@ == strip_separators(bytes@),
{
    let mut r: Vec<u8> = Vec::new();
    let mut i: usize = 0;
    while i < bytes.len()
        invariant
            i <= bytes.len(),
            r@ == strip_separators(bytes@.take(i as int)),
        decreases bytes.len() - i,
    {
        proof {
            assert(bytes@.take(i + 1).drop_last() =~= bytes@.take(i as int));
        }
        if bytes[i] != SEPARATOR {
            r.push(bytes[i]);
        }
        i += 1;
    }
    proof {
        assert(bytes@.take(i as int) =~= bytes@);
    }
    r
}

/// Reads `text` as a signed decimal number.
pub fn read_int(text: &[u8]) -> (r: Result<i64, IntError>)
    ensures
        r == int_of(text@),
{
    if text.len() == 0 {
        return Err(IntError::Empty);
    }
    let negative = text[0] == MINUS_SIGN;
    let first: usize = if text[0] == PLUS_SIGN || text[0] == MINUS_SIGN {
        1
    } else {
        0
    };
    if first == text.len() {
        return Err(IntError::InvalidDigit);
    }
    let ghost digits = text@.subrange(first as int, text.len() as int);
    proof {
        if first == 1 {
        } else {
            assert(digits =~= text@);
        }
    }
    let mut acc: i64 = 0;
    let mut i: usize = first;
    while i < text.len()
        invariant
            first <= i <= text.len(),
            digits == text@.subrange(first as int, text.len() as int),
            int_of(text@) == (match scan(digits, negative, digits.len() as int) {
                Ok(v) => Ok(v as i64),
                Err(e) => Err(e),
            }),
            scan(digits, negative, i - first) == Ok::<int, IntError>(acc as int),
        decreases text.len() - i,
    {
        let c = text[i];
        if c < DIGIT_ZERO || c > DIGIT_NINE {
            proof {
                lemma_scan_fails_on(digits, negative, i - first + 1, digits.len() as int);
            }
            return Err(IntError::InvalidDigit);
        }
        let d: i128 = (c - DIGIT_ZERO) as i128;
        let v: i128 = if negative {
            acc as i128 * 10 - d
        } else {
            acc as i128 * 10 + d
        };
        if v > i64::MAX as i128 {
            proof {
                lemma_scan_fails_on(digits, negative, i - first + 1, digits.len() as int);
            }
            return Err(IntError::PosOverflow);
        }
        if v < i64::MIN as i128 {
            proof {
                lemma_scan_fails_on(digits, negative, i - first + 1, digits.len() as int);
            }
            return Err(IntError::NegOverflow);
        }
        acc = v as i64;
        i += 1;
    }
    Ok(acc)
}

/// A scan that has failed stays failed, with the same failure, however many
/// more digits are read.
pub proof fn lemma_scan_fails_on(digits: Seq<u8>, negative: bool, k: int, more: int)
    requires
        0 <= k <= more,
        scan(digits, negative, k) is Err,
    ensures
        scan(digits, negative, more) == scan(digits, negative, k),
    decreases more - k,
{
    if k < more {
        lemma_scan_fails_on(digits, negative, k, more - 1);
    }
}

/// Reads an integer literal: drops the separators of `text` and reads the
/// rest as a signed decimal number.
pub fn int_literal(text: &str) -> (r: Result<i64, IntError>)
    ensures
        r == literal_value(text@),
{
    let stripped = without_separators(text.as_bytes());
    read_int(stripped.as_slice())
}

} // verus!
