//! Turning raw text into a bounded integer.
//!
//! An input field hands over arbitrary bytes; the grid needs a value that is
//! never zero and never reaches a fixed upper bound. `parse` is total over
//! all inputs: a numeral below the bound is taken as it stands, the numeral
//! zero is clamped up to the minimum `1`, and everything else (out of range,
//! empty, malformed, too large for the integer type) silently falls back to
//! a caller-supplied default. No error is ever surfaced; the policy keeps
//! the input forgiving on purpose.

use vstd::prelude::*;

verus! {

/// ASCII code of the digit `0`.
pub const DIGIT_ZERO: u8 = 0x30;

/// ASCII code of the digit `9`.
pub const DIGIT_NINE: u8 = 0x39;

/// ASCII code of the sign `+`.
pub const PLUS_SIGN: u8 = 0x2b;

/// Whether byte `b` is an ASCII decimal digit.
pub open spec fn is_ascii_digit(b: u8) -> bool {
    DIGIT_ZERO <= b && b <= DIGIT_NINE
}

/// Numeric value of the ASCII digit `b`.
pub open spec fn digit_value(b: u8) -> nat
    recommends
        is_ascii_digit(b),
{
    (b - DIGIT_ZERO) as nat
}

/// Numeric value of a run of ASCII digits, most significant first.
pub open spec fn digits_value(s: Seq<u8>) -> nat
    decreases s.len(),
{
    if s.len() == 0 {
        0
    } else {
        digits_value(s.drop_last()) * 10 + digit_value(s.last())
    }
}

/// The digit part of a numeral: an optional leading `+` sign is dropped.
pub open spec fn digits_of(s: Seq<u8>) -> Seq<u8> {
    if s.len() > 0 && s[0] == PLUS_SIGN {
        s.subrange(1, s.len() as int)
    } else {
        s
    }
}

/// Whether `s` spells a non-negative integer that fits in `u8`: an optional
/// `+` sign followed by at least one ASCII digit, with value at most
/// `u8::MAX`.
pub open spec fn is_u8_numeral(s: Seq<u8>) -> bool {
    &&& digits_of(s).len() > 0
    &&& (forall|i: int| 0 <= i < digits_of(s).len() ==> is_ascii_digit(digits_of(s)[i]))
    &&& digits_value(digits_of(s)) <= u8::MAX
}

/// The value a numeral spells.
pub open spec fn numeral_value(s: Seq<u8>) -> nat
    recommends
        is_u8_numeral(s),
{
    digits_value(digits_of(s))
}

/// What `parse` returns on the bytes `s`: the spelled value when it lies
/// strictly between `0` and `max`, the minimum `1` when the input spells
/// zero, and `default` otherwise (value at or above `max`, or no `u8`
/// numeral at all).
pub open spec fn parse_result(s: Seq<u8>, max: u8, default: u8) -> u8 {
    if is_u8_numeral(s) {
        if numeral_value(s) == 0 {
            1
        } else if numeral_value(s) < max {
            numeral_value(s) as u8
        } else {
            default
        }
    } else {
        default
    }
}

/// The value of a run of digits is at least the value of any of its
/// prefixes, so once a prefix overflows `u8` the whole numeral does.
proof fn lemma_digits_value_prefix_le(s: Seq<u8>, j: int)
    requires
        0 <= j <= s.len(),
    ensures
        digits_value(s.subrange(0, j)) <= digits_value(s),
    decreases s.len() - j,
{
    if j == s.len() {
        assert(s.subrange(0, j) =~= s);
    } else {
        let t = s.subrange(0, j + 1);
        assert(t.drop_last() =~= s.subrange(0, j));
        assert(digits_value(s.subrange(0, j)) * 10 + digit_value(t.last())
            >= digits_value(s.subrange(0, j))) by (nonlinear_arith);
        lemma_digits_value_prefix_le(s, j + 1);
    }
}

/// Parse `raw` as a bounded integer in `[1, max)`, falling back to
/// `default` on anything unusable. Total over all inputs; when the caller's
/// `default` itself lies in `[1, max)`, so does the result.
pub fn parse(raw: &[u8], max: u8, default: u8) -> (r: u8)
    ensures
        r == parse_result(raw@, max, default),
        1 <= default && default < max ==> 1 <= r && r < max,
{
    let len: usize = raw.len();
    let start: usize = if len > 0 && raw[0] == PLUS_SIGN {
        1
    } else {
        0
    };
    if start == len {
        // Empty input, or a bare sign: no digits to read.
        assert(digits_of(raw@).len() == 0);
        return default;
    }
    let mut value: u32 = 0;
    let mut i: usize = start;
    while i < len
        invariant
            start <= i <= len == raw@.len(),
            start == 0 || start == 1,
            start == 1 ==> len > 0 && raw@[0] == PLUS_SIGN,
            start == 0 ==> !(raw@.len() > 0 && raw@[0] == PLUS_SIGN),
            forall|k: int| start <= k < i ==> is_ascii_digit(raw@[k]),
            value == digits_value(raw@.subrange(start as int, i as int)),
            value <= u8::MAX,
        decreases len - i,
    {
        let b: u8 = raw[i];
        if b < DIGIT_ZERO || b > DIGIT_NINE {
            // A non-digit byte: the input spells no integer at all.
            assert(!is_u8_numeral(raw@)) by {
                assert(digits_of(raw@)[i - start] == raw@[i as int]);
            }
            return default;
        }
        proof {
            let prev = raw@.subrange(start as int, i as int);
            let cur = raw@.subrange(start as int, i + 1);
            assert(cur.drop_last() =~= prev);
        }
        value = value * 10 + (b - DIGIT_ZERO) as u32;
        i = i + 1;
        if value > u8::MAX as u32 {
            // The digits read so far already exceed the integer type, and
            // further digits can only grow the value.
            assert(!is_u8_numeral(raw@)) by {
                assert(raw@.subrange(start as int, i as int)
                    =~= digits_of(raw@).subrange(0, i - start));
                lemma_digits_value_prefix_le(digits_of(raw@), i - start);
            }
            return default;
        }
    }
    assert(raw@.subrange(start as int, len as int) =~= digits_of(raw@));
    if value == 0 {
        1
    } else if value < max as u32 {
        value as u8
    } else {
        default
    }
}

} // verus!
