//! The two settings of an analysis, as read from their text.
//!
//! A setting is a whole number written in decimal digits, with no sign but
//! an optional `+` in front and nothing else around it. A setting that is
//! missing, is written otherwise, or is too large for the machine gives way
//! to its default.

use crate::analyzer::DEFAULT_MAX_FILES;
use crate::cache::DEFAULT_CACHE_SECONDS;
use vstd::prelude::*;
use vstd::string::StrSliceExecFns;

verus! {

/// `c` is one of the ten decimal digits.
pub open spec fn is_digit(c: char) -> bool {
    '0' <= c <= '9'
}

/// The digit that `c` stands for.
pub open spec fn digit_value(c: char) -> nat {
    (c as u32 - '0' as u32) as nat
}

/// The number that a row of digits stands for.
pub open spec fn digits_value(digits: Seq<char>) -> nat
    decreases digits.len(),
{
    if digits.len() == 0 {
        0
    } else {
        digits_value(digits.drop_last()) * 10 + digit_value(digits.last())
    }
}

/// The digits of a number's text: the text without the `+` that may stand in
/// front of it.
pub open spec fn digits_of(text: Seq<char>) -> Seq<char> {
    if text.len() > 0 && text[0] == '+' {
        text.skip(1)
    } else {
        text
    }
}

/// The text is a number: one digit or more, after an optional `+`.
pub open spec fn is_number(text: Seq<char>) -> bool {
    let digits = digits_of(text);
    digits.len() > 0 && forall|i: int| 0 <= i < digits.len() ==> is_digit(#[trigger] digits[i])
}

/// The number that `text` stands for, where it is a number of at most
/// `limit`.
pub open spec fn number_of(text: Seq<char>, limit: nat) -> Option<nat> {
    if is_number(text) && digits_value(digits_of(text)) <= limit {
        Some(digits_value(digits_of(text)))
    } else {
        None
    }
}

/// A row of digits stands for no less than any of its beginnings.
proof fn lemma_digits_value_grows(digits: Seq<char>, shorter: int)
    requires
        0 <= shorter <= digits.len(),
    ensures
        digits_value(digits.take(shorter)) <= digits_value(digits),
    decreases digits.len(),
{
    if shorter == digits.len() {
        assert(digits.take(shorter) =~= digits);
    } else {
        lemma_digits_value_grows(digits.drop_last(), shorter);
        assert(digits.drop_last().take(shorter) =~= digits.take(shorter));
    }
}

/// Reads a number of at most 64 bits from its text.
pub fn parse_number(text: &str) -> (number: Option<u64>)
    ensures
        match number {
            Some(value) => number_of(text@, u64::MAX as nat) == Some(value as nat),
            None => number_of(text@, u64::MAX as nat) is None,
        },
{
    let ghost digits = digits_of(text@);
    let mut value: u64 = 0;
    let mut seen: usize = 0;
    let mut count: usize = 0;
    let total = text.unicode_len();
    for c in it: text.chars()
        invariant
            total == text@.len(),
            it.seq() == text@,
            seen == it.index(),
            seen <= total,
            digits == digits_of(text@),
            count <= seen,
            count == if seen > 0 && text@[0] == '+' {
                seen - 1
            } else {
                seen as int
            },
            forall|i: int| 0 <= i < count ==> is_digit(#[trigger] digits[i]),
            value == digits_value(digits.take(count as int)),
    {
        if seen == 0 && c == '+' {
            assert(digits.take(0) =~= Seq::<char>::empty());
        } else {
            let ghost place = count as int;
            assert(digits[place] == c);
            if !(c >= '0' && c <= '9') {
                return None;
            }
            let digit = (c as u32 - '0' as u32) as u64;
            proof {
                assert(digits.take(place + 1).drop_last() =~= digits.take(place));
                lemma_digits_value_grows(digits, place + 1);
            }
            let tenfold = match value.checked_mul(10) {
                Some(tenfold) => tenfold,
                None => {
                    proof {
                        lemma_rest_is_no_number(text@, place + 1);
                    }
                    return None;
                },
            };
            value = match tenfold.checked_add(digit) {
                Some(sum) => sum,
                None => {
                    proof {
                        lemma_rest_is_no_number(text@, place + 1);
                    }
                    return None;
                },
            };
            count += 1;
        }
        seen += 1;
    }
    proof {
        assert(digits.take(count as int) =~= digits);
    }
    if count == 0 {
        None
    } else {
        Some(value)
    }
}

/// A text of which a beginning already stands for more than 64 bits hold
/// stands for no number of 64 bits.
proof fn lemma_rest_is_no_number(text: Seq<char>, shorter: int)
    requires
        0 <= shorter <= digits_of(text).len(),
        digits_value(digits_of(text).take(shorter)) > u64::MAX,
    ensures
        number_of(text, u64::MAX as nat) is None,
{
    lemma_digits_value_grows(digits_of(text), shorter);
}

/// The largest number of files to report: what `raw` says where it is a
/// number that the machine can hold, `DEFAULT_MAX_FILES` otherwise.
pub fn max_files_from(raw: Option<&str>) -> (max_files: usize)
    ensures
        max_files == match raw {
            Some(text) => match number_of(text@, usize::MAX as nat) {
                Some(value) => value,
                None => DEFAULT_MAX_FILES as nat,
            },
            None => DEFAULT_MAX_FILES as nat,
        },
{
    match raw {
        Some(text) => match parse_number(text) {
            Some(value) if value <= usize::MAX as u64 => value as usize,
            _ => DEFAULT_MAX_FILES,
        },
        None => DEFAULT_MAX_FILES,
    }
}

/// The time to live in seconds: what `raw` says where it is a number of at
/// most 64 bits, `DEFAULT_CACHE_SECONDS` otherwise.
pub fn cache_seconds_from(raw: Option<&str>) -> (seconds: u64)
    ensures
        seconds == match raw {
            Some(text) => match number_of(text@, u64::MAX as nat) {
                Some(value) => value,
                None => DEFAULT_CACHE_SECONDS as nat,
            },
            None => DEFAULT_CACHE_SECONDS as nat,
        },
{
    match raw {
        Some(text) => match parse_number(text) {
            Some(value) => value,
            None => DEFAULT_CACHE_SECONDS,
        },
        None => DEFAULT_CACHE_SECONDS,
    }
}

} // verus!
