//! The text form of a mood value.
//!
//! A mood is stored as the decimal numeral of a 32-bit signed integer: an
//! optional sign followed by digits, nothing before, between or after.
//! Writing a mood produces its digits, after a minus sign where it is
//! negative. Reading accepts every numeral whose number fits, a plus sign
//! and leading zeros included, and says why a text is none.

use vstd::prelude::*;
use vstd::std_specs::iter::IteratorSpec;

verus! {

/// Why a text is not the numeral of a 32-bit signed integer.
#[derive(Clone, Copy, Debug, PartialEq, Eq)]
pub enum ParseError {
    /// The text is empty.
    Empty,
    /// A character that is no digit stands where a digit must, or a sign
    /// stands alone.
    InvalidDigit,
    /// The digits read so far already exceed `i32::MAX`.
    PosOverflow,
    /// The digits read so far, negated, already fall below `i32::MIN`.
    NegOverflow,
}

impl ParseError {
    /// The sentence that describes the error to a person.
    pub open spec fn message_text(self) -> Seq<char> {
        match self {
            ParseError::Empty => "cannot parse integer from empty string"@,
            ParseError::InvalidDigit => "invalid digit found in string"@,
            ParseError::PosOverflow => "number too large to fit in target type"@,
            ParseError::NegOverflow => "number too small to fit in target type"@,
        }
    }

    /// The sentence that describes the error to a person.
    pub fn message(&self) -> (text: String)
        ensures
            text@ == self.message_text(),
    {
        match self {
            ParseError::Empty => String::from_str("cannot parse integer from empty string"),
            ParseError::InvalidDigit => String::from_str("invalid digit found in string"),
            ParseError::PosOverflow => String::from_str("number too large to fit in target type"),
            ParseError::NegOverflow => String::from_str("number too small to fit in target type"),
        }
    }
}

/// Whether `c` is one of the ten ASCII digits.
pub open spec fn is_digit(c: char) -> bool {
    '0' <= c <= '9'
}

/// The number a digit stands for.
pub open spec fn digit_value(c: char) -> int {
    c as int - '0' as int
}

/// The digit that stands for `d`, for `d` from 0 to 9.
pub open spec fn digit_char(d: int) -> char {
    (d + '0' as int) as char
}

/// The digits of `n`, most significant first.
pub open spec fn digits_of(n: nat) -> Seq<char>
    decreases n,
{
    if n < 10 {
        seq![digit_char(n as int)]
    } else {
        digits_of(n / 10).push(digit_char((n % 10) as int))
    }
}

/// The numeral of `m`: its digits, after a minus sign when `m` is negative.
pub open spec fn decimal_text(m: int) -> Seq<char> {
    if m < 0 {
        seq!['-'] + digits_of((-m) as nat)
    } else {
        digits_of(m as nat)
    }
}

/// The number that a run of digits denotes, most significant first.
pub open spec fn digits_value(s: Seq<char>) -> int
    decreases s.len(),
{
    if s.len() == 0 {
        0
    } else {
        digits_value(s.drop_last()) * 10 + digit_value(s.last())
    }
}

/// How many digits stand at the front of `s` before the first other
/// character or the end.
pub open spec fn digit_run(s: Seq<char>) -> nat
    decreases s.len(),
{
    if s.len() == 0 || !is_digit(s[0]) {
        0
    } else {
        1 + digit_run(s.drop_first())
    }
}

/// Whether `s` starts with a plus or minus sign.
pub open spec fn has_sign(s: Seq<char>) -> bool {
    s.len() > 0 && (s[0] == '+' || s[0] == '-')
}

/// Whether `s` starts with a minus sign.
pub open spec fn is_negative(s: Seq<char>) -> bool {
    s.len() > 0 && s[0] == '-'
}

/// `s` without its sign, if it has one.
pub open spec fn unsigned_part(s: Seq<char>) -> Seq<char> {
    if has_sign(s) {
        s.drop_first()
    } else {
        s
    }
}

/// The largest magnitude that fits: one more for negative numbers than for
/// the others.
pub open spec fn magnitude_limit(negative: bool) -> int {
    if negative {
        -(i32::MIN as int)
    } else {
        i32::MAX as int
    }
}

/// Whether `s` is a numeral: an optional sign and then digits only, at least
/// one.
pub open spec fn is_numeral(s: Seq<char>) -> bool {
    let body = unsigned_part(s);
    body.len() > 0 && forall|i: int| 0 <= i < body.len() ==> is_digit(#[trigger] body[i])
}

/// The number that a numeral denotes.
pub open spec fn numeral_value(s: Seq<char>) -> int {
    if is_negative(s) {
        -digits_value(unsigned_part(s))
    } else {
        digits_value(unsigned_part(s))
    }
}

/// What reading `s` as a mood gives.
///
/// The text is read from left to right and the first thing that goes wrong
/// decides the error: digits that already exceed the range are an overflow
/// even when a character that is no digit follows them.
pub open spec fn parse_text(s: Seq<char>) -> Result<i32, ParseError> {
    let negative = is_negative(s);
    let body = unsigned_part(s);
    let lead = body.take(digit_run(body) as int);
    let magnitude = digits_value(lead);
    if s.len() == 0 {
        Err(ParseError::Empty)
    } else if body.len() == 0 {
        Err(ParseError::InvalidDigit)
    } else if magnitude > magnitude_limit(negative) {
        Err(
            if negative {
                ParseError::NegOverflow
            } else {
                ParseError::PosOverflow
            },
        )
    } else if lead.len() < body.len() {
        Err(ParseError::InvalidDigit)
    } else if negative {
        Ok((-magnitude) as i32)
    } else {
        Ok(magnitude as i32)
    }
}

/// The digits at the front of `s` are digits, and what follows them is none.
pub proof fn lemma_digit_run_bounds(s: Seq<char>)
    ensures
        digit_run(s) <= s.len(),
        forall|j: int| 0 <= j < digit_run(s) ==> is_digit(#[trigger] s[j]),
        digit_run(s) < s.len() ==> !is_digit(s[digit_run(s) as int]),
    decreases s.len(),
{
    if s.len() > 0 && is_digit(s[0]) {
        let rest = s.drop_first();
        lemma_digit_run_bounds(rest);
        assert forall|j: int| 0 <= j < digit_run(s) implies is_digit(#[trigger] s[j]) by {
            if j > 0 {
                assert(s[j] == rest[j - 1]);
            }
        }
    }
}

/// A place `k` before which all are digits, and at which `s` ends or holds
/// another character, is where the leading digits end.
pub proof fn lemma_digit_run_found(s: Seq<char>, k: int)
    requires
        0 <= k <= s.len(),
        forall|j: int| 0 <= j < k ==> is_digit(#[trigger] s[j]),
        k < s.len() ==> !is_digit(s[k]),
    ensures
        digit_run(s) == k,
    decreases k,
{
    if k > 0 {
        lemma_digit_run_found(s.drop_first(), k - 1);
    }
}

/// One more digit multiplies what was read by ten and adds the digit.
pub proof fn lemma_digits_value_step(s: Seq<char>, k: int)
    requires
        0 <= k < s.len(),
    ensures
        digits_value(s.take(k + 1)) == digits_value(s.take(k)) * 10 + digit_value(s[k]),
{
    assert(s.take(k + 1).drop_last() =~= s.take(k));
}

/// Reading further digits never makes the number smaller.
pub proof fn lemma_digits_value_grows(s: Seq<char>, a: int, b: int)
    requires
        0 <= a <= b <= s.len(),
        forall|j: int| 0 <= j < b ==> is_digit(#[trigger] s[j]),
    ensures
        0 <= digits_value(s.take(a)) <= digits_value(s.take(b)),
    decreases b,
{
    if b > 0 {
        lemma_digits_value_grows(s, if a == b { a - 1 } else { a }, b - 1);
        lemma_digits_value_step(s, b - 1);
    }
}

/// The digits of a number are digits, at least one, and denote the number.
pub proof fn lemma_digits_of(n: nat)
    ensures
        digits_of(n).len() >= 1,
        forall|j: int| 0 <= j < digits_of(n).len() ==> is_digit(#[trigger] digits_of(n)[j]),
        digits_value(digits_of(n)) == n,
    decreases n,
{
    let text = digits_of(n);
    if n < 10 {
        assert(digits_value(text.drop_last()) == 0);
    } else {
        lemma_digits_of(n / 10);
        assert(text.drop_last() =~= digits_of(n / 10));
    }
}

/// A numeral is read as the number it denotes where that fits in 32 bits,
/// and is an overflow on the side on which it does not fit.
pub proof fn lemma_parse_of_numeral(s: Seq<char>)
    requires
        is_numeral(s),
    ensures
        parse_text(s) == (if numeral_value(s) > i32::MAX {
            Err::<i32, ParseError>(ParseError::PosOverflow)
        } else if numeral_value(s) < i32::MIN {
            Err::<i32, ParseError>(ParseError::NegOverflow)
        } else {
            Ok::<i32, ParseError>(numeral_value(s) as i32)
        }),
{
    let body = unsigned_part(s);
    lemma_digit_run_found(body, body.len() as int);
    assert(body.take(body.len() as int) =~= body);
    lemma_digits_value_grows(body, 0, body.len() as int);
}

/// A text that is no numeral is never read as a mood.
pub proof fn lemma_parse_rejects_non_numeral(s: Seq<char>)
    requires
        !is_numeral(s),
    ensures
        parse_text(s) is Err,
{
    lemma_digit_run_bounds(unsigned_part(s));
}

/// Reading succeeds exactly on the numerals whose number fits in 32 bits,
/// and then gives that number.
pub proof fn lemma_parse_succeeds_on_fitting_numerals(s: Seq<char>)
    ensures
        parse_text(s) is Ok <==> is_numeral(s) && i32::MIN <= numeral_value(s) <= i32::MAX,
        parse_text(s) is Ok ==> parse_text(s)->Ok_0 == numeral_value(s),
{
    if is_numeral(s) {
        lemma_parse_of_numeral(s);
    } else {
        lemma_parse_rejects_non_numeral(s);
    }
}

/// The numeral of a mood is a numeral that denotes the mood, and reading it
/// gives the mood back.
pub proof fn lemma_parse_of_decimal_text(m: i32)
    ensures
        is_numeral(decimal_text(m as int)),
        numeral_value(decimal_text(m as int)) == m,
        parse_text(decimal_text(m as int)) == Ok::<i32, ParseError>(m),
{
    let s = decimal_text(m as int);
    let n: nat = if m < 0 {
        (-m) as nat
    } else {
        m as nat
    };
    lemma_digits_of(n);
    assert(unsigned_part(s) =~= digits_of(n));
    lemma_parse_of_numeral(s);
}

/// The text of one digit.
fn digit_text(d: u8) -> (text: &'static str)
    requires
        d < 10,
    ensures
        text@ == seq![digit_char(d as int)],
{
    proof {
        reveal_strlit("0");
        reveal_strlit("1");
        reveal_strlit("2");
        reveal_strlit("3");
        reveal_strlit("4");
        reveal_strlit("5");
        reveal_strlit("6");
        reveal_strlit("7");
        reveal_strlit("8");
        reveal_strlit("9");
    }
    let text = match d {
        0 => "0",
        1 => "1",
        2 => "2",
        3 => "3",
        4 => "4",
        5 => "5",
        6 => "6",
        7 => "7",
        8 => "8",
        _ => "9",
    };
    text
}

/// Appends the digits of `n` to `text`.
fn push_digits(text: &mut String, n: u32)
    ensures
        final(text)@ == old(text)@ + digits_of(n as nat),
    decreases n,
{
    if n >= 10 {
        push_digits(text, n / 10);
    }
    text.append(digit_text((n % 10) as u8));
}

/// Writes a mood down as its numeral.
pub fn format_mood(mood: i32) -> (text: String)
    ensures
        text@ == decimal_text(mood as int),
{
    let mut text = String::new();
    let magnitude: u32 = if mood < 0 {
        proof {
            reveal_strlit("-");
        }
        text.append("-");
        (-(mood as i64)) as u32
    } else {
        mood as u32
    };
    push_digits(&mut text, magnitude);
    text
}

/// Reads a mood from its text.
///
/// Succeeds exactly on the numerals whose number fits in 32 bits, a leading
/// plus sign and leading zeros included; every other text, surrounding white
/// space included, is an error.
pub fn parse_mood(text: &str) -> (parsed: Result<i32, ParseError>)
    ensures
        parsed == parse_text(text@),
        parsed is Ok <==> is_numeral(text@) && i32::MIN <= numeral_value(text@) <= i32::MAX,
        parsed is Ok ==> parsed->Ok_0 == numeral_value(text@),
{
    proof {
        lemma_parse_succeeds_on_fitting_numerals(text@);
    }
    scan_numeral(text)
}

/// Reads `text` in one pass from left to right and stops at the first thing
/// that goes wrong.
fn scan_numeral(text: &str) -> (parsed: Result<i32, ParseError>)
    ensures
        parsed == parse_text(text@),
{
    let mut chars = text.chars();
    let mut pending = chars.next();
    let (signed, negative) = match pending {
        Some(c) => (c == '+' || c == '-', c == '-'),
        None => {
            return Err(ParseError::Empty);
        },
    };
    if signed {
        pending = chars.next();
        if pending.is_none() {
            return Err(ParseError::InvalidDigit);
        }
    }
    let limit: u64 = if negative {
        2147483648
    } else {
        2147483647
    };
    let ghost body = unsigned_part(text@);
    let ghost mut seen: int = 0;
    let mut magnitude: u64 = 0;
    loop
        invariant
            chars.obeys_prophetic_iter_laws(),
            text@.len() > 0,
            body == unsigned_part(text@),
            body.len() > 0,
            negative == is_negative(text@),
            limit == magnitude_limit(negative),
            0 <= seen <= body.len(),
            pending == (if seen < body.len() {
                Some(body[seen])
            } else {
                None::<char>
            }),
            seen < body.len() ==> chars.remaining() == body.skip(seen + 1),
            forall|j: int| 0 <= j < seen ==> is_digit(#[trigger] body[j]),
            magnitude == digits_value(body.take(seen)),
            magnitude <= limit,
        decreases body.len() - seen,
    {
        match pending {
            None => {
                proof {
                    lemma_digit_run_found(body, seen);
                }
                if negative {
                    return Ok((-(magnitude as i64)) as i32);
                } else {
                    return Ok(magnitude as i32);
                }
            },
            Some(c) => {
                if !('0' <= c && c <= '9') {
                    proof {
                        lemma_digit_run_found(body, seen);
                    }
                    return Err(ParseError::InvalidDigit);
                }
                let longer: u64 = magnitude * 10 + (c as u32 - '0' as u32) as u64;
                proof {
                    lemma_digits_value_step(body, seen);
                }
                if longer > limit {
                    proof {
                        lemma_digit_run_bounds(body);
                        lemma_digits_value_grows(body, seen + 1, digit_run(body) as int);
                    }
                    if negative {
                        return Err(ParseError::NegOverflow);
                    } else {
                        return Err(ParseError::PosOverflow);
                    }
                }
                magnitude = longer;
                pending = chars.next();
                proof {
                    seen = seen + 1;
                }
            },
        }
    }
}

} // verus!
