//! Values of command-line arguments: counts that must not be zero, and
//! durations such as `300ms` or `2h30m`.

use crate::text::push_str;
use vstd::prelude::*;
use vstd::utf8::is_ascii_chars;

verus! {

/// The character is one of the decimal digits `0` to `9`.
pub open spec fn is_digit(c: char) -> bool {
    '0' <= c <= '9'
}

/// The number that a run of decimal digits denotes.
pub open spec fn digits_value(digits: Seq<char>) -> nat
    decreases digits.len(),
{
    if digits.len() == 0 {
        0
    } else {
        10 * digits_value(digits.drop_last()) + (digits.last() as nat - '0' as nat) as nat
    }
}

/// The text without the plus sign that may stand in front of a number.
pub open spec fn unsigned_part(text: Seq<char>) -> Seq<char> {
    if text.len() > 0 && text[0] == '+' {
        text.skip(1)
    } else {
        text
    }
}

/// The number that `text` denotes as a `usize`: an optional plus sign and
/// then one or more decimal digits, and nothing else, whose number fits.
pub open spec fn decimal_usize(text: Seq<char>) -> Option<usize> {
    let digits = unsigned_part(text);
    if digits.len() > 0 && (forall|i: int| 0 <= i < digits.len() ==> is_digit(digits[i]))
        && digits_value(digits) <= usize::MAX {
        Some(digits_value(digits) as usize)
    } else {
        None
    }
}

/// The error of the standard library for text that is no integer.
#[verifier::external_type_specification]
#[verifier::external_body]
pub struct ExParseIntError(core::num::ParseIntError);

/// Parses `s` with `str::parse::<usize>`. The call succeeds exactly on an
/// optional plus sign followed by decimal digits whose number fits in a
/// `usize`, and returns that number.
#[verifier::external_body]
fn parse_usize(s: &str) -> (r: Result<usize, core::num::ParseIntError>)
    ensures
        match r {
            Ok(n) => decimal_usize(s@) == Some(n),
            Err(_) => decimal_usize(s@) is None,
        },
{
    s.parse::<usize>()
}

/// Refuses a parsed count of zero, with the message `cannot be zero`.
pub fn at_least_one_of(parsed: Result<usize, String>) -> (r: Result<usize, String>)
    ensures
        match parsed {
            Ok(n) => if n == 0 {
                r matches Err(e) && e@ == "cannot be zero"@
            } else {
                r == Ok::<usize, String>(n)
            },
            Err(e) => r == Err::<usize, String>(e),
        },
{
    match parsed {
        Ok(n) => {
            if n == 0 {
                return Err("cannot be zero".to_string());
            }
            Ok(n)
        },
        Err(e) => Err(e),
    }
}

/// Parses a count that must be at least one: a decimal number that fits in a
/// `usize` and is not zero. Text that is no such number is refused with the
/// message that the standard library has for it.
pub fn at_least_one(s: &str) -> (r: Result<usize, String>)
    ensures
        match decimal_usize(s@) {
            Some(n) => if n == 0 {
                r matches Err(e) && e@ == "cannot be zero"@
            } else {
                r == Ok::<usize, String>(n)
            },
            None => r is Err,
        },
{
    match parse_usize(s) {
        Ok(n) => at_least_one_of(Ok(n)),
        Err(e) => at_least_one_of(Err(e.to_string())),
    }
}

/// The most digits that may follow a decimal point in a duration.
pub const MAX_FRACTION_DIGITS: usize = 18;

/// The most digits that a duration of several terms may hold in all.
pub const MAX_TERM_DIGITS: usize = 6;

/// The character can be part of the unit of a duration: it is neither a
/// digit nor a decimal point.
pub open spec fn is_unit_char(c: char) -> bool {
    !(c == '.' || is_digit(c))
}

/// The length of the sign in front of a duration: one or zero.
pub open spec fn sign_len(text: Seq<char>) -> int {
    if text.len() > 0 && (text[0] == '+' || text[0] == '-') {
        1
    } else {
        0
    }
}

/// The number of digits that stand in `text` from `start` on without a gap.
pub open spec fn digits_from(text: Seq<char>, start: int) -> nat
    decreases text.len() - start,
{
    if 0 <= start < text.len() && is_digit(text[start]) {
        1 + digits_from(text, start + 1)
    } else {
        0
    }
}

/// No decimal point of `text` is followed by more than
/// `MAX_FRACTION_DIGITS` digits.
pub open spec fn fractions_short(text: Seq<char>) -> bool {
    forall|i: int|
        0 <= i < text.len() && text[i] == '.' ==> #[trigger] digits_from(text, i + 1)
            <= MAX_FRACTION_DIGITS
}

/// `text` holds at most one term: behind its sign, no digit or decimal point
/// comes after a character of a unit.
pub open spec fn single_term(text: Seq<char>) -> bool {
    forall|i: int, j: int|
        sign_len(text) <= i < j < text.len() && is_unit_char(#[trigger] text[i])
            ==> is_unit_char(#[trigger] text[j])
}

/// The number of digits in `text`.
pub open spec fn digit_count(text: Seq<char>) -> nat
    decreases text.len(),
{
    if text.len() == 0 {
        0
    } else {
        digit_count(text.drop_last()) + if is_digit(text.last()) {
            1nat
        } else {
            0nat
        }
    }
}

/// The duration parser can be given `text`: it is ASCII, its fractions are
/// short, and it has one term or few digits. On every such text the parser
/// returns; on others it may fail to.
pub open spec fn duration_text_is_safe(text: Seq<char>) -> bool {
    &&& is_ascii_chars(text)
    &&& fractions_short(text)
    &&& single_term(text) || digit_count(text) <= MAX_TERM_DIGITS
}

fn chars_of(s: &str) -> (r: Vec<char>)
    ensures
        r@ == s@,
{
    let n = s.unicode_len();
    let mut out: Vec<char> = Vec::new();
    let mut i: usize = 0;
    while i < n
        invariant
            i <= n,
            n == s@.len(),
            out@ == s@.take(i as int),
        decreases n - i,
    {
        out.push(s.get_char(i));
        i += 1;
    }
    assert(s@.take(n as int) == s@);
    out
}

fn is_digit_char(c: char) -> (r: bool)
    ensures
        r == is_digit(c),
{
    '0' <= c && c <= '9'
}

fn is_unit(c: char) -> (r: bool)
    ensures
        r == is_unit_char(c),
{
    !(c == '.' || is_digit_char(c))
}

fn has_short_fraction(chars: &Vec<char>, start: usize) -> (r: bool)
    requires
        start <= chars@.len(),
    ensures
        r == (digits_from(chars@, start as int) <= MAX_FRACTION_DIGITS),
{
    let mut n: usize = 0;
    while n <= MAX_FRACTION_DIGITS && n < chars.len() - start && is_digit_char(chars[start + n])
        invariant
            n <= MAX_FRACTION_DIGITS + 1,
            start + n <= chars.len(),
            digits_from(chars@, start as int) == n + digits_from(chars@, start + n),
        decreases MAX_FRACTION_DIGITS + 1 - n,
    {
        n += 1;
    }
    n <= MAX_FRACTION_DIGITS
}

fn has_short_fractions(chars: &Vec<char>) -> (r: bool)
    ensures
        r == fractions_short(chars@),
{
    let mut i: usize = 0;
    while i < chars.len()
        invariant
            i <= chars@.len(),
            forall|k: int|
                0 <= k < i && chars@[k] == '.' ==> #[trigger] digits_from(chars@, k + 1)
                    <= MAX_FRACTION_DIGITS,
        decreases chars.len() - i,
    {
        if chars[i] == '.' && !has_short_fraction(chars, i + 1) {
            return false;
        }
        i += 1;
    }
    true
}

fn has_single_term(chars: &Vec<char>) -> (r: bool)
    ensures
        r == single_term(chars@),
{
    let mut i: usize = if chars.len() > 0 && (chars[0] == '+' || chars[0] == '-') {
        1
    } else {
        0
    };
    let mut in_unit = false;
    let ghost mut first_unit: int = 0;
    while i < chars.len()
        invariant
            sign_len(chars@) <= i <= chars@.len() || chars@.len() == 0,
            in_unit ==> sign_len(chars@) <= first_unit < i && is_unit_char(chars@[first_unit]),
            !in_unit ==> forall|k: int| sign_len(chars@) <= k < i ==> !is_unit_char(chars@[k]),
            forall|a: int, b: int|
                sign_len(chars@) <= a < b < i && is_unit_char(#[trigger] chars@[a])
                    ==> is_unit_char(#[trigger] chars@[b]),
        decreases chars.len() - i,
    {
        if is_unit(chars[i]) {
            if !in_unit {
                in_unit = true;
                proof {
                    first_unit = i as int;
                }
            }
        } else if in_unit {
            assert(is_unit_char(chars@[first_unit]) && !is_unit_char(chars@[i as int]));
            return false;
        }
        i += 1;
    }
    true
}

fn count_digits(chars: &Vec<char>) -> (r: usize)
    ensures
        r == digit_count(chars@),
{
    let mut n: usize = 0;
    let mut i: usize = 0;
    while i < chars.len()
        invariant
            i <= chars@.len(),
            n <= i,
            n == digit_count(chars@.take(i as int)),
        decreases chars.len() - i,
    {
        assert(chars@.take(i + 1).drop_last() == chars@.take(i as int));
        if is_digit_char(chars[i]) {
            n += 1;
        }
        i += 1;
    }
    assert(chars@.take(i as int) == chars@);
    n
}

/// Whether the duration parser can be given `arg`.
pub fn is_safe_duration_text(arg: &str) -> (r: bool)
    ensures
        r == duration_text_is_safe(arg@),
{
    if !arg.is_ascii() {
        return false;
    }
    let chars = chars_of(arg);
    has_short_fractions(&chars) && (has_single_term(&chars) || count_digits(&chars)
        <= MAX_TERM_DIGITS)
}

/// What `go_parse_duration::parse_duration` returns for a text: the duration
/// in nanoseconds, or the message of its error.
pub uninterp spec fn go_duration(text: Seq<char>) -> Result<i64, Seq<char>>;

/// Calls `go_parse_duration::parse_duration`, and takes the message out of
/// its error. The parser reads a text by bytes where it means characters,
/// does not come back from a fraction whose digits overflow, and adds the
/// terms of a duration unchecked: so it is given ASCII text only, with at
/// most 18 digits behind each decimal point, and with several terms only
/// where the text has so few digits that their sum stays far below the
/// limit. On such a text it returns, and its result depends on the text
/// alone, which the contract names.
#[verifier::external_body]
fn go_duration_of(arg: &str) -> (r: Result<i64, String>)
    requires
        duration_text_is_safe(arg@),
    ensures
        match r {
            Ok(nanos) => go_duration(arg@) == Ok::<i64, Seq<char>>(nanos),
            Err(message) => go_duration(arg@) == Err::<i64, Seq<char>>(message@),
        },
{
    match go_parse_duration::parse_duration(arg) {
        Ok(nanos) => Ok(nanos),
        Err(go_parse_duration::Error::ParseError(message)) => Err(message),
    }
}

/// The message for a text that is not handed to the duration parser.
pub open spec fn unsafe_duration_text(text: Seq<char>) -> Seq<char> {
    "invalid duration: "@ + text
}

/// Turns the parser's result into nanoseconds without sign: the 64 bits of
/// the parsed number, read as unsigned.
pub fn nanos_of(parsed: Result<i64, String>) -> (r: Result<u64, String>)
    ensures
        r == match parsed {
            Ok(nanos) => Ok::<u64, String>(nanos as u64),
            Err(message) => Err(message),
        },
{
    match parsed {
        Ok(nanos) => Ok(
            #[verifier::truncate]
            (nanos as u64),
        ),
        Err(message) => Err(message),
    }
}

/// Parses a duration such as `300ms`, `1.5h` or `2h30m` into nanoseconds. A
/// text that the parser cannot be given is refused as an invalid duration.
pub fn parse_duration(arg: &str) -> (r: Result<u64, String>)
    ensures
        if duration_text_is_safe(arg@) {
            match go_duration(arg@) {
                Ok(nanos) => r == Ok::<u64, String>(nanos as u64),
                Err(message) => r matches Err(m) && m@ == message,
            }
        } else {
            r matches Err(m) && m@ == unsafe_duration_text(arg@)
        },
{
    if !is_safe_duration_text(arg) {
        let mut message = String::new();
        push_str(&mut message, "invalid duration: ");
        push_str(&mut message, arg);
        assert(message@ == unsafe_duration_text(arg@));
        return Err(message);
    }
    nanos_of(go_duration_of(arg))
}

} // verus!
