//! Reading small numbers out of typed lines.
//!
//! A line is trimmed, read as an unsigned decimal number that fits eight
//! bits, and held against a half-open range. Every step answers `None` for
//! a line that does not pass, so that the caller can ask again.

use vstd::prelude::*;

verus! {

broadcast use vstd::string::group_string_axioms;

/// White space: the characters to which Unicode gives the property
/// White_Space. They are the controls U+0009 to U+000D, the space, U+0085,
/// the no-break space, U+1680, the spaces U+2000 to U+200A, the line and
/// paragraph separators, U+202F, U+205F and U+3000.
pub open spec fn white_space(c: char) -> bool {
    let code = c as u32;
    ||| 0x09 <= code <= 0x0D
    ||| code == 0x20
    ||| code == 0x85
    ||| code == 0xA0
    ||| code == 0x1680
    ||| 0x2000 <= code <= 0x200A
    ||| code == 0x2028
    ||| code == 0x2029
    ||| code == 0x202F
    ||| code == 0x205F
    ||| code == 0x3000
}

/// A text without the white space that it begins with.
pub open spec fn trimmed_start(text: Seq<char>) -> Seq<char>
    decreases text.len(),
{
    if text.len() > 0 && white_space(text.first()) {
        trimmed_start(text.drop_first())
    } else {
        text
    }
}

/// A text without the white space that it ends with.
pub open spec fn trimmed_end(text: Seq<char>) -> Seq<char>
    decreases text.len(),
{
    if text.len() > 0 && white_space(text.last()) {
        trimmed_end(text.drop_last())
    } else {
        text
    }
}

/// A text without the white space at its two ends.
pub open spec fn trimmed(text: Seq<char>) -> Seq<char> {
    trimmed_end(trimmed_start(text))
}

/// `str::trim` returns the slice of its argument that is left when leading
/// and trailing white space is taken away, white space being what Unicode
/// marks as White_Space. Not proved: this is what the standard library
/// documents of the call.
pub assume_specification[ str::trim ](text: &str) -> (slice: &str)
    ensures
        slice@ == trimmed(text@),
;

/// One of the ten decimal digits.
pub open spec fn is_digit(c: char) -> bool {
    '0' <= c <= '9'
}

/// The number a decimal digit stands for, and 0 for any other character.
pub open spec fn digit_value(c: char) -> nat {
    if is_digit(c) {
        (c as u32 - '0' as u32) as nat
    } else {
        0
    }
}

/// The number that a run of decimal digits denotes, most significant
/// digit first. Leading zeros count for nothing.
pub open spec fn decimal_value(digits: Seq<char>) -> nat
    decreases digits.len(),
{
    if digits.len() == 0 {
        0
    } else {
        10 * decimal_value(digits.drop_last()) + digit_value(digits.last())
    }
}

/// A text made of decimal digits only, and of one at least.
pub open spec fn is_decimal(digits: Seq<char>) -> bool {
    digits.len() > 0 && forall|i: int| 0 <= i < digits.len() ==> is_digit(#[trigger] digits[i])
}

/// A text without the one `+` that may precede a number.
pub open spec fn unsigned_part(text: Seq<char>) -> Seq<char> {
    if text.len() > 0 && text[0] == '+' {
        text.skip(1)
    } else {
        text
    }
}

/// The eight-bit number written in `text`: an optional `+`, then decimal
/// digits and nothing else, denoting at most 255. Any other text, the empty
/// one included, denotes none.
pub open spec fn parsed_u8(text: Seq<char>) -> Option<u8> {
    let digits = unsigned_part(text);
    if is_decimal(digits) && decimal_value(digits) <= 255 {
        Some(decimal_value(digits) as u8)
    } else {
        None
    }
}

/// The number written in `text`, if it lies in `lower_bound..upper_bound`.
pub open spec fn bounded(text: Seq<char>, lower_bound: u8, upper_bound: u8) -> Option<u8> {
    match parsed_u8(text) {
        Some(n) => if lower_bound <= n < upper_bound {
            Some(n)
        } else {
            None
        },
        None => None,
    }
}

/// A number is never smaller than what a prefix of its digits denotes.
proof fn lemma_prefix_value(digits: Seq<char>, k: int)
    requires
        0 <= k <= digits.len(),
    ensures
        decimal_value(digits.take(k)) <= decimal_value(digits),
    decreases digits.len(),
{
    if k == digits.len() {
        assert(digits.take(k) =~= digits);
    } else {
        lemma_prefix_value(digits.drop_last(), k);
        assert(digits.drop_last().take(k) =~= digits.take(k));
    }
}

/// The characters of a text, in order.
fn chars_of(text: &str) -> (out: Vec<char>)
    ensures
        out@ == text@,
{
    let mut out: Vec<char> = Vec::new();
    for c in it: text.chars()
        invariant
            out@ == it.seq().take(it.index() as int),
            it.seq() == text@,
    {
        out.push(c);
    }
    out
}

/// Reads an eight-bit number from a text that holds nothing else.
pub fn parse_u8(text: &str) -> (r: Option<u8>)
    ensures
        r == parsed_u8(text@),
{
    let chars = chars_of(text);
    let start: usize = if chars.len() > 0 && chars[0] == '+' {
        1
    } else {
        0
    };
    let ghost digits = unsigned_part(text@);
    if start == chars.len() {
        return None;
    }
    let mut value: u16 = 0;
    let mut i: usize = start;
    while i < chars.len()
        invariant
            start <= i <= chars@.len(),
            digits == chars@.skip(start as int),
            digits == unsigned_part(text@),
            forall|j: int| 0 <= j < i - start ==> is_digit(#[trigger] digits[j]),
            value == decimal_value(digits.take(i - start)),
            value <= 255,
        decreases chars@.len() - i,
    {
        let c = chars[i];
        assert(c == digits[i - start]);
        if !(c >= '0' && c <= '9') {
            return None;
        }
        let d: u16 = (c as u32 - '0' as u32) as u16;
        let ghost longer = digits.take(i - start + 1);
        assert(longer.drop_last() =~= digits.take(i - start));
        if value * 10 + d > 255 {
            proof {
                lemma_prefix_value(digits, i - start + 1);
            }
            return None;
        }
        value = value * 10 + d;
        i += 1;
    }
    assert(digits.take(i - start) =~= digits);
    Some(value as u8)
}

/// Whether `n` lies in the half-open range `lower_bound..upper_bound`.
pub fn within(n: u8, lower_bound: u8, upper_bound: u8) -> (r: bool)
    ensures
        r == (lower_bound <= n < upper_bound),
{
    n >= lower_bound && n < upper_bound
}

/// Reads a number of the range `lower_bound..upper_bound` from a text that
/// holds nothing else.
pub fn accept(text: &str, lower_bound: u8, upper_bound: u8) -> (r: Option<u8>)
    ensures
        r == bounded(text@, lower_bound, upper_bound),
        r matches Some(n) ==> lower_bound <= n < upper_bound,
{
    match parse_u8(text) {
        Some(n) => if within(n, lower_bound, upper_bound) {
            Some(n)
        } else {
            None
        },
        None => None,
    }
}

/// Reads an eight-bit number from a typed line, white space at its ends
/// set aside. `None` asks for another line.
pub fn input_u8(line: &str) -> (r: Option<u8>)
    ensures
        r == parsed_u8(trimmed(line@)),
{
    parse_u8(line.trim())
}

/// Reads a number of the range `lower_bound..upper_bound` from a typed
/// line. `None` asks for another line; a number that comes back is never
/// outside the range.
pub fn bound(line: &str, lower_bound: u8, upper_bound: u8) -> (r: Option<u8>)
    ensures
        r == bounded(trimmed(line@), lower_bound, upper_bound),
        r matches Some(n) ==> lower_bound <= n < upper_bound,
{
    accept(line.trim(), lower_bound, upper_bound)
}

} // verus!
