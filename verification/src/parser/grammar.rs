//! The grammar of the smallest parts: what each of them reads at a place
//! of a text, and where it ends.

use vstd::prelude::*;
use vstd::string::StringSliceAdditionalSpecFns;
use crate::data::text::bounded_integer_value;
use crate::parser::atoms::{is_space, is_word_byte, keyword_at, spec_reserved, token_at};

verus! {

/// The place after the white space that begins at a place.
#[verifier::opaque]
pub open spec fn after_space(input: Seq<u8>, pos: int) -> int
    decreases input.len() - pos,
{
    if 0 <= pos < input.len() && is_space(input[pos]) {
        after_space(input, pos + 1)
    } else {
        pos
    }
}

/// The place after the letters, digits and underscores that begin at a
/// place.
pub open spec fn word_end(input: Seq<u8>, pos: int) -> int
    decreases input.len() - pos,
{
    if 0 <= pos < input.len() && is_word_byte(input[pos]) {
        word_end(input, pos + 1)
    } else {
        pos
    }
}

/// Whether a byte is a decimal digit.
pub open spec fn is_digit(b: u8) -> bool {
    48 <= b <= 57
}

/// The place after the digits that begin at a place.
pub open spec fn digits_end(input: Seq<u8>, pos: int) -> int
    decreases input.len() - pos,
{
    if 0 <= pos < input.len() && is_digit(input[pos]) {
        digits_end(input, pos + 1)
    } else {
        pos
    }
}

/// The place of the first back-tick from a place on; the end of the text
/// where there is none.
pub open spec fn tick_at(input: Seq<u8>, pos: int) -> int
    decreases input.len() - pos,
{
    if 0 <= pos < input.len() && input[pos] != 96 {
        tick_at(input, pos + 1)
    } else {
        pos
    }
}

/// The name at a place and the place after it: letters, digits and
/// underscores that begin with no digit and are no reserved word, or any
/// text between back-ticks.
#[verifier::opaque]
pub open spec fn spec_identifier(input: Seq<u8>, pos: int) -> Option<(Seq<char>, int)> {
    if pos < 0 || pos >= input.len() {
        None
    } else if input[pos] == 96 {
        let end = tick_at(input, pos + 1);
        let name = input.subrange(pos + 1, end);
        if end >= input.len() || !vstd::utf8::valid_utf8(name) {
            None
        } else {
            Some((vstd::utf8::decode_utf8(name), end + 1))
        }
    } else if !is_word_byte(input[pos]) || is_digit(input[pos]) {
        None
    } else {
        let end = word_end(input, pos + 1);
        let word = input.subrange(pos, end);
        if spec_reserved(word, 26) || !vstd::utf8::valid_utf8(word) {
            None
        } else {
            Some((vstd::utf8::decode_utf8(word), end))
        }
    }
}

/// The bytes of a text between double quotes from a place on, and the
/// place of the quote that ends it, or the end of the input: a backslash
/// makes the byte after it stand for itself.
pub open spec fn string_scan(input: Seq<u8>, at: int) -> (Seq<u8>, int)
    decreases input.len() - at,
{
    if at < 0 || at >= input.len() || input[at] == 34 {
        (Seq::empty(), at)
    } else if input[at] == 92 && at + 1 < input.len() {
        let rest = string_scan(input, at + 2);
        (seq![input[at + 1]] + rest.0, rest.1)
    } else {
        let rest = string_scan(input, at + 1);
        (seq![input[at]] + rest.0, rest.1)
    }
}

/// The text between double quotes at a place, and the place after it.
#[verifier::opaque]
pub open spec fn spec_string_literal(input: Seq<u8>, pos: int) -> Option<(Seq<u8>, int)> {
    if pos < 0 || pos >= input.len() || input[pos] != 34 {
        None
    } else {
        let scanned = string_scan(input, pos + 1);
        if scanned.1 >= input.len() {
            None
        } else {
            Some((scanned.0, scanned.1 + 1))
        }
    }
}

/// The number at a place: its bytes, whether it has a point, and the
/// place after it. A point belongs to the number only where a digit
/// follows it.
#[verifier::opaque]
pub open spec fn spec_number_literal(input: Seq<u8>, pos: int) -> Option<(Seq<u8>, bool, int)> {
    if pos < 0 || pos >= input.len() || !is_digit(input[pos]) {
        None
    } else {
        let whole = digits_end(input, pos + 1);
        if whole + 1 < input.len() && input[whole] == 46 && is_digit(input[whole + 1]) {
            let end = digits_end(input, whole + 2);
            Some((input.subrange(pos, end), true, end))
        } else {
            Some((input.subrange(pos, whole), false, whole))
        }
    }
}

/// The whole number at a place that fits in 64 bits, and the place after
/// it.
pub open spec fn spec_integer(input: Seq<u8>, pos: int) -> Option<(i64, int)> {
    match spec_number_literal(input, pos) {
        Some((digits, false, end)) => match bounded_integer_value(digits, 0, i64::MAX as int) {
            Some(value) => Some((value as i64, end)),
            None => None,
        },
        _ => None,
    }
}

/// The name at a place with a name before it and a point, or without,
/// and the place after it.
pub open spec fn spec_qualified_reference(input: Seq<u8>, pos: int) -> Option<
    (Option<Seq<char>>, Seq<char>, int),
> {
    match spec_identifier(input, pos) {
        None => None,
        Some((first, after_first)) => if token_at(input, after_first, ".".spec_bytes()) {
            match spec_identifier(input, after_first + ".".spec_bytes().len()) {
                Some((second, end)) => Some((Some(first), second, end)),
                None => Some((None, first, after_first)),
            }
        } else {
            Some((None, first, after_first))
        },
    }
}

/// The alias at a place, after white space and with `AS` before it or
/// without, and the place after it.
pub open spec fn spec_as_clause(input: Seq<u8>, pos: int) -> Option<(Seq<char>, int)> {
    let start = after_space(input, pos);
    let named = if keyword_at(input, start, "as".spec_bytes()) {
        after_space(input, start + "as".spec_bytes().len())
    } else {
        start
    };
    spec_identifier(input, named)
}

} // verus!
