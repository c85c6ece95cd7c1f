//! The smallest parts of the grammar: white space, keywords, identifiers,
//! numbers and strings.

use vstd::prelude::*;
use vstd::string::StringSliceAdditionalSpecFns;
use crate::data::text::{ascii_lower, spec_ascii_lower, utf8_text};
use crate::parser::error::ParserError;
use crate::parser::grammar::{
    after_space,
    digits_end,
    spec_as_clause,
    spec_identifier,
    spec_integer,
    spec_number_literal,
    spec_qualified_reference,
    spec_string_literal,
    string_scan,
    tick_at,
    word_end,
};

verus! {

/// How deep parentheses and sub-queries may be nested.
pub const MAX_DEPTH: u32 = 64;

/// A text being parsed and the place that parsing has come to.
pub struct Cursor<'a> {
    pub input: &'a [u8],
    pub pos: usize,
}

/// Whether a cursor has moved on in the same text, or stayed.
pub open spec fn moved_on(before: Cursor, after: Cursor) -> bool {
    &&& after.input@ == before.input@
    &&& before.pos <= after.pos <= after.input@.len()
}

/// Whether a byte is white space.
pub open spec fn is_space(b: u8) -> bool {
    b == 32 || b == 9 || b == 10 || b == 13
}

/// Whether a byte can stand in a bare identifier.
pub open spec fn is_word_byte(b: u8) -> bool {
    (97 <= b <= 122) || (65 <= b <= 90) || (48 <= b <= 57) || b == 95
}

pub fn word_byte(b: u8) -> (r: bool)
    ensures
        r == is_word_byte(b),
{
    (97 <= b && b <= 122) || (65 <= b && b <= 90) || (48 <= b && b <= 57) || b == 95
}

/// Whether the keyword `word` stands at `pos`, in any case of its letters,
/// and no letter, digit or underscore follows it.
#[verifier::opaque]
pub open spec fn keyword_at(input: Seq<u8>, pos: int, word: Seq<u8>) -> bool {
    &&& 0 <= pos
    &&& pos + word.len() <= input.len()
    &&& forall|i: int|
        0 <= i < word.len() ==> spec_ascii_lower(#[trigger] input[pos + i]) == spec_ascii_lower(
            word[i],
        )
    &&& (pos + word.len() < input.len() ==> !is_word_byte(input[pos + word.len()]))
}

/// Whether the bytes `token` stand at `pos`.
#[verifier::opaque]
pub open spec fn token_at(input: Seq<u8>, pos: int, token: Seq<u8>) -> bool {
    &&& 0 <= pos
    &&& pos + token.len() <= input.len()
    &&& input.subrange(pos, pos + token.len()) == token
}

impl<'a> Cursor<'a> {
    pub fn new(input: &'a [u8]) -> (c: Cursor<'a>)
        ensures
            c.input@ == input@,
            c.pos == 0,
    {
        Cursor { input, pos: 0 }
    }

    /// An error at the place that parsing has come to.
    pub fn error(&self, expected: &str) -> (e: ParserError)
        ensures
            e matches ParserError::Syntax { position, expected: text } && position == self.pos
                && text@ == expected@,
    {
        ParserError::Syntax { position: self.pos, expected: expected.to_owned() }
    }

    /// An error that says what another one says, at a place within the text.
    pub fn error_like(&self, error: ParserError) -> (e: ParserError)
        ensures
            e matches ParserError::Syntax { position, expected: _ } && position
                <= self.input@.len(),
    {
        match error {
            ParserError::Syntax { position, expected } => {
                if position <= self.input.len() {
                    ParserError::Syntax { position, expected }
                } else {
                    ParserError::Syntax { position: self.input.len(), expected }
                }
            },
        }
    }

    /// The byte at the place of the cursor.
    pub fn peek(&self) -> (b: Option<u8>)
        ensures
            b == if self.pos < self.input@.len() {
                Some(self.input@[self.pos as int])
            } else {
                None
            },
    {
        if self.pos < self.input.len() {
            Some(self.input[self.pos])
        } else {
            None
        }
    }

    /// Whether the whole text has been read.
    pub fn at_end(&self) -> (b: bool)
        ensures
            b == (self.pos >= self.input@.len()),
    {
        self.pos >= self.input.len()
    }

    /// Moves past white space.
    pub fn skip_space(&mut self)
        requires
            old(self).pos <= old(self).input@.len(),
        ensures
            moved_on(*old(self), *final(self)),
            final(self).pos == after_space(old(self).input@, old(self).pos as int),
    {
        while self.pos < self.input.len() && (self.input[self.pos] == 32 || self.input[self.pos]
            == 9 || self.input[self.pos] == 10 || self.input[self.pos] == 13)
            invariant
                self.input@ == old(self).input@,
                old(self).pos <= self.pos <= self.input@.len(),
                after_space(self.input@, self.pos as int) == after_space(
                    old(self).input@,
                    old(self).pos as int,
                ),
            decreases self.input@.len() - self.pos,
        {
            proof {
                reveal_with_fuel(after_space, 2);
            }
            self.pos += 1;
        }
        proof {
            reveal_with_fuel(after_space, 1);
        }
    }

    /// Whether the keyword stands at the place of the cursor.
    pub fn peek_keyword(&self, word: &str) -> (b: bool)
        requires
            self.pos <= self.input@.len(),
        ensures
            b == keyword_at(self.input@, self.pos as int, word.spec_bytes()),
    {
        reveal(keyword_at);
        let w = word.as_bytes();
        let n = self.input.len();
        if n - self.pos < w.len() {
            return false;
        }
        let mut i: usize = 0;
        while i < w.len()
            invariant
                i <= w@.len(),
                n == self.input@.len(),
                w@ == word.spec_bytes(),
                self.pos + w@.len() <= self.input@.len(),
                forall|k: int|
                    0 <= k < i ==> spec_ascii_lower(#[trigger] self.input@[self.pos + k])
                        == spec_ascii_lower(w@[k]),
            decreases w@.len() - i,
        {
            if ascii_lower(self.input[self.pos + i]) != ascii_lower(w[i]) {
                reveal(keyword_at);
                assert(spec_ascii_lower(self.input@[self.pos + i]) != spec_ascii_lower(w@[i as int]));
                return false;
            }
            i += 1;
        }
        if self.pos + w.len() < self.input.len() && word_byte(self.input[self.pos + w.len()]) {
            return false;
        }
        true
    }

    /// Moves past the keyword if it stands at the place of the cursor.
    pub fn eat_keyword(&mut self, word: &str) -> (b: bool)
        requires
            old(self).pos <= old(self).input@.len(),
        ensures
            moved_on(*old(self), *final(self)),
            b == keyword_at(old(self).input@, old(self).pos as int, word.spec_bytes()),
            final(self).pos == if b {
                old(self).pos + word.spec_bytes().len()
            } else {
                old(self).pos as int
            },
    {
        reveal(keyword_at);
        let n = self.input.len();
        if self.peek_keyword(word) {
            self.pos += word.as_bytes().len();
            true
        } else {
            false
        }
    }

    /// Whether the bytes stand at the place of the cursor.
    pub fn peek_token(&self, token: &str) -> (b: bool)
        requires
            self.pos <= self.input@.len(),
        ensures
            b == token_at(self.input@, self.pos as int, token.spec_bytes()),
    {
        reveal(token_at);
        let t = token.as_bytes();
        let n = self.input.len();
        if n - self.pos < t.len() {
            return false;
        }
        crate::data::text::bytes_eq(
            vstd::slice::slice_subrange(self.input, self.pos, self.pos + t.len()),
            t,
        )
    }

    /// Moves past the bytes if they stand at the place of the cursor.
    pub fn eat_token(&mut self, token: &str) -> (b: bool)
        requires
            old(self).pos <= old(self).input@.len(),
        ensures
            moved_on(*old(self), *final(self)),
            b == token_at(old(self).input@, old(self).pos as int, token.spec_bytes()),
            final(self).pos == if b {
                old(self).pos + token.spec_bytes().len()
            } else {
                old(self).pos as int
            },
    {
        reveal(token_at);
        let n = self.input.len();
        if self.peek_token(token) {
            self.pos += token.as_bytes().len();
            true
        } else {
            false
        }
    }
}

/// The words that cannot be names without quotes.
pub open spec fn reserved_words() -> Seq<Seq<u8>> {
    seq![
        "select".spec_bytes(),
        "from".spec_bytes(),
        "where".spec_bytes(),
        "group".spec_bytes(),
        "order".spec_bytes(),
        "by".spec_bytes(),
        "limit".spec_bytes(),
        "offset".spec_bytes(),
        "union".spec_bytes(),
        "all".spec_bytes(),
        "as".spec_bytes(),
        "and".spec_bytes(),
        "or".spec_bytes(),
        "not".spec_bytes(),
        "is".spec_bytes(),
        "between".spec_bytes(),
        "true".spec_bytes(),
        "false".spec_bytes(),
        "null".spec_bytes(),
        "cast".spec_bytes(),
        "values".spec_bytes(),
        "insert".spec_bytes(),
        "into".spec_bytes(),
        "on".spec_bytes(),
        "asc".spec_bytes(),
        "desc".spec_bytes(),
    ]
}

/// Whether a word is one of the first `n` reserved words, in whatever
/// case its letters are.
pub open spec fn spec_reserved(word: Seq<u8>, n: int) -> bool
    decreases n,
{
    if n <= 0 || n > reserved_words().len() {
        false
    } else {
        spec_reserved(word, n - 1) || crate::data::text::spec_eq_ignore_case(
            word,
            reserved_words()[n - 1],
        )
    }
}

/// Whether a word is one that cannot be a name without quotes.
pub fn is_reserved(word: &[u8]) -> (b: bool)
    ensures
        b == spec_reserved(word@, 26),
{
    let words = [
        "select",
        "from",
        "where",
        "group",
        "order",
        "by",
        "limit",
        "offset",
        "union",
        "all",
        "as",
        "and",
        "or",
        "not",
        "is",
        "between",
        "true",
        "false",
        "null",
        "cast",
        "values",
        "insert",
        "into",
        "on",
        "asc",
        "desc",
    ];
    let mut i: usize = 0;
    let mut found = false;
    assert(reserved_words().len() == 26);
    while i < 26
        invariant
            i <= 26,
            words@.len() == 26,
            reserved_words().len() == 26,
            forall|k: int| 0 <= k < 26 ==> (#[trigger] words@[k]).spec_bytes() == reserved_words()[k],
            found == spec_reserved(word@, i as int),
        decreases 26 - i,
    {
        if crate::data::text::eq_ignore_case(word, words[i].as_bytes()) {
            found = true;
        }
        i += 1;
    }
    found
}

/// What reading a text gave, with the place that reading came to.
pub open spec fn read_text(r: Option<String>, pos: usize) -> Option<(Seq<char>, int)> {
    match r {
        Some(text) => Some((text@, pos as int)),
        None => None,
    }
}

/// Reads a name: letters, digits and underscores that begin with no
/// digit and are no reserved word, or any text between back-ticks.
pub fn identifier(cursor: &mut Cursor) -> (r: Option<String>)
    requires
        old(cursor).pos <= old(cursor).input@.len(),
    ensures
        moved_on(*old(cursor), *final(cursor)),
        read_text(r, final(cursor).pos) == spec_identifier(
            old(cursor).input@,
            old(cursor).pos as int,
        ),
        r is None ==> final(cursor).pos == old(cursor).pos,
        r is Some ==> final(cursor).pos > old(cursor).pos,
{
    reveal(spec_identifier);
    let start = cursor.pos;
    let input = cursor.input;
    if start >= input.len() {
        return None;
    }
    if input[start] == 96 {
        // Between back-ticks.
        let mut end = start + 1;
        while end < input.len() && input[end] != 96
            invariant
                start < end <= input@.len(),
                tick_at(input@, end as int) == tick_at(input@, start + 1),
            decreases input@.len() - end,
        {
            end += 1;
        }
        if end >= input.len() {
            return None;
        }
        match utf8_text(vstd::slice::slice_subrange(input, start + 1, end)) {
            Some(text) => {
                proof {
                    vstd::utf8::encode_utf8_decode_utf8(text@);
                }
                cursor.pos = end + 1;
                Some(text.to_owned())
            },
            None => None,
        }
    } else {
        let first = input[start];
        if !word_byte(first) || (48 <= first && first <= 57) {
            return None;
        }
        let mut end = start + 1;
        while end < input.len() && word_byte(input[end])
            invariant
                start < end <= input@.len(),
                word_end(input@, end as int) == word_end(input@, start + 1),
            decreases input@.len() - end,
        {
            end += 1;
        }
        let word = vstd::slice::slice_subrange(input, start, end);
        if is_reserved(word) {
            return None;
        }
        match utf8_text(word) {
            Some(text) => {
                proof {
                    vstd::utf8::encode_utf8_decode_utf8(text@);
                }
                cursor.pos = end;
                Some(text.to_owned())
            },
            None => None,
        }
    }
}

/// The bytes of a text with its ASCII letters in lower case.
pub open spec fn lowered_bytes(bytes: Seq<u8>) -> Seq<u8> {
    Seq::new(bytes.len(), |i: int| crate::data::text::spec_ascii_lower(bytes[i]))
}

/// A name with its letters in lower case. A name whose bytes are no text
/// any more once its letters are lowered stays as it is.
pub fn lower_case(name: &str) -> (r: String)
    ensures
        r@ == if vstd::utf8::valid_utf8(lowered_bytes(name.spec_bytes())) {
            vstd::utf8::decode_utf8(lowered_bytes(name.spec_bytes()))
        } else {
            name@
        },
{
    let bytes = name.as_bytes();
    let mut lowered: Vec<u8> = Vec::new();
    let mut i: usize = 0;
    while i < bytes.len()
        invariant
            i <= bytes@.len(),
            lowered@.len() == i,
            forall|k: int|
                0 <= k < i ==> #[trigger] lowered@[k] == crate::data::text::spec_ascii_lower(
                    bytes@[k],
                ),
        decreases bytes@.len() - i,
    {
        lowered.push(ascii_lower(bytes[i]));
        i += 1;
    }
    assert(lowered@ =~= lowered_bytes(name.spec_bytes()));
    match utf8_text(lowered.as_slice()) {
        Some(text) => {
            proof {
                vstd::utf8::encode_utf8_decode_utf8(text@);
            }
            text.to_owned()
        },
        None => name.to_owned(),
    }
}

/// Reads a text between double quotes, in which a backslash makes the
/// byte after it stand for itself.
pub fn string_literal(cursor: &mut Cursor) -> (r: Option<Vec<u8>>)
    requires
        old(cursor).pos <= old(cursor).input@.len(),
    ensures
        moved_on(*old(cursor), *final(cursor)),
        match r {
            Some(text) => spec_string_literal(old(cursor).input@, old(cursor).pos as int) == Some(
                (text@, final(cursor).pos as int),
            ),
            None => spec_string_literal(old(cursor).input@, old(cursor).pos as int) is None,
        },
        r is None ==> final(cursor).pos == old(cursor).pos,
        r is Some ==> final(cursor).pos > old(cursor).pos,
{
    reveal(spec_string_literal);
    let input = cursor.input;
    let start = cursor.pos;
    if start >= input.len() || input[start] != 34 {
        return None;
    }
    let mut text: Vec<u8> = Vec::new();
    let mut at = start + 1;
    assert(text@ + string_scan(input@, at as int).0 =~= string_scan(input@, start + 1).0);
    while at < input.len() && input[at] != 34
        invariant
            start < at <= input@.len(),
            text@ + string_scan(input@, at as int).0 == string_scan(input@, start + 1).0,
            string_scan(input@, at as int).1 == string_scan(input@, start + 1).1,
        decreases input@.len() - at,
    {
        let ghost before = text@;
        let ghost here = at as int;
        if input[at] == 92 && at + 1 < input.len() {
            text.push(input[at + 1]);
            at += 2;
        } else {
            text.push(input[at]);
            at += 1;
        }
        assert(text@ + string_scan(input@, at as int).0 =~= before + string_scan(input@, here).0);
    }
    assert(text@ + Seq::<u8>::empty() =~= text@);
    if at >= input.len() {
        return None;
    }
    cursor.pos = at + 1;
    Some(text)
}

/// Reads a run of digits, with a point and more digits or without: the
/// bytes of the number and whether it has a point.
pub fn number_literal<'a>(cursor: &mut Cursor<'a>) -> (r: Option<(&'a [u8], bool)>)
    requires
        old(cursor).pos <= old(cursor).input@.len(),
    ensures
        moved_on(*old(cursor), *final(cursor)),
        match r {
            Some((digits, point)) => spec_number_literal(
                old(cursor).input@,
                old(cursor).pos as int,
            ) == Some((digits@, point, final(cursor).pos as int)),
            None => spec_number_literal(old(cursor).input@, old(cursor).pos as int) is None,
        },
        r is None ==> final(cursor).pos == old(cursor).pos,
        r is Some ==> final(cursor).pos > old(cursor).pos,
{
    reveal(spec_number_literal);
    let input = cursor.input;
    let start = cursor.pos;
    if start >= input.len() || input[start] < 48 || input[start] > 57 {
        return None;
    }
    let mut end = start + 1;
    while end < input.len() && 48 <= input[end] && input[end] <= 57
        invariant
            start < end <= input@.len(),
            digits_end(input@, end as int) == digits_end(input@, start + 1),
        decreases input@.len() - end,
    {
        end += 1;
    }
    let mut point = false;
    if end < input.len() && input.len() - end > 1 && input[end] == 46 && 48 <= input[end + 1]
        && input[end + 1] <= 57 {
        point = true;
        let ghost whole = end as int;
        end += 2;
        while end < input.len() && 48 <= input[end] && input[end] <= 57
            invariant
                start < end <= input@.len(),
                digits_end(input@, end as int) == digits_end(input@, whole + 2),
            decreases input@.len() - end,
        {
            end += 1;
        }
    }
    cursor.pos = end;
    Some((vstd::slice::slice_subrange(input, start, end), point))
}

/// Reads a whole number that fits in 64 bits.
pub fn integer(cursor: &mut Cursor) -> (r: Option<i64>)
    requires
        old(cursor).pos <= old(cursor).input@.len(),
    ensures
        moved_on(*old(cursor), *final(cursor)),
        match r {
            Some(value) => spec_integer(old(cursor).input@, old(cursor).pos as int) == Some(
                (value, final(cursor).pos as int),
            ),
            None => spec_integer(old(cursor).input@, old(cursor).pos as int) is None,
        },
        r is None ==> final(cursor).pos == old(cursor).pos,
{
    let start = cursor.pos;
    match number_literal(cursor) {
        Some((digits, false)) => match crate::data::text::parse_integer(digits, 0, i64::MAX) {
            Some(n) => Some(n),
            None => {
                cursor.pos = start;
                None
            },
        },
        _ => {
            cursor.pos = start;
            None
        },
    }
}

/// What reading a name with a name before it or without gave, with the
/// place that reading came to.
pub open spec fn read_reference(r: Option<(Option<String>, String)>, pos: usize) -> Option<
    (Option<Seq<char>>, Seq<char>, int),
> {
    match r {
        Some((Some(first), second)) => Some((Some(first@), second@, pos as int)),
        Some((None, second)) => Some((None, second@, pos as int)),
        None => None,
    }
}

/// Reads a name with a name before it and a point, or without: a table
/// with its database, a column with its table.
pub fn qualified_reference(cursor: &mut Cursor) -> (r: Option<(Option<String>, String)>)
    requires
        old(cursor).pos <= old(cursor).input@.len(),
    ensures
        moved_on(*old(cursor), *final(cursor)),
        read_reference(r, final(cursor).pos) == spec_qualified_reference(
            old(cursor).input@,
            old(cursor).pos as int,
        ),
        r is None ==> final(cursor).pos == old(cursor).pos,
        r is Some ==> final(cursor).pos > old(cursor).pos,
{
    let start = cursor.pos;
    let first = match identifier(cursor) {
        Some(name) => name,
        None => {
            return None;
        },
    };
    let after_first = cursor.pos;
    if cursor.eat_token(".") {
        match identifier(cursor) {
            Some(second) => Some((Some(first), second)),
            None => {
                cursor.pos = after_first;
                Some((None, first))
            },
        }
    } else {
        Some((None, first))
    }
}

/// Reads an alias: a name, with `AS` before it or without.
pub fn as_clause(cursor: &mut Cursor) -> (r: Option<String>)
    requires
        old(cursor).pos <= old(cursor).input@.len(),
    ensures
        moved_on(*old(cursor), *final(cursor)),
        read_text(r, final(cursor).pos) == spec_as_clause(
            old(cursor).input@,
            old(cursor).pos as int,
        ),
        r is None ==> final(cursor).pos == old(cursor).pos,
{
    let start = cursor.pos;
    cursor.skip_space();
    if cursor.eat_keyword("as") {
        cursor.skip_space();
    }
    match identifier(cursor) {
        Some(name) => Some(name),
        None => {
            cursor.pos = start;
            None
        },
    }
}

} // verus!
