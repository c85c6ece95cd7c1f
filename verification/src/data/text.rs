//! Text is held as bytes. These helpers build and compare ASCII text.

use vstd::prelude::*;
use vstd::string::StringSliceAdditionalSpecFns;

verus! {

/// Appends the UTF-8 bytes of `s` to `buf`.
pub fn push_text(buf: &mut Vec<u8>, s: &str)
    ensures
        final(buf)@ == old(buf)@ + s.spec_bytes(),
{
    buf.extend_from_slice(s.as_bytes());
}

/// Appends `bytes` to `buf`.
pub fn push_bytes(buf: &mut Vec<u8>, bytes: &[u8])
    ensures
        final(buf)@ == old(buf)@ + bytes@,
{
    buf.extend_from_slice(bytes);
}

/// The text that `String::from_utf8_lossy` makes of bytes.
pub uninterp spec fn lossy_text(bytes: Seq<u8>) -> Seq<char>;

/// Converts text bytes to a `String` through `String::from_utf8_lossy`: the
/// text depends on the bytes alone, and valid UTF-8 comes back unchanged; of
/// other input no more is claimed here (std puts U+FFFD in place of each
/// invalid sequence).
#[verifier::external_body]
pub(crate) fn lossy_string(bytes: &[u8]) -> (s: String)
    ensures
        s@ == lossy_text(bytes@),
        vstd::utf8::valid_utf8(bytes@) ==> s@ == vstd::utf8::decode_utf8(bytes@),
{
    String::from_utf8_lossy(bytes).into_owned()
}

/// Reads bytes as text through `std::str::from_utf8`: the text, whose bytes are
/// the ones given, exactly when they are valid UTF-8.
#[verifier::external_body]
pub(crate) fn utf8_text(bytes: &[u8]) -> (r: Option<&str>)
    ensures
        r is Some <==> vstd::utf8::valid_utf8(bytes@),
        r matches Some(s) ==> s.spec_bytes() == bytes@,
{
    std::str::from_utf8(bytes).ok()
}

/// The decimal digits of `n`, most significant first, as ASCII.
pub open spec fn nat_digits(n: nat) -> Seq<u8>
    decreases n,
{
    if n < 10 {
        seq![(48 + n) as u8]
    } else {
        nat_digits(n / 10).push((48 + n % 10) as u8)
    }
}

/// The decimal text of `i`, with a leading minus sign when negative.
pub open spec fn int_digits(i: int) -> Seq<u8> {
    if i < 0 {
        seq![45u8] + nat_digits((-i) as nat)
    } else {
        nat_digits(i as nat)
    }
}

/// Appends the decimal digits of `n` to `buf`.
pub fn push_u64(buf: &mut Vec<u8>, n: u64)
    ensures
        final(buf)@ == old(buf)@ + nat_digits(n as nat),
    decreases n,
{
    if n >= 10 {
        push_u64(buf, n / 10);
    }
    buf.push(48u8 + (n % 10) as u8);
}

/// Appends the decimal text of `i` to `buf`.
pub fn push_i64(buf: &mut Vec<u8>, i: i64)
    ensures
        final(buf)@ == old(buf)@ + int_digits(i as int),
{
    if i < 0 {
        buf.push(45u8);
        let magnitude: u64 = ((-(i + 1)) as u64) + 1;
        push_u64(buf, magnitude);
    } else {
        push_u64(buf, i as u64);
    }
}

/// The lower-case form of an ASCII letter; other bytes are unchanged.
pub open spec fn spec_ascii_lower(b: u8) -> u8 {
    if 65 <= b <= 90 {
        (b + 32) as u8
    } else {
        b
    }
}

pub fn ascii_lower(b: u8) -> (r: u8)
    ensures
        r == spec_ascii_lower(b),
{
    if 65 <= b && b <= 90 {
        b + 32
    } else {
        b
    }
}

/// Whether two texts are equal when ASCII letters are compared without case.
pub open spec fn spec_eq_ignore_case(a: Seq<u8>, b: Seq<u8>) -> bool {
    &&& a.len() == b.len()
    &&& forall|i: int| 0 <= i < a.len() ==> spec_ascii_lower(a[i]) == spec_ascii_lower(b[i])
}

pub fn eq_ignore_case(a: &[u8], b: &[u8]) -> (r: bool)
    ensures
        r == spec_eq_ignore_case(a@, b@),
{
    if a.len() != b.len() {
        return false;
    }
    let mut i: usize = 0;
    while i < a.len()
        invariant
            a@.len() == b@.len(),
            i <= a@.len(),
            forall|j: int| 0 <= j < i ==> spec_ascii_lower(a@[j]) == spec_ascii_lower(b@[j]),
        decreases a@.len() - i,
    {
        if ascii_lower(a[i]) != ascii_lower(b[i]) {
            return false;
        }
        i += 1;
    }
    true
}

/// Whether two byte strings are equal.
pub fn bytes_eq(a: &[u8], b: &[u8]) -> (r: bool)
    ensures
        r == (a@ == b@),
{
    if a.len() != b.len() {
        return false;
    }
    let mut i: usize = 0;
    while i < a.len()
        invariant
            a@.len() == b@.len(),
            i <= a@.len(),
            forall|j: int| 0 <= j < i ==> a@[j] == b@[j],
        decreases a@.len() - i,
    {
        if a[i] != b[i] {
            return false;
        }
        i += 1;
    }
    assert(a@ =~= b@);
    true
}

/// A fresh vector holding a copy of `bytes`.
pub fn to_vec(bytes: &[u8]) -> (v: Vec<u8>)
    ensures
        v@ == bytes@,
{
    let mut v: Vec<u8> = Vec::new();
    v.extend_from_slice(bytes);
    v
}

/// Whether a byte is an ASCII digit.
pub open spec fn is_ascii_digit(b: u8) -> bool {
    48 <= b <= 57
}

/// The number that a text of decimal digits holds; nothing for an empty
/// text or one with another byte in it.
pub open spec fn digits_value(s: Seq<u8>) -> Option<nat>
    decreases s.len(),
{
    if s.len() == 0 || !is_ascii_digit(s.last()) {
        None
    } else if s.len() == 1 {
        Some((s[0] - 48) as nat)
    } else {
        match digits_value(s.drop_last()) {
            Some(v) => Some(v * 10 + (s.last() - 48) as nat),
            None => None,
        }
    }
}

/// The integer that a text holds: decimal digits, with `+` or `-` before
/// them or neither.
pub open spec fn integer_value(s: Seq<u8>) -> Option<int> {
    if s.len() > 0 && s[0] == 45 {
        match digits_value(s.subrange(1, s.len() as int)) {
            Some(v) => Some(-(v as int)),
            None => None,
        }
    } else if s.len() > 0 && s[0] == 43 {
        match digits_value(s.subrange(1, s.len() as int)) {
            Some(v) => Some(v as int),
            None => None,
        }
    } else {
        match digits_value(s) {
            Some(v) => Some(v as int),
            None => None,
        }
    }
}

/// The integer that a text holds, where it lies between two bounds.
pub open spec fn bounded_integer_value(s: Seq<u8>, min: int, max: int) -> Option<int> {
    match integer_value(s) {
        Some(v) => if min <= v <= max {
            Some(v)
        } else {
            None
        },
        None => None,
    }
}

/// Digits that are part of a longer run of digits hold no more than the run.
pub proof fn lemma_digits_prefix(s: Seq<u8>, k: int)
    requires
        1 <= k <= s.len(),
        digits_value(s) is Some,
    ensures
        digits_value(s.subrange(0, k)) is Some,
        digits_value(s.subrange(0, k))->0 <= digits_value(s)->0,
    decreases s.len(),
{
    if k == s.len() {
        assert(s.subrange(0, k) =~= s);
    } else {
        assert(s.drop_last().subrange(0, k) =~= s.subrange(0, k));
        lemma_digits_prefix(s.drop_last(), k);
    }
}

/// Reads digits from `from` to the end of `text`: the number they hold,
/// where it is at most `limit`.
fn parse_digits(text: &[u8], from: usize, limit: u64) -> (r: Option<u64>)
    requires
        from <= text@.len(),
    ensures
        match r {
            Some(v) => digits_value(text@.subrange(from as int, text@.len() as int)) == Some(
                v as nat,
            ) && v <= limit,
            None => match digits_value(text@.subrange(from as int, text@.len() as int)) {
                Some(v) => v > limit,
                None => true,
            },
        },
{
    let n = text.len();
    let ghost s = text@.subrange(from as int, n as int);
    if from >= n {
        return None;
    }
    let mut acc: u64 = 0;
    let mut i: usize = from;
    while i < n
        invariant
            from <= i <= n,
            n == text@.len(),
            s == text@.subrange(from as int, n as int),
            acc <= limit,
            i > from ==> digits_value(s.subrange(0, i - from)) == Some(acc as nat),
            i == from ==> acc == 0,
        decreases n - i,
    {
        let b = text[i];
        proof {
            assert(s.subrange(0, i - from + 1).drop_last() =~= s.subrange(0, i - from));
            assert(s.subrange(0, i - from + 1).last() == b);
        }
        if b < 48 || b > 57 {
            proof {
                if digits_value(s) is Some {
                    lemma_digits_prefix(s, i - from + 1);
                }
            }
            return None;
        }
        let d = (b - 48) as u64;
        if limit < d || acc > (limit - d) / 10 {
            proof {
                if digits_value(s) is Some {
                    lemma_digits_prefix(s, i - from + 1);
                }
            }
            return None;
        }
        acc = acc * 10 + d;
        i += 1;
    }
    assert(s.subrange(0, n - from) =~= s);
    Some(acc)
}

/// Reads an integer between `min` and `max`.
pub fn parse_integer(text: &[u8], min: i64, max: i64) -> (r: Option<i64>)
    requires
        min <= 0 <= max,
    ensures
        match r {
            Some(v) => bounded_integer_value(text@, min as int, max as int) == Some(v as int),
            None => bounded_integer_value(text@, min as int, max as int) is None,
        },
{
    if text.len() > 0 && text[0] == 45 {
        let limit: u64 = if min == i64::MIN {
            0x8000_0000_0000_0000
        } else {
            (-min) as u64
        };
        match parse_digits(text, 1, limit) {
            Some(v) => Some((-(v as i128)) as i64),
            None => None,
        }
    } else if text.len() > 0 && text[0] == 43 {
        match parse_digits(text, 1, max as u64) {
            Some(v) => Some(v as i64),
            None => None,
        }
    } else {
        match parse_digits(text, 0, max as u64) {
            Some(v) => {
                assert(text@.subrange(0, text@.len() as int) =~= text@);
                Some(v as i64)
            },
            None => {
                assert(text@.subrange(0, text@.len() as int) =~= text@);
                None
            },
        }
    }
}

/// The digits of a number are valid UTF-8.
pub proof fn lemma_digits_valid(n: nat)
    ensures
        vstd::utf8::valid_utf8(nat_digits(n)),
    decreases n,
{
    let last = seq![(48 + n % 10) as u8];
    assert(vstd::utf8::valid_utf8(last)) by {
        assert(vstd::utf8::partial_valid_utf8(last, 0)) by {
            assert(last.subrange(0, 0) =~= Seq::<u8>::empty());
        }
        vstd::utf8::partial_valid_utf8_extend_ascii_block(last, 0, 1);
        assert(last.subrange(0, 1) =~= last);
    }
    if n < 10 {
        assert(nat_digits(n) =~= last);
    } else {
        lemma_digits_valid(n / 10);
        vstd::utf8::valid_utf8_concat(nat_digits(n / 10), last);
        assert(nat_digits(n) =~= nat_digits(n / 10) + last);
    }
}

} // verus!
