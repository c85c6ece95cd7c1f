//! Order-preserving binary encodings of integers, decimals and byte strings.
//!
//! Every encoding here is ascending: the bytes of a smaller value come first
//! in lexicographic order. A descending encoding is the ascending one with
//! every byte inverted.

use vstd::prelude::*;
use crate::data::SortOrder;
use crate::data::decimal::{pow10, pow10_u128, Decimal, MAX_MAGNITUDE};

verus! {

/// The byte that takes the place of `b` in a descending encoding.
pub open spec fn invert(b: u8) -> u8 {
    (255 - b) as u8
}

/// A byte string with every byte inverted.
pub open spec fn inverted(s: Seq<u8>) -> Seq<u8> {
    Seq::new(s.len(), |i: int| invert(s[i]))
}

/// An ascending encoding put in the given order.
pub open spec fn apply_order(s: Seq<u8>, order: SortOrder) -> Seq<u8> {
    match order {
        SortOrder::Asc => s,
        SortOrder::Desc => inverted(s),
    }
}

/// The bytes of a buffer as an ascending encoding would have them.
pub open spec fn ascending(s: Seq<u8>, desc: bool) -> Seq<u8> {
    if desc {
        inverted(s)
    } else {
        s
    }
}

/// 256 to the power `n`.
pub open spec fn pow256(n: nat) -> nat
    decreases n,
{
    if n == 0 {
        1
    } else {
        256 * pow256((n - 1) as nat)
    }
}

/// The `width` low-order bytes of `x`, most significant first.
pub open spec fn be_bytes(x: nat, width: nat) -> Seq<u8>
    decreases width,
{
    if width == 0 {
        Seq::empty()
    } else {
        be_bytes(x / 256, (width - 1) as nat).push((x % 256) as u8)
    }
}

/// The number that a big-endian byte string holds.
pub open spec fn be_value(s: Seq<u8>) -> nat
    decreases s.len(),
{
    if s.len() == 0 {
        0
    } else {
        be_value(s.drop_last()) * 256 + s.last() as nat
    }
}

pub proof fn lemma_be_bytes_len(x: nat, width: nat)
    ensures
        be_bytes(x, width).len() == width,
    decreases width,
{
    if width > 0 {
        lemma_be_bytes_len(x / 256, (width - 1) as nat);
    }
}

pub proof fn lemma_be_value_bound(s: Seq<u8>)
    ensures
        be_value(s) < pow256(s.len()),
    decreases s.len(),
{
    if s.len() > 0 {
        lemma_be_value_bound(s.drop_last());
    }
}

/// Reading back the bytes of a number that fits gives the number.
pub proof fn lemma_be_round_trip(x: nat, width: nat)
    requires
        x < pow256(width),
    ensures
        be_value(be_bytes(x, width)) == x,
    decreases width,
{
    if width > 0 {
        let s = be_bytes(x, width);
        assert(s.drop_last() =~= be_bytes(x / 256, (width - 1) as nat));
        lemma_be_round_trip(x / 256, (width - 1) as nat);
    }
}

/// Writing out the number read from bytes gives the bytes.
pub proof fn lemma_be_bytes_of_value(s: Seq<u8>)
    ensures
        be_bytes(be_value(s), s.len()) == s,
    decreases s.len(),
{
    if s.len() > 0 {
        lemma_be_bytes_of_value(s.drop_last());
        let x = be_value(s);
        assert(x / 256 == be_value(s.drop_last()));
        assert(x % 256 == s.last() as nat);
        assert(be_bytes(x, s.len()) =~= s);
    } else {
        assert(be_bytes(be_value(s), s.len()) =~= s);
    }
}

pub proof fn lemma_pow256_values()
    ensures
        pow256(4) == 0x1_0000_0000,
        pow256(8) == 0x1_0000_0000_0000_0000,
        pow256(13) == 0x1_00_0000_0000_0000_0000_0000_0000,
{
    reveal_with_fuel(pow256, 14);
}

pub proof fn lemma_pow256_increases(a: nat, b: nat)
    requires
        a <= b,
    ensures
        1 <= pow256(a) <= pow256(b),
    decreases b,
{
    if a < b {
        lemma_pow256_increases(a, (b - 1) as nat);
    } else if a > 0 {
        lemma_pow256_increases((a - 1) as nat, (b - 1) as nat);
    }
}

/// Appends the `width` low-order bytes of `x`, most significant first.
pub fn push_be(buf: &mut Vec<u8>, x: u128, width: u32)
    ensures
        final(buf)@ == old(buf)@ + be_bytes(x as nat, width as nat),
    decreases width,
{
    if width > 0 {
        push_be(buf, x / 256, width - 1);
        buf.push((x % 256) as u8);
        assert(final(buf)@ =~= old(buf)@ + be_bytes(x as nat, width as nat));
    } else {
        assert(buf@ =~= old(buf)@ + be_bytes(x as nat, width as nat));
    }
}

/// The byte at `pos` as an ascending encoding would have it.
pub fn byte_at(buf: &[u8], pos: usize, desc: bool) -> (b: u8)
    requires
        pos < buf@.len(),
    ensures
        b == ascending(buf@, desc)[pos as int],
{
    if desc {
        255 - buf[pos]
    } else {
        buf[pos]
    }
}

/// Reads a big-endian number of `width` bytes at `pos`.
pub fn read_be(buf: &[u8], pos: usize, width: usize, desc: bool) -> (r: Option<u128>)
    requires
        width <= 13,
    ensures
        r is Some <==> pos + width <= buf@.len(),
        r matches Some(x) ==> x == be_value(
            ascending(buf@, desc).subrange(pos as int, pos + width),
        ),
{
    if pos > buf.len() || buf.len() - pos < width {
        return None;
    }
    let ghost u = ascending(buf@, desc);
    let n = buf.len();
    let mut acc: u128 = 0;
    let mut i: usize = 0;
    while i < width
        invariant
            i <= width <= 13,
            n == buf@.len(),
            pos + width <= n,
            u == ascending(buf@, desc),
            u.len() == buf@.len(),
            acc == be_value(u.subrange(pos as int, pos + i)),
        decreases width - i,
    {
        proof {
            lemma_be_value_bound(u.subrange(pos as int, pos + i));
            lemma_pow256_increases(i as nat, 13);
            lemma_pow256_values();
            assert(u.subrange(pos as int, pos + i + 1).drop_last() =~= u.subrange(
                pos as int,
                pos + i,
            ));
        }
        let b = byte_at(buf, pos + i, desc);
        acc = acc * 256 + b as u128;
        i += 1;
    }
    Some(acc)
}

/// Inverts every byte of `buf` from `start` on, which turns an ascending
/// encoding written there into a descending one.
pub fn invert_tail(buf: &mut Vec<u8>, start: usize)
    requires
        start <= old(buf)@.len(),
    ensures
        final(buf)@ == old(buf)@.subrange(0, start as int) + inverted(
            old(buf)@.subrange(start as int, old(buf)@.len() as int),
        ),
{
    let mut i: usize = start;
    let len = buf.len();
    while i < len
        invariant
            start <= i <= len,
            len == buf@.len(),
            len == old(buf)@.len(),
            forall|j: int| 0 <= j < start ==> buf@[j] == old(buf)@[j],
            forall|j: int| start <= j < i ==> buf@[j] == invert(old(buf)@[j]),
            forall|j: int| i <= j < len ==> buf@[j] == old(buf)@[j],
        decreases len - i,
    {
        let b = buf[i];
        buf[i] = 255 - b;
        i += 1;
    }
    assert(buf@ =~= old(buf)@.subrange(0, start as int) + inverted(
        old(buf)@.subrange(start as int, old(buf)@.len() as int),
    ));
}

/// The place of a 32-bit integer among the naturals: its sign bit flipped.
pub open spec fn sortable_i32(i: i32) -> nat {
    (i + 0x8000_0000) as nat
}

/// The place of a 64-bit integer among the naturals: its sign bit flipped.
pub open spec fn sortable_i64(i: i64) -> nat {
    (i + 0x8000_0000_0000_0000) as nat
}

/// The escaped form of one byte: a zero byte becomes 0x00 0xFF.
pub open spec fn escape_byte(b: u8) -> Seq<u8> {
    if b == 0 {
        seq![0u8, 255u8]
    } else {
        seq![b]
    }
}

/// The escaped form of a byte string, without its terminator.
pub open spec fn escape(s: Seq<u8>) -> Seq<u8>
    decreases s.len(),
{
    if s.len() == 0 {
        Seq::empty()
    } else {
        escape(s.drop_last()) + escape_byte(s.last())
    }
}

/// The encoding of a byte string: its escaped form, ended by 0x00 0x01.
pub open spec fn encode_bytes(s: Seq<u8>) -> Seq<u8> {
    escape(s) + seq![0u8, 1u8]
}

/// Reads an escaped byte string that starts at `pos`, adding to `acc`: the
/// string and the place after its terminator, or nothing where the bytes
/// end early or hold a zero byte that neither 0xFF nor 0x01 follows.
pub open spec fn unescape_from(enc: Seq<u8>, pos: int, acc: Seq<u8>) -> Option<(Seq<u8>, int)>
    decreases enc.len() - pos,
{
    if pos < 0 || pos >= enc.len() {
        None
    } else if enc[pos] != 0 {
        unescape_from(enc, pos + 1, acc.push(enc[pos]))
    } else if pos + 1 >= enc.len() {
        None
    } else if enc[pos + 1] == 255 {
        unescape_from(enc, pos + 2, acc.push(0u8))
    } else if enc[pos + 1] == 1 {
        Some((acc, pos + 2))
    } else {
        None
    }
}

/// Appends the encoding of a byte string.
pub fn push_escaped(buf: &mut Vec<u8>, bytes: &[u8])
    ensures
        final(buf)@ == old(buf)@ + encode_bytes(bytes@),
{
    let mut i: usize = 0;
    while i < bytes.len()
        invariant
            i <= bytes@.len(),
            buf@ == old(buf)@ + escape(bytes@.subrange(0, i as int)),
        decreases bytes@.len() - i,
    {
        proof {
            assert(bytes@.subrange(0, i + 1).drop_last() =~= bytes@.subrange(0, i as int));
        }
        let ghost before = buf@;
        let b = bytes[i];
        if b == 0 {
            buf.push(0);
            buf.push(255);
        } else {
            buf.push(b);
        }
        assert(buf@ =~= before + escape_byte(b));
        assert(buf@ =~= old(buf)@ + escape(bytes@.subrange(0, i + 1)));
        i += 1;
    }
    assert(bytes@.subrange(0, i as int) =~= bytes@);
    let ghost before = buf@;
    buf.push(0);
    buf.push(1);
    assert(buf@ =~= before + seq![0u8, 1u8]);
    assert(buf@ =~= old(buf)@ + encode_bytes(bytes@));
}

/// Reads an encoded byte string at `pos`: the string and the place after it.
pub fn read_escaped(buf: &[u8], pos: usize, desc: bool) -> (r: Option<(Vec<u8>, usize)>)
    ensures
        match r {
            Some((v, end)) => unescape_from(ascending(buf@, desc), pos as int, Seq::empty())
                == Some((v@, end as int)) && pos < end <= buf@.len(),
            None => unescape_from(ascending(buf@, desc), pos as int, Seq::empty()) is None,
        },
{
    let ghost u = ascending(buf@, desc);
    let mut acc: Vec<u8> = Vec::new();
    let mut i: usize = pos;
    while i < buf.len()
        invariant
            pos <= i,
            u == ascending(buf@, desc),
            u.len() == buf@.len(),
            unescape_from(u, pos as int, Seq::empty()) == unescape_from(u, i as int, acc@),
        decreases buf@.len() - i,
    {
        let b = byte_at(buf, i, desc);
        if b != 0 {
            acc.push(b);
            i += 1;
        } else {
            if i + 1 >= buf.len() {
                return None;
            }
            let n = byte_at(buf, i + 1, desc);
            if n == 255 {
                acc.push(0);
                i += 2;
            } else if n == 1 {
                return Some((acc, i + 2));
            } else {
                return None;
            }
        }
    }
    None
}

/// The number of decimal digits of `n`; zero has one.
pub open spec fn digit_count(n: nat) -> nat
    decreases n,
{
    if n < 10 {
        1
    } else {
        1 + digit_count(n / 10)
    }
}

/// A number below `10^k`, for `k` at least one, has at most `k` digits.
pub proof fn lemma_digit_count_bound(n: nat, k: nat)
    requires
        k >= 1,
        n < pow10(k),
    ensures
        1 <= digit_count(n) <= k,
    decreases n,
{
    if n >= 10 {
        reveal_with_fuel(pow10, 2);
        assert(k >= 2) by {
            if k == 1 {
                assert(pow10(1) == 10);
            }
        }
        lemma_digit_count_bound(n / 10, (k - 1) as nat);
    }
}

/// A number lies between the powers of ten that its digit count names.
pub proof fn lemma_digit_count_range(n: nat)
    requires
        n >= 1,
    ensures
        pow10((digit_count(n) - 1) as nat) <= n < pow10(digit_count(n)),
    decreases n,
{
    reveal_with_fuel(pow10, 2);
    if n >= 10 {
        lemma_digit_count_range(n / 10);
    }
}

/// The number of decimal digits of `n`, for `n` below 10^29.
pub fn count_digits(n: u128) -> (d: u32)
    requires
        n < 100000000000000000000000000000,
    ensures
        d == digit_count(n as nat),
        1 <= d <= 29,
{
    proof {
        crate::data::decimal::lemma_pow10_29();
        lemma_digit_count_bound(n as nat, 29);
    }
    let mut d: u32 = 1;
    let mut rest: u128 = n;
    while rest >= 10
        invariant
            1 <= d,
            d + digit_count(rest as nat) == digit_count(n as nat) + 1,
            digit_count(n as nat) <= 29,
        decreases rest,
    {
        rest = rest / 10;
        d += 1;
    }
    d
}

/// The bytes that encode a decimal after its tag.
///
/// A class byte comes first: 0 for a negative decimal, 1 for zero, 2 for a
/// positive one. Zero is followed by its scale. Any other decimal is
/// followed by the place of its leading digit (the number of digits of the
/// magnitude, less the scale, plus 64), the magnitude brought to 29 digits
/// in 13 bytes, and the scale, which tells equal values apart. For a
/// negative decimal these bytes are inverted.
pub open spec fn encode_decimal(mantissa: int, scale: nat) -> Seq<u8> {
    if mantissa == 0 {
        seq![1u8, scale as u8]
    } else {
        let magnitude = (if mantissa < 0 {
            -mantissa
        } else {
            mantissa
        }) as nat;
        let digits = digit_count(magnitude);
        let body = seq![(digits - scale + 64) as u8] + be_bytes(
            magnitude * pow10((29 - digits) as nat),
            13,
        ) + seq![scale as u8];
        if mantissa > 0 {
            seq![2u8] + body
        } else {
            seq![0u8] + inverted(body)
        }
    }
}

/// Reads the bytes that encode a decimal at `pos`: mantissa, scale and the
/// place after them; nothing where the bytes are no encoding of a decimal.
pub open spec fn decode_decimal(enc: Seq<u8>, pos: int) -> Option<((int, nat), int)> {
    if pos < 0 || pos + 2 > enc.len() {
        None
    } else if enc[pos] == 1 {
        if enc[pos + 1] <= 28 {
            Some(((0, enc[pos + 1] as nat), pos + 2))
        } else {
            None
        }
    } else if (enc[pos] == 0 || enc[pos] == 2) && pos + 16 <= enc.len() {
        let raw = enc.subrange(pos + 1, pos + 16);
        let body = if enc[pos] == 0 {
            inverted(raw)
        } else {
            raw
        };
        let place = body[0] as int;
        let scaled = be_value(body.subrange(1, 14));
        let scale = body[14] as nat;
        let digits = place - 64 + scale;
        if scale <= 28 && 1 <= digits <= 29 {
            let unit = pow10((29 - digits) as nat);
            let magnitude = scaled / unit;
            if scaled % unit == 0 && 1 <= magnitude <= MAX_MAGNITUDE && digit_count(magnitude)
                == digits {
                Some(
                    (
                        (
                            if enc[pos] == 0 {
                                -(magnitude as int)
                            } else {
                                magnitude as int
                            },
                            scale,
                        ),
                        pos + 16,
                    ),
                )
            } else {
                None
            }
        } else {
            None
        }
    } else {
        None
    }
}

/// Appends the bytes that encode a decimal after its tag.
pub fn push_decimal(buf: &mut Vec<u8>, d: &Decimal)
    ensures
        final(buf)@ == old(buf)@ + encode_decimal(d.spec_mantissa(), d.spec_scale()),
{
    let mantissa = d.mantissa();
    let scale = d.scale();
    if mantissa == 0 {
        buf.push(1);
        buf.push(scale as u8);
        assert(buf@ =~= old(buf)@ + seq![1u8, scale as u8]);
        return ;
    }
    let magnitude: u128 = if mantissa < 0 {
        (-mantissa) as u128
    } else {
        mantissa as u128
    };
    proof {
        crate::data::decimal::lemma_pow10_29();
    }
    let digits = count_digits(magnitude);
    let unit = pow10_u128(29 - digits);
    proof {
        lemma_digit_count_range(magnitude as nat);
        crate::data::decimal::lemma_pow10_adds(digits as nat, (29 - digits) as nat);
        assert(magnitude * unit < pow10(digits as nat) * unit) by (nonlinear_arith)
            requires
                magnitude < pow10(digits as nat),
                unit >= 1,
        ;
    }
    let scaled = magnitude * unit;
    let start = buf.len();
    if mantissa > 0 {
        buf.push(2);
    } else {
        buf.push(0);
    }
    let body_start = buf.len();
    buf.push((digits + 64 - scale) as u8);
    push_be(buf, scaled, 13);
    buf.push(scale as u8);
    let ghost body = seq![(digits - scale + 64) as u8] + be_bytes(scaled as nat, 13) + seq![
        scale as u8,
    ];
    assert(buf@ =~= old(buf)@ + seq![buf@[start as int]] + body);
    if mantissa < 0 {
        invert_tail(buf, body_start);
        assert(buf@ =~= old(buf)@ + (seq![0u8] + inverted(body)));
    } else {
        assert(buf@ =~= old(buf)@ + (seq![2u8] + body));
    }
}

/// Reads the bytes that encode a decimal at `pos`.
pub fn read_decimal(buf: &[u8], pos: usize, desc: bool) -> (r: Option<(Decimal, usize)>)
    ensures
        match r {
            Some((d, end)) => decode_decimal(ascending(buf@, desc), pos as int) == Some(
                (d@, end as int),
            ) && pos < end <= buf@.len() && d.wf(),
            None => decode_decimal(ascending(buf@, desc), pos as int) is None,
        },
{
    let ghost u = ascending(buf@, desc);
    if pos >= buf.len() || buf.len() - pos < 2 {
        return None;
    }
    let class = byte_at(buf, pos, desc);
    if class == 1 {
        let scale = byte_at(buf, pos + 1, desc);
        if scale <= 28 {
            match Decimal::try_new(0, scale as u32) {
                Some(d) => Some((d, pos + 2)),
                None => None,
            }
        } else {
            None
        }
    } else if (class == 0 || class == 2) && buf.len() - pos >= 16 {
        // For a negative decimal the body is inverted once more.
        let body_desc = if class == 0 {
            !desc
        } else {
            desc
        };
        let ghost raw = u.subrange(pos + 1, pos + 16);
        let ghost body = if class == 0 {
            inverted(raw)
        } else {
            raw
        };
        let ghost v = ascending(buf@, body_desc);
        assert(body =~= v.subrange(pos + 1, pos + 16));
        let place = byte_at(buf, pos + 1, body_desc);
        let scaled = match read_be(buf, pos + 2, 13, body_desc) {
            Some(x) => x,
            None => {
                return None;
            },
        };
        assert(v.subrange(pos + 2, pos + 2 + 13) =~= body.subrange(1, 14));
        let scale = byte_at(buf, pos + 15, body_desc);
        if scale > 28 || (place as u32) + (scale as u32) < 65 || (place as u32) + (scale as u32)
            > 93 {
            return None;
        }
        let digits: u32 = (place as u32) + (scale as u32) - 64;
        let unit = pow10_u128(29 - digits);
        let magnitude = scaled / unit;
        if scaled % unit != 0 || magnitude < 1 || magnitude > MAX_MAGNITUDE {
            return None;
        }
        proof {
            crate::data::decimal::lemma_pow10_29();
        }
        if count_digits(magnitude) != digits {
            return None;
        }
        let mantissa: i128 = if class == 0 {
            -(magnitude as i128)
        } else {
            magnitude as i128
        };
        match Decimal::try_new(mantissa, scale as u32) {
            Some(d) => Some((d, pos + 16)),
            None => None,
        }
    } else {
        None
    }
}

} // verus!
