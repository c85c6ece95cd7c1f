//! Fixed-point decimals: a signed 96-bit integer and a power of ten.
//!
//! The value of a decimal is `mantissa / 10^scale`. Order, truncation and the
//! passage to and from parts are proved here; sums, products, rounding,
//! parsing and printing are computed by `rust_decimal`.

use vstd::prelude::*;
use crate::data::Comparison;
use vstd::std_specs::cmp::PartialEqSpecImpl;

verus! {

/// Ten to the power `n`.
pub open spec fn pow10(n: nat) -> nat
    decreases n,
{
    if n == 0 {
        1
    } else {
        10 * pow10((n - 1) as nat)
    }
}

pub proof fn lemma_pow10_positive(n: nat)
    ensures
        pow10(n) > 0,
    decreases n,
{
    if n > 0 {
        lemma_pow10_positive((n - 1) as nat);
    }
}

pub proof fn lemma_pow10_adds(a: nat, b: nat)
    ensures
        pow10(a + b) == pow10(a) * pow10(b),
    decreases a,
{
    if a > 0 {
        lemma_pow10_adds((a - 1) as nat, b);
        assert(pow10(a + b) == 10 * pow10((a + b - 1) as nat));
        assert(10 * (pow10((a - 1) as nat) * pow10(b)) == (10 * pow10((a - 1) as nat)) * pow10(b))
            by (nonlinear_arith);
    } else {
        assert(pow10(a) == 1);
        assert(1 * pow10(b) == pow10(b));
    }
}

pub proof fn lemma_pow10_increases(a: nat, b: nat)
    requires
        a <= b,
    ensures
        pow10(a) <= pow10(b),
    decreases b,
{
    if a < b {
        lemma_pow10_increases(a, (b - 1) as nat);
        lemma_pow10_positive((b - 1) as nat);
    }
}

pub proof fn lemma_pow10_29()
    ensures
        pow10(28) == 10000000000000000000000000000,
        pow10(29) == 100000000000000000000000000000,
{
    reveal_with_fuel(pow10, 30);
}

/// The largest magnitude a decimal holds: 2^96 - 1.
pub const MAX_MAGNITUDE: u128 = 0xFFFF_FFFF_FFFF_FFFF_FFFF_FFFF;

pub const MAX_SCALE: u32 = 28;

/// Ten to the power `k`, for `k` up to 29.
pub fn pow10_u128(k: u32) -> (r: u128)
    requires
        k <= 29,
    ensures
        r == pow10(k as nat),
        1 <= r <= 100000000000000000000000000000,
{
    let mut r: u128 = 1;
    let mut i: u32 = 0;
    while i < k
        invariant
            i <= k <= 29,
            r == pow10(i as nat),
        decreases k - i,
    {
        proof {
            lemma_pow10_increases((i + 1) as nat, 29);
            lemma_pow10_29();
        }
        r = r * 10;
        i += 1;
    }
    proof {
        lemma_pow10_increases(k as nat, 29);
        lemma_pow10_29();
        lemma_pow10_positive(k as nat);
    }
    r
}

/// The parts of a decimal as plain values: three 32-bit limbs of the
/// magnitude, the sign and the scale.
#[derive(Debug, Clone, Copy)]
pub struct DecimalParts {
    pub lo: u32,
    pub mid: u32,
    pub hi: u32,
    pub negative: bool,
    pub scale: u32,
}

impl DecimalParts {
    pub open spec fn magnitude(self) -> nat {
        (self.hi as nat) * 0x1_0000_0000_0000_0000 + (self.mid as nat) * 0x1_0000_0000 + (
        self.lo as nat)
    }

    pub open spec fn mantissa(self) -> int {
        if self.negative {
            -(self.magnitude() as int)
        } else {
            self.magnitude() as int
        }
    }
}

/// A fixed-point decimal of at most 96 bits of magnitude and a scale of at
/// most 28.
#[derive(Debug, Clone, Copy)]
pub struct Decimal {
    lo: u32,
    mid: u32,
    hi: u32,
    scale: u8,
    negative: bool,
}

impl View for Decimal {
    type V = (int, nat);

    /// Mantissa and scale.
    closed spec fn view(&self) -> (int, nat) {
        (self.spec_parts().mantissa(), self.scale as nat)
    }
}

/// What `rust_decimal` gives for the sum of two decimals, each a mantissa and
/// a scale: the mantissa and scale of the sum, or nothing on overflow.
pub uninterp spec fn decimal_sum(a: int, a_scale: int, b: int, b_scale: int) -> Option<(int, int)>;

/// What `rust_decimal` gives for the product of two decimals.
pub uninterp spec fn decimal_product(a: int, a_scale: int, b: int, b_scale: int) -> Option<
    (int, int),
>;

/// What `rust_decimal` makes of a decimal asked to take another scale.
pub uninterp spec fn decimal_rescaled(mantissa: int, scale: int, new_scale: int) -> (int, int);

/// What `rust_decimal` reads in a text.
pub uninterp spec fn decimal_parsed(text: Seq<u8>) -> Option<(int, int)>;

/// What `rust_decimal` prints for a decimal: its digits with as many of
/// them after the point as its scale says.
pub uninterp spec fn decimal_digits(mantissa: int, scale: int) -> Seq<u8>;

/// As many zeros as a number says.
pub open spec fn zeros(n: int) -> Seq<u8> {
    Seq::new(
        if n >= 0 {
            n as nat
        } else {
            0
        },
        |i: int| 48u8,
    )
}

/// The text of a decimal with `places` digits after the point: its own
/// digits, with zeros, after a point where it has none, for the places
/// that it has not, and without the digits, and the point, that are past
/// the places.
pub open spec fn decimal_text(mantissa: int, scale: int, places: int) -> Seq<u8> {
    let text = decimal_digits(mantissa, scale);
    if places >= scale {
        (if scale == 0 && places > 0 {
            text.push(46u8)
        } else {
            text
        }) + zeros(places - scale)
    } else {
        let cut = scale - places + if places == 0 {
            1int
        } else {
            0int
        };
        if 0 <= cut <= text.len() {
            text.subrange(0, text.len() - cut)
        } else {
            text
        }
    }
}

/// Mantissa and scale of optional parts.
pub open spec fn parts_view(parts: Option<DecimalParts>) -> Option<(int, int)> {
    match parts {
        Some(p) => Some((p.mantissa(), p.scale as int)),
        None => None,
    }
}

/// `rust_decimal::Decimal::checked_add` on two decimals given by their parts.
/// The contract names the result; the crate documents only that `None` means
/// overflow.
#[verifier::external_body]
fn outside_checked_add(a: DecimalParts, b: DecimalParts) -> (r: Option<DecimalParts>)
    requires
        a.scale <= 28,
        b.scale <= 28,
    ensures
        parts_view(r) == decimal_sum(a.mantissa(), a.scale as int, b.mantissa(), b.scale as int),
{
    let x = rust_decimal::Decimal::from_parts(a.lo, a.mid, a.hi, a.negative, a.scale);
    let y = rust_decimal::Decimal::from_parts(b.lo, b.mid, b.hi, b.negative, b.scale);
    x.checked_add(y).map(
        |d|
            {
                let u = d.unpack();
                DecimalParts { lo: u.lo, mid: u.mid, hi: u.hi, negative: u.negative, scale: u.scale }
            },
    )
}

/// `rust_decimal::Decimal::checked_mul` on two decimals given by their parts.
#[verifier::external_body]
fn outside_checked_mul(a: DecimalParts, b: DecimalParts) -> (r: Option<DecimalParts>)
    requires
        a.scale <= 28,
        b.scale <= 28,
    ensures
        parts_view(r) == decimal_product(
            a.mantissa(),
            a.scale as int,
            b.mantissa(),
            b.scale as int,
        ),
{
    let x = rust_decimal::Decimal::from_parts(a.lo, a.mid, a.hi, a.negative, a.scale);
    let y = rust_decimal::Decimal::from_parts(b.lo, b.mid, b.hi, b.negative, b.scale);
    x.checked_mul(y).map(
        |d|
            {
                let u = d.unpack();
                DecimalParts { lo: u.lo, mid: u.mid, hi: u.hi, negative: u.negative, scale: u.scale }
            },
    )
}

/// `rust_decimal::Decimal::rescale`: the decimal brought to `new_scale`
/// digits after the point, rounded where digits are lost, or to the largest
/// scale its magnitude allows.
#[verifier::external_body]
fn outside_rescale(a: DecimalParts, new_scale: u32) -> (r: DecimalParts)
    requires
        a.scale <= 28,
        new_scale <= 28,
    ensures
        (r.mantissa(), r.scale as int) == decimal_rescaled(
            a.mantissa(),
            a.scale as int,
            new_scale as int,
        ),
{
    let mut x = rust_decimal::Decimal::from_parts(a.lo, a.mid, a.hi, a.negative, a.scale);
    x.rescale(new_scale);
    let u = x.unpack();
    DecimalParts { lo: u.lo, mid: u.mid, hi: u.hi, negative: u.negative, scale: u.scale }
}

/// `<rust_decimal::Decimal as FromStr>::from_str` on text given as bytes;
/// bytes that are not UTF-8 read as nothing.
#[verifier::external_body]
fn outside_parse(text: &[u8]) -> (r: Option<DecimalParts>)
    ensures
        parts_view(r) == decimal_parsed(text@),
{
    match std::str::from_utf8(text) {
        Ok(s) => match <rust_decimal::Decimal as std::str::FromStr>::from_str(s) {
            Ok(d) => {
                let u = d.unpack();
                Some(
                    DecimalParts { lo: u.lo, mid: u.mid, hi: u.hi, negative: u.negative, scale: u.scale },
                )
            },
            Err(_) => None,
        },
        Err(_) => None,
    }
}

/// The `Display` of `rust_decimal::Decimal` without a precision: the
/// digits of the decimal, as many of them after the point as its scale
/// says. That text is of at most 31 bytes, which the buffer of the crate
/// holds.
#[verifier::external_body]
fn outside_format(a: DecimalParts) -> (r: Vec<u8>)
    requires
        a.scale <= 28,
    ensures
        r@ == decimal_digits(a.mantissa(), a.scale as int),
{
    let x = rust_decimal::Decimal::from_parts(a.lo, a.mid, a.hi, a.negative, a.scale);
    format!("{}", x).into_bytes()
}

/// The sign of `a / 10^a_scale - b / 10^b_scale`.
pub open spec fn compare_scaled(a: int, a_scale: nat, b: int, b_scale: nat) -> Comparison {
    Comparison::of_int(a * pow10(b_scale) - b * pow10(a_scale))
}

/// `mantissa / 10^scale` with its fraction dropped.
pub open spec fn truncated(mantissa: int, scale: nat) -> int {
    if mantissa >= 0 {
        mantissa / (pow10(scale) as int)
    } else {
        -((-mantissa) / (pow10(scale) as int))
    }
}

/// Compares two magnitudes below 2^96 under their scales.
fn compare_magnitudes(a: u128, a_scale: u32, b: u128, b_scale: u32) -> (c: Comparison)
    requires
        a <= MAX_MAGNITUDE,
        b <= MAX_MAGNITUDE,
        a_scale <= 28,
        b_scale <= 28,
    ensures
        c == compare_scaled(a as int, a_scale as nat, b as int, b_scale as nat),
{
    if a_scale >= b_scale {
        // a against b * 10^(a_scale - b_scale)
        let p = pow10_u128(a_scale - b_scale);
        proof {
            lemma_pow10_adds(b_scale as nat, (a_scale - b_scale) as nat);
            lemma_pow10_positive(b_scale as nat);
        }
        let ghost q = pow10(b_scale as nat) as int;
        if b > MAX_MAGNITUDE / p {
            assert(b as int * p as int > a as int) by (nonlinear_arith)
                requires
                    b > MAX_MAGNITUDE / p,
                    a <= MAX_MAGNITUDE,
                    p >= 1,
            ;
            assert(a as int * q - (b as int) * (q * (p as int)) < 0) by (nonlinear_arith)
                requires
                    b as int * p as int > a as int,
                    q > 0,
            ;
            Comparison::Less
        } else {
            assert(b as int * p as int <= MAX_MAGNITUDE) by (nonlinear_arith)
                requires
                    b <= MAX_MAGNITUDE / p,
                    p >= 1,
            ;
            let scaled = b * p;
            let ghost d = a as int - scaled as int;
            assert(a as int * q - (b as int) * (q * (p as int)) == d * q) by (nonlinear_arith)
                requires
                    d == a as int - (b as int) * (p as int),
            ;
            assert((d < 0 ==> d * q < 0) && (d == 0 ==> d * q == 0) && (d > 0 ==> d * q > 0))
                by (nonlinear_arith)
                requires
                    q > 0,
            ;
            if a < scaled {
                Comparison::Less
            } else if a == scaled {
                Comparison::Equal
            } else {
                Comparison::Greater
            }
        }
    } else {
        let p = pow10_u128(b_scale - a_scale);
        proof {
            lemma_pow10_adds(a_scale as nat, (b_scale - a_scale) as nat);
            lemma_pow10_positive(a_scale as nat);
        }
        let ghost q = pow10(a_scale as nat) as int;
        if a > MAX_MAGNITUDE / p {
            assert(a as int * p as int > b as int) by (nonlinear_arith)
                requires
                    a > MAX_MAGNITUDE / p,
                    b <= MAX_MAGNITUDE,
                    p >= 1,
            ;
            assert((a as int) * (q * (p as int)) - b as int * q > 0) by (nonlinear_arith)
                requires
                    a as int * p as int > b as int,
                    q > 0,
            ;
            Comparison::Greater
        } else {
            assert(a as int * p as int <= MAX_MAGNITUDE) by (nonlinear_arith)
                requires
                    a <= MAX_MAGNITUDE / p,
                    p >= 1,
            ;
            let scaled = a * p;
            let ghost d = scaled as int - b as int;
            assert((a as int) * (q * (p as int)) - b as int * q == d * q) by (nonlinear_arith)
                requires
                    d == (a as int) * (p as int) - b as int,
            ;
            assert((d < 0 ==> d * q < 0) && (d == 0 ==> d * q == 0) && (d > 0 ==> d * q > 0))
                by (nonlinear_arith)
                requires
                    q > 0,
            ;
            if scaled < b {
                Comparison::Less
            } else if scaled == b {
                Comparison::Equal
            } else {
                Comparison::Greater
            }
        }
    }
}

/// A mantissa and a scale without the zeros at the end of the digits
/// after the point.
pub open spec fn normal_form(mantissa: int, scale: nat) -> (int, nat)
    decreases scale,
{
    if scale > 0 && mantissa % 10 == 0 {
        normal_form(mantissa / 10, (scale - 1) as nat)
    } else {
        (mantissa, scale)
    }
}

impl Decimal {
    #[verifier::type_invariant]
    spec fn scale_in_range(self) -> bool {
        self.scale <= 28
    }

    /// Whether the scale is within its range; every decimal that a program
    /// holds is.
    pub closed spec fn wf(self) -> bool {
        self.scale <= 28
    }

    pub closed spec fn spec_parts(self) -> DecimalParts {
        DecimalParts {
            lo: self.lo,
            mid: self.mid,
            hi: self.hi,
            negative: self.negative,
            scale: self.scale as u32,
        }
    }

    /// The mantissa of the decimal.
    pub open spec fn spec_mantissa(self) -> int {
        self@.0
    }

    /// The number of digits after the point.
    pub open spec fn spec_scale(self) -> nat {
        self@.1
    }

    /// The decimal of the given mantissa and scale, where they are in range.
    pub fn try_new(mantissa: i128, scale: u32) -> (r: Option<Decimal>)
        ensures
            r is Some <==> (-(MAX_MAGNITUDE as int) <= mantissa <= MAX_MAGNITUDE as int && scale
                <= 28),
            r matches Some(d) ==> d@ == (mantissa as int, scale as nat) && d.wf(),
    {
        if scale > 28 || mantissa > (MAX_MAGNITUDE as i128) || mantissa < -(MAX_MAGNITUDE as i128) {
            return None;
        }
        let negative = mantissa < 0;
        let magnitude: u128 = if negative {
            (-mantissa) as u128
        } else {
            mantissa as u128
        };
        let lo = (magnitude % 0x1_0000_0000) as u32;
        let mid = ((magnitude / 0x1_0000_0000) % 0x1_0000_0000) as u32;
        let hi = (magnitude / 0x1_0000_0000_0000_0000) as u32;
        Some(Decimal { lo, mid, hi, scale: scale as u8, negative })
    }

    /// The decimal `num / 10^scale`.
    pub fn new(num: i64, scale: u32) -> (d: Decimal)
        requires
            scale <= 28,
        ensures
            d@ == (num as int, scale as nat),
            d.wf(),
    {
        match Decimal::try_new(num as i128, scale) {
            Some(d) => d,
            None => Decimal { lo: 0, mid: 0, hi: 0, scale: 0, negative: false },
        }
    }

    pub fn zero() -> (d: Decimal)
        ensures
            d@ == (0int, 0nat),
            d.wf(),
    {
        Decimal { lo: 0, mid: 0, hi: 0, scale: 0, negative: false }
    }

    /// The decimal of the given parts, where the scale is in range.
    pub fn from_parts(parts: DecimalParts) -> (r: Option<Decimal>)
        ensures
            r is Some <==> parts.scale <= 28,
            r matches Some(d) ==> d@ == (parts.mantissa(), parts.scale as nat) && d.wf(),
    {
        if parts.scale > 28 {
            None
        } else {
            Some(
                Decimal {
                    lo: parts.lo,
                    mid: parts.mid,
                    hi: parts.hi,
                    scale: parts.scale as u8,
                    negative: parts.negative,
                },
            )
        }
    }

    pub fn parts(&self) -> (p: DecimalParts)
        ensures
            p.scale <= 28,
            (p.mantissa(), p.scale as nat) == self@,
            self.wf(),
    {
        proof {
            use_type_invariant(self);
        }
        DecimalParts {
            lo: self.lo,
            mid: self.mid,
            hi: self.hi,
            negative: self.negative,
            scale: self.scale as u32,
        }
    }

    fn magnitude(&self) -> (m: u128)
        ensures
            m == self.spec_parts().magnitude(),
            m <= MAX_MAGNITUDE,
    {
        (self.hi as u128) * 0x1_0000_0000_0000_0000 + (self.mid as u128) * 0x1_0000_0000 + (
        self.lo as u128)
    }

    pub fn mantissa(&self) -> (m: i128)
        ensures
            m == self.spec_mantissa(),
            -(MAX_MAGNITUDE as int) <= m <= MAX_MAGNITUDE as int,
            self.wf(),
    {
        proof {
            use_type_invariant(self);
        }
        let magnitude = self.magnitude();
        if self.negative {
            -(magnitude as i128)
        } else {
            magnitude as i128
        }
    }

    pub fn scale(&self) -> (s: u32)
        ensures
            s == self.spec_scale(),
            s <= 28,
    {
        proof {
            use_type_invariant(self);
        }
        self.scale as u32
    }

    /// The mantissa and the scale of the decimal without the zeros at the
    /// end of its digits after the point: decimals of one value have one
    /// such form, whatever scale they are written with.
    pub fn normal_form(&self) -> (r: (i128, u32))
        ensures
            (r.0 as int, r.1 as nat) == normal_form(self.spec_mantissa(), self.spec_scale()),
    {
        let mantissa = self.mantissa();
        let negative = mantissa < 0;
        let mut magnitude: u128 = if negative {
            (-mantissa) as u128
        } else {
            mantissa as u128
        };
        let mut scale = self.scale();
        while scale > 0 && magnitude % 10 == 0
            invariant
                magnitude <= MAX_MAGNITUDE,
                normal_form(
                    if negative {
                        -(magnitude as int)
                    } else {
                        magnitude as int
                    },
                    scale as nat,
                ) == normal_form(self.spec_mantissa(), self.spec_scale()),
            decreases scale,
        {
            magnitude = magnitude / 10;
            scale -= 1;
        }
        if negative {
            (-(magnitude as i128), scale)
        } else {
            (magnitude as i128, scale)
        }
    }

    pub fn is_zero(&self) -> (b: bool)
        ensures
            b == (self.spec_mantissa() == 0),
    {
        self.magnitude() == 0
    }

    /// The order of two decimals by value: `1.0` and `1.00` are equal.
    pub open spec fn spec_compare(self, other: Decimal) -> Comparison {
        compare_scaled(
            self.spec_mantissa(),
            self.spec_scale(),
            other.spec_mantissa(),
            other.spec_scale(),
        )
    }

    pub fn compare(&self, other: &Decimal) -> (c: Comparison)
        ensures
            c == self.spec_compare(*other),
    {
        proof {
            use_type_invariant(self);
            use_type_invariant(other);
            lemma_pow10_positive(self.spec_scale());
            lemma_pow10_positive(other.spec_scale());
        }
        let a = self.magnitude();
        let b = other.magnitude();
        let ghost p = pow10(other.spec_scale()) as int;
        let ghost q = pow10(self.spec_scale()) as int;
        let a_negative = self.negative && a != 0;
        let b_negative = other.negative && b != 0;
        if a_negative && !b_negative {
            assert((-(a as int)) * p - (b as int) * q < 0) by (nonlinear_arith)
                requires
                    a > 0,
                    b >= 0,
                    p > 0,
                    q > 0,
            ;
            Comparison::Less
        } else if !a_negative && b_negative {
            assert((a as int) * p - (-(b as int)) * q > 0) by (nonlinear_arith)
                requires
                    a >= 0,
                    b > 0,
                    p > 0,
                    q > 0,
            ;
            Comparison::Greater
        } else if a_negative {
            let c = compare_magnitudes(a, self.scale as u32, b, other.scale as u32);
            assert((-(a as int)) * p - (-(b as int)) * q == -((a as int) * p - (b as int) * q))
                by (nonlinear_arith);
            c.reverse()
        } else {
            compare_magnitudes(a, self.scale as u32, b, other.scale as u32)
        }
    }

    /// The whole part of the decimal, where it fits in 32 bits.
    pub open spec fn spec_to_i32(self) -> Option<i32> {
        let t = truncated(self.spec_mantissa(), self.spec_scale());
        if i32::MIN <= t <= i32::MAX {
            Some(t as i32)
        } else {
            None
        }
    }

    pub fn to_i32(&self) -> (r: Option<i32>)
        ensures
            r == self.spec_to_i32(),
    {
        match self.to_i64() {
            Some(t) => if t >= (i32::MIN as i64) && t <= (i32::MAX as i64) {
                Some(t as i32)
            } else {
                None
            },
            None => None,
        }
    }

    /// The whole part of the decimal, where it fits in 64 bits.
    pub open spec fn spec_to_i64(self) -> Option<i64> {
        let t = truncated(self.spec_mantissa(), self.spec_scale());
        if i64::MIN <= t <= i64::MAX {
            Some(t as i64)
        } else {
            None
        }
    }

    pub fn to_i64(&self) -> (r: Option<i64>)
        ensures
            r == self.spec_to_i64(),
    {
        proof {
            use_type_invariant(self);
        }
        let p = pow10_u128(self.scale as u32);
        let whole = self.magnitude() / p;
        if self.negative {
            if whole <= 0x8000_0000_0000_0000 {
                Some((-(whole as i128)) as i64)
            } else {
                None
            }
        } else {
            if whole <= 0x7FFF_FFFF_FFFF_FFFF {
                Some(whole as i64)
            } else {
                None
            }
        }
    }

    /// The sum of two decimals as `rust_decimal` computes it, or nothing
    /// where it overflows.
    pub open spec fn spec_checked_add(self, other: Decimal) -> Option<(int, nat)> {
        in_range(
            decimal_sum(
                self.spec_mantissa(),
                self.spec_scale() as int,
                other.spec_mantissa(),
                other.spec_scale() as int,
            ),
        )
    }

    pub fn checked_add(&self, other: &Decimal) -> (r: Option<Decimal>)
        ensures
            view_of(r) == self.spec_checked_add(*other),
    {
        let sum = outside_checked_add(self.parts(), other.parts());
        accept_parts(sum)
    }

    /// The product of two decimals as `rust_decimal` computes it, or nothing
    /// where it overflows.
    pub open spec fn spec_checked_mul(self, other: Decimal) -> Option<(int, nat)> {
        in_range(
            decimal_product(
                self.spec_mantissa(),
                self.spec_scale() as int,
                other.spec_mantissa(),
                other.spec_scale() as int,
            ),
        )
    }

    pub fn checked_mul(&self, other: &Decimal) -> (r: Option<Decimal>)
        ensures
            view_of(r) == self.spec_checked_mul(*other),
    {
        let product = outside_checked_mul(self.parts(), other.parts());
        accept_parts(product)
    }

    /// The decimal brought to `new_scale` digits after the point, as
    /// `rust_decimal` rounds it; a scale above 28 counts as 28.
    pub open spec fn spec_rescale(self, new_scale: u32) -> Option<(int, nat)> {
        in_range(
            Some(
                decimal_rescaled(
                    self.spec_mantissa(),
                    self.spec_scale() as int,
                    if new_scale <= 28 {
                        new_scale as int
                    } else {
                        28
                    },
                ),
            ),
        )
    }

    pub fn rescale(&self, new_scale: u32) -> (r: Option<Decimal>)
        ensures
            view_of(r) == self.spec_rescale(new_scale),
    {
        let target = if new_scale <= 28 {
            new_scale
        } else {
            28
        };
        let rescaled = outside_rescale(self.parts(), target);
        accept_parts(Some(rescaled))
    }

    /// The decimal that `rust_decimal` reads in `text`, if any.
    pub open spec fn spec_parse(text: Seq<u8>) -> Option<(int, nat)> {
        in_range(decimal_parsed(text))
    }

    pub fn parse(text: &[u8]) -> (r: Option<Decimal>)
        ensures
            view_of(r) == Decimal::spec_parse(text@),
    {
        accept_parts(outside_parse(text))
    }

    /// The text of the decimal with `places` digits after the point.
    pub open spec fn spec_format(self, places: u32) -> Seq<u8> {
        decimal_text(self.spec_mantissa(), self.spec_scale() as int, places as int)
    }

    pub fn format(&self, places: u32) -> (r: Vec<u8>)
        ensures
            r@ == self.spec_format(places),
    {
        let scale = self.scale();
        let mut text = outside_format(self.parts());
        let ghost digits = text@;
        if places >= scale {
            if scale == 0 && places > 0 {
                text.push(46u8);
            }
            let ghost base = text@;
            let mut k: u32 = scale;
            assert(text@ =~= base + zeros(k - scale));
            while k < places
                invariant
                    scale <= k <= places,
                    text@ == base + zeros(k - scale),
                decreases places - k,
            {
                text.push(48u8);
                k += 1;
                assert(text@ =~= base + zeros(k - scale));
            }
            text
        } else {
            let cut: u64 = (scale - places) as u64 + if places == 0 {
                1u64
            } else {
                0u64
            };
            if cut <= text.len() as u64 {
                let mut left: u64 = cut;
                while left > 0
                    invariant
                        left <= cut <= digits.len(),
                        text@ == digits.subrange(0, digits.len() - (cut - left)),
                    decreases left,
                {
                    text.pop();
                    left -= 1;
                    assert(text@ =~= digits.subrange(0, digits.len() - (cut - left)));
                }
                text
            } else {
                text
            }
        }
    }
}

impl PartialEq for Decimal {
    /// Equality by value: `1.0` equals `1.00`.
    fn eq(&self, other: &Self) -> (r: bool) {
        self.compare(other) == Comparison::Equal
    }
}

impl PartialEqSpecImpl for Decimal {
    open spec fn obeys_eq_spec() -> bool {
        true
    }

    open spec fn eq_spec(&self, other: &Self) -> bool {
        self.spec_compare(*other) == Comparison::Equal
    }
}

impl Eq for Decimal {

}

/// The view of an optional decimal.
pub open spec fn view_of(d: Option<Decimal>) -> Option<(int, nat)> {
    match d {
        Some(d) => Some(d@),
        None => None,
    }
}

/// A mantissa and a scale where the scale is one a decimal can have.
pub open spec fn in_range(parts: Option<(int, int)>) -> Option<(int, nat)> {
    match parts {
        Some((m, s)) => if 0 <= s <= 28 {
            Some((m, s as nat))
        } else {
            None
        },
        None => None,
    }
}

/// Takes the parts that an outside computation gave for a decimal, if their
/// scale is one a decimal can have.
pub fn accept_parts(parts: Option<DecimalParts>) -> (r: Option<Decimal>)
    ensures
        view_of(r) == in_range(parts_view(parts)),
{
    match parts {
        Some(p) => Decimal::from_parts(p),
        None => None,
    }
}

} // verus!
