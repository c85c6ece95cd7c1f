//! The in-memory representation of an SQL value.

use vstd::prelude::*;
use vstd::std_specs::cmp::PartialEqSpecImpl;
use vstd::std_specs::convert::FromSpecImpl;
use vstd::string::StringSliceAdditionalSpecFns;
use vstd::slice::slice_subrange;
use crate::data::{Comparison, DataType};
use crate::data::decimal::Decimal;
use crate::data::jsonpath_utils::JsonPathExpression;

verus! {

/// The number of bytes an inline byte string can hold.
pub const INLINE_CAPACITY: usize = 22;

/// What a datum stands for, whatever its physical form: the three forms of a
/// byte string are one value, and so are an owned and a borrowed path.
pub enum Value {
    Null,
    Boolean(bool),
    Integer(i32),
    BigInt(i64),
    /// Mantissa and scale.
    Decimal(int, nat),
    Bytes(Seq<u8>),
    Jsonpath(Seq<u8>),
}

/// Datum - in memory representation of sql value.
/// The same datum may be able to be interpreted as multiple different
/// datatypes. Ie bytea is used to back json and text.
#[derive(Debug)]
pub enum Datum<'a> {
    Null,
    Boolean(bool),
    /// Bytes that live in a buffer owned elsewhere, valid for the current
    /// step of the iterator that produced them.
    ByteARef(&'a [u8]),
    /// Bytes on the heap.
    ByteAOwned(Box<[u8]>),
    /// A short byte string held in the datum itself: the length, then the
    /// buffer. A length above the capacity of the buffer denotes all of it.
    ByteAInline(u8, [u8; 22]),
    Integer(i32),
    BigInt(i64),
    Decimal(Decimal),
    Jsonpath(Box<JsonPathExpression>),
    JsonpathRef(&'a JsonPathExpression),
}

/// Copies a slice to the heap with `Box::<[u8]>::from`.
#[verifier::external_body]
pub(crate) fn boxed_bytes(bytes: &[u8]) -> (b: Box<[u8]>)
    ensures
        b@ == bytes@,
{
    Box::from(bytes)
}

/// Moves a vector to a boxed slice with `Vec::into_boxed_slice`.
#[verifier::external_body]
pub(crate) fn into_boxed_bytes(bytes: Vec<u8>) -> (b: Box<[u8]>)
    ensures
        b@ == bytes@,
{
    bytes.into_boxed_slice()
}

/// The bytes of an inline byte string.
pub open spec fn inline_bytes(len: u8, buffer: [u8; 22]) -> Seq<u8> {
    if len <= 22 {
        buffer@.subrange(0, len as int)
    } else {
        buffer@
    }
}

/// Whether two values are equal. Under SQL rules null equals nothing, itself
/// included; with `null_safe` null equals null. Decimals are equal by value.
pub open spec fn value_sql_eq(a: Value, b: Value, null_safe: bool) -> bool {
    match (a, b) {
        (Value::Null, Value::Null) => null_safe,
        (Value::Boolean(x), Value::Boolean(y)) => x == y,
        (Value::Integer(x), Value::Integer(y)) => x == y,
        (Value::BigInt(x), Value::BigInt(y)) => x == y,
        (Value::Decimal(m1, s1), Value::Decimal(m2, s2)) => crate::data::decimal::compare_scaled(
            m1,
            s1,
            m2,
            s2,
        ) == Comparison::Equal,
        (Value::Bytes(x), Value::Bytes(y)) => x == y,
        (Value::Jsonpath(x), Value::Jsonpath(y)) => x == y,
        _ => false,
    }
}

/// Under null-safe equality every value equals itself.
pub proof fn lemma_sql_eq_reflexive(v: Value)
    ensures
        value_sql_eq(v, v, true),
{
}

/// The place of a value's kind in the total order: null first, then false,
/// true, integers, big integers, decimals, byte strings and paths. It is
/// also the tag byte of the value's ascending encoding.
pub open spec fn value_rank(v: Value) -> u8 {
    match v {
        Value::Null => 1,
        Value::Boolean(false) => 2,
        Value::Boolean(true) => 3,
        Value::Integer(_) => 4,
        Value::BigInt(_) => 5,
        Value::Decimal(_, _) => 6,
        Value::Bytes(_) => 7,
        Value::Jsonpath(_) => 8,
    }
}

/// The index of the first place where two byte strings differ, counted from
/// `from`, or the length of the shorter.
pub open spec fn mismatch(a: Seq<u8>, b: Seq<u8>, from: int) -> int
    decreases a.len() - from,
{
    if from < 0 || from >= a.len() || from >= b.len() || a[from] != b[from] {
        from
    } else {
        mismatch(a, b, from + 1)
    }
}

/// Lexicographic order of byte strings: a proper prefix comes first.
pub open spec fn bytes_compare(a: Seq<u8>, b: Seq<u8>) -> Comparison {
    let k = mismatch(a, b, 0);
    if k >= a.len() && k >= b.len() {
        Comparison::Equal
    } else if k >= a.len() {
        Comparison::Less
    } else if k >= b.len() {
        Comparison::Greater
    } else if a[k] < b[k] {
        Comparison::Less
    } else {
        Comparison::Greater
    }
}

/// Where `k` is the first place at which `a` and `b` differ, `mismatch` finds it.
pub proof fn lemma_mismatch_at(a: Seq<u8>, b: Seq<u8>, from: int, k: int)
    requires
        0 <= from <= k,
        k <= a.len(),
        k <= b.len(),
        forall|i: int| from <= i < k ==> a[i] == b[i],
        k == a.len() || k == b.len() || a[k] != b[k],
    ensures
        mismatch(a, b, from) == k,
    decreases k - from,
{
    if from < k {
        lemma_mismatch_at(a, b, from + 1, k);
    }
}

/// What `mismatch` finds is a place up to which the two strings agree.
pub proof fn lemma_mismatch_is_first(a: Seq<u8>, b: Seq<u8>, from: int)
    requires
        0 <= from <= a.len(),
        from <= b.len(),
    ensures
        from <= mismatch(a, b, from) <= a.len(),
        mismatch(a, b, from) <= b.len(),
        forall|i: int| from <= i < mismatch(a, b, from) ==> a[i] == b[i],
        mismatch(a, b, from) == a.len() || mismatch(a, b, from) == b.len() || a[mismatch(
            a,
            b,
            from,
        )] != b[mismatch(a, b, from)],
    decreases a.len() - from,
{
    if from < a.len() && from < b.len() && a[from] == b[from] {
        lemma_mismatch_is_first(a, b, from + 1);
    }
}

/// The total order of values, used for keys and for sorting: kinds are
/// ordered by rank, values of one kind by their content.
pub open spec fn value_compare(a: Value, b: Value) -> Comparison {
    if value_rank(a) != value_rank(b) {
        Comparison::of_int(value_rank(a) - value_rank(b))
    } else {
        match (a, b) {
            (Value::Integer(x), Value::Integer(y)) => Comparison::of_int(x - y),
            (Value::BigInt(x), Value::BigInt(y)) => Comparison::of_int(x - y),
            (Value::Decimal(m1, s1), Value::Decimal(m2, s2)) => crate::data::decimal::compare_scaled(
                m1,
                s1,
                m2,
                s2,
            ),
            (Value::Bytes(x), Value::Bytes(y)) => bytes_compare(x, y),
            (Value::Jsonpath(x), Value::Jsonpath(y)) => bytes_compare(x, y),
            _ => Comparison::Equal,
        }
    }
}

/// Compares two byte strings lexicographically.
pub fn compare_bytes(a: &[u8], b: &[u8]) -> (c: Comparison)
    ensures
        c == bytes_compare(a@, b@),
{
    let mut i: usize = 0;
    while i < a.len() && i < b.len() && a[i] == b[i]
        invariant
            i <= a@.len(),
            i <= b@.len(),
            mismatch(a@, b@, 0) == mismatch(a@, b@, i as int),
        decreases a@.len() - i,
    {
        i += 1;
    }
    if i >= a.len() && i >= b.len() {
        Comparison::Equal
    } else if i >= a.len() {
        Comparison::Less
    } else if i >= b.len() {
        Comparison::Greater
    } else if a[i] < b[i] {
        Comparison::Less
    } else {
        Comparison::Greater
    }
}

impl<'a> View for Datum<'a> {
    type V = Value;

    open spec fn view(&self) -> Value {
        match self {
            Datum::Null => Value::Null,
            Datum::Boolean(b) => Value::Boolean(*b),
            Datum::ByteARef(s) => Value::Bytes(s@),
            Datum::ByteAOwned(s) => Value::Bytes(s@),
            Datum::ByteAInline(len, buffer) => Value::Bytes(inline_bytes(*len, *buffer)),
            Datum::Integer(i) => Value::Integer(*i),
            Datum::BigInt(i) => Value::BigInt(*i),
            Datum::Decimal(d) => Value::Decimal(d@.0, d@.1),
            Datum::Jsonpath(j) => Value::Jsonpath(j@),
            Datum::JsonpathRef(j) => Value::Jsonpath(j@),
        }
    }
}

/// Whether a datum is the inline form of a byte string: its length byte
/// is the length of the string, its buffer starts with the bytes of the
/// string, and the rest of the buffer is zero.
pub open spec fn is_inline_of(r: Datum, s: Seq<u8>) -> bool {
    r matches Datum::ByteAInline(len, buffer) && len == s.len() && s.len() <= 22 && (forall|
        j: int,
    |
        0 <= j < 22 ==> #[trigger] buffer@[j] == if j < s.len() {
            s[j]
        } else {
            0u8
        })
}

/// Builds the inline form of a byte string of at most 22 bytes.
fn inline_datum(s: &[u8]) -> (r: Datum<'static>)
    requires
        s@.len() <= 22,
    ensures
        r@ == Value::Bytes(s@),
        is_inline_of(r, s@),
{
    let len = s.len();
    let mut bytes = [0u8;22];
    proof {
        vstd::array::axiom_spec_array_fill_for_copy_type::<u8, 22>(0u8);
    }
    let mut i: usize = 0;
    while i < len
        invariant
            i <= len <= 22,
            len == s@.len(),
            forall|j: int| 0 <= j < i ==> bytes@[j] == s@[j],
            forall|j: int| i <= j < 22 ==> bytes@[j] == 0u8,
        decreases len - i,
    {
        bytes[i] = s[i];
        i += 1;
    }
    assert(bytes@.subrange(0, len as int) =~= s@);
    Datum::ByteAInline(len as u8, bytes)
}

impl<'a> Datum<'a> {
    /// Whether every decimal inside is within its range; every datum that a
    /// program holds is.
    pub open spec fn wf(self) -> bool {
        self matches Datum::Decimal(d) ==> d.wf()
    }

    /// Whether the datum borrows nothing: it is neither a borrowed byte
    /// string nor a borrowed path.
    pub open spec fn is_owned_form(self) -> bool {
        !(self is ByteARef) && !(self is JsonpathRef)
    }

    /// A text, borrowed: a byte string that refers to the bytes of the text.
    pub fn from_text(text: &'a str) -> (r: Datum<'a>)
        ensures
            r is ByteARef,
            r@ == Value::Bytes(text.spec_bytes()),
    {
        Datum::ByteARef(text.as_bytes())
    }

    /// A text that the datum owns: a byte string on the heap with the
    /// bytes of the text.
    pub fn from_string(text: String) -> (r: Datum<'static>)
        ensures
            r is ByteAOwned,
            r@ == Value::Bytes(vstd::utf8::encode_utf8(text@)),
    {
        Datum::ByteAOwned(boxed_bytes(text.as_str().as_bytes()))
    }

    /// A byte string that the datum owns, with the given bytes.
    pub fn from_bytes(bytes: Vec<u8>) -> (r: Datum<'static>)
        ensures
            r is ByteAOwned,
            r@ == Value::Bytes(bytes@),
    {
        Datum::ByteAOwned(into_boxed_bytes(bytes))
    }

    /// A JSON document that the datum owns: a byte string with the bytes
    /// of the document.
    pub fn from_json(json: crate::data::json::OwnedJson) -> (r: Datum<'static>)
        ensures
            r is ByteAOwned,
            r@ == Value::Bytes(json.bytes@),
    {
        Datum::ByteAOwned(into_boxed_bytes(json.bytes))
    }

    /// Like clone but instead of cloning owned bytes it will just take a reference.
    pub fn ref_clone(&'a self) -> (r: Datum<'a>)
        ensures
            r@ == self@,
            self is ByteAOwned ==> r is ByteARef,
            self is Jsonpath ==> r is JsonpathRef,
    {
        match self {
            Datum::Null => Datum::Null,
            Datum::Boolean(b) => Datum::Boolean(*b),
            Datum::ByteARef(s) => Datum::ByteARef(s),
            Datum::ByteAOwned(s) => Datum::ByteARef(&**s),
            Datum::ByteAInline(len, buffer) => Datum::ByteAInline(*len, *buffer),
            Datum::Integer(i) => Datum::Integer(*i),
            Datum::BigInt(i) => Datum::BigInt(*i),
            Datum::Decimal(d) => Datum::Decimal(*d),
            Datum::Jsonpath(j) => Datum::JsonpathRef(&**j),
            Datum::JsonpathRef(j) => Datum::JsonpathRef(j),
        }
    }

    /// As datums can reference data external to themselves they're only guaranteed to be valid
    /// for the current iteration of the iterator/loop etc. This method creates a new datum with
    /// any borrowed data now owned so it can be held onto across iterations (ie to sort them).
    /// A borrowed byte string of at most 22 bytes becomes an inline one.
    pub fn as_static(&self) -> (r: Datum<'static>)
        ensures
            r@ == self@,
            value_sql_eq(r@, self@, true),
            r.is_owned_form(),
            self matches Datum::ByteARef(s) ==> if s@.len() <= 22 {
                is_inline_of(r, s@)
            } else {
                r is ByteAOwned
            },
            *self matches Datum::ByteAInline(len, buffer) ==> r == Datum::<'static>::ByteAInline(
                len,
                buffer,
            ),
    {
        match self {
            Datum::Null => Datum::Null,
            Datum::Boolean(b) => Datum::Boolean(*b),
            Datum::Integer(i) => Datum::Integer(*i),
            Datum::BigInt(i) => Datum::BigInt(*i),
            Datum::Decimal(d) => Datum::Decimal(*d),
            Datum::ByteAOwned(s) => Datum::ByteAOwned(boxed_bytes(&**s)),
            Datum::ByteAInline(l, bytes) => Datum::ByteAInline(*l, *bytes),
            Datum::ByteARef(s) => {
                if s.len() <= 22 {
                    inline_datum(s)
                } else {
                    Datum::ByteAOwned(boxed_bytes(s))
                }
            },
            Datum::Jsonpath(expr) => Datum::Jsonpath(Box::new((**expr).clone())),
            Datum::JsonpathRef(expr) => Datum::Jsonpath(Box::new((**expr).clone())),
        }
    }

    /// As datums can reference data external to themselves they're only guaranteed to be valid
    /// for the current iteration of the iterator/loop etc. This method consumes a datum
    /// and returns a static equivalent; data already on the heap is kept, not copied.
    pub fn into_static(self) -> (r: Datum<'static>)
        ensures
            r@ == self@,
            value_sql_eq(r@, self@, true),
            r.is_owned_form(),
            self matches Datum::ByteARef(s) ==> if s@.len() <= 22 {
                is_inline_of(r, s@)
            } else {
                r is ByteAOwned
            },
            self matches Datum::ByteAInline(len, buffer) ==> r == Datum::<'static>::ByteAInline(
                len,
                buffer,
            ),
            self.is_owned_form() ==> r == self,
    {
        match self {
            Datum::Null => Datum::Null,
            Datum::Boolean(b) => Datum::Boolean(b),
            Datum::Integer(i) => Datum::Integer(i),
            Datum::BigInt(i) => Datum::BigInt(i),
            Datum::Decimal(d) => Datum::Decimal(d),
            Datum::ByteAOwned(s) => Datum::ByteAOwned(s),
            Datum::ByteAInline(l, bytes) => Datum::ByteAInline(l, bytes),
            Datum::ByteARef(s) => {
                if s.len() <= 22 {
                    inline_datum(s)
                } else {
                    Datum::ByteAOwned(boxed_bytes(s))
                }
            },
            Datum::Jsonpath(expr) => Datum::Jsonpath(expr),
            Datum::JsonpathRef(expr) => Datum::Jsonpath(Box::new((*expr).clone())),
        }
    }

    /// Returns true if this value is null
    pub fn is_null(&self) -> (b: bool)
        ensures
            b == (self@ is Null),
    {
        matches!(self, Datum::Null)
    }

    /// Returns true if this value is equal to another.
    /// According to sql rules, null != null, this is the behaviour if null_safe = false,
    /// if null_safe is set to true then null == null
    pub fn sql_eq(&self, other: &Self, null_safe: bool) -> (b: bool)
        ensures
            b == value_sql_eq(self@, other@, null_safe),
    {
        match self {
            Datum::Null => other.is_null() && null_safe,
            Datum::Boolean(b) => match other.as_maybe_boolean() {
                Some(o) => *b == o,
                None => false,
            },
            Datum::Integer(i) => match other.as_maybe_integer() {
                Some(o) => *i == o,
                None => false,
            },
            Datum::BigInt(i) => match other.as_maybe_bigint() {
                Some(o) => *i == o,
                None => false,
            },
            Datum::Decimal(d) => match other.as_maybe_decimal() {
                Some(o) => d.compare(&o) == Comparison::Equal,
                None => false,
            },
            Datum::ByteAOwned(_) | Datum::ByteAInline(..) | Datum::ByteARef(_) => {
                match (self.as_maybe_bytea(), other.as_maybe_bytea()) {
                    (Some(a), Some(b)) => crate::data::text::bytes_eq(a, b),
                    _ => false,
                }
            },
            Datum::Jsonpath(_) | Datum::JsonpathRef(_) => {
                match (self.as_maybe_jsonpath(), other.as_maybe_jsonpath()) {
                    (Some(a), Some(b)) => crate::data::text::bytes_eq(a.original(), b.original()),
                    _ => false,
                }
            },
        }
    }

    /// The place of the datum's kind in the total order.
    pub fn rank(&self) -> (r: u8)
        ensures
            r == value_rank(self@),
    {
        match self {
            Datum::Null => 1,
            Datum::Boolean(false) => 2,
            Datum::Boolean(true) => 3,
            Datum::Integer(_) => 4,
            Datum::BigInt(_) => 5,
            Datum::Decimal(_) => 6,
            Datum::ByteAOwned(_) | Datum::ByteAInline(..) | Datum::ByteARef(_) => 7,
            Datum::Jsonpath(_) | Datum::JsonpathRef(_) => 8,
        }
    }

    /// Compares two datums in the total order. It is "null" safe, ie it
    /// doesn't follow the standard sql rules: null == null and null < foo.
    pub fn compare(&self, other: &Self) -> (c: Comparison)
        ensures
            c == value_compare(self@, other@),
    {
        let a = self.rank();
        let b = other.rank();
        if a < b {
            return Comparison::Less;
        }
        if a > b {
            return Comparison::Greater;
        }
        match self {
            Datum::Integer(i) => match other.as_maybe_integer() {
                Some(o) => if *i < o {
                    Comparison::Less
                } else if *i == o {
                    Comparison::Equal
                } else {
                    Comparison::Greater
                },
                None => Comparison::Equal,
            },
            Datum::BigInt(i) => match other.as_maybe_bigint() {
                Some(o) => if *i < o {
                    Comparison::Less
                } else if *i == o {
                    Comparison::Equal
                } else {
                    Comparison::Greater
                },
                None => Comparison::Equal,
            },
            Datum::Decimal(d) => match other.as_maybe_decimal() {
                Some(o) => d.compare(&o),
                None => Comparison::Equal,
            },
            Datum::ByteAOwned(_) | Datum::ByteAInline(..) | Datum::ByteARef(_) => {
                match (self.as_maybe_bytea(), other.as_maybe_bytea()) {
                    (Some(x), Some(y)) => compare_bytes(x, y),
                    _ => Comparison::Equal,
                }
            },
            Datum::Jsonpath(_) | Datum::JsonpathRef(_) => {
                match (self.as_maybe_jsonpath(), other.as_maybe_jsonpath()) {
                    (Some(x), Some(y)) => compare_bytes(x.original(), y.original()),
                    _ => Comparison::Equal,
                }
            },
            _ => Comparison::Equal,
        }
    }

    pub fn typed_with(&'a self, datatype: DataType) -> (t: TypedDatum<'a>)
        ensures
            t.datum == self,
            t.datatype == datatype,
    {
        TypedDatum { datum: self, datatype }
    }
}

// Into's to get back rust types from datums, these are just "dumb" and simply map 1-1 without any
// attempts to do any casting
impl<'a> Datum<'a> {
    pub open spec fn spec_bytes(self) -> Option<Seq<u8>> {
        match self@ {
            Value::Bytes(s) => Some(s),
            _ => None,
        }
    }

    pub fn as_maybe_bytea(&'a self) -> (r: Option<&'a [u8]>)
        ensures
            r is Some <==> self@ is Bytes,
            r matches Some(s) ==> self@ == Value::Bytes(s@),
    {
        match self {
            Datum::ByteARef(s) => Some(s),
            Datum::ByteAInline(len, b) => {
                if *len <= 22 {
                    Some(slice_subrange(b.as_slice(), 0, *len as usize))
                } else {
                    Some(b.as_slice())
                }
            },
            Datum::ByteAOwned(s) => Some(&**s),
            _ => None,
        }
    }

    pub fn as_bytea(&'a self) -> (r: &'a [u8])
        requires
            self@ is Bytes,
        ensures
            self@ == Value::Bytes(r@),
    {
        match self.as_maybe_bytea() {
            Some(s) => s,
            None => vstd::pervasive::unreached(),
        }
    }

    /// The datum as text. Text is bytes read as UTF-8.
    pub fn as_maybe_text(&'a self) -> (r: Option<&'a [u8]>)
        ensures
            r is Some <==> self@ is Bytes,
            r matches Some(s) ==> self@ == Value::Bytes(s@),
    {
        self.as_maybe_bytea()
    }

    pub fn as_text(&'a self) -> (r: &'a [u8])
        requires
            self@ is Bytes,
        ensures
            self@ == Value::Bytes(r@),
    {
        self.as_bytea()
    }

    /// The datum as a JSON document. JSON is bytes read as a document.
    pub fn as_maybe_json(&'a self) -> (r: Option<crate::data::json::Json<'a>>)
        ensures
            r is Some <==> self@ is Bytes,
            r matches Some(j) ==> self@ == Value::Bytes(j.bytes@),
    {
        match self.as_maybe_bytea() {
            Some(bytes) => Some(crate::data::json::Json::from_bytes(bytes)),
            None => None,
        }
    }

    pub fn as_json(&'a self) -> (r: crate::data::json::Json<'a>)
        requires
            self@ is Bytes,
        ensures
            self@ == Value::Bytes(r.bytes@),
    {
        crate::data::json::Json::from_bytes(self.as_bytea())
    }

    pub fn as_integer_mut(&mut self) -> (r: &mut i32)
        requires
            old(self)@ is Integer,
        ensures
            *old(self) == Datum::Integer(*r),
            *final(self) == Datum::Integer(*final(r)),
    {
        match self {
            Datum::Integer(i) => i,
            _ => vstd::pervasive::unreached(),
        }
    }

    pub fn as_bigint_mut(&mut self) -> (r: &mut i64)
        requires
            old(self)@ is BigInt,
        ensures
            *old(self) == Datum::BigInt(*r),
            *final(self) == Datum::BigInt(*final(r)),
    {
        match self {
            Datum::BigInt(i) => i,
            _ => vstd::pervasive::unreached(),
        }
    }

    pub fn as_decimal_mut(&mut self) -> (r: &mut Decimal)
        requires
            old(self)@ is Decimal,
        ensures
            *old(self) == Datum::Decimal(*r),
            *final(self) == Datum::Decimal(*final(r)),
    {
        match self {
            Datum::Decimal(d) => d,
            _ => vstd::pervasive::unreached(),
        }
    }

    pub fn as_maybe_integer(&self) -> (r: Option<i32>)
        ensures
            r is Some <==> self@ is Integer,
            r matches Some(i) ==> self@ == Value::Integer(i),
    {
        if let Datum::Integer(i) = self {
            Some(*i)
        } else {
            None
        }
    }

    pub fn as_integer(&self) -> (r: i32)
        requires
            self@ is Integer,
        ensures
            self@ == Value::Integer(r),
    {
        match self {
            Datum::Integer(i) => *i,
            _ => 0,
        }
    }

    pub fn as_maybe_bigint(&self) -> (r: Option<i64>)
        ensures
            r is Some <==> self@ is BigInt,
            r matches Some(i) ==> self@ == Value::BigInt(i),
    {
        if let Datum::BigInt(i) = self {
            Some(*i)
        } else {
            None
        }
    }

    pub fn as_bigint(&self) -> (r: i64)
        requires
            self@ is BigInt,
        ensures
            self@ == Value::BigInt(r),
    {
        match self {
            Datum::BigInt(i) => *i,
            _ => 0,
        }
    }

    pub fn as_maybe_decimal(&self) -> (r: Option<Decimal>)
        ensures
            r is Some <==> self@ is Decimal,
            r matches Some(d) ==> *self == Datum::Decimal(d),
    {
        if let Datum::Decimal(d) = self {
            Some(*d)
        } else {
            None
        }
    }

    pub fn as_decimal(&self) -> (r: Decimal)
        requires
            self@ is Decimal,
        ensures
            *self == Datum::Decimal(r),
    {
        match self {
            Datum::Decimal(d) => *d,
            _ => Decimal::zero(),
        }
    }

    /// The year and the day of the year of a date, which is an integer
    /// holding `year * 512 + day`.
    pub fn as_maybe_date(&self) -> (r: Option<(i32, u32)>)
        ensures
            r is Some <==> self@ is Integer,
            r matches Some((year, day)) ==> {
                &&& self@ matches Value::Integer(i)
                &&& i == year * 512 + day
                &&& day < 512
            },
    {
        if let Datum::Integer(i) = self {
            let i = *i as i64;
            let year: i64 = if i >= 0 {
                i / 512
            } else {
                -((511 - i) / 512)
            };
            let day: i64 = i - year * 512;
            Some((year as i32, day as u32))
        } else {
            None
        }
    }

    pub fn as_date(&self) -> (r: (i32, u32))
        requires
            self@ is Integer,
        ensures
            self@ matches Value::Integer(i) && i == r.0 * 512 + r.1 && r.1 < 512,
    {
        match self.as_maybe_date() {
            Some(d) => d,
            None => (0, 0),
        }
    }

    /// The whole seconds and the nanoseconds of a timestamp, which is a big
    /// integer holding milliseconds since the Unix epoch.
    pub fn as_maybe_timestamp(&self) -> (r: Option<(i64, u32)>)
        ensures
            r is Some <==> self@ is BigInt,
            r matches Some((seconds, nanos)) ==> {
                &&& self@ matches Value::BigInt(i)
                &&& nanos % 1_000_000 == 0
                &&& nanos < 1_000_000_000
                &&& i == seconds * 1000 + nanos / 1_000_000
            },
    {
        if let Datum::BigInt(i) = self {
            let i = *i as i128;
            let seconds: i128 = if i >= 0 {
                i / 1000
            } else {
                -((999 - i) / 1000)
            };
            let millis: i128 = i - seconds * 1000;
            Some((seconds as i64, (millis as u32) * 1_000_000))
        } else {
            None
        }
    }

    pub fn as_timestamp(&self) -> (r: (i64, u32))
        requires
            self@ is BigInt,
        ensures
            self@ matches Value::BigInt(i) && i == r.0 * 1000 + r.1 / 1_000_000 && r.1 % 1_000_000
                == 0 && r.1 < 1_000_000_000,
    {
        match self.as_maybe_timestamp() {
            Some(t) => t,
            None => (0, 0),
        }
    }

    pub fn as_maybe_boolean(&self) -> (r: Option<bool>)
        ensures
            r is Some <==> self@ is Boolean,
            r matches Some(b) ==> self@ == Value::Boolean(b),
    {
        if let Datum::Boolean(b) = self {
            Some(*b)
        } else {
            None
        }
    }

    pub fn as_boolean(&self) -> (r: bool)
        requires
            self@ is Boolean,
        ensures
            self@ == Value::Boolean(r),
    {
        match self {
            Datum::Boolean(b) => *b,
            _ => false,
        }
    }

    pub fn as_maybe_jsonpath(&self) -> (r: Option<&JsonPathExpression>)
        ensures
            r is Some <==> self@ is Jsonpath,
            r matches Some(j) ==> self@ == Value::Jsonpath(j@),
    {
        match self {
            Datum::Jsonpath(j) => Some(&**j),
            Datum::JsonpathRef(j) => Some(*j),
            _ => None,
        }
    }

    pub fn as_jsonpath(&self) -> (r: &JsonPathExpression)
        requires
            self@ is Jsonpath,
        ensures
            self@ == Value::Jsonpath(r@),
    {
        match self {
            Datum::Jsonpath(j) => &**j,
            Datum::JsonpathRef(j) => *j,
            _ => vstd::pervasive::unreached(),
        }
    }
}

impl<'a> Clone for Datum<'a> {
    fn clone(&self) -> (r: Self)
        ensures
            r@ == self@,
    {
        match self {
            Datum::Null => Datum::Null,
            Datum::Boolean(b) => Datum::Boolean(*b),
            Datum::ByteARef(s) => Datum::ByteARef(s),
            Datum::ByteAOwned(s) => Datum::ByteAOwned(boxed_bytes(&**s)),
            Datum::ByteAInline(len, buffer) => Datum::ByteAInline(*len, *buffer),
            Datum::Integer(i) => Datum::Integer(*i),
            Datum::BigInt(i) => Datum::BigInt(*i),
            Datum::Decimal(d) => Datum::Decimal(*d),
            Datum::Jsonpath(j) => Datum::Jsonpath(Box::new((**j).clone())),
            Datum::JsonpathRef(j) => Datum::JsonpathRef(j),
        }
    }
}

impl<'a> PartialEq for Datum<'a> {
    /// Null-safe equality.
    fn eq(&self, other: &Self) -> (r: bool) {
        self.sql_eq(other, true)
    }
}

impl<'a> PartialEqSpecImpl for Datum<'a> {
    open spec fn obeys_eq_spec() -> bool {
        true
    }

    open spec fn eq_spec(&self, other: &Self) -> bool {
        value_sql_eq(self@, other@, true)
    }
}

impl<'a> Eq for Datum<'a> {

}

// From builders to build datums from the native rust types
impl<'a> Default for Datum<'a> {
    fn default() -> (r: Self)
        ensures
            r == Datum::<'a>::Null,
    {
        Datum::Null
    }
}

impl From<bool> for Datum<'static> {
    fn from(b: bool) -> (r: Self) {
        Datum::Boolean(b)
    }
}

impl FromSpecImpl<bool> for Datum<'static> {
    open spec fn obeys_from_spec() -> bool {
        true
    }

    open spec fn from_spec(b: bool) -> Self {
        Datum::Boolean(b)
    }
}

impl From<i32> for Datum<'static> {
    fn from(i: i32) -> (r: Self) {
        Datum::Integer(i)
    }
}

impl FromSpecImpl<i32> for Datum<'static> {
    open spec fn obeys_from_spec() -> bool {
        true
    }

    open spec fn from_spec(i: i32) -> Self {
        Datum::Integer(i)
    }
}

impl From<i64> for Datum<'static> {
    fn from(i: i64) -> (r: Self) {
        Datum::BigInt(i)
    }
}

impl FromSpecImpl<i64> for Datum<'static> {
    open spec fn obeys_from_spec() -> bool {
        true
    }

    open spec fn from_spec(i: i64) -> Self {
        Datum::BigInt(i)
    }
}

impl From<Decimal> for Datum<'static> {
    fn from(d: Decimal) -> (r: Self) {
        Datum::Decimal(d)
    }
}

impl FromSpecImpl<Decimal> for Datum<'static> {
    open spec fn obeys_from_spec() -> bool {
        true
    }

    open spec fn from_spec(d: Decimal) -> Self {
        Datum::Decimal(d)
    }
}

impl<'a> From<&'a str> for Datum<'a> {
    fn from(s: &'a str) -> (r: Self) {
        Datum::from_text(s)
    }
}

impl<'a> FromSpecImpl<&'a str> for Datum<'a> {
    open spec fn obeys_from_spec() -> bool {
        false
    }

    open spec fn from_spec(s: &'a str) -> Self {
        Datum::Null
    }
}

impl From<String> for Datum<'static> {
    fn from(s: String) -> (r: Self) {
        Datum::from_string(s)
    }
}

impl FromSpecImpl<String> for Datum<'static> {
    open spec fn obeys_from_spec() -> bool {
        false
    }

    open spec fn from_spec(s: String) -> Self {
        Datum::Null
    }
}

impl From<Vec<u8>> for Datum<'static> {
    fn from(vec: Vec<u8>) -> (r: Self) {
        Datum::from_bytes(vec)
    }
}

impl FromSpecImpl<Vec<u8>> for Datum<'static> {
    open spec fn obeys_from_spec() -> bool {
        false
    }

    open spec fn from_spec(vec: Vec<u8>) -> Self {
        Datum::Null
    }
}

impl From<crate::data::json::OwnedJson> for Datum<'static> {
    fn from(json: crate::data::json::OwnedJson) -> (r: Self) {
        Datum::from_json(json)
    }
}

impl FromSpecImpl<crate::data::json::OwnedJson> for Datum<'static> {
    open spec fn obeys_from_spec() -> bool {
        false
    }

    open spec fn from_spec(json: crate::data::json::OwnedJson) -> Self {
        Datum::Null
    }
}

impl<'a> From<crate::data::json::Json<'a>> for Datum<'a> {
    fn from(json: crate::data::json::Json<'a>) -> (r: Self) {
        Datum::ByteARef(json.bytes)
    }
}

impl<'a> FromSpecImpl<crate::data::json::Json<'a>> for Datum<'a> {
    open spec fn obeys_from_spec() -> bool {
        true
    }

    open spec fn from_spec(json: crate::data::json::Json<'a>) -> Self {
        Datum::ByteARef(json.bytes)
    }
}

impl<'a> From<&'a [u8]> for Datum<'a> {
    fn from(s: &'a [u8]) -> (r: Self) {
        Datum::ByteARef(s)
    }
}

impl<'a> FromSpecImpl<&'a [u8]> for Datum<'a> {
    open spec fn obeys_from_spec() -> bool {
        true
    }

    open spec fn from_spec(s: &'a [u8]) -> Self {
        Datum::ByteARef(s)
    }
}

/// A Wrapper that can be used to temporarily associate a datum
/// with it's typing information to perform low level operations
/// where we need that extra typing
pub struct TypedDatum<'a> {
    pub datum: &'a Datum<'a>,
    pub datatype: DataType,
}

} // verus!
