//! JSON documents in a self-describing binary form.
//!
//! A document is one value. A value is a tag byte and its content:
//! 0 null, 1 false, 2 true, 3 a number (scale, sign, then twelve bytes of
//! magnitude), 4 a string (its length in four bytes, then its bytes),
//! 5 an array (the number of items in four bytes, then each item as its
//! length in four bytes and its own encoding), 6 an object (the number of
//! keys and values together in four bytes, then in turn each key, as a
//! string, and its value, as the items of an array).

use vstd::prelude::*;
use crate::data::encoding_core::{be_bytes, be_value, push_be, read_be};
use crate::data::decimal::Decimal;
use crate::data::text::{push_bytes, to_vec};

verus! {

pub const JSON_NULL: u8 = 0;

pub const JSON_FALSE: u8 = 1;

pub const JSON_TRUE: u8 = 2;

pub const JSON_NUMBER: u8 = 3;

pub const JSON_STRING: u8 = 4;

pub const JSON_ARRAY: u8 = 5;

pub const JSON_OBJECT: u8 = 6;

/// The items of an array, each with its length in front.
pub open spec fn encode_items(items: Seq<Seq<u8>>) -> Seq<u8>
    decreases items.len(),
{
    if items.len() == 0 {
        Seq::empty()
    } else {
        encode_items(items.drop_last()) + be_bytes(items.last().len(), 4) + items.last()
    }
}

/// The encoding of a string.
pub open spec fn encode_string(s: Seq<u8>) -> Seq<u8> {
    seq![4u8] + be_bytes(s.len(), 4) + s
}

/// The encoding of a boolean.
pub open spec fn encode_boolean(b: bool) -> Seq<u8> {
    if b {
        seq![2u8]
    } else {
        seq![1u8]
    }
}

/// The encoding of a number.
pub open spec fn encode_number(mantissa: int, scale: nat) -> Seq<u8> {
    seq![3u8, scale as u8, if mantissa < 0 {
        1u8
    } else {
        0u8
    }] + be_bytes(
        (if mantissa < 0 {
            -mantissa
        } else {
            mantissa
        }) as nat,
        12,
    )
}

/// The encoding of an array of items that are encoded already.
pub open spec fn encode_array(items: Seq<Seq<u8>>) -> Seq<u8> {
    seq![5u8] + be_bytes(items.len(), 4) + encode_items(items)
}

/// Reads `count` items that start at `pos`, adding to `acc`; nothing where
/// the bytes end early or go on after the last item.
pub open spec fn decode_items(bytes: Seq<u8>, pos: int, count: nat, acc: Seq<Seq<u8>>) -> Option<
    Seq<Seq<u8>>,
>
    decreases count,
{
    if count == 0 {
        if pos == bytes.len() {
            Some(acc)
        } else {
            None
        }
    } else if pos < 0 || pos + 4 > bytes.len() {
        None
    } else {
        let len = be_value(bytes.subrange(pos, pos + 4)) as int;
        if pos + 4 + len > bytes.len() {
            None
        } else {
            decode_items(
                bytes,
                pos + 4 + len,
                (count - 1) as nat,
                acc.push(bytes.subrange(pos + 4, pos + 4 + len)),
            )
        }
    }
}

/// The items of an encoded array, each still encoded.
pub open spec fn array_items(bytes: Seq<u8>) -> Option<Seq<Seq<u8>>> {
    if bytes.len() >= 5 && bytes[0] == 5 {
        decode_items(bytes, 5, be_value(bytes.subrange(1, 5)), Seq::empty())
    } else {
        None
    }
}

/// The encoding of an object: its keys and values in turn, each encoded.
pub open spec fn encode_object(items: Seq<Seq<u8>>) -> Seq<u8> {
    seq![6u8] + be_bytes(items.len(), 4) + encode_items(items)
}

/// The keys and values of an encoded object in turn, each still encoded.
pub open spec fn object_items(bytes: Seq<u8>) -> Option<Seq<Seq<u8>>> {
    if bytes.len() >= 5 && bytes[0] == 6 {
        decode_items(bytes, 5, be_value(bytes.subrange(1, 5)), Seq::empty())
    } else {
        None
    }
}

/// The keys of an object and its values in turn.
pub open spec fn interleaved(keys: Seq<Seq<u8>>, values: Seq<Seq<u8>>) -> Seq<Seq<u8>> {
    Seq::new(
        2 * keys.len(),
        |i: int|
            if i % 2 == 0 {
                encode_string(keys[i / 2])
            } else {
                values[i / 2]
            },
    )
}

/// Whether keys and values fit the encoding of an object: there are as
/// many keys as values and no more of both together than 32 bits count,
/// and each key, the string that holds it, and each value is of a length
/// that 32 bits hold.
pub open spec fn object_fits(keys: Seq<Seq<u8>>, values: Seq<Seq<u8>>) -> bool {
    &&& keys.len() == values.len()
    &&& 2 * keys.len() <= u32::MAX
    &&& forall|k: int|
        0 <= k < keys.len() ==> (#[trigger] keys[k]).len() <= u32::MAX && encode_string(
            keys[k],
        ).len() <= u32::MAX && values[k].len() <= u32::MAX
}

/// The bytes of an encoded string.
pub open spec fn string_content(bytes: Seq<u8>) -> Option<Seq<u8>> {
    if bytes.len() >= 5 && bytes[0] == 4 && be_value(bytes.subrange(1, 5)) == bytes.len() - 5 {
        Some(bytes.subrange(5, bytes.len() as int))
    } else {
        None
    }
}

/// The boolean that the bytes encode.
pub open spec fn boolean_content(bytes: Seq<u8>) -> Option<bool> {
    if bytes.len() == 1 && bytes[0] == 2 {
        Some(true)
    } else if bytes.len() == 1 && bytes[0] == 1 {
        Some(false)
    } else {
        None
    }
}

/// The number that the bytes encode: mantissa and scale.
pub open spec fn number_content(bytes: Seq<u8>) -> Option<(int, nat)> {
    if bytes.len() == 15 && bytes[0] == 3 && bytes[1] <= 28 && bytes[2] <= 1 {
        let magnitude = be_value(bytes.subrange(3, 15)) as int;
        Some(
            (
                if bytes[2] == 1 {
                    -magnitude
                } else {
                    magnitude
                },
                bytes[1] as nat,
            ),
        )
    } else {
        None
    }
}

/// A JSON document that borrows its bytes.
#[derive(Debug, Clone, Copy)]
pub struct Json<'a> {
    pub bytes: &'a [u8],
}

/// A JSON document that owns its bytes.
#[derive(Debug)]
pub struct OwnedJson {
    pub bytes: Vec<u8>,
}

impl<'a> Json<'a> {
    pub fn from_bytes(bytes: &'a [u8]) -> (j: Json<'a>)
        ensures
            j.bytes@ == bytes@,
    {
        Json { bytes }
    }

    pub fn get_boolean(&self) -> (r: Option<bool>)
        ensures
            r == boolean_content(self.bytes@),
    {
        if self.bytes.len() == 1 && self.bytes[0] == JSON_TRUE {
            Some(true)
        } else if self.bytes.len() == 1 && self.bytes[0] == JSON_FALSE {
            Some(false)
        } else {
            None
        }
    }

    pub fn get_string(&self) -> (r: Option<&'a [u8]>)
        ensures
            r is Some <==> string_content(self.bytes@) is Some,
            r matches Some(s) ==> string_content(self.bytes@) == Some(s@),
    {
        let bytes = self.bytes;
        if bytes.len() < 5 || bytes[0] != JSON_STRING {
            return None;
        }
        match read_be(bytes, 1, 4, false) {
            Some(len) => {
                if len == (bytes.len() - 5) as u128 {
                    Some(vstd::slice::slice_subrange(bytes, 5, bytes.len()))
                } else {
                    None
                }
            },
            None => None,
        }
    }

    pub fn get_number(&self) -> (r: Option<Decimal>)
        ensures
            r is Some <==> number_content(self.bytes@) is Some,
            r matches Some(d) ==> number_content(self.bytes@) == Some(d@),
    {
        let bytes = self.bytes;
        if bytes.len() != 15 || bytes[0] != JSON_NUMBER || bytes[1] > 28 || bytes[2] > 1 {
            return None;
        }
        match read_be(bytes, 3, 12, false) {
            Some(magnitude) => {
                proof {
                    crate::data::encoding_core::lemma_be_value_bound(bytes@.subrange(3, 15));
                    reveal_with_fuel(crate::data::encoding_core::pow256, 13);
                }
                let mantissa: i128 = if bytes[2] == 1 {
                    -(magnitude as i128)
                } else {
                    magnitude as i128
                };
                Decimal::try_new(mantissa, bytes[1] as u32)
            },
            None => None,
        }
    }

    /// The items of an array.
    pub fn iter_array(&self) -> (r: Option<Vec<Json<'a>>>)
        ensures
            r is Some <==> array_items(self.bytes@) is Some,
            r matches Some(items) ==> array_items(self.bytes@) matches Some(encoded)
                && items@.len() == encoded.len() && forall|i: int|
                0 <= i < items@.len() ==> (#[trigger] items@[i]).bytes@ == encoded[i],
    {
        if self.bytes.len() < 5 || self.bytes[0] != JSON_ARRAY {
            return None;
        }
        self.items()
    }

    /// The keys and values of an object in turn.
    pub fn iter_object(&self) -> (r: Option<Vec<Json<'a>>>)
        ensures
            r is Some <==> object_items(self.bytes@) is Some,
            r matches Some(items) ==> object_items(self.bytes@) matches Some(encoded)
                && items@.len() == encoded.len() && forall|i: int|
                0 <= i < items@.len() ==> (#[trigger] items@[i]).bytes@ == encoded[i],
    {
        if self.bytes.len() < 5 || self.bytes[0] != JSON_OBJECT {
            return None;
        }
        self.items()
    }

    /// The items that follow the tag of an array or an object.
    fn items(&self) -> (r: Option<Vec<Json<'a>>>)
        requires
            self.bytes@.len() >= 5,
        ensures
            r is Some <==> decode_items(
                self.bytes@,
                5,
                be_value(self.bytes@.subrange(1, 5)),
                Seq::empty(),
            ) is Some,
            r matches Some(items) ==> decode_items(
                self.bytes@,
                5,
                be_value(self.bytes@.subrange(1, 5)),
                Seq::empty(),
            ) matches Some(encoded) && items@.len() == encoded.len() && forall|i: int|
                0 <= i < items@.len() ==> (#[trigger] items@[i]).bytes@ == encoded[i],
    {
        let bytes = self.bytes;
        let count = match read_be(bytes, 1, 4, false) {
            Some(c) => c,
            None => {
                return None;
            },
        };
        let mut items: Vec<Json<'a>> = Vec::new();
        let mut pos: usize = 5;
        let mut done: u128 = 0;
        let ghost mut acc: Seq<Seq<u8>> = Seq::empty();
        while done < count
            invariant
                done <= count,
                bytes@ == self.bytes@,
                5 <= pos <= bytes@.len(),
                count == be_value(bytes@.subrange(1, 5)),
                items@.len() == acc.len(),
                forall|i: int| 0 <= i < items@.len() ==> (#[trigger] items@[i]).bytes@ == acc[i],
                decode_items(bytes@, 5, be_value(bytes@.subrange(1, 5)), Seq::empty())
                    == decode_items(
                    bytes@,
                    pos as int,
                    (count - done) as nat,
                    acc,
                ),
            decreases count - done,
        {
            let len = match read_be(bytes, pos, 4, false) {
                Some(l) => l,
                None => {
                    return None;
                },
            };
            if len > (bytes.len() - pos - 4) as u128 {
                return None;
            }
            let start = pos + 4;
            let end = start + len as usize;
            let item = Json { bytes: vstd::slice::slice_subrange(bytes, start, end) };
            items.push(item);
            proof {
                acc = acc.push(bytes@.subrange(start as int, end as int));
            }
            pos = end;
            done += 1;
        }
        if pos == bytes.len() {
            Some(items)
        } else {
            None
        }
    }
}

impl OwnedJson {
    pub fn as_json(&self) -> (j: Json<'_>)
        ensures
            j.bytes@ == self.bytes@,
    {
        Json { bytes: self.bytes.as_slice() }
    }

    pub fn null() -> (j: OwnedJson)
        ensures
            j.bytes@ == seq![0u8],
    {
        let mut bytes: Vec<u8> = Vec::new();
        bytes.push(JSON_NULL);
        OwnedJson { bytes }
    }

    pub fn boolean(b: bool) -> (j: OwnedJson)
        ensures
            j.bytes@ == encode_boolean(b),
    {
        let mut bytes: Vec<u8> = Vec::new();
        if b {
            bytes.push(JSON_TRUE);
        } else {
            bytes.push(JSON_FALSE);
        }
        OwnedJson { bytes }
    }

    /// A string of at most `u32::MAX` bytes; a longer one gives nothing.
    pub fn string(s: &[u8]) -> (r: Option<OwnedJson>)
        ensures
            r is Some <==> s@.len() <= u32::MAX,
            r matches Some(j) ==> j.bytes@ == encode_string(s@),
    {
        if s.len() > u32::MAX as usize {
            return None;
        }
        let mut bytes: Vec<u8> = Vec::new();
        bytes.push(JSON_STRING);
        push_be(&mut bytes, s.len() as u128, 4);
        push_bytes(&mut bytes, s);
        Some(OwnedJson { bytes })
    }

    pub fn number(d: &Decimal) -> (j: OwnedJson)
        ensures
            j.bytes@ == encode_number(d.spec_mantissa(), d.spec_scale()),
    {
        let mantissa = d.mantissa();
        let scale = d.scale();
        let mut bytes: Vec<u8> = Vec::new();
        bytes.push(JSON_NUMBER);
        bytes.push(scale as u8);
        if mantissa < 0 {
            bytes.push(1);
            push_be(&mut bytes, (-mantissa) as u128, 12);
        } else {
            bytes.push(0);
            push_be(&mut bytes, mantissa as u128, 12);
        }
        OwnedJson { bytes }
    }

    /// An object of the given keys and values, where there are as many
    /// keys as values and all of them fit the encoding; otherwise nothing.
    pub fn object(keys: &Vec<Vec<u8>>, values: &Vec<OwnedJson>) -> (r: Option<OwnedJson>)
        ensures
            r is Some <==> object_fits(
                Seq::new(keys@.len(), |i: int| keys@[i]@),
                Seq::new(values@.len(), |i: int| values@[i].bytes@),
            ),
            r matches Some(j) ==> keys@.len() == values@.len() && j.bytes@ == encode_object(
                interleaved(
                    Seq::new(keys@.len(), |i: int| keys@[i]@),
                    Seq::new(values@.len(), |i: int| values@[i].bytes@),
                ),
            ),
    {
        if keys.len() != values.len() {
            return None;
        }
        let ghost key_views = Seq::new(keys@.len(), |i: int| keys@[i]@);
        let ghost value_views = Seq::new(values@.len(), |i: int| values@[i].bytes@);
        let ghost target = interleaved(key_views, value_views);
        let mut items: Vec<OwnedJson> = Vec::new();
        let mut i: usize = 0;
        while i < keys.len()
            invariant
                i <= keys@.len(),
                keys@.len() == values@.len(),
                key_views == Seq::new(keys@.len(), |i: int| keys@[i]@),
                value_views == Seq::new(values@.len(), |i: int| values@[i].bytes@),
                target == interleaved(key_views, value_views),
                items@.len() == 2 * i,
                forall|k: int| 0 <= k < 2 * i ==> (#[trigger] items@[k]).bytes@ == target[k],
                forall|k: int| 0 <= k < i ==> (#[trigger] key_views[k]).len() <= u32::MAX,
            decreases keys@.len() - i,
        {
            let key = match OwnedJson::string(keys[i].as_slice()) {
                Some(key) => key,
                None => {
                    assert(key_views[i as int].len() > u32::MAX);
                    return None;
                },
            };
            if items.len() >= usize::MAX - 1 {
                return None;
            }
            items.push(key);
            items.push(values[i].clone());
            i += 1;
        }
        match OwnedJson::tagged(JSON_OBJECT, &items) {
            Some(j) => {
                assert(Seq::new(items@.len(), |k: int| items@[k].bytes@) =~= target);
                assert forall|k: int| 0 <= k < key_views.len() implies encode_string(
                    #[trigger] key_views[k],
                ).len() <= u32::MAX && value_views[k].len() <= u32::MAX by {
                    assert(items@[2 * k].bytes@ == target[2 * k]);
                    assert(items@[2 * k + 1].bytes@ == target[2 * k + 1]);
                }
                Some(j)
            },
            None => {
                proof {
                    if object_fits(key_views, value_views) {
                        assert forall|k: int| 0 <= k < items@.len() implies (
                        #[trigger] items@[k]).bytes@.len() <= u32::MAX by {
                            assert(items@[k].bytes@ == target[k]);
                            assert(key_views[k / 2].len() <= u32::MAX);
                        }
                    }
                }
                None
            },
        }
    }

    /// An array of the given items, where their number and each of their
    /// lengths fit in 32 bits; otherwise nothing.
    pub fn array(items: &Vec<OwnedJson>) -> (r: Option<OwnedJson>)
        ensures
            r is Some <==> (items@.len() <= u32::MAX && forall|i: int|
                0 <= i < items@.len() ==> (#[trigger] items@[i]).bytes@.len() <= u32::MAX),
            r matches Some(j) ==> j.bytes@ == encode_array(
                Seq::new(items@.len(), |i: int| items@[i].bytes@),
            ),
    {
        OwnedJson::tagged(JSON_ARRAY, items)
    }

    /// The given tag, then the given items as an array has them.
    fn tagged(tag: u8, items: &Vec<OwnedJson>) -> (r: Option<OwnedJson>)
        ensures
            r is Some <==> (items@.len() <= u32::MAX && forall|i: int|
                0 <= i < items@.len() ==> (#[trigger] items@[i]).bytes@.len() <= u32::MAX),
            r matches Some(j) ==> j.bytes@ == seq![tag] + be_bytes(items@.len(), 4) + encode_items(
                Seq::new(items@.len(), |i: int| items@[i].bytes@),
            ),
    {
        if items.len() > u32::MAX as usize {
            return None;
        }
        let ghost all = Seq::new(items@.len(), |i: int| items@[i].bytes@);
        let mut bytes: Vec<u8> = Vec::new();
        bytes.push(tag);
        push_be(&mut bytes, items.len() as u128, 4);
        let ghost head = bytes@;
        let mut i: usize = 0;
        while i < items.len()
            invariant
                i <= items@.len(),
                all == Seq::new(items@.len(), |i: int| items@[i].bytes@),
                forall|k: int| 0 <= k < i ==> (#[trigger] items@[k]).bytes@.len() <= u32::MAX,
                bytes@ == head + encode_items(all.subrange(0, i as int)),
            decreases items@.len() - i,
        {
            let item = &items[i];
            if item.bytes.len() > u32::MAX as usize {
                return None;
            }
            proof {
                assert(all.subrange(0, i + 1).drop_last() =~= all.subrange(0, i as int));
                assert(all.subrange(0, i + 1).last() == item.bytes@);
            }
            let ghost before = bytes@;
            push_be(&mut bytes, item.bytes.len() as u128, 4);
            push_bytes(&mut bytes, item.bytes.as_slice());
            assert(bytes@ =~= head + encode_items(all.subrange(0, i + 1)));
            i += 1;
        }
        assert(all.subrange(0, i as int) =~= all);
        Some(OwnedJson { bytes })
    }
}

impl Clone for OwnedJson {
    fn clone(&self) -> (r: Self)
        ensures
            r.bytes@ == self.bytes@,
    {
        OwnedJson { bytes: to_vec(self.bytes.as_slice()) }
    }
}

} // verus!
