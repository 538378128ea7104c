//! Property types and their wire encoding.
//!
//! Multi-byte values are big-endian. Strings travel as 32-byte NUL-padded
//! fields. Floating-point properties travel as 8.24 fixed-point words; the
//! library carries that word itself (`PropertyValue::Float`), and converting
//! it to and from a float is left to the program that shows it to a user.

use vstd::prelude::*;
use vstd::utf8::*;

use crate::text::{str_eq, utf8_to_string};

verus! {

/// The wire type of a device property.
#[derive(Debug, Clone, Copy, PartialEq, Eq, Structural)]
pub enum PropertyType {
    Byte,
    Int16,
    Int32,
    Float,
    String,
    Array,
}

/// A property value. `Float` holds the 8.24 fixed-point word
/// (value * 0x0100_0000, rounded) exactly as the device transmits it.
#[derive(Debug, Clone)]
pub enum PropertyValue {
    Byte(u8),
    Int16(i16),
    Int32(i32),
    Float(i32),
    String(String),
    Array(Vec<u8>),
}

/// The mathematical content of a `PropertyValue`.
pub enum ValueModel {
    Byte(u8),
    Int16(i16),
    Int32(i32),
    Float(i32),
    String(Seq<char>),
    Array(Seq<u8>),
}

impl View for PropertyValue {
    type V = ValueModel;

    open spec fn view(&self) -> ValueModel {
        match self {
            PropertyValue::Byte(b) => ValueModel::Byte(*b),
            PropertyValue::Int16(x) => ValueModel::Int16(*x),
            PropertyValue::Int32(x) => ValueModel::Int32(*x),
            PropertyValue::Float(x) => ValueModel::Float(*x),
            PropertyValue::String(s) => ValueModel::String(s@),
            PropertyValue::Array(a) => ValueModel::Array(a@),
        }
    }
}

/// The model of an optional value.
pub open spec fn option_model(v: Option<PropertyValue>) -> Option<ValueModel> {
    match v {
        Some(x) => Some(x@),
        None => None,
    }
}

/// The wire type that carries a value of the given kind.
pub open spec fn model_type(v: ValueModel) -> PropertyType {
    match v {
        ValueModel::Byte(_) => PropertyType::Byte,
        ValueModel::Int16(_) => PropertyType::Int16,
        ValueModel::Int32(_) => PropertyType::Int32,
        ValueModel::Float(_) => PropertyType::Float,
        ValueModel::String(_) => PropertyType::String,
        ValueModel::Array(_) => PropertyType::Array,
    }
}

/// Big-endian bytes of a 16-bit word.
pub open spec fn be16(u: u16) -> Seq<u8> {
    seq![(u >> 8u16) as u8, (u & 0xffu16) as u8]
}

/// Big-endian bytes of a 32-bit word.
pub open spec fn be32(u: u32) -> Seq<u8> {
    seq![
        (u >> 24u32) as u8,
        ((u >> 16u32) & 0xffu32) as u8,
        ((u >> 8u32) & 0xffu32) as u8,
        (u & 0xffu32) as u8,
    ]
}

/// The 16-bit word whose big-endian bytes are `b0 b1`.
pub open spec fn be16_value(b0: u8, b1: u8) -> u16 {
    ((b0 as u16) << 8u16) | (b1 as u16)
}

/// The 32-bit word whose big-endian bytes are `b0 b1 b2 b3`.
pub open spec fn be32_value(b0: u8, b1: u8, b2: u8, b3: u8) -> u32 {
    ((b0 as u32) << 24u32) | ((b1 as u32) << 16u32) | ((b2 as u32) << 8u32) | (b3 as u32)
}

/// Length of a string field on the wire.
pub const STRING_FIELD_LEN: usize = 32;

/// Longest text a string field carries: one byte is kept for the NUL.
pub const STRING_TEXT_MAX: usize = 31;

/// A string as a 32-byte field: its UTF-8 bytes cut to 31, then NUL padding.
pub open spec fn string_field(s: Seq<char>) -> Seq<u8> {
    let b = encode_utf8(s);
    let n: int = if b.len() < 31 {
        b.len() as int
    } else {
        31
    };
    b.take(n) + Seq::new((32 - n) as nat, |i: int| 0u8)
}

/// The wire encoding of a value.
pub open spec fn encode_model(v: ValueModel) -> Seq<u8> {
    match v {
        ValueModel::Byte(b) => seq![b],
        ValueModel::Int16(x) => be16(x as u16),
        ValueModel::Int32(x) => be32(x as u32),
        ValueModel::Float(x) => be32(x as u32),
        ValueModel::String(s) => string_field(s),
        ValueModel::Array(a) => a,
    }
}

/// Index of the first NUL byte of `d`, or its length when it holds none.
pub open spec fn nul_position(d: Seq<u8>) -> int
    decreases d.len(),
{
    if d.len() == 0 {
        0
    } else if d[0] == 0 {
        0
    } else {
        1 + nul_position(d.drop_first())
    }
}

/// What a property of type `t` reads from the bytes `d`: `None` when the
/// bytes are too short for the type, or when a string's bytes before the
/// first NUL are not UTF-8.
pub open spec fn decode_model(t: PropertyType, d: Seq<u8>) -> Option<ValueModel> {
    match t {
        PropertyType::Byte => if d.len() >= 1 {
            Some(ValueModel::Byte(d[0]))
        } else {
            None
        },
        PropertyType::Int16 => if d.len() >= 2 {
            Some(ValueModel::Int16(be16_value(d[0], d[1]) as i16))
        } else {
            None
        },
        PropertyType::Int32 => if d.len() >= 4 {
            Some(ValueModel::Int32(be32_value(d[0], d[1], d[2], d[3]) as i32))
        } else {
            None
        },
        PropertyType::Float => if d.len() >= 4 {
            Some(ValueModel::Float(be32_value(d[0], d[1], d[2], d[3]) as i32))
        } else {
            None
        },
        PropertyType::String => {
            let text = d.take(nul_position(d));
            if valid_utf8(text) {
                Some(ValueModel::String(decode_utf8(text)))
            } else {
                None
            }
        },
        PropertyType::Array => Some(ValueModel::Array(d)),
    }
}

/// Whether a value survives an encode/decode round trip: every value but a
/// string whose UTF-8 form is longer than 31 bytes or holds a NUL byte.
pub open spec fn fits_wire(v: ValueModel) -> bool {
    match v {
        ValueModel::String(s) => encode_utf8(s).len() <= 31 && !encode_utf8(s).contains(0u8),
        _ => true,
    }
}

pub proof fn lemma_be16_roundtrip(u: u16)
    ensures
        be16_value(be16(u)[0], be16(u)[1]) == u,
{
    assert(((((u >> 8u16) as u8) as u16) << 8u16) | ((((u & 0xffu16) as u8) as u16)) == u)
        by (bit_vector);
}

pub proof fn lemma_be32_roundtrip(u: u32)
    ensures
        be32_value(be32(u)[0], be32(u)[1], be32(u)[2], be32(u)[3]) == u,
{
    assert(((((u >> 24u32) as u8) as u32) << 24u32) | (((((u >> 16u32) & 0xffu32) as u8) as u32)
        << 16u32) | (((((u >> 8u32) & 0xffu32) as u8) as u32) << 8u32) | ((((u & 0xffu32) as u8)
        as u32)) == u) by (bit_vector);
}

proof fn lemma_nul_position(d: Seq<u8>, i: int)
    requires
        0 <= i <= d.len(),
        forall|k: int| 0 <= k < i ==> d[k] != 0,
        i == d.len() || d[i] == 0,
    ensures
        nul_position(d) == i,
    decreases i,
{
    if i > 0 {
        assert forall|k: int| 0 <= k < i - 1 implies d.drop_first()[k] != 0 by {
            assert(d.drop_first()[k] == d[k + 1]);
        }
        if i < d.len() {
            assert(d.drop_first()[i - 1] == d[i]);
        }
        lemma_nul_position(d.drop_first(), i - 1);
    }
}

/// Reading back what was written gives the value written, for every value
/// that fits its wire field.
pub proof fn lemma_decode_encode(v: ValueModel)
    requires
        fits_wire(v),
    ensures
        decode_model(model_type(v), encode_model(v)) == Some(v),
{
    match v {
        ValueModel::Int16(x) => {
            lemma_be16_roundtrip(x as u16);
            assert(((x as u16) as i16) == x) by (bit_vector);
        },
        ValueModel::Int32(x) => {
            lemma_be32_roundtrip(x as u32);
            assert(((x as u32) as i32) == x) by (bit_vector);
        },
        ValueModel::Float(x) => {
            lemma_be32_roundtrip(x as u32);
            assert(((x as u32) as i32) == x) by (bit_vector);
        },
        ValueModel::String(s) => {
            let b = encode_utf8(s);
            let f = string_field(s);
            assert forall|k: int| 0 <= k < b.len() implies f[k] != 0 by {
                assert(f[k] == b[k]);
                if b[k] == 0 {
                    assert(b.contains(0u8));
                }
            }
            lemma_nul_position(f, b.len() as int);
            assert(f.take(b.len() as int) =~= b);
            encode_utf8_valid_utf8(s);
            encode_utf8_decode_utf8(s);
        },
        _ => {},
    }
}

impl PropertyValue {
    /// The value's wire bytes.
    pub fn encode(&self) -> (out: Vec<u8>)
        ensures
            out@ == encode_model(self@),
    {
        match self {
            PropertyValue::Byte(v) => {
                let mut out = Vec::new();
                out.push(*v);
                out
            },
            PropertyValue::Int16(v) => u16_be_bytes(#[verifier::truncate] (*v as u16)),
            PropertyValue::Int32(v) => u32_be_bytes(#[verifier::truncate] (*v as u32)),
            PropertyValue::Float(v) => u32_be_bytes(#[verifier::truncate] (*v as u32)),
            PropertyValue::String(s) => {
                let bytes = s.as_str().as_bytes();
                let len = if bytes.len() < STRING_TEXT_MAX {
                    bytes.len()
                } else {
                    STRING_TEXT_MAX
                };
                let mut out: Vec<u8> = Vec::new();
                let mut i: usize = 0;
                while i < STRING_FIELD_LEN
                    invariant
                        i <= STRING_FIELD_LEN,
                        len == (if bytes@.len() < 31 { bytes@.len() as int } else { 31 }),
                        bytes@ == encode_utf8(s@),
                        out@.len() == i,
                        forall|k: int| 0 <= k < i ==> out@[k] == string_field(s@)[k],
                    decreases STRING_FIELD_LEN - i,
                {
                    if i < len {
                        out.push(bytes[i]);
                    } else {
                        out.push(0u8);
                    }
                    i += 1;
                }
                assert(out@ =~= string_field(s@));
                out
            },
            PropertyValue::Array(v) => v.clone(),
        }
    }

    /// Reads a value of type `prop_type` from `data`.
    pub fn decode(prop_type: PropertyType, data: &[u8]) -> (res: Option<PropertyValue>)
        ensures
            option_model(res) == decode_model(prop_type, data@),
    {
        match prop_type {
            PropertyType::Byte => if data.len() >= 1 {
                Some(PropertyValue::Byte(data[0]))
            } else {
                None
            },
            PropertyType::Int16 => if data.len() >= 2 {
                Some(PropertyValue::Int16(#[verifier::truncate] (u16_from_be(data[0], data[1]) as i16)))
            } else {
                None
            },
            PropertyType::Int32 => if data.len() >= 4 {
                Some(PropertyValue::Int32(#[verifier::truncate] (u32_from_be(data[0], data[1], data[2], data[3]) as i32)))
            } else {
                None
            },
            PropertyType::Float => if data.len() >= 4 {
                Some(PropertyValue::Float(#[verifier::truncate] (u32_from_be(data[0], data[1], data[2], data[3]) as i32)))
            } else {
                None
            },
            PropertyType::String => {
                let mut end: usize = 0;
                while end < data.len() && data[end] != 0
                    invariant
                        end <= data@.len(),
                        forall|k: int| 0 <= k < end ==> data@[k] != 0,
                    decreases data@.len() - end,
                {
                    end += 1;
                }
                proof {
                    lemma_nul_position(data@, end as int);
                }
                let text = &data[0..end];
                assert(text@ == data@.take(end as int));
                match utf8_to_string(text) {
                    Some(s) => Some(PropertyValue::String(s)),
                    None => None,
                }
            },
            PropertyType::Array => {
                let mut out: Vec<u8> = Vec::new();
                let mut i: usize = 0;
                while i < data.len()
                    invariant
                        i <= data@.len(),
                        out@ == data@.take(i as int),
                    decreases data@.len() - i,
                {
                    out.push(data[i]);
                    i += 1;
                    assert(out@ =~= data@.take(i as int));
                }
                assert(data@.take(data@.len() as int) =~= data@);
                Some(PropertyValue::Array(out))
            },
        }
    }
}

impl PartialEq for PropertyValue {
    fn eq(&self, other: &Self) -> (eq: bool) {
        values_equal(self, other)
    }
}

impl vstd::std_specs::cmp::PartialEqSpecImpl for PropertyValue {
    open spec fn obeys_eq_spec() -> bool {
        true
    }

    open spec fn eq_spec(&self, other: &PropertyValue) -> bool {
        self@ == other@
    }
}

/// Whether two values are equal.
pub fn values_equal(a: &PropertyValue, b: &PropertyValue) -> (eq: bool)
    ensures
        eq == (a@ == b@),
{
    match (a, b) {
        (PropertyValue::Byte(x), PropertyValue::Byte(y)) => *x == *y,
        (PropertyValue::Int16(x), PropertyValue::Int16(y)) => *x == *y,
        (PropertyValue::Int32(x), PropertyValue::Int32(y)) => *x == *y,
        (PropertyValue::Float(x), PropertyValue::Float(y)) => *x == *y,
        (PropertyValue::String(x), PropertyValue::String(y)) => str_eq(x.as_str(), y.as_str()),
        (PropertyValue::Array(x), PropertyValue::Array(y)) => bytes_eq(x.as_slice(), y.as_slice()),
        _ => false,
    }
}

/// Whether two byte strings are equal.
pub fn bytes_eq(x: &[u8], y: &[u8]) -> (eq: bool)
    ensures
        eq == (x@ == y@),
{
    if x.len() != y.len() {
        return false;
    }
    let mut i: usize = 0;
    while i < x.len()
        invariant
            x@.len() == y@.len(),
            i <= x@.len(),
            forall|k: int| 0 <= k < i ==> x@[k] == y@[k],
        decreases x@.len() - i,
    {
        if x[i] != y[i] {
            assert(x@[i as int] != y@[i as int]);
            return false;
        }
        i += 1;
    }
    assert(x@ =~= y@);
    true
}

/// Big-endian bytes of a 16-bit word.
pub fn u16_be_bytes(u: u16) -> (out: Vec<u8>)
    ensures
        out@ == be16(u),
{
    let mut out = Vec::new();
    out.push((u >> 8u16) as u8);
    out.push((u & 0xffu16) as u8);
    assert(out@ =~= be16(u));
    out
}

/// Big-endian bytes of a 32-bit word.
pub fn u32_be_bytes(u: u32) -> (out: Vec<u8>)
    ensures
        out@ == be32(u),
{
    let mut out = Vec::new();
    out.push((u >> 24u32) as u8);
    out.push(((u >> 16u32) & 0xffu32) as u8);
    out.push(((u >> 8u32) & 0xffu32) as u8);
    out.push((u & 0xffu32) as u8);
    assert(out@ =~= be32(u));
    out
}

/// The 16-bit word with big-endian bytes `b0 b1`.
pub fn u16_from_be(b0: u8, b1: u8) -> (u: u16)
    ensures
        u == be16_value(b0, b1),
{
    ((b0 as u16) << 8u16) | (b1 as u16)
}

/// The 32-bit word with big-endian bytes `b0 b1 b2 b3`.
pub fn u32_from_be(b0: u8, b1: u8, b2: u8, b3: u8) -> (u: u32)
    ensures
        u == be32_value(b0, b1, b2, b3),
{
    ((b0 as u32) << 24u32) | ((b1 as u32) << 16u32) | ((b2 as u32) << 8u32) | (b3 as u32)
}

} // verus!
