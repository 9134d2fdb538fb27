//! The byte-level representation of schema-typed payload values.
//!
//! Both directions of the protocol carry payloads as a continuous byte
//! stream without application-level framing: given a schema and a cursor,
//! exactly one value is decoded and the cursor advances past it, because
//! the schema itself determines the boundary of each datum. Fixed-width
//! values are little-endian; signed integers travel offset by half their
//! range; byte strings and text carry a 64-bit length first, text as
//! UTF-8.

use vstd::bytes::*;
use vstd::prelude::*;
use vstd::slice::{slice_index_get, slice_subrange, slice_to_vec};
use vstd::utf8::{
    decode_utf8, encode_utf8, encode_utf8_decode_utf8, encode_utf8_valid_utf8, valid_utf8,
};

use crate::schema::Schema;
use crate::value::{conforms, Value, ValueModel};

verus! {

/// The wire form of a signed 32-bit integer: offset binary.
pub open spec fn int_to_wire(i: i32) -> u32 {
    ((i as int) + 0x8000_0000) as u32
}

/// The signed 32-bit integer a wire word stands for.
pub open spec fn wire_to_int(u: u32) -> i32 {
    ((u as int) - 0x8000_0000) as i32
}

/// The wire form of a signed 64-bit integer: offset binary.
pub open spec fn long_to_wire(l: i64) -> u64 {
    ((l as int) + 0x8000_0000_0000_0000) as u64
}

/// The signed 64-bit integer a wire word stands for.
pub open spec fn wire_to_long(u: u64) -> i64 {
    ((u as int) - 0x8000_0000_0000_0000) as i64
}

/// Whether a value is small enough for its lengths to travel as 64-bit
/// words. Every value built at runtime is; the bound matters only for the
/// mathematical model.
pub open spec fn fits_wire(v: ValueModel) -> bool {
    match v {
        ValueModel::Bytes(b) => b.len() < 0x1_0000_0000_0000_0000,
        ValueModel::String(s) => encode_utf8(s).len() < 0x1_0000_0000_0000_0000,
        _ => true,
    }
}

/// The byte encoding of a value. Total on the model; meaningful for the
/// protocol when the value conforms to the governing schema and
/// `fits_wire` holds.
pub open spec fn spec_encode(v: ValueModel) -> Seq<u8> {
    match v {
        ValueModel::Null => Seq::<u8>::empty(),
        ValueModel::Boolean(b) => seq![if b { 1u8 } else { 0u8 }],
        ValueModel::Int(i) => spec_u32_to_le_bytes(int_to_wire(i)),
        ValueModel::Long(l) => spec_u64_to_le_bytes(long_to_wire(l)),
        ValueModel::Double(bits) => spec_u64_to_le_bytes(bits),
        ValueModel::Bytes(b) => spec_u64_to_le_bytes(b.len() as u64) + b,
        ValueModel::String(s) => spec_u64_to_le_bytes(encode_utf8(s).len() as u64) + encode_utf8(
            s,
        ),
    }
}

/// One datum decoded from `bytes` at `pos` under `s`, with the cursor
/// position just past it; `None` when the bytes do not hold such a datum.
pub open spec fn spec_decode(s: Schema, bytes: Seq<u8>, pos: int) -> Option<(ValueModel, int)> {
    match s {
        Schema::Null => Some((ValueModel::Null, pos)),
        Schema::Boolean => if pos + 1 <= bytes.len() && (bytes[pos] == 0 || bytes[pos] == 1) {
            Some((ValueModel::Boolean(bytes[pos] == 1), pos + 1))
        } else {
            None
        },
        Schema::Int => if pos + 4 <= bytes.len() {
            Some(
                (
                    ValueModel::Int(wire_to_int(spec_u32_from_le_bytes(bytes.subrange(pos, pos + 4)))),
                    pos + 4,
                ),
            )
        } else {
            None
        },
        Schema::Long => if pos + 8 <= bytes.len() {
            Some(
                (
                    ValueModel::Long(
                        wire_to_long(spec_u64_from_le_bytes(bytes.subrange(pos, pos + 8))),
                    ),
                    pos + 8,
                ),
            )
        } else {
            None
        },
        Schema::Double => if pos + 8 <= bytes.len() {
            Some(
                (
                    ValueModel::Double(spec_u64_from_le_bytes(bytes.subrange(pos, pos + 8))),
                    pos + 8,
                ),
            )
        } else {
            None
        },
        Schema::Bytes => match spec_decode_len_prefixed(bytes, pos) {
            Some((data, end)) => Some((ValueModel::Bytes(data), end)),
            None => None,
        },
        Schema::String => match spec_decode_len_prefixed(bytes, pos) {
            Some((data, end)) => if valid_utf8(data) {
                Some((ValueModel::String(decode_utf8(data)), end))
            } else {
                None
            },
            None => None,
        },
    }
}

/// A 64-bit length followed by that many bytes, read from `bytes` at
/// `pos`; yields the raw bytes and the cursor past them.
pub open spec fn spec_decode_len_prefixed(bytes: Seq<u8>, pos: int) -> Option<(Seq<u8>, int)> {
    if pos + 8 <= bytes.len() {
        let n = spec_u64_from_le_bytes(bytes.subrange(pos, pos + 8)) as int;
        if pos + 8 + n <= bytes.len() {
            Some((bytes.subrange(pos + 8, pos + 8 + n), pos + 8 + n))
        } else {
            None
        }
    } else {
        None
    }
}

/// Appends a byte slice.
pub(crate) fn append_bytes(out: &mut Vec<u8>, data: &[u8])
    ensures
        final(out)@ == old(out)@ + data@,
{
    out.extend_from_slice(data);
}

/// Appends the four little-endian bytes of `x`.
pub(crate) fn append_u32(out: &mut Vec<u8>, x: u32)
    ensures
        final(out)@ == old(out)@ + spec_u32_to_le_bytes(x),
{
    let b = u32_to_le_bytes(x);
    out.extend_from_slice(b.as_slice());
}

/// Appends the eight little-endian bytes of `x`.
pub(crate) fn append_u64(out: &mut Vec<u8>, x: u64)
    ensures
        final(out)@ == old(out)@ + spec_u64_to_le_bytes(x),
{
    let b = u64_to_le_bytes(x);
    out.extend_from_slice(b.as_slice());
}

/// Appends the encoding of `value` to `out`. The encoding depends on the
/// value alone; whether it is admissible under a schema is the caller's
/// check.
pub fn encode_value_into(value: &Value, out: &mut Vec<u8>)
    ensures
        final(out)@ == old(out)@ + spec_encode(value@),
{
    match value {
        Value::Null => {
            assert(out@ =~= old(out)@ + spec_encode(value@));
        },
        Value::Boolean(b) => {
            out.push(if *b {
                1u8
            } else {
                0u8
            });
            assert(out@ =~= old(out)@ + spec_encode(value@));
        },
        Value::Int(i) => {
            let wire: u32 = (((*i) as i64) + 0x8000_0000i64) as u32;
            append_u32(out, wire);
        },
        Value::Long(l) => {
            let wire: u64 = (((*l) as i128) + 0x8000_0000_0000_0000i128) as u64;
            append_u64(out, wire);
        },
        Value::Double(bits) => {
            append_u64(out, *bits);
        },
        Value::Bytes(b) => {
            append_u64(out, b.len() as u64);
            append_bytes(out, b.as_slice());
            assert(out@ =~= old(out)@ + spec_encode(value@));
        },
        Value::String(s) => {
            let bytes = s.as_str().as_bytes();
            append_u64(out, bytes.len() as u64);
            append_bytes(out, bytes);
            assert(out@ =~= old(out)@ + spec_encode(value@));
        },
    }
}

/// Encodes a value against a schema: the byte form of the datum when the
/// value conforms, nothing otherwise.
pub fn encode_value(schema: &Schema, value: &Value) -> (r: Option<Vec<u8>>)
    ensures
        r is Some <==> conforms(value@, *schema),
        r is Some ==> r.unwrap()@ == spec_encode(value@),
{
    if !value.matches_schema(schema) {
        return None;
    }
    let mut out: Vec<u8> = Vec::new();
    encode_value_into(value, &mut out);
    Some(out)
}

/// Relies on String::from_utf8: succeeds exactly on valid UTF-8 input and
/// yields the string those bytes spell.
#[verifier::external_body]
pub(crate) fn string_from_utf8(bytes: Vec<u8>) -> (r: Option<String>)
    ensures
        r is Some <==> valid_utf8(bytes@),
        r is Some ==> r.unwrap()@ == decode_utf8(bytes@),
{
    match String::from_utf8(bytes) {
        Ok(s) => Some(s),
        Err(_) => None,
    }
}

/// Decodes one datum from `buf` at `pos` under `schema`, returning the
/// value and the cursor just past it, exactly as the model `spec_decode`
/// says.
pub fn decode_value(schema: &Schema, buf: &[u8], pos: usize) -> (r: Option<(Value, usize)>)
    requires
        pos <= buf@.len(),
    ensures
        match spec_decode(*schema, buf@, pos as int) {
            Some((v, end)) => r is Some && r.unwrap().0@ == v && r.unwrap().1 == end,
            None => r is None,
        },
{
    match schema {
        Schema::Null => Some((Value::Null, pos)),
        Schema::Boolean => {
            if pos < buf.len() {
                let b = *slice_index_get(buf, pos);
                if b == 0 {
                    Some((Value::Boolean(false), pos + 1))
                } else if b == 1 {
                    Some((Value::Boolean(true), pos + 1))
                } else {
                    None
                }
            } else {
                None
            }
        },
        Schema::Int => {
            if buf.len() - pos >= 4 {
                let wire = u32_from_le_bytes(slice_subrange(buf, pos, pos + 4));
                let i: i32 = ((wire as i64) - 0x8000_0000i64) as i32;
                Some((Value::Int(i), pos + 4))
            } else {
                None
            }
        },
        Schema::Long => {
            if buf.len() - pos >= 8 {
                let wire = u64_from_le_bytes(slice_subrange(buf, pos, pos + 8));
                let l: i64 = ((wire as i128) - 0x8000_0000_0000_0000i128) as i64;
                Some((Value::Long(l), pos + 8))
            } else {
                None
            }
        },
        Schema::Double => {
            if buf.len() - pos >= 8 {
                let bits = u64_from_le_bytes(slice_subrange(buf, pos, pos + 8));
                Some((Value::Double(bits), pos + 8))
            } else {
                None
            }
        },
        Schema::Bytes => {
            match decode_len_prefixed(buf, pos) {
                Some((data, end)) => Some((Value::Bytes(data), end)),
                None => None,
            }
        },
        Schema::String => {
            match decode_len_prefixed(buf, pos) {
                Some((data, end)) => match string_from_utf8(data) {
                    Some(s) => Some((Value::String(s), end)),
                    None => None,
                },
                None => None,
            }
        },
    }
}

/// Reads a 64-bit length and that many raw bytes.
pub(crate) fn decode_len_prefixed(buf: &[u8], pos: usize) -> (r: Option<(Vec<u8>, usize)>)
    requires
        pos <= buf@.len(),
    ensures
        r is Some ==> r.unwrap().1 <= buf@.len(),
        match spec_decode_len_prefixed(buf@, pos as int) {
            Some((data, end)) => r is Some && r.unwrap().0@ == data && r.unwrap().1 == end,
            None => r is None,
        },
{
    if buf.len() - pos < 8 {
        return None;
    }
    let n = u64_from_le_bytes(slice_subrange(buf, pos, pos + 8));
    let rem: usize = buf.len() - (pos + 8);
    if n > rem as u64 {
        return None;
    }
    let len = n as usize;
    let data = slice_to_vec(slice_subrange(buf, pos + 8, pos + 8 + len));
    Some((data, pos + 8 + len))
}

/// The round-trip law: a conforming value, encoded and then decoded under
/// the same schema at any position of any stream that carries those bytes,
/// comes back equal, with the cursor just past the datum. The schema alone
/// finds the datum's boundary, whatever follows it.
pub proof fn lemma_codec_round_trip(s: Schema, v: ValueModel, bytes: Seq<u8>, pos: int)
    requires
        conforms(v, s),
        fits_wire(v),
        0 <= pos,
        pos + spec_encode(v).len() <= bytes.len(),
        bytes.subrange(pos, pos + spec_encode(v).len() as int) == spec_encode(v),
    ensures
        spec_decode(s, bytes, pos) == Some((v, pos + spec_encode(v).len())),
{
    lemma_auto_spec_u32_to_from_le_bytes();
    lemma_auto_spec_u64_to_from_le_bytes();
    let enc = spec_encode(v);
    match v {
        ValueModel::Null => {
        },
        ValueModel::Boolean(b) => {
            assert(bytes[pos] == enc[0]);
        },
        ValueModel::Int(i) => {
            assert(bytes.subrange(pos, pos + 4) == enc);
        },
        ValueModel::Long(l) => {
            assert(bytes.subrange(pos, pos + 8) == enc);
        },
        ValueModel::Double(bits) => {
            assert(bytes.subrange(pos, pos + 8) == enc);
        },
        ValueModel::Bytes(b) => {
            let lenb = spec_u64_to_le_bytes(b.len() as u64);
            assert(bytes.subrange(pos, pos + 8) =~= enc.subrange(0, 8));
            assert(enc.subrange(0, 8) =~= lenb);
            assert(bytes.subrange(pos + 8, pos + 8 + b.len()) =~= enc.subrange(8, enc.len() as int));
            assert(enc.subrange(8, enc.len() as int) =~= b);
        },
        ValueModel::String(str_chars) => {
            let data = encode_utf8(str_chars);
            let lenb = spec_u64_to_le_bytes(data.len() as u64);
            assert(bytes.subrange(pos, pos + 8) =~= enc.subrange(0, 8));
            assert(enc.subrange(0, 8) =~= lenb);
            assert(bytes.subrange(pos + 8, pos + 8 + data.len()) =~= enc.subrange(
                8,
                enc.len() as int,
            ));
            assert(enc.subrange(8, enc.len() as int) =~= data);
            encode_utf8_valid_utf8(str_chars);
            encode_utf8_decode_utf8(str_chars);
        },
    }
}

} // verus!
