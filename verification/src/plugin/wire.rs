//! The byte form of the protocol envelope.
//!
//! The request stream and the response stream each use one fixed catalog
//! of records; every record is a single datum whose own shape determines
//! its boundary, so both directions share one continuous unframed byte
//! stream. A record travels as a one-byte variant tag followed by its
//! fields: text as a 64-bit length plus UTF-8 bytes, byte strings as a
//! 64-bit length plus the raw bytes, timestamps as 64-bit offset-binary
//! words, lists as a 64-bit count plus their items.

use vstd::bytes::*;
use vstd::prelude::*;
use vstd::slice::slice_index_get;
use vstd::utf8::{
    decode_utf8, encode_utf8, encode_utf8_decode_utf8, encode_utf8_valid_utf8, valid_utf8,
};

use crate::codec::{
    append_bytes, append_u64, decode_len_prefixed, long_to_wire, spec_decode_len_prefixed,
    string_from_utf8, wire_to_long,
};
use crate::plugin::request::{
    DescribeDevice, ReadAttribute, Request, RequestModel, RunAction, Signal, WriteAttribute,
};
use crate::plugin::response::{
    ActionModel, ActionResult, ActionResultModel, AttributeModel, AttributeValue,
    AttributeValueModel, DeviceModel, ErrorModel, PluginResponse, ResponseModel, Status,
};

verus! {

// ---- Shared field pieces ----

/// The byte form of a text field: a 64-bit length, then UTF-8 bytes.
pub open spec fn spec_encode_str(s: Seq<char>) -> Seq<u8> {
    spec_u64_to_le_bytes(encode_utf8(s).len() as u64) + encode_utf8(s)
}

/// The byte form of a raw byte-string field: a 64-bit length, then the
/// bytes themselves.
pub open spec fn spec_encode_raw(b: Seq<u8>) -> Seq<u8> {
    spec_u64_to_le_bytes(b.len() as u64) + b
}

/// One text field decoded at `pos`.
pub open spec fn spec_decode_str(bytes: Seq<u8>, pos: int) -> Option<(Seq<char>, int)> {
    match spec_decode_len_prefixed(bytes, pos) {
        Some((data, end)) => if valid_utf8(data) {
            Some((decode_utf8(data), end))
        } else {
            None
        },
        None => None,
    }
}

/// Whether a text field is small enough for its length to travel as a
/// 64-bit word; every string built at runtime is.
pub open spec fn str_fits_wire(s: Seq<char>) -> bool {
    encode_utf8(s).len() < 0x1_0000_0000_0000_0000
}

/// Whether a raw field is small enough likewise.
pub open spec fn raw_fits_wire(b: Seq<u8>) -> bool {
    b.len() < 0x1_0000_0000_0000_0000
}

pub(crate) fn append_str(out: &mut Vec<u8>, s: &str)
    ensures
        final(out)@ == old(out)@ + spec_encode_str(s@),
{
    let bytes = s.as_bytes();
    append_u64(out, bytes.len() as u64);
    append_bytes(out, bytes);
    assert(out@ =~= old(out)@ + spec_encode_str(s@));
}

pub(crate) fn append_raw(out: &mut Vec<u8>, b: &[u8])
    ensures
        final(out)@ == old(out)@ + spec_encode_raw(b@),
{
    append_u64(out, b.len() as u64);
    append_bytes(out, b);
    assert(out@ =~= old(out)@ + spec_encode_raw(b@));
}

pub(crate) fn append_long(out: &mut Vec<u8>, x: i64)
    ensures
        final(out)@ == old(out)@ + spec_u64_to_le_bytes(long_to_wire(x)),
{
    let wire: u64 = ((x as i128) + 0x8000_0000_0000_0000i128) as u64;
    append_u64(out, wire);
}

pub(crate) fn decode_str(buf: &[u8], pos: usize) -> (r: Option<(String, usize)>)
    requires
        pos <= buf@.len(),
    ensures
        r is Some ==> r.unwrap().1 <= buf@.len(),
        match spec_decode_str(buf@, pos as int) {
            Some((s, end)) => r is Some && r.unwrap().0@ == s && r.unwrap().1 == end,
            None => r is None,
        },
{
    match decode_len_prefixed(buf, pos) {
        Some((data, end)) => match string_from_utf8(data) {
            Some(s) => Some((s, end)),
            None => None,
        },
        None => None,
    }
}

pub(crate) fn decode_long(buf: &[u8], pos: usize) -> (r: Option<(i64, usize)>)
    requires
        pos <= buf@.len(),
    ensures
        pos + 8 <= buf@.len() ==> r is Some && r.unwrap().0 == wire_to_long(
            spec_u64_from_le_bytes(buf@.subrange(pos as int, pos + 8)),
        ) && r.unwrap().1 == pos + 8,
        pos + 8 > buf@.len() ==> r is None,
{
    if buf.len() - pos >= 8 {
        let wire = u64_from_le_bytes(vstd::slice::slice_subrange(buf, pos, pos + 8));
        let l: i64 = ((wire as i128) - 0x8000_0000_0000_0000i128) as i64;
        Some((l, pos + 8))
    } else {
        None
    }
}

/// A text field, encoded anywhere into a stream, decodes back to the same
/// characters with the cursor just past the field.
pub proof fn lemma_str_round_trip(s: Seq<char>, bytes: Seq<u8>, pos: int)
    requires
        str_fits_wire(s),
        0 <= pos,
        pos + spec_encode_str(s).len() <= bytes.len(),
        bytes.subrange(pos, pos + spec_encode_str(s).len() as int) == spec_encode_str(s),
    ensures
        spec_decode_str(bytes, pos) == Some((s, pos + spec_encode_str(s).len())),
{
    lemma_auto_spec_u64_to_from_le_bytes();
    let enc = spec_encode_str(s);
    let data = encode_utf8(s);
    assert(bytes.subrange(pos, pos + 8) =~= enc.subrange(0, 8));
    assert(enc.subrange(0, 8) =~= spec_u64_to_le_bytes(data.len() as u64));
    assert(bytes.subrange(pos + 8, pos + 8 + data.len()) =~= enc.subrange(8, enc.len() as int));
    assert(enc.subrange(8, enc.len() as int) =~= data);
    encode_utf8_valid_utf8(s);
    encode_utf8_decode_utf8(s);
}

/// A raw byte-string field decodes back likewise.
pub proof fn lemma_raw_round_trip(b: Seq<u8>, bytes: Seq<u8>, pos: int)
    requires
        raw_fits_wire(b),
        0 <= pos,
        pos + spec_encode_raw(b).len() <= bytes.len(),
        bytes.subrange(pos, pos + spec_encode_raw(b).len() as int) == spec_encode_raw(b),
    ensures
        spec_decode_len_prefixed(bytes, pos) == Some((b, pos + spec_encode_raw(b).len())),
{
    lemma_auto_spec_u64_to_from_le_bytes();
    let enc = spec_encode_raw(b);
    assert(bytes.subrange(pos, pos + 8) =~= enc.subrange(0, 8));
    assert(enc.subrange(0, 8) =~= spec_u64_to_le_bytes(b.len() as u64));
    assert(bytes.subrange(pos + 8, pos + 8 + b.len()) =~= enc.subrange(8, enc.len() as int));
    assert(enc.subrange(8, enc.len() as int) =~= b);
}

// ---- The request catalog ----

/// The byte encoding of a request record.
pub open spec fn spec_encode_request(r: RequestModel) -> Seq<u8> {
    match r {
        RequestModel::Signal(Signal::Quit) => seq![0u8, 0u8],
        RequestModel::DescribeDevice => seq![1u8],
        RequestModel::ReadAttribute { path } => seq![2u8] + spec_encode_str(path),
        RequestModel::WriteAttribute { path, value } => seq![3u8] + spec_encode_str(path)
            + spec_encode_raw(value),
        RequestModel::RunAction { path, input } => seq![4u8] + spec_encode_str(path)
            + spec_encode_raw(input),
    }
}

/// One request record decoded from the stream at `pos`.
pub open spec fn spec_decode_request(bytes: Seq<u8>, pos: int) -> Option<(RequestModel, int)> {
    if pos < bytes.len() {
        let tag = bytes[pos];
        if tag == 0 {
            if pos + 2 <= bytes.len() && bytes[pos + 1] == 0 {
                Some((RequestModel::Signal(Signal::Quit), pos + 2))
            } else {
                None
            }
        } else if tag == 1 {
            Some((RequestModel::DescribeDevice, pos + 1))
        } else if tag == 2 {
            match spec_decode_str(bytes, pos + 1) {
                Some((path, end)) => Some((RequestModel::ReadAttribute { path }, end)),
                None => None,
            }
        } else if tag == 3 {
            match spec_decode_str(bytes, pos + 1) {
                Some((path, e1)) => match spec_decode_len_prefixed(bytes, e1) {
                    Some((value, e2)) => Some((RequestModel::WriteAttribute { path, value }, e2)),
                    None => None,
                },
                None => None,
            }
        } else if tag == 4 {
            match spec_decode_str(bytes, pos + 1) {
                Some((path, e1)) => match spec_decode_len_prefixed(bytes, e1) {
                    Some((input, e2)) => Some((RequestModel::RunAction { path, input }, e2)),
                    None => None,
                },
                None => None,
            }
        } else {
            None
        }
    } else {
        None
    }
}

/// Whether a request's fields are small enough for the wire; every
/// request built at runtime is.
pub open spec fn request_fits_wire(r: RequestModel) -> bool {
    match r {
        RequestModel::Signal(_) => true,
        RequestModel::DescribeDevice => true,
        RequestModel::ReadAttribute { path } => str_fits_wire(path),
        RequestModel::WriteAttribute { path, value } => str_fits_wire(path) && raw_fits_wire(
            value,
        ),
        RequestModel::RunAction { path, input } => str_fits_wire(path) && raw_fits_wire(input),
    }
}

/// Appends the encoding of a request record to the outbound stream.
pub fn encode_request(req: &Request, out: &mut Vec<u8>)
    ensures
        final(out)@ == old(out)@ + spec_encode_request(req@),
{
    match req {
        Request::Signal(Signal::Quit) => {
            out.push(0u8);
            out.push(0u8);
            assert(out@ =~= old(out)@ + spec_encode_request(req@));
        },
        Request::DescribeDevice(_) => {
            out.push(1u8);
            assert(out@ =~= old(out)@ + spec_encode_request(req@));
        },
        Request::ReadAttribute(args) => {
            out.push(2u8);
            append_str(out, args.path.as_str());
            assert(out@ =~= old(out)@ + spec_encode_request(req@));
        },
        Request::WriteAttribute(args) => {
            out.push(3u8);
            append_str(out, args.path.as_str());
            append_raw(out, args.value.as_slice());
            assert(out@ =~= old(out)@ + spec_encode_request(req@));
        },
        Request::RunAction(args) => {
            out.push(4u8);
            append_str(out, args.path.as_str());
            append_raw(out, args.input.as_slice());
            assert(out@ =~= old(out)@ + spec_encode_request(req@));
        },
    }
}

/// Decodes one request record from the stream at `pos`, exactly as the
/// model `spec_decode_request` says.
pub fn decode_request(buf: &[u8], pos: usize) -> (r: Option<(Request, usize)>)
    requires
        pos <= buf@.len(),
    ensures
        match spec_decode_request(buf@, pos as int) {
            Some((m, end)) => r is Some && r.unwrap().0@ == m && r.unwrap().1 == end,
            None => r is None,
        },
{
    if pos >= buf.len() {
        return None;
    }
    let tag = *slice_index_get(buf, pos);
    if tag == 0 {
        if buf.len() - pos >= 2 && *slice_index_get(buf, pos + 1) == 0 {
            Some((Request::Signal(Signal::Quit), pos + 2))
        } else {
            None
        }
    } else if tag == 1 {
        Some((Request::DescribeDevice(DescribeDevice {}), pos + 1))
    } else if tag == 2 {
        match decode_str(buf, pos + 1) {
            Some((path, end)) => Some((Request::ReadAttribute(ReadAttribute { path }), end)),
            None => None,
        }
    } else if tag == 3 {
        match decode_str(buf, pos + 1) {
            Some((path, e1)) => match decode_len_prefixed(buf, e1) {
                Some((value, e2)) => Some(
                    (Request::WriteAttribute(WriteAttribute { path, value }), e2),
                ),
                None => None,
            },
            None => None,
        }
    } else if tag == 4 {
        match decode_str(buf, pos + 1) {
            Some((path, e1)) => match decode_len_prefixed(buf, e1) {
                Some((input, e2)) => Some((Request::RunAction(RunAction { path, input }), e2)),
                None => None,
            },
            None => None,
        }
    } else {
        None
    }
}

/// How far the request record at `pos` goes. `Complete`: a whole record
/// sits in the buffer. `Incomplete`: the bytes so far read as a proper
/// prefix of a record, and more input could finish it. `Malformed`: the
/// content already present rules the record out (an unknown tag, a bad
/// signal byte, text that is not UTF-8), so it can be answered with an
/// error at once, without waiting for more bytes.
#[derive(Clone, Copy, Debug, PartialEq, Eq, Structural)]
pub enum DatumState {
    Complete,
    Incomplete,
    Malformed,
}

/// How far a text field at `pos` goes: a missing length or missing data
/// is incomplete, present data that is not UTF-8 is malformed.
pub open spec fn spec_classify_str(bytes: Seq<u8>, pos: int) -> DatumState {
    match spec_decode_len_prefixed(bytes, pos) {
        None => DatumState::Incomplete,
        Some((data, _)) => if valid_utf8(data) {
            DatumState::Complete
        } else {
            DatumState::Malformed
        },
    }
}

/// How far the request record at `pos` goes, by the same grammar as
/// `spec_decode_request`.
pub open spec fn spec_classify_request(bytes: Seq<u8>, pos: int) -> DatumState {
    if pos >= bytes.len() {
        DatumState::Incomplete
    } else {
        let tag = bytes[pos];
        if tag == 0 {
            if pos + 2 > bytes.len() {
                DatumState::Incomplete
            } else if bytes[pos + 1] == 0 {
                DatumState::Complete
            } else {
                DatumState::Malformed
            }
        } else if tag == 1 {
            DatumState::Complete
        } else if tag == 2 {
            spec_classify_str(bytes, pos + 1)
        } else if tag == 3 || tag == 4 {
            match spec_classify_str(bytes, pos + 1) {
                DatumState::Malformed => DatumState::Malformed,
                DatumState::Incomplete => DatumState::Incomplete,
                DatumState::Complete => match spec_decode_str(bytes, pos + 1) {
                    Some((_, e1)) => match spec_decode_len_prefixed(bytes, e1) {
                        Some(_) => DatumState::Complete,
                        None => DatumState::Incomplete,
                    },
                    None => DatumState::Malformed,
                },
            }
        } else {
            DatumState::Malformed
        }
    }
}

/// The classifier agrees with the decoder: a record is complete exactly
/// when it decodes; an incomplete or malformed one does not decode.
pub proof fn lemma_classify_matches_decode(bytes: Seq<u8>, pos: int)
    requires
        0 <= pos <= bytes.len(),
    ensures
        (spec_classify_request(bytes, pos) == DatumState::Complete) <==> spec_decode_request(
            bytes,
            pos,
        ) is Some,
{
}

fn classify_str(buf: &[u8], pos: usize) -> (r: DatumState)
    requires
        pos <= buf@.len(),
    ensures
        r == spec_classify_str(buf@, pos as int),
{
    match decode_len_prefixed(buf, pos) {
        None => DatumState::Incomplete,
        Some((data, _end)) => match string_from_utf8(data) {
            Some(_) => DatumState::Complete,
            None => DatumState::Malformed,
        },
    }
}

/// Classifies the bytes at `pos` as a complete, incomplete or malformed
/// request record, so a serving loop can tell a slow sender from a
/// broken one.
pub fn classify_request_datum(buf: &[u8], pos: usize) -> (r: DatumState)
    requires
        pos <= buf@.len(),
    ensures
        r == spec_classify_request(buf@, pos as int),
{
    if pos >= buf.len() {
        return DatumState::Incomplete;
    }
    let tag = *slice_index_get(buf, pos);
    if tag == 0 {
        if buf.len() - pos < 2 {
            DatumState::Incomplete
        } else if *slice_index_get(buf, pos + 1) == 0 {
            DatumState::Complete
        } else {
            DatumState::Malformed
        }
    } else if tag == 1 {
        DatumState::Complete
    } else if tag == 2 {
        classify_str(buf, pos + 1)
    } else if tag == 3 || tag == 4 {
        match classify_str(buf, pos + 1) {
            DatumState::Malformed => DatumState::Malformed,
            DatumState::Incomplete => DatumState::Incomplete,
            DatumState::Complete => match decode_str(buf, pos + 1) {
                Some((_, e1)) => match decode_len_prefixed(buf, e1) {
                    Some(_) => DatumState::Complete,
                    None => DatumState::Incomplete,
                },
                None => DatumState::Malformed,
            },
        }
    } else {
        DatumState::Malformed
    }
}

/// The request envelope round-trip law: a request record, encoded and
/// then decoded at any position of any stream that carries those bytes,
/// comes back equal, with the cursor just past the record.
pub proof fn lemma_request_round_trip(r: RequestModel, bytes: Seq<u8>, pos: int)
    requires
        request_fits_wire(r),
        0 <= pos,
        pos + spec_encode_request(r).len() <= bytes.len(),
        bytes.subrange(pos, pos + spec_encode_request(r).len() as int) == spec_encode_request(r),
    ensures
        spec_decode_request(bytes, pos) == Some((r, pos + spec_encode_request(r).len())),
{
    let enc = spec_encode_request(r);
    assert(bytes[pos] == enc[0]);
    match r {
        RequestModel::Signal(Signal::Quit) => {
            assert(bytes[pos + 1] == enc[1]);
        },
        RequestModel::DescribeDevice => {
        },
        RequestModel::ReadAttribute { path } => {
            let e1 = spec_encode_str(path);
            assert(bytes.subrange(pos + 1, pos + 1 + e1.len() as int) =~= enc.subrange(
                1,
                enc.len() as int,
            ));
            assert(enc.subrange(1, enc.len() as int) =~= e1);
            lemma_str_round_trip(path, bytes, pos + 1);
        },
        RequestModel::WriteAttribute { path, value } => {
            let e1 = spec_encode_str(path);
            let e2 = spec_encode_raw(value);
            assert(bytes.subrange(pos + 1, pos + 1 + e1.len() as int) =~= enc.subrange(
                1,
                1 + e1.len() as int,
            ));
            assert(enc.subrange(1, 1 + e1.len() as int) =~= e1);
            lemma_str_round_trip(path, bytes, pos + 1);
            assert(bytes.subrange(pos + 1 + e1.len() as int, pos + 1 + e1.len() as int + e2.len())
                =~= enc.subrange(1 + e1.len() as int, enc.len() as int));
            assert(enc.subrange(1 + e1.len() as int, enc.len() as int) =~= e2);
            lemma_raw_round_trip(value, bytes, pos + 1 + e1.len() as int);
        },
        RequestModel::RunAction { path, input } => {
            let e1 = spec_encode_str(path);
            let e2 = spec_encode_raw(input);
            assert(bytes.subrange(pos + 1, pos + 1 + e1.len() as int) =~= enc.subrange(
                1,
                1 + e1.len() as int,
            ));
            assert(enc.subrange(1, 1 + e1.len() as int) =~= e1);
            lemma_str_round_trip(path, bytes, pos + 1);
            assert(bytes.subrange(pos + 1 + e1.len() as int, pos + 1 + e1.len() as int + e2.len())
                =~= enc.subrange(1 + e1.len() as int, enc.len() as int));
            assert(enc.subrange(1 + e1.len() as int, enc.len() as int) =~= e2);
            lemma_raw_round_trip(input, bytes, pos + 1 + e1.len() as int);
        },
    }
}



// ---- The response catalog ----

/// The byte encoding of a list of text fields, items only; the count
/// travels separately, just before.
pub open spec fn spec_encode_strs(ss: Seq<Seq<char>>) -> Seq<u8>
    decreases ss.len(),
{
    if ss.len() == 0 {
        Seq::empty()
    } else {
        spec_encode_strs(ss.drop_last()) + spec_encode_str(ss.last())
    }
}

/// The byte encoding of a list of text fields, count first.
pub open spec fn spec_encode_str_list(ss: Seq<Seq<char>>) -> Seq<u8> {
    spec_u64_to_le_bytes(ss.len() as u64) + spec_encode_strs(ss)
}

/// The byte encoding of one described attribute.
pub open spec fn spec_encode_attr(a: AttributeModel) -> Seq<u8> {
    spec_encode_str(a.path) + spec_encode_str_list(a.flags) + spec_encode_str(a.schema)
}

/// The byte encoding of a list of described attributes, items only.
pub open spec fn spec_encode_attrs(items: Seq<AttributeModel>) -> Seq<u8>
    decreases items.len(),
{
    if items.len() == 0 {
        Seq::empty()
    } else {
        spec_encode_attrs(items.drop_last()) + spec_encode_attr(items.last())
    }
}

/// The byte encoding of one described action.
pub open spec fn spec_encode_action(a: ActionModel) -> Seq<u8> {
    spec_encode_str(a.path) + spec_encode_str(a.input_schema) + spec_encode_str(a.output_schema)
}

/// The byte encoding of a list of described actions, items only.
pub open spec fn spec_encode_actions(items: Seq<ActionModel>) -> Seq<u8>
    decreases items.len(),
{
    if items.len() == 0 {
        Seq::empty()
    } else {
        spec_encode_actions(items.drop_last()) + spec_encode_action(items.last())
    }
}

/// The byte form of an optional text field: a presence byte, then the
/// text when present.
pub open spec fn spec_encode_opt_str(p: Option<Seq<char>>) -> Seq<u8> {
    match p {
        None => seq![0u8],
        Some(s) => seq![1u8] + spec_encode_str(s),
    }
}

/// The byte encoding of a response record.
pub open spec fn spec_encode_response(r: ResponseModel) -> Seq<u8> {
    match r {
        ResponseModel::Status(Status::Okay) => seq![0u8, 0u8],
        ResponseModel::Error(e) => seq![1u8] + spec_encode_str(e.message) + spec_encode_opt_str(
            e.path,
        ),
        ResponseModel::Device(d) => seq![2u8] + spec_encode_str(d.name) + spec_u64_to_le_bytes(
            d.attributes.len() as u64,
        ) + spec_encode_attrs(d.attributes) + spec_u64_to_le_bytes(d.actions.len() as u64)
            + spec_encode_actions(d.actions),
        ResponseModel::AttributeValue(av) => seq![3u8] + spec_encode_raw(av.value)
            + spec_u64_to_le_bytes(long_to_wire(av.time)),
        ResponseModel::ActionResult(ar) => seq![4u8] + spec_encode_raw(ar.output)
            + spec_u64_to_le_bytes(long_to_wire(ar.start)) + spec_u64_to_le_bytes(
            long_to_wire(ar.end),
        ),
    }
}

/// A 64-bit count field decoded at `pos`.
pub open spec fn spec_decode_u64(bytes: Seq<u8>, pos: int) -> Option<(u64, int)> {
    if pos + 8 <= bytes.len() {
        Some((spec_u64_from_le_bytes(bytes.subrange(pos, pos + 8)), pos + 8))
    } else {
        None
    }
}

/// An optional text field decoded at `pos`.
pub open spec fn spec_decode_opt_str(bytes: Seq<u8>, pos: int) -> Option<
    (Option<Seq<char>>, int),
> {
    if pos < bytes.len() {
        if bytes[pos] == 0 {
            Some((None, pos + 1))
        } else if bytes[pos] == 1 {
            match spec_decode_str(bytes, pos + 1) {
                Some((s, e)) => Some((Some(s), e)),
                None => None,
            }
        } else {
            None
        }
    } else {
        None
    }
}

/// `count` text fields decoded one after the other.
pub open spec fn spec_decode_strs(bytes: Seq<u8>, pos: int, count: nat) -> Option<
    (Seq<Seq<char>>, int),
>
    decreases count,
{
    if count == 0 {
        Some((Seq::empty(), pos))
    } else {
        match spec_decode_str(bytes, pos) {
            Some((s, e)) => match spec_decode_strs(bytes, e, (count - 1) as nat) {
                Some((rest, e2)) => Some((seq![s] + rest, e2)),
                None => None,
            },
            None => None,
        }
    }
}

/// A list of text fields decoded at `pos`, count first.
pub open spec fn spec_decode_str_list(bytes: Seq<u8>, pos: int) -> Option<(Seq<Seq<char>>, int)> {
    match spec_decode_u64(bytes, pos) {
        Some((count, e)) => spec_decode_strs(bytes, e, count as nat),
        None => None,
    }
}

/// One described attribute decoded at `pos`.
pub open spec fn spec_decode_attr(bytes: Seq<u8>, pos: int) -> Option<(AttributeModel, int)> {
    match spec_decode_str(bytes, pos) {
        Some((path, e1)) => match spec_decode_str_list(bytes, e1) {
            Some((flags, e2)) => match spec_decode_str(bytes, e2) {
                Some((schema, e3)) => Some((AttributeModel { path, flags, schema }, e3)),
                None => None,
            },
            None => None,
        },
        None => None,
    }
}

/// `count` described attributes decoded one after the other.
pub open spec fn spec_decode_attrs(bytes: Seq<u8>, pos: int, count: nat) -> Option<
    (Seq<AttributeModel>, int),
>
    decreases count,
{
    if count == 0 {
        Some((Seq::empty(), pos))
    } else {
        match spec_decode_attr(bytes, pos) {
            Some((a, e)) => match spec_decode_attrs(bytes, e, (count - 1) as nat) {
                Some((rest, e2)) => Some((seq![a] + rest, e2)),
                None => None,
            },
            None => None,
        }
    }
}

/// One described action decoded at `pos`.
pub open spec fn spec_decode_action(bytes: Seq<u8>, pos: int) -> Option<(ActionModel, int)> {
    match spec_decode_str(bytes, pos) {
        Some((path, e1)) => match spec_decode_str(bytes, e1) {
            Some((input_schema, e2)) => match spec_decode_str(bytes, e2) {
                Some((output_schema, e3)) => Some(
                    (ActionModel { path, input_schema, output_schema }, e3),
                ),
                None => None,
            },
            None => None,
        },
        None => None,
    }
}

/// `count` described actions decoded one after the other.
pub open spec fn spec_decode_actions(bytes: Seq<u8>, pos: int, count: nat) -> Option<
    (Seq<ActionModel>, int),
>
    decreases count,
{
    if count == 0 {
        Some((Seq::empty(), pos))
    } else {
        match spec_decode_action(bytes, pos) {
            Some((a, e)) => match spec_decode_actions(bytes, e, (count - 1) as nat) {
                Some((rest, e2)) => Some((seq![a] + rest, e2)),
                None => None,
            },
            None => None,
        }
    }
}

/// One response record decoded from the stream at `pos`.
pub open spec fn spec_decode_response(bytes: Seq<u8>, pos: int) -> Option<(ResponseModel, int)> {
    if pos < bytes.len() {
        let tag = bytes[pos];
        if tag == 0 {
            if pos + 2 <= bytes.len() && bytes[pos + 1] == 0 {
                Some((ResponseModel::Status(Status::Okay), pos + 2))
            } else {
                None
            }
        } else if tag == 1 {
            match spec_decode_str(bytes, pos + 1) {
                Some((message, e1)) => match spec_decode_opt_str(bytes, e1) {
                    Some((path, e2)) => Some(
                        (ResponseModel::Error(ErrorModel { message, path }), e2),
                    ),
                    None => None,
                },
                None => None,
            }
        } else if tag == 2 {
            match spec_decode_str(bytes, pos + 1) {
                Some((name, e1)) => match spec_decode_u64(bytes, e1) {
                    Some((na, e2)) => match spec_decode_attrs(bytes, e2, na as nat) {
                        Some((attributes, e3)) => match spec_decode_u64(bytes, e3) {
                            Some((nc, e4)) => match spec_decode_actions(bytes, e4, nc as nat) {
                                Some((actions, e5)) => Some(
                                    (
                                        ResponseModel::Device(
                                            DeviceModel { name, attributes, actions },
                                        ),
                                        e5,
                                    ),
                                ),
                                None => None,
                            },
                            None => None,
                        },
                        None => None,
                    },
                    None => None,
                },
                None => None,
            }
        } else if tag == 3 {
            match spec_decode_len_prefixed(bytes, pos + 1) {
                Some((value, e1)) => match spec_decode_u64(bytes, e1) {
                    Some((w, e2)) => Some(
                        (
                            ResponseModel::AttributeValue(
                                AttributeValueModel { value, time: wire_to_long(w) },
                            ),
                            e2,
                        ),
                    ),
                    None => None,
                },
                None => None,
            }
        } else if tag == 4 {
            match spec_decode_len_prefixed(bytes, pos + 1) {
                Some((output, e1)) => match spec_decode_u64(bytes, e1) {
                    Some((ws, e2)) => match spec_decode_u64(bytes, e2) {
                        Some((we, e3)) => Some(
                            (
                                ResponseModel::ActionResult(
                                    ActionResultModel {
                                        output,
                                        start: wire_to_long(ws),
                                        end: wire_to_long(we),
                                    },
                                ),
                                e3,
                            ),
                        ),
                        None => None,
                    },
                    None => None,
                },
                None => None,
            }
        } else {
            None
        }
    } else {
        None
    }
}

/// Whether a described attribute's fields are small enough for the wire.
pub open spec fn attr_fits_wire(a: AttributeModel) -> bool {
    &&& str_fits_wire(a.path)
    &&& str_fits_wire(a.schema)
    &&& a.flags.len() < 0x1_0000_0000_0000_0000
    &&& forall|i: int| 0 <= i < a.flags.len() ==> str_fits_wire(#[trigger] a.flags[i])
}

/// Whether a described action's fields are small enough for the wire.
pub open spec fn action_fits_wire(a: ActionModel) -> bool {
    str_fits_wire(a.path) && str_fits_wire(a.input_schema) && str_fits_wire(a.output_schema)
}

/// Whether a response's fields are small enough for the wire; every
/// response built at runtime is.
pub open spec fn response_fits_wire(r: ResponseModel) -> bool {
    match r {
        ResponseModel::Status(_) => true,
        ResponseModel::Error(e) => str_fits_wire(e.message) && match e.path {
            Some(p) => str_fits_wire(p),
            None => true,
        },
        ResponseModel::Device(d) => {
            &&& str_fits_wire(d.name)
            &&& d.attributes.len() < 0x1_0000_0000_0000_0000
            &&& d.actions.len() < 0x1_0000_0000_0000_0000
            &&& forall|i: int|
                0 <= i < d.attributes.len() ==> attr_fits_wire(#[trigger] d.attributes[i])
            &&& forall|i: int| 0 <= i < d.actions.len() ==> action_fits_wire(#[trigger] d.actions[i])
        },
        ResponseModel::AttributeValue(av) => raw_fits_wire(av.value),
        ResponseModel::ActionResult(ar) => raw_fits_wire(ar.output),
    }
}



fn encode_strs_into(out: &mut Vec<u8>, ss: &Vec<String>)
    ensures
        final(out)@ == old(out)@ + spec_encode_str_list(ss.deep_view()),
{
    let ghost m = ss.deep_view();
    append_u64(out, ss.len() as u64);
    let mut i: usize = 0;
    while i < ss.len()
        invariant
            m == ss.deep_view(),
            i <= ss@.len(),
            out@ == old(out)@ + spec_u64_to_le_bytes(m.len() as u64) + spec_encode_strs(
                m.take(i as int),
            ),
        decreases ss@.len() - i,
    {
        append_str(out, ss[i].as_str());
        proof {
            assert(m.take(i + 1).drop_last() =~= m.take(i as int));
            assert(m.take(i + 1).last() == m[i as int]);
            assert(m[i as int] == ss@[i as int]@);
            assert(old(out)@ + spec_u64_to_le_bytes(m.len() as u64) + spec_encode_strs(
                m.take(i as int),
            ) + spec_encode_str(ss@[i as int]@) =~= old(out)@ + spec_u64_to_le_bytes(
                m.len() as u64,
            ) + spec_encode_strs(m.take(i + 1)));
        }
        i += 1;
    }
    proof {
        assert(m.take(ss@.len() as int) =~= m);
        assert(out@ =~= old(out)@ + spec_encode_str_list(m));
    }
}

fn encode_attr_into(out: &mut Vec<u8>, a: &crate::plugin::response::Attribute)
    ensures
        final(out)@ == old(out)@ + spec_encode_attr(a@),
{
    append_str(out, a.path.as_str());
    encode_strs_into(out, &a.flags);
    append_str(out, a.schema.as_str());
    assert(out@ =~= old(out)@ + spec_encode_attr(a@));
}

fn encode_action_into(out: &mut Vec<u8>, a: &crate::plugin::response::Action)
    ensures
        final(out)@ == old(out)@ + spec_encode_action(a@),
{
    append_str(out, a.path.as_str());
    append_str(out, a.input_schema.as_str());
    append_str(out, a.output_schema.as_str());
    assert(out@ =~= old(out)@ + spec_encode_action(a@));
}

/// Appends the encoding of a response record to the outbound stream.
pub fn encode_response(resp: &PluginResponse, out: &mut Vec<u8>)
    ensures
        final(out)@ == old(out)@ + spec_encode_response(resp@),
{
    match resp {
        PluginResponse::Status(Status::Okay) => {
            out.push(0u8);
            out.push(0u8);
            assert(out@ =~= old(out)@ + spec_encode_response(resp@));
        },
        PluginResponse::Error(e) => {
            out.push(1u8);
            append_str(out, e.message.as_str());
            match &e.path {
                None => {
                    out.push(0u8);
                },
                Some(p) => {
                    out.push(1u8);
                    append_str(out, p.as_str());
                    assert(seq![1u8] + spec_encode_str(p@) =~= spec_encode_opt_str(e@.path));
                },
            }
            assert(out@ =~= old(out)@ + spec_encode_response(resp@));
        },
        PluginResponse::Device(d) => {
            let ghost dm = d@;
            out.push(2u8);
            append_str(out, d.name.as_str());
            append_u64(out, d.attributes.len() as u64);
            let ghost checkpoint1 = out@;
            let mut i: usize = 0;
            while i < d.attributes.len()
                invariant
                    dm == d@,
                    i <= d.attributes@.len(),
                    out@ == checkpoint1 + spec_encode_attrs(dm.attributes.take(i as int)),
                decreases d.attributes@.len() - i,
            {
                encode_attr_into(out, &d.attributes[i]);
                proof {
                    assert(dm.attributes.take(i + 1).drop_last() =~= dm.attributes.take(
                        i as int,
                    ));
                    assert(dm.attributes.take(i + 1).last() == dm.attributes[i as int]);
                    assert(dm.attributes[i as int] == d.attributes@[i as int]@);
                    assert(checkpoint1 + spec_encode_attrs(dm.attributes.take(i as int))
                        + spec_encode_attr(d.attributes@[i as int]@) =~= checkpoint1
                        + spec_encode_attrs(dm.attributes.take(i + 1)));
                }
                i += 1;
            }
            proof {
                assert(dm.attributes.take(d.attributes@.len() as int) =~= dm.attributes);
            }
            append_u64(out, d.actions.len() as u64);
            let ghost checkpoint2 = out@;
            let mut j: usize = 0;
            while j < d.actions.len()
                invariant
                    dm == d@,
                    j <= d.actions@.len(),
                    out@ == checkpoint2 + spec_encode_actions(dm.actions.take(j as int)),
                decreases d.actions@.len() - j,
            {
                encode_action_into(out, &d.actions[j]);
                proof {
                    assert(dm.actions.take(j + 1).drop_last() =~= dm.actions.take(j as int));
                    assert(dm.actions.take(j + 1).last() == dm.actions[j as int]);
                    assert(dm.actions[j as int] == d.actions@[j as int]@);
                    assert(checkpoint2 + spec_encode_actions(dm.actions.take(j as int))
                        + spec_encode_action(d.actions@[j as int]@) =~= checkpoint2
                        + spec_encode_actions(dm.actions.take(j + 1)));
                }
                j += 1;
            }
            proof {
                assert(dm.actions.take(d.actions@.len() as int) =~= dm.actions);
                assert(out@ =~= old(out)@ + spec_encode_response(resp@));
            }
        },
        PluginResponse::AttributeValue(av) => {
            out.push(3u8);
            append_raw(out, av.value.as_slice());
            append_long(out, av.time);
            assert(out@ =~= old(out)@ + spec_encode_response(resp@));
        },
        PluginResponse::ActionResult(ar) => {
            out.push(4u8);
            append_raw(out, ar.output.as_slice());
            append_long(out, ar.start);
            append_long(out, ar.end);
            assert(out@ =~= old(out)@ + spec_encode_response(resp@));
        },
    }
}



pub(crate) fn decode_u64(buf: &[u8], pos: usize) -> (r: Option<(u64, usize)>)
    requires
        pos <= buf@.len(),
    ensures
        r is Some ==> r.unwrap().1 <= buf@.len(),
        match spec_decode_u64(buf@, pos as int) {
            Some((x, e)) => r is Some && r.unwrap().0 == x && r.unwrap().1 == e,
            None => r is None,
        },
{
    if buf.len() - pos >= 8 {
        let x = u64_from_le_bytes(vstd::slice::slice_subrange(buf, pos, pos + 8));
        Some((x, pos + 8))
    } else {
        None
    }
}

fn decode_strs(buf: &[u8], pos: usize, count: u64) -> (r: Option<(Vec<String>, usize)>)
    requires
        pos <= buf@.len(),
    ensures
        r is Some ==> r.unwrap().1 <= buf@.len(),
        match spec_decode_strs(buf@, pos as int, count as nat) {
            Some((ss, end)) => r is Some && r.unwrap().0.deep_view() == ss && r.unwrap().1
                == end,
            None => r is None,
        },
{
    let mut acc: Vec<String> = Vec::new();
    let mut cur: usize = pos;
    let mut i: u64 = 0;
    while i < count
        invariant
            i <= count,
            cur <= buf@.len(),
            ({
                let full = spec_decode_strs(buf@, pos as int, count as nat);
                match spec_decode_strs(buf@, cur as int, (count - i) as nat) {
                    Some((tail, end)) => full == Some((acc.deep_view() + tail, end)),
                    None => full is None,
                }
            }),
        decreases count - i,
    {
        match decode_str(buf, cur) {
            Some((s, e)) => {
                proof {
                    let c = (count - i) as nat;
                    assert(spec_decode_str(buf@, cur as int) == Some((s@, e as int)));
                    match spec_decode_strs(buf@, e as int, (c - 1) as nat) {
                        Some((tail2, end2)) => {
                            assert(spec_decode_strs(buf@, cur as int, c) == Some(
                                (seq![s@] + tail2, end2),
                            ));
                            assert(acc.deep_view() + (seq![s@] + tail2) =~= acc.deep_view().push(
                                s@,
                            ) + tail2);
                        },
                        None => {
                            assert(spec_decode_strs(buf@, cur as int, c) is None);
                        },
                    }
                }
                let ghost acc0 = acc.deep_view();
                acc.push(s);
                proof {
                    assert(acc.deep_view() =~= acc0.push(acc@[acc@.len() - 1]@));
                }
                cur = e;
                i = i + 1;
            },
            None => {
                proof {
                    let c = (count - i) as nat;
                    assert(spec_decode_strs(buf@, cur as int, c) is None);
                }
                return None;
            },
        }
    }
    proof {
        assert(spec_decode_strs(buf@, cur as int, (count - i) as nat) == Some(
            (Seq::<Seq<char>>::empty(), cur as int),
        ));
        assert(acc.deep_view() + Seq::<Seq<char>>::empty() =~= acc.deep_view());
    }
    Some((acc, cur))
}

fn decode_str_list(buf: &[u8], pos: usize) -> (r: Option<(Vec<String>, usize)>)
    requires
        pos <= buf@.len(),
    ensures
        r is Some ==> r.unwrap().1 <= buf@.len(),
        match spec_decode_str_list(buf@, pos as int) {
            Some((ss, end)) => r is Some && r.unwrap().0.deep_view() == ss && r.unwrap().1
                == end,
            None => r is None,
        },
{
    match decode_u64(buf, pos) {
        Some((count, e)) => decode_strs(buf, e, count),
        None => None,
    }
}

fn decode_attr(buf: &[u8], pos: usize) -> (r: Option<(crate::plugin::response::Attribute, usize)>)
    requires
        pos <= buf@.len(),
    ensures
        r is Some ==> r.unwrap().1 <= buf@.len(),
        match spec_decode_attr(buf@, pos as int) {
            Some((a, e)) => r is Some && r.unwrap().0@ == a && r.unwrap().1 == e,
            None => r is None,
        },
{
    match decode_str(buf, pos) {
        Some((path, e1)) => match decode_str_list(buf, e1) {
            Some((flags, e2)) => match decode_str(buf, e2) {
                Some((schema, e3)) => Some(
                    (crate::plugin::response::Attribute { path, flags, schema }, e3),
                ),
                None => None,
            },
            None => None,
        },
        None => None,
    }
}

fn decode_action(buf: &[u8], pos: usize) -> (r: Option<(crate::plugin::response::Action, usize)>)
    requires
        pos <= buf@.len(),
    ensures
        r is Some ==> r.unwrap().1 <= buf@.len(),
        match spec_decode_action(buf@, pos as int) {
            Some((a, e)) => r is Some && r.unwrap().0@ == a && r.unwrap().1 == e,
            None => r is None,
        },
{
    match decode_str(buf, pos) {
        Some((path, e1)) => match decode_str(buf, e1) {
            Some((input_schema, e2)) => match decode_str(buf, e2) {
                Some((output_schema, e3)) => Some(
                    (crate::plugin::response::Action { path, input_schema, output_schema }, e3),
                ),
                None => None,
            },
            None => None,
        },
        None => None,
    }
}

fn decode_attrs(buf: &[u8], pos: usize, count: u64) -> (r: Option<
    (Vec<crate::plugin::response::Attribute>, usize),
>)
    requires
        pos <= buf@.len(),
    ensures
        r is Some ==> r.unwrap().1 <= buf@.len(),
        match spec_decode_attrs(buf@, pos as int, count as nat) {
            Some((items, end)) => r is Some && r.unwrap().0.deep_view() == items && r.unwrap().1
                == end,
            None => r is None,
        },
{
    let mut acc: Vec<crate::plugin::response::Attribute> = Vec::new();
    let mut cur: usize = pos;
    let mut i: u64 = 0;
    while i < count
        invariant
            i <= count,
            cur <= buf@.len(),
            ({
                let full = spec_decode_attrs(buf@, pos as int, count as nat);
                match spec_decode_attrs(buf@, cur as int, (count - i) as nat) {
                    Some((tail, end)) => full == Some((acc.deep_view() + tail, end)),
                    None => full is None,
                }
            }),
        decreases count - i,
    {
        match decode_attr(buf, cur) {
            Some((a, e)) => {
                proof {
                    let c = (count - i) as nat;
                    assert(spec_decode_attr(buf@, cur as int) == Some((a@, e as int)));
                    match spec_decode_attrs(buf@, e as int, (c - 1) as nat) {
                        Some((tail2, end2)) => {
                            assert(spec_decode_attrs(buf@, cur as int, c) == Some(
                                (seq![a@] + tail2, end2),
                            ));
                            assert(acc.deep_view() + (seq![a@] + tail2) =~= acc.deep_view().push(
                                a@,
                            ) + tail2);
                        },
                        None => {
                            assert(spec_decode_attrs(buf@, cur as int, c) is None);
                        },
                    }
                }
                let ghost acc0 = acc.deep_view();
                acc.push(a);
                proof {
                    assert(acc.deep_view() =~= acc0.push(acc@[acc@.len() - 1]@));
                }
                cur = e;
                i = i + 1;
            },
            None => {
                proof {
                    let c = (count - i) as nat;
                    assert(spec_decode_attrs(buf@, cur as int, c) is None);
                }
                return None;
            },
        }
    }
    proof {
        assert(spec_decode_attrs(buf@, cur as int, (count - i) as nat) == Some(
            (Seq::<AttributeModel>::empty(), cur as int),
        ));
        assert(acc.deep_view() + Seq::<AttributeModel>::empty() =~= acc.deep_view());
    }
    Some((acc, cur))
}

fn decode_actions(buf: &[u8], pos: usize, count: u64) -> (r: Option<
    (Vec<crate::plugin::response::Action>, usize),
>)
    requires
        pos <= buf@.len(),
    ensures
        r is Some ==> r.unwrap().1 <= buf@.len(),
        match spec_decode_actions(buf@, pos as int, count as nat) {
            Some((items, end)) => r is Some && r.unwrap().0.deep_view() == items && r.unwrap().1
                == end,
            None => r is None,
        },
{
    let mut acc: Vec<crate::plugin::response::Action> = Vec::new();
    let mut cur: usize = pos;
    let mut i: u64 = 0;
    while i < count
        invariant
            i <= count,
            cur <= buf@.len(),
            ({
                let full = spec_decode_actions(buf@, pos as int, count as nat);
                match spec_decode_actions(buf@, cur as int, (count - i) as nat) {
                    Some((tail, end)) => full == Some((acc.deep_view() + tail, end)),
                    None => full is None,
                }
            }),
        decreases count - i,
    {
        match decode_action(buf, cur) {
            Some((a, e)) => {
                proof {
                    let c = (count - i) as nat;
                    assert(spec_decode_action(buf@, cur as int) == Some((a@, e as int)));
                    match spec_decode_actions(buf@, e as int, (c - 1) as nat) {
                        Some((tail2, end2)) => {
                            assert(spec_decode_actions(buf@, cur as int, c) == Some(
                                (seq![a@] + tail2, end2),
                            ));
                            assert(acc.deep_view() + (seq![a@] + tail2) =~= acc.deep_view().push(
                                a@,
                            ) + tail2);
                        },
                        None => {
                            assert(spec_decode_actions(buf@, cur as int, c) is None);
                        },
                    }
                }
                let ghost acc0 = acc.deep_view();
                acc.push(a);
                proof {
                    assert(acc.deep_view() =~= acc0.push(acc@[acc@.len() - 1]@));
                }
                cur = e;
                i = i + 1;
            },
            None => {
                proof {
                    let c = (count - i) as nat;
                    assert(spec_decode_actions(buf@, cur as int, c) is None);
                }
                return None;
            },
        }
    }
    proof {
        assert(spec_decode_actions(buf@, cur as int, (count - i) as nat) == Some(
            (Seq::<ActionModel>::empty(), cur as int),
        ));
        assert(acc.deep_view() + Seq::<ActionModel>::empty() =~= acc.deep_view());
    }
    Some((acc, cur))
}

/// Decodes one response record from the stream at `pos`, exactly as the
/// model `spec_decode_response` says.
pub fn decode_response(buf: &[u8], pos: usize) -> (r: Option<(PluginResponse, usize)>)
    requires
        pos <= buf@.len(),
    ensures
        match spec_decode_response(buf@, pos as int) {
            Some((m, end)) => r is Some && r.unwrap().0@ == m && r.unwrap().1 == end,
            None => r is None,
        },
{
    if pos >= buf.len() {
        return None;
    }
    let tag = *slice_index_get(buf, pos);
    if tag == 0 {
        if buf.len() - pos >= 2 && *slice_index_get(buf, pos + 1) == 0 {
            Some((PluginResponse::Status(Status::Okay), pos + 2))
        } else {
            None
        }
    } else if tag == 1 {
        match decode_str(buf, pos + 1) {
            Some((message, e1)) => {
                if e1 >= buf.len() {
                    return None;
                }
                let marker = *slice_index_get(buf, e1);
                if marker == 0 {
                    Some(
                        (
                            PluginResponse::Error(
                                crate::plugin::response::Error { message, path: None },
                            ),
                            e1 + 1,
                        ),
                    )
                } else if marker == 1 {
                    match decode_str(buf, e1 + 1) {
                        Some((p, e2)) => Some(
                            (
                                PluginResponse::Error(
                                    crate::plugin::response::Error { message, path: Some(p) },
                                ),
                                e2,
                            ),
                        ),
                        None => None,
                    }
                } else {
                    None
                }
            },
            None => None,
        }
    } else if tag == 2 {
        match decode_str(buf, pos + 1) {
            Some((name, e1)) => match decode_u64(buf, e1) {
                Some((na, e2)) => match decode_attrs(buf, e2, na) {
                    Some((attributes, e3)) => match decode_u64(buf, e3) {
                        Some((nc, e4)) => match decode_actions(buf, e4, nc) {
                            Some((actions, e5)) => Some(
                                (
                                    PluginResponse::Device(
                                        crate::plugin::response::Device {
                                            name,
                                            attributes,
                                            actions,
                                        },
                                    ),
                                    e5,
                                ),
                            ),
                            None => None,
                        },
                        None => None,
                    },
                    None => None,
                },
                None => None,
            },
            None => None,
        }
    } else if tag == 3 {
        match decode_len_prefixed(buf, pos + 1) {
            Some((value, e1)) => match decode_long(buf, e1) {
                Some((time, e2)) => Some(
                    (
                        PluginResponse::AttributeValue(
                            crate::plugin::response::AttributeValue { value, time },
                        ),
                        e2,
                    ),
                ),
                None => None,
            },
            None => None,
        }
    } else if tag == 4 {
        match decode_len_prefixed(buf, pos + 1) {
            Some((output, e1)) => match decode_long(buf, e1) {
                Some((start, e2)) => match decode_long(buf, e2) {
                    Some((end, e3)) => Some(
                        (
                            PluginResponse::ActionResult(
                                crate::plugin::response::ActionResult { output, start, end },
                            ),
                            e3,
                        ),
                    ),
                    None => None,
                },
                None => None,
            },
            None => None,
        }
    } else {
        None
    }
}



/// A window of an embedded encoding: if `enc` sits in `bytes` at `pos`,
/// every sub-window of `enc` sits at the shifted position.
proof fn lemma_chunk(bytes: Seq<u8>, pos: int, enc: Seq<u8>, a: int, b: int)
    requires
        0 <= pos,
        0 <= a <= b <= enc.len(),
        pos + enc.len() <= bytes.len(),
        bytes.subrange(pos, pos + enc.len() as int) == enc,
    ensures
        bytes.subrange(pos + a, pos + b) == enc.subrange(a, b),
{
    assert(bytes.subrange(pos + a, pos + b) =~= enc.subrange(a, b));
}

/// A list body encoded back-to-front splits equally well front-first.
proof fn lemma_encode_strs_unfold_front(ss: Seq<Seq<char>>)
    requires
        ss.len() > 0,
    ensures
        spec_encode_strs(ss) == spec_encode_str(ss[0]) + spec_encode_strs(ss.drop_first()),
    decreases ss.len(),
{
    if ss.len() == 1 {
        assert(ss.drop_last() =~= Seq::<Seq<char>>::empty());
        assert(ss.drop_first() =~= Seq::<Seq<char>>::empty());
        assert(spec_encode_strs(ss) =~= spec_encode_str(ss[0]) + spec_encode_strs(
            ss.drop_first(),
        ));
    } else {
        let head = ss.drop_last();
        lemma_encode_strs_unfold_front(head);
        assert(head.drop_first() =~= ss.drop_first().drop_last());
        assert(ss.drop_first().last() == ss.last());
        assert((spec_encode_str(ss[0]) + spec_encode_strs(head.drop_first()))
            + spec_encode_str(ss.last()) =~= spec_encode_str(ss[0]) + (spec_encode_strs(
            ss.drop_first().drop_last(),
        ) + spec_encode_str(ss.drop_first().last())));
    }
}

proof fn lemma_encode_attrs_unfold_front(items: Seq<AttributeModel>)
    requires
        items.len() > 0,
    ensures
        spec_encode_attrs(items) == spec_encode_attr(items[0]) + spec_encode_attrs(
            items.drop_first(),
        ),
    decreases items.len(),
{
    if items.len() == 1 {
        assert(items.drop_last() =~= Seq::<AttributeModel>::empty());
        assert(items.drop_first() =~= Seq::<AttributeModel>::empty());
        assert(spec_encode_attrs(items) =~= spec_encode_attr(items[0]) + spec_encode_attrs(
            items.drop_first(),
        ));
    } else {
        let head = items.drop_last();
        lemma_encode_attrs_unfold_front(head);
        assert(head.drop_first() =~= items.drop_first().drop_last());
        assert(items.drop_first().last() == items.last());
        assert((spec_encode_attr(items[0]) + spec_encode_attrs(head.drop_first()))
            + spec_encode_attr(items.last()) =~= spec_encode_attr(items[0]) + (spec_encode_attrs(
            items.drop_first().drop_last(),
        ) + spec_encode_attr(items.drop_first().last())));
    }
}

proof fn lemma_encode_actions_unfold_front(items: Seq<ActionModel>)
    requires
        items.len() > 0,
    ensures
        spec_encode_actions(items) == spec_encode_action(items[0]) + spec_encode_actions(
            items.drop_first(),
        ),
    decreases items.len(),
{
    if items.len() == 1 {
        assert(items.drop_last() =~= Seq::<ActionModel>::empty());
        assert(items.drop_first() =~= Seq::<ActionModel>::empty());
        assert(spec_encode_actions(items) =~= spec_encode_action(items[0]) + spec_encode_actions(
            items.drop_first(),
        ));
    } else {
        let head = items.drop_last();
        lemma_encode_actions_unfold_front(head);
        assert(head.drop_first() =~= items.drop_first().drop_last());
        assert(items.drop_first().last() == items.last());
        assert((spec_encode_action(items[0]) + spec_encode_actions(head.drop_first()))
            + spec_encode_action(items.last()) =~= spec_encode_action(items[0])
            + (spec_encode_actions(items.drop_first().drop_last()) + spec_encode_action(
            items.drop_first().last(),
        )));
    }
}

/// A list of text fields decodes back item by item.
proof fn lemma_strs_round_trip(ss: Seq<Seq<char>>, bytes: Seq<u8>, pos: int)
    requires
        forall|i: int| 0 <= i < ss.len() ==> str_fits_wire(#[trigger] ss[i]),
        0 <= pos,
        pos + spec_encode_strs(ss).len() <= bytes.len(),
        bytes.subrange(pos, pos + spec_encode_strs(ss).len() as int) == spec_encode_strs(ss),
    ensures
        spec_decode_strs(bytes, pos, ss.len()) == Some(
            (ss, pos + spec_encode_strs(ss).len()),
        ),
    decreases ss.len(),
{
    let enc = spec_encode_strs(ss);
    if ss.len() == 0 {
        assert(spec_decode_strs(bytes, pos, 0) == Some((Seq::<Seq<char>>::empty(), pos)));
        assert(ss =~= Seq::<Seq<char>>::empty());
    } else {
        lemma_encode_strs_unfold_front(ss);
        let e0 = spec_encode_str(ss[0]);
        let rest = ss.drop_first();
        let rest_enc = spec_encode_strs(rest);
        lemma_chunk(bytes, pos, enc, 0, e0.len() as int);
        assert(enc.subrange(0, e0.len() as int) =~= e0);
        lemma_str_round_trip(ss[0], bytes, pos);
        lemma_chunk(bytes, pos, enc, e0.len() as int, enc.len() as int);
        assert(enc.subrange(e0.len() as int, enc.len() as int) =~= rest_enc);
        assert(forall|i: int| 0 <= i < rest.len() ==> str_fits_wire(#[trigger] rest[i]));
        lemma_strs_round_trip(rest, bytes, pos + e0.len());
        assert(seq![ss[0]] + rest =~= ss);
    }
}

/// A counted list of text fields decodes back, count first.
proof fn lemma_str_list_round_trip(ss: Seq<Seq<char>>, bytes: Seq<u8>, pos: int)
    requires
        forall|i: int| 0 <= i < ss.len() ==> str_fits_wire(#[trigger] ss[i]),
        ss.len() < 0x1_0000_0000_0000_0000,
        0 <= pos,
        pos + spec_encode_str_list(ss).len() <= bytes.len(),
        bytes.subrange(pos, pos + spec_encode_str_list(ss).len() as int) == spec_encode_str_list(
            ss,
        ),
    ensures
        spec_decode_str_list(bytes, pos) == Some((ss, pos + spec_encode_str_list(ss).len())),
{
    lemma_auto_spec_u64_to_from_le_bytes();
    let enc = spec_encode_str_list(ss);
    lemma_chunk(bytes, pos, enc, 0, 8);
    assert(enc.subrange(0, 8) =~= spec_u64_to_le_bytes(ss.len() as u64));
    assert(spec_decode_u64(bytes, pos) == Some((ss.len() as u64, pos + 8)));
    lemma_chunk(bytes, pos, enc, 8, enc.len() as int);
    assert(enc.subrange(8, enc.len() as int) =~= spec_encode_strs(ss));
    lemma_strs_round_trip(ss, bytes, pos + 8);
}

/// One described attribute decodes back.
proof fn lemma_attr_round_trip(a: AttributeModel, bytes: Seq<u8>, pos: int)
    requires
        attr_fits_wire(a),
        0 <= pos,
        pos + spec_encode_attr(a).len() <= bytes.len(),
        bytes.subrange(pos, pos + spec_encode_attr(a).len() as int) == spec_encode_attr(a),
    ensures
        spec_decode_attr(bytes, pos) == Some((a, pos + spec_encode_attr(a).len())),
{
    let enc = spec_encode_attr(a);
    let e1 = spec_encode_str(a.path);
    let e2 = spec_encode_str_list(a.flags);
    let e3 = spec_encode_str(a.schema);
    lemma_chunk(bytes, pos, enc, 0, e1.len() as int);
    assert(enc.subrange(0, e1.len() as int) =~= e1);
    lemma_str_round_trip(a.path, bytes, pos);
    lemma_chunk(bytes, pos, enc, e1.len() as int, (e1.len() + e2.len()) as int);
    assert(enc.subrange(e1.len() as int, (e1.len() + e2.len()) as int) =~= e2);
    lemma_str_list_round_trip(a.flags, bytes, pos + e1.len());
    lemma_chunk(bytes, pos, enc, (e1.len() + e2.len()) as int, enc.len() as int);
    assert(enc.subrange((e1.len() + e2.len()) as int, enc.len() as int) =~= e3);
    lemma_str_round_trip(a.schema, bytes, pos + e1.len() + e2.len());
}

/// One described action decodes back.
proof fn lemma_action_round_trip(a: ActionModel, bytes: Seq<u8>, pos: int)
    requires
        action_fits_wire(a),
        0 <= pos,
        pos + spec_encode_action(a).len() <= bytes.len(),
        bytes.subrange(pos, pos + spec_encode_action(a).len() as int) == spec_encode_action(a),
    ensures
        spec_decode_action(bytes, pos) == Some((a, pos + spec_encode_action(a).len())),
{
    let enc = spec_encode_action(a);
    let e1 = spec_encode_str(a.path);
    let e2 = spec_encode_str(a.input_schema);
    let e3 = spec_encode_str(a.output_schema);
    lemma_chunk(bytes, pos, enc, 0, e1.len() as int);
    assert(enc.subrange(0, e1.len() as int) =~= e1);
    lemma_str_round_trip(a.path, bytes, pos);
    lemma_chunk(bytes, pos, enc, e1.len() as int, (e1.len() + e2.len()) as int);
    assert(enc.subrange(e1.len() as int, (e1.len() + e2.len()) as int) =~= e2);
    lemma_str_round_trip(a.input_schema, bytes, pos + e1.len());
    lemma_chunk(bytes, pos, enc, (e1.len() + e2.len()) as int, enc.len() as int);
    assert(enc.subrange((e1.len() + e2.len()) as int, enc.len() as int) =~= e3);
    lemma_str_round_trip(a.output_schema, bytes, pos + e1.len() + e2.len());
}

/// A list of described attributes decodes back item by item.
proof fn lemma_attrs_round_trip(items: Seq<AttributeModel>, bytes: Seq<u8>, pos: int)
    requires
        forall|i: int| 0 <= i < items.len() ==> attr_fits_wire(#[trigger] items[i]),
        0 <= pos,
        pos + spec_encode_attrs(items).len() <= bytes.len(),
        bytes.subrange(pos, pos + spec_encode_attrs(items).len() as int) == spec_encode_attrs(
            items,
        ),
    ensures
        spec_decode_attrs(bytes, pos, items.len()) == Some(
            (items, pos + spec_encode_attrs(items).len()),
        ),
    decreases items.len(),
{
    let enc = spec_encode_attrs(items);
    if items.len() == 0 {
        assert(spec_decode_attrs(bytes, pos, 0) == Some((Seq::<AttributeModel>::empty(), pos)));
        assert(items =~= Seq::<AttributeModel>::empty());
    } else {
        lemma_encode_attrs_unfold_front(items);
        let e0 = spec_encode_attr(items[0]);
        let rest = items.drop_first();
        let rest_enc = spec_encode_attrs(rest);
        lemma_chunk(bytes, pos, enc, 0, e0.len() as int);
        assert(enc.subrange(0, e0.len() as int) =~= e0);
        lemma_attr_round_trip(items[0], bytes, pos);
        lemma_chunk(bytes, pos, enc, e0.len() as int, enc.len() as int);
        assert(enc.subrange(e0.len() as int, enc.len() as int) =~= rest_enc);
        assert(forall|i: int| 0 <= i < rest.len() ==> attr_fits_wire(#[trigger] rest[i]));
        lemma_attrs_round_trip(rest, bytes, pos + e0.len());
        assert(seq![items[0]] + rest =~= items);
    }
}

/// A list of described actions decodes back item by item.
proof fn lemma_actions_round_trip(items: Seq<ActionModel>, bytes: Seq<u8>, pos: int)
    requires
        forall|i: int| 0 <= i < items.len() ==> action_fits_wire(#[trigger] items[i]),
        0 <= pos,
        pos + spec_encode_actions(items).len() <= bytes.len(),
        bytes.subrange(pos, pos + spec_encode_actions(items).len() as int) == spec_encode_actions(
            items,
        ),
    ensures
        spec_decode_actions(bytes, pos, items.len()) == Some(
            (items, pos + spec_encode_actions(items).len()),
        ),
    decreases items.len(),
{
    let enc = spec_encode_actions(items);
    if items.len() == 0 {
        assert(spec_decode_actions(bytes, pos, 0) == Some((Seq::<ActionModel>::empty(), pos)));
        assert(items =~= Seq::<ActionModel>::empty());
    } else {
        lemma_encode_actions_unfold_front(items);
        let e0 = spec_encode_action(items[0]);
        let rest = items.drop_first();
        let rest_enc = spec_encode_actions(rest);
        lemma_chunk(bytes, pos, enc, 0, e0.len() as int);
        assert(enc.subrange(0, e0.len() as int) =~= e0);
        lemma_action_round_trip(items[0], bytes, pos);
        lemma_chunk(bytes, pos, enc, e0.len() as int, enc.len() as int);
        assert(enc.subrange(e0.len() as int, enc.len() as int) =~= rest_enc);
        assert(forall|i: int| 0 <= i < rest.len() ==> action_fits_wire(#[trigger] rest[i]));
        lemma_actions_round_trip(rest, bytes, pos + e0.len());
        assert(seq![items[0]] + rest =~= items);
    }
}

/// The response envelope round-trip law: a response record, encoded and
/// then decoded at any position of any stream that carries those bytes,
/// comes back equal, with the cursor just past the record.
#[verifier::rlimit(100)]
#[verifier::spinoff_prover]
pub proof fn lemma_response_round_trip(r: ResponseModel, bytes: Seq<u8>, pos: int)
    requires
        response_fits_wire(r),
        0 <= pos,
        pos + spec_encode_response(r).len() <= bytes.len(),
        bytes.subrange(pos, pos + spec_encode_response(r).len() as int) == spec_encode_response(
            r,
        ),
    ensures
        spec_decode_response(bytes, pos) == Some((r, pos + spec_encode_response(r).len())),
{
    lemma_auto_spec_u64_to_from_le_bytes();
    let enc = spec_encode_response(r);
    assert(bytes[pos] == enc[0]);
    match r {
        ResponseModel::Status(Status::Okay) => {
            assert(bytes[pos + 1] == enc[1]);
        },
        ResponseModel::Error(e) => {
            let e1 = spec_encode_str(e.message);
            let e2 = spec_encode_opt_str(e.path);
            lemma_chunk(bytes, pos, enc, 1, 1 + e1.len() as int);
            assert(enc.subrange(1, 1 + e1.len() as int) =~= e1);
            lemma_str_round_trip(e.message, bytes, pos + 1);
            lemma_chunk(bytes, pos, enc, 1 + e1.len() as int, enc.len() as int);
            assert(enc.subrange(1 + e1.len() as int, enc.len() as int) =~= e2);
            let p2 = pos + 1 + e1.len() as int;
            match e.path {
                None => {
                    assert(bytes[p2] == e2[0]);
                    assert(spec_decode_opt_str(bytes, p2) == Some(
                        (None::<Seq<char>>, p2 + 1),
                    ));
                },
                Some(p) => {
                    assert(bytes[p2] == e2[0]);
                    let ep = spec_encode_str(p);
                    lemma_chunk(bytes, p2, e2, 1, e2.len() as int);
                    assert(e2.subrange(1, e2.len() as int) =~= ep);
                    lemma_str_round_trip(p, bytes, p2 + 1);
                },
            }
        },
        ResponseModel::Device(d) => {
            let e_name = spec_encode_str(d.name);
            let e_attrs = spec_encode_attrs(d.attributes);
            let e_actions = spec_encode_actions(d.actions);
            let o2 = 1 + e_name.len() as int;
            let o3 = o2 + 8;
            let o4 = o3 + e_attrs.len() as int;
            let o5 = o4 + 8;
            lemma_chunk(bytes, pos, enc, 1, o2);
            assert(enc.subrange(1, o2) =~= e_name);
            lemma_str_round_trip(d.name, bytes, pos + 1);
            lemma_chunk(bytes, pos, enc, o2, o3);
            assert(enc.subrange(o2, o3) =~= spec_u64_to_le_bytes(d.attributes.len() as u64));
            assert(spec_decode_u64(bytes, pos + o2) == Some(
                (d.attributes.len() as u64, pos + o3),
            ));
            lemma_chunk(bytes, pos, enc, o3, o4);
            assert(enc.subrange(o3, o4) =~= e_attrs);
            lemma_attrs_round_trip(d.attributes, bytes, pos + o3);
            lemma_chunk(bytes, pos, enc, o4, o5);
            assert(enc.subrange(o4, o5) =~= spec_u64_to_le_bytes(d.actions.len() as u64));
            assert(spec_decode_u64(bytes, pos + o4) == Some(
                (d.actions.len() as u64, pos + o5),
            ));
            lemma_chunk(bytes, pos, enc, o5, enc.len() as int);
            assert(enc.subrange(o5, enc.len() as int) =~= e_actions);
            lemma_actions_round_trip(d.actions, bytes, pos + o5);
        },
        ResponseModel::AttributeValue(av) => {
            let e1 = spec_encode_raw(av.value);
            lemma_chunk(bytes, pos, enc, 1, 1 + e1.len() as int);
            assert(enc.subrange(1, 1 + e1.len() as int) =~= e1);
            lemma_raw_round_trip(av.value, bytes, pos + 1);
            lemma_chunk(bytes, pos, enc, 1 + e1.len() as int, enc.len() as int);
            assert(enc.subrange(1 + e1.len() as int, enc.len() as int) =~= spec_u64_to_le_bytes(
                long_to_wire(av.time),
            ));
            assert(spec_decode_u64(bytes, pos + 1 + e1.len() as int) == Some(
                (long_to_wire(av.time), pos + 1 + e1.len() + 8),
            ));
        },
        ResponseModel::ActionResult(ar) => {
            let e1 = spec_encode_raw(ar.output);
            let o2 = 1 + e1.len() as int;
            lemma_chunk(bytes, pos, enc, 1, o2);
            assert(enc.subrange(1, o2) =~= e1);
            lemma_raw_round_trip(ar.output, bytes, pos + 1);
            lemma_chunk(bytes, pos, enc, o2, o2 + 8);
            assert(enc.subrange(o2, o2 + 8) =~= spec_u64_to_le_bytes(long_to_wire(ar.start)));
            assert(spec_decode_u64(bytes, pos + o2) == Some(
                (long_to_wire(ar.start), pos + o2 + 8),
            ));
            lemma_chunk(bytes, pos, enc, o2 + 8, o2 + 16);
            assert(enc.subrange(o2 + 8, o2 + 16) =~= spec_u64_to_le_bytes(long_to_wire(ar.end)));
            assert(spec_decode_u64(bytes, pos + o2 + 8) == Some(
                (long_to_wire(ar.end), pos + o2 + 16),
            ));
        },
    }
}

} // verus!
