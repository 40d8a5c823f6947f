//! The recording format: each record is an 8-byte big-endian header
//! (inter-arrival delay in milliseconds, payload length) followed by the
//! payload. A length of zero marks the end of a stream. A headerless
//! recording holds the payloads alone.
use vstd::prelude::*;
use crate::frame::{Frame, MAX_FRAME};
use crate::utils::{be_bytes, be_value, bytes_to_u32, lemma_be_value_of_bytes, u32_to_bytes};

verus! {

/// Bytes in a record header.
pub const HEADER_LEN: usize = 8;

/// A decoded record header.
#[derive(Debug, Clone, Copy, PartialEq, Eq, Structural)]
pub struct Header {
    /// Milliseconds since the previous record was written.
    pub delta_ms: u32,
    /// Payload bytes that follow the header.
    pub length: u32,
}

/// What the first eight bytes at a read position say.
#[derive(Debug, Clone, Copy, PartialEq, Eq, Structural)]
pub enum HeaderRead {
    /// Fewer than eight bytes were available.
    Incomplete,
    /// The length field is zero: the end-of-stream marker.
    EndMarker,
    /// The length field exceeds `MAX_FRAME`: the data is corrupt.
    Oversized { length: u32 },
    /// A record header.
    Record(Header),
}

/// A recorded frame: its delay and its payload.
pub type Record = (u32, Seq<u8>);

/// The bytes of one record; with `no_headers`, the payload alone.
pub open spec fn record_bytes(delta_ms: u32, payload: Seq<u8>, no_headers: bool) -> Seq<u8> {
    if no_headers {
        payload
    } else {
        be_bytes(delta_ms) + be_bytes(payload.len() as u32) + payload
    }
}

/// The bytes of a recording of `recs`, written one record after another.
pub open spec fn encode_records(recs: Seq<Record>, no_headers: bool) -> Seq<u8>
    decreases recs.len(),
{
    if recs.len() == 0 {
        Seq::empty()
    } else {
        record_bytes(recs[0].0, recs[0].1, no_headers) + encode_records(recs.skip(1), no_headers)
    }
}

/// The payloads of `recs` joined end to end.
pub open spec fn joined_payloads(recs: Seq<Record>) -> Seq<u8>
    decreases recs.len(),
{
    if recs.len() == 0 {
        Seq::empty()
    } else {
        recs[0].1 + joined_payloads(recs.skip(1))
    }
}

/// How the header at the start of `b` reads.
pub open spec fn header_at(b: Seq<u8>) -> HeaderRead {
    if b.len() < HEADER_LEN {
        HeaderRead::Incomplete
    } else {
        let length = be_value(b.subrange(4, 8));
        if length == 0 {
            HeaderRead::EndMarker
        } else if length > MAX_FRAME {
            HeaderRead::Oversized { length: length as u32 }
        } else {
            HeaderRead::Record(Header { delta_ms: be_value(b.subrange(0, 4)) as u32, length: length as u32 })
        }
    }
}

/// The records that replay reads from the start of `file`, up to the first
/// incomplete, oversized or end-marker header or truncated payload.
pub open spec fn decode_records(file: Seq<u8>) -> Seq<Record>
    decreases file.len(),
{
    match header_at(file) {
        HeaderRead::Record(h) => {
            let end = HEADER_LEN + h.length;
            if end <= file.len() {
                seq![(h.delta_ms, file.subrange(HEADER_LEN as int, end))] + decode_records(file.skip(end))
            } else {
                Seq::empty()
            }
        },
        _ => Seq::empty(),
    }
}

/// A record that replay can give back: its payload is neither empty (which
/// would read as the end marker) nor longer than `MAX_FRAME`.
pub open spec fn replayable(r: Record) -> bool {
    0 < r.1.len() <= MAX_FRAME
}

/// Encodes one record for a recording; with `no_headers`, the payload alone.
pub fn encode_record(delta_ms: u32, frame: &Frame, no_headers: bool) -> (r: Vec<u8>)
    ensures
        r@ == record_bytes(delta_ms, frame@, no_headers),
{
    let n = frame.len();
    let payload = frame.as_slice();
    let mut out: Vec<u8> = Vec::new();
    if !no_headers {
        let d = u32_to_bytes(delta_ms);
        let l = u32_to_bytes(n as u32);
        out.push(d[0]);
        out.push(d[1]);
        out.push(d[2]);
        out.push(d[3]);
        out.push(l[0]);
        out.push(l[1]);
        out.push(l[2]);
        out.push(l[3]);
        assert(out@ =~= be_bytes(delta_ms) + be_bytes(n as u32));
    }
    let ghost head = out@;
    let mut i: usize = 0;
    while i < n
        invariant
            n == payload@.len(),
            payload@ == frame@,
            i <= n,
            out@ == head + payload@.subrange(0, i as int),
        decreases n - i,
    {
        out.push(payload[i]);
        i = i + 1;
        assert(out@ =~= head + payload@.subrange(0, i as int));
    }
    assert(payload@.subrange(0, n as int) =~= payload@);
    out
}

/// The delay field for a record written `elapsed_ms` after the previous
/// one; delays beyond the field's range are held at its largest value.
pub fn header_delta(elapsed_ms: u64) -> (r: u32)
    ensures
        r == if elapsed_ms <= u32::MAX { elapsed_ms as u32 } else { u32::MAX },
{
    if elapsed_ms <= u32::MAX as u64 {
        elapsed_ms as u32
    } else {
        u32::MAX
    }
}

/// Reads the header at the start of `bytes`.
pub fn read_header(bytes: &[u8]) -> (r: HeaderRead)
    ensures
        r == header_at(bytes@),
{
    if bytes.len() < HEADER_LEN {
        return HeaderRead::Incomplete;
    }
    let delta_ms = bytes_to_u32([bytes[0], bytes[1], bytes[2], bytes[3]]);
    let length = bytes_to_u32([bytes[4], bytes[5], bytes[6], bytes[7]]);
    assert(seq![bytes[0], bytes[1], bytes[2], bytes[3]] =~= bytes@.subrange(0, 4));
    assert(seq![bytes[4], bytes[5], bytes[6], bytes[7]] =~= bytes@.subrange(4, 8));
    if length == 0 {
        HeaderRead::EndMarker
    } else if length as usize > MAX_FRAME {
        HeaderRead::Oversized { length }
    } else {
        HeaderRead::Record(Header { delta_ms, length })
    }
}

/// The frame of a record whose header announced `length` bytes, from the
/// bytes a read returned; `None` when the read came back short, which
/// means the record is truncated.
pub fn payload_frame(bytes: Vec<u8>, length: u32) -> (r: Option<Frame>)
    requires
        length <= MAX_FRAME,
    ensures
        r is Some <==> bytes@.len() == length,
        r matches Some(f) ==> f@ == bytes@,
{
    if bytes.len() != length as usize {
        return None;
    }
    match Frame::new(bytes) {
        Ok(f) => Some(f),
        Err(_) => None,
    }
}

/// The header of a record reads back as the delay and the payload length.
pub proof fn lemma_header_of_record(delta_ms: u32, payload: Seq<u8>, rest: Seq<u8>)
    requires
        0 < payload.len() <= MAX_FRAME,
    ensures
        header_at(record_bytes(delta_ms, payload, false) + rest) == HeaderRead::Record(
            Header { delta_ms, length: payload.len() as u32 },
        ),
{
    let b = record_bytes(delta_ms, payload, false) + rest;
    lemma_be_value_of_bytes(delta_ms);
    lemma_be_value_of_bytes(payload.len() as u32);
    assert(b.subrange(0, 4) =~= be_bytes(delta_ms));
    assert(b.subrange(4, 8) =~= be_bytes(payload.len() as u32));
}

/// Replaying a recording made with headers gives back every record written,
/// payloads and delays alike, as long as no payload is empty or oversized.
pub proof fn lemma_round_trip(recs: Seq<Record>)
    requires
        forall|i: int| 0 <= i < recs.len() ==> replayable(#[trigger] recs[i]),
    ensures
        decode_records(encode_records(recs, false)) == recs,
    decreases recs.len(),
{
    if recs.len() == 0 {
        assert(header_at(Seq::<u8>::empty()) == HeaderRead::Incomplete);
    } else {
        let (d, p) = recs[0];
        let rest = recs.skip(1);
        assert(replayable(recs[0]));
        assert forall|i: int| 0 <= i < rest.len() implies replayable(#[trigger] rest[i]) by {
            assert(rest[i] == recs[i + 1]);
        }
        lemma_round_trip(rest);
        let file = encode_records(recs, false);
        let tail = encode_records(rest, false);
        assert(file == record_bytes(d, p, false) + tail);
        lemma_header_of_record(d, p, tail);
        let end = HEADER_LEN + p.len();
        assert(record_bytes(d, p, false).len() == end);
        assert(file.subrange(HEADER_LEN as int, end as int) =~= p);
        assert(file.skip(end as int) =~= tail);
        assert(decode_records(file) =~= seq![(d, p)] + rest);
        assert(seq![(d, p)] + rest =~= recs);
    }
}

/// A headerless recording is the payloads joined end to end.
pub proof fn lemma_headerless_is_joined(recs: Seq<Record>)
    ensures
        encode_records(recs, true) == joined_payloads(recs),
    decreases recs.len(),
{
    if recs.len() > 0 {
        lemma_headerless_is_joined(recs.skip(1));
    }
}

/// A headerless recording loses the record boundaries: two different record
/// sequences whose payloads join to the same bytes give the same file, so
/// replay cannot give back both of them.
pub proof fn lemma_headerless_ambiguous(a: Seq<Record>, b: Seq<Record>)
    requires
        a != b,
        joined_payloads(a) == joined_payloads(b),
    ensures
        encode_records(a, true) == encode_records(b, true),
        decode_records(encode_records(a, true)) != a || decode_records(encode_records(b, true))
            != b,
{
    lemma_headerless_is_joined(a);
    lemma_headerless_is_joined(b);
}

} // verus!
