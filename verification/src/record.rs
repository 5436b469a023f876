//! The packed per-node simulation state and its binary wire format.
//!
//! A node's live state travels between the host, the compute kernel and the
//! browser clients as a fixed 28-byte record: position (12 bytes), velocity
//! (12 bytes), mass, flags and two bytes of padding, all little-endian.

use vstd::bytes::{
    lemma_auto_spec_u32_to_from_le_bytes, spec_u32_from_le_bytes, spec_u32_to_le_bytes,
    u32_from_le_bytes, u32_to_le_bytes,
};
use vstd::prelude::*;
use vstd::slice::slice_subrange;

verus! {

broadcast use vstd::array::group_array_axioms;

/// Bytes of one packed node record on the wire and in the compute buffer.
pub const NODE_RECORD_BYTES: usize = 28;

/// A three-component vector. Each component holds the bit pattern of an
/// IEEE-754 single-precision value; the verified core moves and packs the
/// bits but never interprets them numerically.
#[derive(Clone, Copy, Debug, PartialEq, Eq)]
pub struct Vec3Data {
    pub x: u32,
    pub y: u32,
    pub z: u32,
}

impl Vec3Data {
    pub fn zero() -> (r: Vec3Data)
        ensures
            r == (Vec3Data { x: 0u32, y: 0u32, z: 0u32 }),
    {
        Vec3Data { x: 0, y: 0, z: 0 }
    }
}

/// The packed simulation state of one node: exactly 28 bytes, field order
/// fixed, shared by the host side, the compute kernel and the broadcast
/// payload.
#[derive(Clone, Copy, Debug, PartialEq, Eq)]
pub struct BinaryNodeData {
    pub position: Vec3Data,
    pub velocity: Vec3Data,
    pub mass: u8,
    pub flags: u8,
    pub padding: [u8; 2],
}

impl BinaryNodeData {
    /// The all-zero record: origin position, zero velocity, zero mass.
    pub fn zeroed() -> (r: BinaryNodeData)
        ensures
            r.position == (Vec3Data { x: 0u32, y: 0u32, z: 0u32 }),
            r.velocity == (Vec3Data { x: 0u32, y: 0u32, z: 0u32 }),
            r.mass == 0u8,
            r.flags == 0u8,
            r.padding@ == seq![0u8, 0u8],
    {
        let r = BinaryNodeData {
            position: Vec3Data::zero(),
            velocity: Vec3Data::zero(),
            mass: 0,
            flags: 0,
            padding: [0, 0],
        };
        proof {
            assert(r.padding@ =~= seq![0u8, 0u8]);
        }
        r
    }
}

/// The 12-byte little-endian encoding of one vector.
pub open spec fn spec_encode_vec3(v: Vec3Data) -> Seq<u8> {
    spec_u32_to_le_bytes(v.x) + spec_u32_to_le_bytes(v.y) + spec_u32_to_le_bytes(v.z)
}

/// The 28-byte little-endian encoding of one record.
pub open spec fn spec_encode_record(d: BinaryNodeData) -> Seq<u8> {
    spec_encode_vec3(d.position) + spec_encode_vec3(d.velocity) + seq![
        d.mass,
        d.flags,
        d.padding@[0],
        d.padding@[1],
    ]
}

/// The record read back from 28 bytes.
pub open spec fn spec_decode_record(s: Seq<u8>) -> BinaryNodeData
    recommends
        s.len() == NODE_RECORD_BYTES,
{
    BinaryNodeData {
        position: Vec3Data {
            x: spec_u32_from_le_bytes(s.subrange(0, 4)),
            y: spec_u32_from_le_bytes(s.subrange(4, 8)),
            z: spec_u32_from_le_bytes(s.subrange(8, 12)),
        },
        velocity: Vec3Data {
            x: spec_u32_from_le_bytes(s.subrange(12, 16)),
            y: spec_u32_from_le_bytes(s.subrange(16, 20)),
            z: spec_u32_from_le_bytes(s.subrange(20, 24)),
        },
        mass: s[24],
        flags: s[25],
        padding: [s[26], s[27]],
    }
}

proof fn lemma_encode_record_len(d: BinaryNodeData)
    ensures
        spec_encode_record(d).len() == NODE_RECORD_BYTES,
{
    lemma_auto_spec_u32_to_from_le_bytes();
}

/// Decoding inverts encoding: the 28-byte image of a record reads back
/// field for field.
pub proof fn lemma_record_round_trip(d: BinaryNodeData)
    ensures
        spec_encode_record(d).len() == NODE_RECORD_BYTES,
        spec_decode_record(spec_encode_record(d)) == d,
{
    lemma_auto_spec_u32_to_from_le_bytes();
    let s = spec_encode_record(d);
    assert(s.subrange(0, 4) =~= spec_u32_to_le_bytes(d.position.x));
    assert(s.subrange(4, 8) =~= spec_u32_to_le_bytes(d.position.y));
    assert(s.subrange(8, 12) =~= spec_u32_to_le_bytes(d.position.z));
    assert(s.subrange(12, 16) =~= spec_u32_to_le_bytes(d.velocity.x));
    assert(s.subrange(16, 20) =~= spec_u32_to_le_bytes(d.velocity.y));
    assert(s.subrange(20, 24) =~= spec_u32_to_le_bytes(d.velocity.z));
    let r = spec_decode_record(s);
    assert(r.padding@ =~= d.padding@);
    assert(r.padding =~= d.padding);
    assert(r == d);
}

/// Encoding inverts decoding: any 28 bytes re-encode to themselves.
pub proof fn lemma_record_bytes_round_trip(s: Seq<u8>)
    requires
        s.len() == NODE_RECORD_BYTES,
    ensures
        spec_encode_record(spec_decode_record(s)) == s,
{
    lemma_auto_spec_u32_to_from_le_bytes();
    let d = spec_decode_record(s);
    assert(d.padding@ =~= seq![s[26], s[27]]);
    assert(spec_encode_record(d) =~= s);
}

fn push_u32_le(out: &mut Vec<u8>, x: u32)
    ensures
        final(out)@ == old(out)@ + spec_u32_to_le_bytes(x),
{
    let mut b = u32_to_le_bytes(x);
    out.append(&mut b);
}

/// Packs one record into its 28-byte wire form.
pub fn encode_record(d: &BinaryNodeData) -> (r: Vec<u8>)
    ensures
        r@ == spec_encode_record(*d),
        r@.len() == NODE_RECORD_BYTES,
{
    let mut out: Vec<u8> = Vec::new();
    push_u32_le(&mut out, d.position.x);
    push_u32_le(&mut out, d.position.y);
    push_u32_le(&mut out, d.position.z);
    push_u32_le(&mut out, d.velocity.x);
    push_u32_le(&mut out, d.velocity.y);
    push_u32_le(&mut out, d.velocity.z);
    out.push(d.mass);
    out.push(d.flags);
    out.push(d.padding[0]);
    out.push(d.padding[1]);
    proof {
        lemma_encode_record_len(*d);
        assert(out@ =~= spec_encode_record(*d));
    }
    out
}

/// Reads one record back from its 28-byte wire form.
pub fn decode_record(bytes: &[u8]) -> (r: BinaryNodeData)
    requires
        bytes@.len() == NODE_RECORD_BYTES,
    ensures
        r == spec_decode_record(bytes@),
{
    let px = u32_from_le_bytes(slice_subrange(bytes, 0, 4));
    let py = u32_from_le_bytes(slice_subrange(bytes, 4, 8));
    let pz = u32_from_le_bytes(slice_subrange(bytes, 8, 12));
    let vx = u32_from_le_bytes(slice_subrange(bytes, 12, 16));
    let vy = u32_from_le_bytes(slice_subrange(bytes, 16, 20));
    let vz = u32_from_le_bytes(slice_subrange(bytes, 20, 24));
    let r = BinaryNodeData {
        position: Vec3Data { x: px, y: py, z: pz },
        velocity: Vec3Data { x: vx, y: vy, z: vz },
        mass: bytes[24],
        flags: bytes[25],
        padding: [bytes[26], bytes[27]],
    };
    proof {
        assert(r.padding@ =~= spec_decode_record(bytes@).padding@);
        assert(r.padding =~= spec_decode_record(bytes@).padding);
        assert(r == spec_decode_record(bytes@));
    }
    r
}

/// The packed binary stream for a sequence of records: their 28-byte
/// encodings concatenated, no header.
pub open spec fn spec_encode_frame(records: Seq<BinaryNodeData>) -> Seq<u8>
    decreases records.len(),
{
    if records.len() == 0 {
        Seq::empty()
    } else {
        spec_encode_frame(records.drop_last()) + spec_encode_record(records.last())
    }
}

/// A frame's length is 28 bytes per record.
pub proof fn lemma_frame_len(records: Seq<BinaryNodeData>)
    ensures
        spec_encode_frame(records).len() == NODE_RECORD_BYTES * records.len(),
    decreases records.len(),
{
    if records.len() == 0 {
    } else {
        lemma_frame_len(records.drop_last());
        lemma_encode_record_len(records.last());
    }
}

/// Packs a whole record sequence into one broadcast frame.
pub fn encode_frame(records: &Vec<BinaryNodeData>) -> (r: Vec<u8>)
    ensures
        r@ == spec_encode_frame(records@),
        r@.len() == NODE_RECORD_BYTES * records@.len(),
{
    let mut out: Vec<u8> = Vec::new();
    let mut i: usize = 0;
    while i < records.len()
        invariant
            i <= records@.len(),
            out@ == spec_encode_frame(records@.subrange(0, i as int)),
        decreases records@.len() - i,
    {
        let mut one = encode_record(&records[i]);
        out.append(&mut one);
        proof {
            assert(records@.subrange(0, i + 1 as int).drop_last() =~= records@.subrange(
                0,
                i as int,
            ));
            assert(records@.subrange(0, i + 1 as int).last() == records@[i as int]);
        }
        i = i + 1;
    }
    proof {
        assert(records@.subrange(0, records@.len() as int) =~= records@);
        lemma_frame_len(records@);
    }
    out
}

/// Splits a headerless frame back into records. Succeeds exactly when the
/// length is a multiple of 28; the client infers the record count from it.
pub fn decode_frame(bytes: &[u8]) -> (r: Option<Vec<BinaryNodeData>>)
    ensures
        match r {
            Some(records) => {
                &&& bytes@.len() as int % (NODE_RECORD_BYTES as int) == 0
                &&& records@.len() * NODE_RECORD_BYTES == bytes@.len()
                &&& spec_encode_frame(records@) == bytes@
            },
            None => bytes@.len() as int % (NODE_RECORD_BYTES as int) != 0,
        },
{
    if bytes.len() % NODE_RECORD_BYTES != 0 {
        return None;
    }
    let mut records: Vec<BinaryNodeData> = Vec::new();
    let mut start: usize = 0;
    while bytes.len() - start >= NODE_RECORD_BYTES
        invariant
            start <= bytes@.len(),
            bytes@.len() as int % (NODE_RECORD_BYTES as int) == 0,
            start as int % (NODE_RECORD_BYTES as int) == 0,
            records@.len() * NODE_RECORD_BYTES == start,
            spec_encode_frame(records@) =~= bytes@.subrange(0, start as int),
        decreases bytes@.len() - start,
    {
        let piece = slice_subrange(bytes, start, start + NODE_RECORD_BYTES);
        let d = decode_record(piece);
        let ghost prev = records@;
        records.push(d);
        proof {
            lemma_record_bytes_round_trip(piece@);
            assert(spec_encode_record(d) =~= piece@);
            assert(records@.drop_last() =~= prev);
            assert(records@.last() == d);
            assert(spec_encode_frame(records@) == spec_encode_frame(prev) + spec_encode_record(d));
            assert(spec_encode_frame(records@) =~= bytes@.subrange(
                0,
                start + NODE_RECORD_BYTES as int,
            ));
            let m = NODE_RECORD_BYTES as int;
            assert((start + m) % m == 0) by (nonlinear_arith)
                requires
                    start as int % m == 0 && m == 28,
            ;
        }
        start = start + NODE_RECORD_BYTES;
    }
    proof {
        let m = NODE_RECORD_BYTES as int;
        let len = bytes@.len() as int;
        assert(len - start < m);
        assert(start == len) by (nonlinear_arith)
            requires
                0 <= start <= len && len - start < m && start as int % m == 0 && len % m == 0 && m == 28,
        ;
        assert(bytes@.subrange(0, len) =~= bytes@);
    }
    Some(records)
}

} // verus!
