use vstd::prelude::*;
use vstd::bytes::{
    lemma_auto_spec_u32_to_from_le_bytes, spec_u32_from_le_bytes, spec_u32_to_le_bytes,
    u32_from_le_bytes, u32_to_le_bytes,
};
use vstd::slice::slice_subrange;
use crate::event::{SignalLog, SignalLogV, COMM_LEN, RECORD_LEN};

verus! {

/// The unsigned 32-bit value carrying the same bits as `x`.
pub open spec fn i32_bits(x: i32) -> u32 {
    if x >= 0 {
        x as u32
    } else {
        (x + 0x1_0000_0000) as u32
    }
}

/// The signed 32-bit value carrying the same bits as `u`.
pub open spec fn i32_of_bits(u: u32) -> i32 {
    if u < 0x8000_0000 {
        u as i32
    } else {
        (u - 0x1_0000_0000) as i32
    }
}

/// Reading bits back as signed recovers the signed value.
pub proof fn lemma_i32_bits_inverse(x: i32)
    ensures
        i32_of_bits(i32_bits(x)) == x,
{
}

/// Reading a signed value's bits back recovers the bits.
pub proof fn lemma_i32_of_bits_inverse(u: u32)
    ensures
        i32_bits(i32_of_bits(u)) == u,
{
}

/// Same bit pattern, computed executably.
pub fn i32_to_bits(x: i32) -> (u: u32)
    ensures
        u == i32_bits(x),
{
    if x >= 0 {
        x as u32
    } else {
        let wide: i64 = (x as i64) + 0x1_0000_0000;
        wide as u32
    }
}

/// Same bit pattern, computed executably.
pub fn i32_from_bits(u: u32) -> (x: i32)
    ensures
        x == i32_of_bits(u),
{
    if u < 0x8000_0000 {
        u as i32
    } else {
        let wide: i64 = (u as i64) - 0x1_0000_0000;
        wide as i32
    }
}

/// The wire image of one record: pid, tid, target pid and signal as
/// little-endian 32-bit values, then the 16 command-name bytes.  Packed,
/// fixed width; both sides of the kernel/user boundary agree on it
/// byte for byte.
pub open spec fn encode_spec(v: SignalLogV) -> Seq<u8> {
    spec_u32_to_le_bytes(v.pid) + spec_u32_to_le_bytes(v.tid) + spec_u32_to_le_bytes(
        i32_bits(v.tpid),
    ) + spec_u32_to_le_bytes(v.tsig) + v.comm
}

/// The record a 32-byte wire image stands for.
pub open spec fn decode_spec(s: Seq<u8>) -> SignalLogV
    recommends
        s.len() == RECORD_LEN,
{
    SignalLogV {
        pid: spec_u32_from_le_bytes(s.subrange(0, 4)),
        tid: spec_u32_from_le_bytes(s.subrange(4, 8)),
        tpid: i32_of_bits(spec_u32_from_le_bytes(s.subrange(8, 12))),
        tsig: spec_u32_from_le_bytes(s.subrange(12, 16)),
        comm: s.subrange(16, 32),
    }
}

/// A well-formed record encodes to exactly `RECORD_LEN` bytes.
pub proof fn lemma_encode_len(v: SignalLogV)
    requires
        v.wf(),
    ensures
        encode_spec(v).len() == RECORD_LEN,
{
    lemma_auto_spec_u32_to_from_le_bytes();
}

/// Decoding is the inverse of encoding: no field is lost or shifted on the
/// way through the wire layout.
pub proof fn lemma_round_trip(v: SignalLogV)
    requires
        v.wf(),
    ensures
        encode_spec(v).len() == RECORD_LEN,
        decode_spec(encode_spec(v)) == v,
{
    lemma_auto_spec_u32_to_from_le_bytes();
    let s = encode_spec(v);
    assert(s.subrange(0, 4) =~= spec_u32_to_le_bytes(v.pid));
    assert(s.subrange(4, 8) =~= spec_u32_to_le_bytes(v.tid));
    assert(s.subrange(8, 12) =~= spec_u32_to_le_bytes(i32_bits(v.tpid)));
    assert(s.subrange(12, 16) =~= spec_u32_to_le_bytes(v.tsig));
    assert(s.subrange(16, 32) =~= v.comm);
    lemma_i32_bits_inverse(v.tpid);
    assert(decode_spec(s) =~= v);
}

/// Serialise one record into its fixed-size wire image.
pub fn encode(ev: &SignalLog) -> (r: Vec<u8>)
    requires
        ev@.wf(),
    ensures
        r@ == encode_spec(ev@),
        r@.len() == RECORD_LEN,
{
    proof {
        lemma_encode_len(ev@);
    }
    let mut out: Vec<u8> = Vec::new();
    let mut field = u32_to_le_bytes(ev.pid);
    out.append(&mut field);
    let mut field = u32_to_le_bytes(ev.tid);
    out.append(&mut field);
    let mut field = u32_to_le_bytes(i32_to_bits(ev.tpid));
    out.append(&mut field);
    let mut field = u32_to_le_bytes(ev.tsig);
    out.append(&mut field);
    let mut i: usize = 0;
    while i < ev.comm.len()
        invariant
            i <= ev.comm@.len(),
            ev@.wf(),
            out@ == spec_u32_to_le_bytes(ev@.pid) + spec_u32_to_le_bytes(ev@.tid)
                + spec_u32_to_le_bytes(i32_bits(ev@.tpid)) + spec_u32_to_le_bytes(ev@.tsig)
                + ev@.comm.take(i as int),
        decreases ev.comm@.len() - i,
    {
        out.push(ev.comm[i]);
        proof {
            assert(ev@.comm.take(i + 1) =~= ev@.comm.take(i as int).push(ev@.comm[i as int]));
        }
        i += 1;
    }
    proof {
        assert(ev@.comm.take(ev@.comm.len() as int) =~= ev@.comm);
    }
    out
}

/// Parse one wire image back into a record.  Exactly the spans of the
/// record's fixed size decode; any other length is rejected.
pub fn decode(buf: &[u8]) -> (r: Option<SignalLog>)
    ensures
        r is Some <==> buf@.len() == RECORD_LEN,
        r matches Some(ev) ==> ev@ == decode_spec(buf@) && ev@.wf(),
{
    if buf.len() != RECORD_LEN {
        return None;
    }
    let pid = u32_from_le_bytes(slice_subrange(buf, 0, 4));
    let tid = u32_from_le_bytes(slice_subrange(buf, 4, 8));
    let tpid = i32_from_bits(u32_from_le_bytes(slice_subrange(buf, 8, 12)));
    let tsig = u32_from_le_bytes(slice_subrange(buf, 12, 16));
    let mut comm: Vec<u8> = Vec::new();
    let mut i: usize = COMM_LEN;
    while i < RECORD_LEN
        invariant
            COMM_LEN <= i <= RECORD_LEN,
            buf@.len() == RECORD_LEN,
            comm@ == buf@.subrange(COMM_LEN as int, i as int),
        decreases RECORD_LEN - i,
    {
        comm.push(*vstd::slice::slice_index_get(buf, i));
        proof {
            assert(buf@.subrange(COMM_LEN as int, i + 1) =~= buf@.subrange(
                COMM_LEN as int,
                i as int,
            ).push(buf@[i as int]));
        }
        i += 1;
    }
    let ev = SignalLog { pid, tid, tpid, tsig, comm };
    proof {
        assert(ev@ =~= decode_spec(buf@));
    }
    Some(ev)
}

} // verus!
