use vstd::prelude::*;
use vstd::bytes::{spec_u64_from_le_bytes, u64_from_le_bytes};
use vstd::slice::slice_subrange;
use crate::codec::{i32_from_bits, i32_of_bits};
use crate::event::{SignalLog, SignalLogV, COMM_LEN};

verus! {

/// Byte offset of the target-pid argument in the tracepoint context.
pub const TPID_OFFSET: usize = 16;

/// Byte offset of the signal-number argument in the tracepoint context.
pub const TSIG_OFFSET: usize = 24;

/// The low 32 bits of a 64-bit syscall argument.
pub open spec fn low32(v: u64) -> u32 {
    (v & 0xFFFF_FFFF) as u32
}

/// The 64-bit little-endian value at byte offset `off` of the context.
pub open spec fn word_at(ctx: Seq<u8>, off: int) -> u64
    recommends
        0 <= off && off + 8 <= ctx.len(),
{
    spec_u64_from_le_bytes(ctx.subrange(off, off + 8))
}

/// Bounds-checked read of one 64-bit syscall argument from the raw
/// tracepoint context.  An out-of-range offset is a benign failure,
/// never a fault.
pub fn ctx_read_u64(ctx: &Vec<u8>, off: usize) -> (r: Option<u64>)
    ensures
        r is Some <==> off + 8 <= ctx@.len(),
        r matches Some(v) ==> v == word_at(ctx@, off as int),
{
    if ctx.len() >= 8 && off <= ctx.len() - 8 {
        Some(u64_from_le_bytes(slice_subrange(ctx.as_slice(), off, off + 8)))
    } else {
        None
    }
}

/// The signal number an invocation with context `ctx` carries.
pub open spec fn sig_of(ctx: Seq<u8>) -> u32
    recommends
        ctx.len() >= TSIG_OFFSET + 8,
{
    low32(word_at(ctx, TSIG_OFFSET as int))
}

/// The target pid an invocation with context `ctx` carries.
pub open spec fn target_of(ctx: Seq<u8>) -> i32
    recommends
        ctx.len() >= TPID_OFFSET + 8,
{
    i32_of_bits(low32(word_at(ctx, TPID_OFFSET as int)))
}

/// The sender's process id: the high half of the combined pid/tgid word.
pub open spec fn pid_of(pid_tgid: u64) -> u32 {
    (pid_tgid >> 32) as u32
}

/// The sender's thread id: the low half of the combined pid/tgid word.
pub open spec fn tid_of(pid_tgid: u64) -> u32 {
    low32(pid_tgid)
}

/// The command-name field built from a raw name: exactly `COMM_LEN` bytes,
/// the name truncated to one less than that and NUL-padded to the width.
pub open spec fn comm_fixed_spec(name: Seq<u8>) -> Seq<u8> {
    Seq::new(
        COMM_LEN as nat,
        |i: int|
            if i < name.len() && i < COMM_LEN - 1 {
                name[i]
            } else {
                0u8
            },
    )
}

/// The command-name field is always exactly `COMM_LEN` bytes, whatever
/// name goes in: a name of fewer than `COMM_LEN - 1` bytes keeps its bytes
/// and is NUL-padded to the width, a longer one is truncated to
/// `COMM_LEN - 1` bytes and closed with a NUL terminator.
pub proof fn lemma_comm_shape(name: Seq<u8>)
    ensures
        comm_fixed_spec(name).len() == COMM_LEN,
        comm_fixed_spec(name)[COMM_LEN - 1] == 0u8,
        forall|i: int|
            0 <= i < name.len() && i < COMM_LEN - 1 ==> #[trigger] comm_fixed_spec(name)[i]
                == name[i],
        name.len() <= COMM_LEN - 1 ==> forall|i: int|
            name.len() <= i < COMM_LEN ==> #[trigger] comm_fixed_spec(name)[i] == 0u8,
        name.len() > COMM_LEN - 1 ==> comm_fixed_spec(name) == name.take(COMM_LEN - 1).push(0u8),
{
    if name.len() > COMM_LEN - 1 {
        assert(comm_fixed_spec(name) =~= name.take(COMM_LEN - 1).push(0u8));
    }
}

/// Truncate or NUL-pad a raw command name to the fixed field width.
pub fn comm_fixed(name: &Vec<u8>) -> (r: Vec<u8>)
    ensures
        r@ == comm_fixed_spec(name@),
        r@.len() == COMM_LEN,
{
    let mut out: Vec<u8> = Vec::new();
    let mut i: usize = 0;
    while i < COMM_LEN
        invariant
            i <= COMM_LEN,
            out@ == comm_fixed_spec(name@).take(i as int),
        decreases COMM_LEN - i,
    {
        if i < name.len() && i < COMM_LEN - 1 {
            out.push(name[i]);
        } else {
            out.push(0u8);
        }
        proof {
            assert(comm_fixed_spec(name@).take(i + 1) =~= comm_fixed_spec(name@).take(
                i as int,
            ).push(comm_fixed_spec(name@)[i as int]));
        }
        i += 1;
    }
    proof {
        assert(comm_fixed_spec(name@).take(COMM_LEN as int) =~= comm_fixed_spec(name@));
    }
    out
}

/// What the probe decides for one syscall invocation: `None` when the
/// context is too short for its two argument reads or the signal is the
/// existence probe 0, otherwise the one record the invocation produces.
pub open spec fn probe_spec(ctx: Seq<u8>, pid_tgid: u64, name: Seq<u8>) -> Option<SignalLogV> {
    if ctx.len() < TSIG_OFFSET + 8 {
        None
    } else if sig_of(ctx) == 0 {
        None
    } else {
        Some(
            SignalLogV {
                pid: pid_of(pid_tgid),
                tid: tid_of(pid_tgid),
                tpid: target_of(ctx),
                tsig: sig_of(ctx),
                comm: comm_fixed_spec(name),
            },
        )
    }
}

/// The probe body run at syscall entry: read the signal number and target
/// pid from the context at their fixed offsets, drop existence probes, and
/// capture the caller's identity.  Every internal failure is closed off
/// into `None`; the probe observes and never faults.
pub fn probe_event(ctx: &Vec<u8>, pid_tgid: u64, name: &Vec<u8>) -> (r: Option<SignalLog>)
    ensures
        r is Some <==> probe_spec(ctx@, pid_tgid, name@) is Some,
        r matches Some(ev) ==> Some(ev@) == probe_spec(ctx@, pid_tgid, name@) && ev@.wf(),
{
    let tsig_word = match ctx_read_u64(ctx, TSIG_OFFSET) {
        Some(w) => w,
        None => {
            return None;
        },
    };
    let tsig = (tsig_word & 0xFFFF_FFFF) as u32;
    proof {
        assert(tsig_word & 0xFFFF_FFFF <= 0xFFFF_FFFF) by (bit_vector);
    }
    if tsig == 0 {
        return None;
    }
    let tpid_word = match ctx_read_u64(ctx, TPID_OFFSET) {
        Some(w) => w,
        None => {
            return None;
        },
    };
    proof {
        assert(tpid_word & 0xFFFF_FFFF <= 0xFFFF_FFFF) by (bit_vector);
        assert(pid_tgid >> 32 <= 0xFFFF_FFFFu64) by (bit_vector);
        assert(pid_tgid & 0xFFFF_FFFF <= 0xFFFF_FFFF) by (bit_vector);
    }
    let tpid = i32_from_bits((tpid_word & 0xFFFF_FFFF) as u32);
    let pid = (pid_tgid >> 32) as u32;
    let tid = (pid_tgid & 0xFFFF_FFFF) as u32;
    let comm = comm_fixed(name);
    let ev = SignalLog { pid, tid, tpid, tsig, comm };
    proof {
        assert(ev@ =~= probe_spec(ctx@, pid_tgid, name@)->Some_0);
    }
    Some(ev)
}

} // verus!
