use vstd::prelude::*;
use vstd::pervasive::unreached;
use crate::codec::{decode, decode_spec, encode, encode_spec, lemma_round_trip};
use crate::event::{SignalLog, SignalLogV, RECORD_LEN};
use crate::probe::{
    comm_fixed_spec, pid_of, probe_event, probe_spec, sig_of, target_of, tid_of, TSIG_OFFSET,
};
use crate::ring::{bufs, push_spec, Ring};

verus! {

/// Encode one record and offer it to the processor's ring: queued while
/// there is room, dropped silently once the ring is full.
pub fn emit(ring: &mut Ring, ev: &SignalLog)
    requires
        old(ring).wf(),
        ev@.wf(),
    ensures
        final(ring).wf(),
        final(ring).capacity() == old(ring).capacity(),
        final(ring)@ == push_spec(old(ring)@, old(ring).capacity(), encode_spec(ev@)),
{
    proof {
        lemma_round_trip(ev@);
    }
    let rec = encode(ev);
    ring.push(rec);
}

/// One probe firing at syscall entry: decide on the raw context, and emit
/// the record, if any, onto the current processor's ring.  Returns whether
/// a record was offered to the ring.
pub fn probe_fire(ring: &mut Ring, ctx: &Vec<u8>, pid_tgid: u64, name: &Vec<u8>) -> (emitted:
    bool)
    requires
        old(ring).wf(),
    ensures
        final(ring).wf(),
        final(ring).capacity() == old(ring).capacity(),
        emitted == (probe_spec(ctx@, pid_tgid, name@) is Some),
        probe_spec(ctx@, pid_tgid, name@) matches Some(v) ==> final(ring)@ == push_spec(
            old(ring)@,
            old(ring).capacity(),
            encode_spec(v),
        ),
        probe_spec(ctx@, pid_tgid, name@) is None ==> final(ring)@ == old(ring)@,
{
    match probe_event(ctx, pid_tgid, name) {
        Some(ev) => {
            emit(ring, &ev);
            true
        },
        None => false,
    }
}

/// Drain up to `k` records off one ring and decode each, oldest first.
/// The order the producer emitted them in is preserved through decoding.
pub fn drain_decode(ring: &mut Ring, k: usize) -> (out: Vec<SignalLog>)
    requires
        old(ring).wf(),
    ensures
        final(ring).wf(),
        final(ring).capacity() == old(ring).capacity(),
        out@.len() == if k <= old(ring)@.len() {
            k as int
        } else {
            old(ring)@.len() as int
        },
        forall|i: int|
            0 <= i < out@.len() ==> (#[trigger] out@[i])@ == decode_spec(old(ring)@[i])
                && out@[i]@.wf(),
        final(ring)@ == old(ring)@.skip(out@.len() as int),
{
    let recs = ring.pop_batch(k);
    let mut out: Vec<SignalLog> = Vec::new();
    let mut i: usize = 0;
    while i < recs.len()
        invariant
            old(ring).wf(),
            i <= recs@.len(),
            recs@.len() <= old(ring)@.len(),
            bufs(recs@) == old(ring)@.take(recs@.len() as int),
            out@.len() == i,
            forall|j: int|
                0 <= j < i ==> (#[trigger] out@[j])@ == decode_spec(old(ring)@[j])
                    && out@[j]@.wf(),
        decreases recs@.len() - i,
    {
        let rec: &Vec<u8> = &recs[i];
        proof {
            assert(bufs(recs@)[i as int] == rec@);
            assert(old(ring)@.take(recs@.len() as int)[i as int] == old(ring)@[i as int]);
            assert(rec@.len() == RECORD_LEN);
        }
        match decode(rec.as_slice()) {
            Some(ev) => out.push(ev),
            None => unreached(),
        }
        i += 1;
    }
    out
}

/// The probe's entry point at the tracepoint, one call per syscall
/// invocation: decide on the raw context and emit at most one record onto
/// the current processor's ring.  It always returns the success code 0 -
/// any internal failure is closed off into emitting nothing, so the probe
/// never faults the traced call.
pub fn killsnoop(ring: &mut Ring, ctx: &Vec<u8>, pid_tgid: u64, name: &Vec<u8>) -> (ret: u32)
    requires
        old(ring).wf(),
    ensures
        ret == 0,
        final(ring).wf(),
        final(ring).capacity() == old(ring).capacity(),
        probe_spec(ctx@, pid_tgid, name@) matches Some(v) ==> final(ring)@ == push_spec(
            old(ring)@,
            old(ring).capacity(),
            encode_spec(v),
        ),
        probe_spec(ctx@, pid_tgid, name@) is None ==> final(ring)@ == old(ring)@,
{
    probe_fire(ring, ctx, pid_tgid, name);
    0
}

/// One observed send with a positive signal value, offered to a ring with
/// room, lands as exactly one new record on that ring, and the record
/// decodes back to the caller's pid, tid, target and signal unchanged.
pub proof fn lemma_delivery(r: Seq<Seq<u8>>, cap: nat, ctx: Seq<u8>, pid_tgid: u64, name: Seq<u8>)
    requires
        r.len() < cap,
        ctx.len() >= TSIG_OFFSET + 8,
        sig_of(ctx) != 0,
    ensures
        probe_spec(ctx, pid_tgid, name) is Some,
        ({
            let v = probe_spec(ctx, pid_tgid, name)->Some_0;
            let after = push_spec(r, cap, encode_spec(v));
            &&& after == r.push(encode_spec(v))
            &&& after.len() == r.len() + 1
            &&& decode_spec(after.last()) == v
            &&& v.pid == pid_of(pid_tgid)
            &&& v.tid == tid_of(pid_tgid)
            &&& v.tpid == target_of(ctx)
            &&& v.tsig == sig_of(ctx)
            &&& v.comm == comm_fixed_spec(name)
        }),
{
    let v = probe_spec(ctx, pid_tgid, name)->Some_0;
    lemma_round_trip(v);
}

/// An existence probe is never a kill: signal value 0 produces no record,
/// whatever the target and whoever the sender.
pub proof fn lemma_signal_zero_no_record(ctx: Seq<u8>, pid_tgid: u64, name: Seq<u8>)
    requires
        ctx.len() >= TSIG_OFFSET + 8,
        sig_of(ctx) == 0,
    ensures
        probe_spec(ctx, pid_tgid, name) is None,
{
}

/// The image of a family of independent per-processor rings after each
/// receives the record of its own sender.
pub open spec fn deliver_each(rings: Seq<Seq<Seq<u8>>>, cap: nat, evs: Seq<SignalLogV>) -> Seq<
    Seq<Seq<u8>>,
>
    recommends
        rings.len() == evs.len(),
{
    Seq::new(rings.len(), |i: int| push_spec(rings[i], cap, encode_spec(evs[i])))
}

/// Concurrent sends on distinct processors do not contaminate each other:
/// when each of the rings, every one with room, receives its own sender's
/// record, every ring ends with exactly that record appended, its earlier
/// records untouched, and the new record decodes back unchanged.
pub proof fn lemma_ring_independence(rings: Seq<Seq<Seq<u8>>>, cap: nat, evs: Seq<SignalLogV>)
    requires
        rings.len() == evs.len(),
        forall|i: int| 0 <= i < rings.len() ==> (#[trigger] rings[i]).len() < cap,
        forall|i: int| 0 <= i < evs.len() ==> (#[trigger] evs[i]).wf(),
    ensures
        deliver_each(rings, cap, evs).len() == rings.len(),
        forall|i: int|
            0 <= i < rings.len() ==> {
                let after = #[trigger] deliver_each(rings, cap, evs)[i];
                &&& after == rings[i].push(encode_spec(evs[i]))
                &&& after.len() == rings[i].len() + 1
                &&& decode_spec(after.last()) == evs[i]
                &&& after.take(rings[i].len() as int) == rings[i]
            },
{
    assert forall|i: int| 0 <= i < rings.len() implies {
        let after = #[trigger] deliver_each(rings, cap, evs)[i];
        &&& after == rings[i].push(encode_spec(evs[i]))
        &&& after.len() == rings[i].len() + 1
        &&& decode_spec(after.last()) == evs[i]
        &&& after.take(rings[i].len() as int) == rings[i]
    } by {
        lemma_round_trip(evs[i]);
        let after = deliver_each(rings, cap, evs)[i];
        assert(after == rings[i].push(encode_spec(evs[i])));
        assert(after.take(rings[i].len() as int) =~= rings[i]);
    }
}

/// The ring's image after a burst of records is offered in emission order.
pub open spec fn fill_spec(r: Seq<Seq<u8>>, cap: nat, evs: Seq<SignalLogV>) -> Seq<Seq<u8>>
    decreases evs.len(),
{
    if evs.len() == 0 {
        r
    } else {
        fill_spec(push_spec(r, cap, encode_spec(evs[0])), cap, evs.skip(1))
    }
}

/// A burst offered to a partly filled ring: records are kept in order up
/// to the remaining room, whole records are dropped past it, and what was
/// already queued is untouched.
pub proof fn lemma_fill(r: Seq<Seq<u8>>, cap: nat, evs: Seq<SignalLogV>)
    requires
        r.len() <= cap,
    ensures
        ({
            let after = fill_spec(r, cap, evs);
            let kept = if evs.len() <= cap - r.len() {
                evs.len() as int
            } else {
                cap - r.len()
            };
            &&& after.len() == r.len() + kept
            &&& forall|j: int| 0 <= j < r.len() ==> #[trigger] after[j] == r[j]
            &&& forall|j: int|
                0 <= j < kept ==> #[trigger] after[r.len() + j] == encode_spec(evs[j])
        }),
    decreases evs.len(),
{
    if evs.len() == 0 {
    } else {
        let stepped = push_spec(r, cap, encode_spec(evs[0]));
        lemma_fill(stepped, cap, evs.skip(1));
        let after = fill_spec(r, cap, evs);
        let kept = if evs.len() <= cap - r.len() {
            evs.len() as int
        } else {
            cap - r.len()
        };
        if r.len() < cap {
            assert forall|j: int| 0 <= j < kept implies #[trigger] after[r.len() + j]
                == encode_spec(evs[j]) by {
                if j == 0 {
                    assert(after[stepped.len() - 1] == stepped[stepped.len() - 1]);
                } else {
                    assert(after[stepped.len() + (j - 1)] == encode_spec(evs.skip(1)[j - 1]));
                }
            }
        }
    }
}

/// Sustained overflow corrupts nothing: a ring under a burst larger than
/// its capacity drops whole records at the tail, and every surviving slot
/// still decodes to the exact record its sender emitted - none is partial
/// or shifted.
pub proof fn lemma_overflow_survivors_intact(cap: nat, evs: Seq<SignalLogV>)
    requires
        forall|i: int| 0 <= i < evs.len() ==> (#[trigger] evs[i]).wf(),
    ensures
        ({
            let after = fill_spec(Seq::<Seq<u8>>::empty(), cap, evs);
            let kept = if evs.len() <= cap {
                evs.len() as int
            } else {
                cap as int
            };
            &&& after.len() == kept
            &&& forall|j: int|
                0 <= j < kept ==> #[trigger] after[j] == encode_spec(evs[j]) && decode_spec(
                    after[j],
                ) == evs[j]
        }),
{
    lemma_fill(Seq::<Seq<u8>>::empty(), cap, evs);
    let after = fill_spec(Seq::<Seq<u8>>::empty(), cap, evs);
    let kept = if evs.len() <= cap {
        evs.len() as int
    } else {
        cap as int
    };
    assert forall|j: int| 0 <= j < kept implies #[trigger] after[j] == encode_spec(evs[j])
        && decode_spec(after[j]) == evs[j] by {
        assert(after[0 + j] == encode_spec(evs[j]));
        lemma_round_trip(evs[j]);
    }
}

} // verus!
