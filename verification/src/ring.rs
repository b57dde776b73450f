use vstd::prelude::*;
use crate::event::RECORD_LEN;

verus! {

/// The number of record slots each per-processor ring is sized to.
pub const RING_CAPACITY: usize = 1024;

/// What a bounded ring does with one incoming record: append it while
/// there is room, drop it silently once the ring is full.
pub open spec fn push_spec(r: Seq<Seq<u8>>, cap: nat, rec: Seq<u8>) -> Seq<Seq<u8>> {
    if r.len() < cap {
        r.push(rec)
    } else {
        r
    }
}

/// The records a vector of raw buffers holds, as byte sequences.
pub open spec fn bufs(bs: Seq<Vec<u8>>) -> Seq<Seq<u8>> {
    bs.map(|i: int, b: Vec<u8>| b@)
}

/// One per-processor event channel: a bounded queue of fixed-size records
/// with a single producer and a single consumer.  A full ring drops new
/// writes silently; no notification of loss reaches either side.
pub struct Ring {
    slots: Vec<Vec<u8>>,
    cap: usize,
}

impl View for Ring {
    type V = Seq<Seq<u8>>;

    closed spec fn view(&self) -> Seq<Seq<u8>> {
        bufs(self.slots@)
    }
}

impl Ring {
    /// The fixed number of record slots chosen at construction.
    pub closed spec fn capacity(self) -> nat {
        self.cap as nat
    }

    /// Well formed: never holds more than `capacity` records, and every
    /// slot holds one complete fixed-size record, never a partial one.
    pub open spec fn wf(self) -> bool {
        &&& self@.len() <= self.capacity()
        &&& forall|i: int| 0 <= i < self@.len() ==> (#[trigger] self@[i]).len() == RECORD_LEN
    }

    /// An empty ring with room for `cap` records.
    pub fn new(cap: usize) -> (r: Ring)
        ensures
            r.wf(),
            r.capacity() == cap,
            r@ == Seq::<Seq<u8>>::empty(),
    {
        let r = Ring { slots: Vec::new(), cap };
        proof {
            assert(r@ =~= Seq::<Seq<u8>>::empty());
        }
        r
    }

    /// How many records are queued.
    pub fn len(&self) -> (n: usize)
        ensures
            n == self@.len(),
    {
        self.slots.len()
    }

    /// Offer one record to the ring: queued in arrival order while there
    /// is room, dropped without a trace when the ring is full.
    pub fn push(&mut self, rec: Vec<u8>)
        requires
            old(self).wf(),
            rec@.len() == RECORD_LEN,
        ensures
            final(self).wf(),
            final(self).capacity() == old(self).capacity(),
            final(self)@ == push_spec(old(self)@, old(self).capacity(), rec@),
    {
        if self.slots.len() < self.cap {
            self.slots.push(rec);
            proof {
                assert(self@ =~= old(self)@.push(rec@));
            }
        }
    }

    /// Take up to `k` records off the front of the ring, oldest first.
    /// The order the producer queued them in is preserved.
    pub fn pop_batch(&mut self, k: usize) -> (out: Vec<Vec<u8>>)
        requires
            old(self).wf(),
        ensures
            final(self).wf(),
            final(self).capacity() == old(self).capacity(),
            out@.len() == if k <= old(self)@.len() {
                k as int
            } else {
                old(self)@.len() as int
            },
            bufs(out@) == old(self)@.take(out@.len() as int),
            final(self)@ == old(self)@.skip(out@.len() as int),
    {
        let mut out: Vec<Vec<u8>> = Vec::new();
        while out.len() < k && self.slots.len() > 0
            invariant
                old(self).wf(),
                self.wf(),
                self.capacity() == old(self).capacity(),
                out@.len() <= k,
                out@.len() <= old(self)@.len(),
                bufs(out@) == old(self)@.take(out@.len() as int),
                self@ == old(self)@.skip(out@.len() as int),
            decreases k - out.len(),
        {
            let ghost out0 = out@;
            let ghost view0 = self@;
            let ghost slots0 = self.slots@;
            let ghost n = out0.len() as int;
            let rec = self.slots.remove(0);
            out.push(rec);
            proof {
                assert(view0[0] == rec@);
                assert forall|j: int| 0 <= j < self@.len() implies #[trigger] self@[j] == old(
                    self,
                )@[n + 1 + j] by {
                    assert(self.slots@[j] == slots0[j + 1]);
                    assert(view0[j + 1] == slots0[j + 1]@);
                    assert(view0[j + 1] == old(self)@.skip(n)[j + 1]);
                }
                assert(self@ =~= old(self)@.skip(n + 1));
                assert forall|j: int| 0 <= j < out@.len() implies #[trigger] bufs(out@)[j] == old(
                    self,
                )@[j] by {
                    if j < n {
                        assert(bufs(out0)[j] == old(self)@.take(n)[j]);
                        assert(out@[j] == out0[j]);
                        assert(bufs(out@)[j] == out@[j]@);
                    } else {
                        assert(bufs(out@)[j] == rec@);
                        assert(view0[0] == old(self)@.skip(n)[0]);
                    }
                }
                assert(bufs(out@) =~= old(self)@.take(n + 1));
            }
        }
        out
    }
}

} // verus!
