use ringbuf::traits::{Consumer, RingBuffer as _};
use ringbuf::HeapRb;
use vstd::prelude::*;

verus! {

/// A `ringbuf` heap ring buffer of samples. Verus cannot declare the crate's
/// type itself (its storage parameter is bound by an outside trait), so it is
/// kept in a private field here and reached only through the functions below.
#[verifier::external_body]
pub struct HeapRing {
    inner: HeapRb<u32>,
}

/// The samples held by a heap ring buffer, oldest first.
pub uninterp spec fn rb_items(rb: HeapRing) -> Seq<u32>;

/// The capacity that a heap ring buffer was made with.
pub uninterp spec fn rb_capacity(rb: HeapRing) -> nat;

/// The last `cap` elements of `s`, or all of `s` where it is no longer.
pub open spec fn keep_last(s: Seq<u32>, cap: nat) -> Seq<u32> {
    if s.len() <= cap {
        s
    } else {
        s.subrange(s.len() - cap, s.len() as int)
    }
}

/// Relies on `HeapRb::new`: an empty buffer of exactly `capacity` slots
/// (it panics on a zero capacity).
#[verifier::external_body]
fn heap_rb_new(capacity: usize) -> (r: HeapRing)
    requires
        capacity > 0,
    ensures
        rb_items(r) == Seq::<u32>::empty(),
        rb_capacity(r) == capacity,
{
    HeapRing { inner: HeapRb::<u32>::new(capacity) }
}

/// Relies on `RingBuffer::push_slice_overwrite`: the slice is appended and the
/// oldest items are dropped until the buffer is within its capacity; when the
/// slice alone is longer, only its last `capacity` items stay.
#[verifier::external_body]
fn heap_rb_push_slice_overwrite(rb: &mut HeapRing, elems: &[u32])
    ensures
        rb_capacity(*final(rb)) == rb_capacity(*old(rb)),
        rb_items(*final(rb)) == keep_last(rb_items(*old(rb)) + elems@, rb_capacity(*old(rb))),
{
    rb.inner.push_slice_overwrite(elems)
}

/// Relies on `Consumer::pop_iter`: consumed to its end, it hands out every
/// item, oldest first, and leaves the buffer empty.
#[verifier::external_body]
fn heap_rb_pop_all(rb: &mut HeapRing) -> (r: Vec<u32>)
    ensures
        r@ == rb_items(*old(rb)),
        rb_items(*final(rb)) == Seq::<u32>::empty(),
        rb_capacity(*final(rb)) == rb_capacity(*old(rb)),
{
    rb.inner.pop_iter().collect()
}

/// Fixed-capacity store of interleaved samples that evicts the oldest samples
/// when a push would exceed its capacity.
pub struct RingBuffer {
    ring: HeapRing,
    capacity: usize,
}

impl RingBuffer {
    /// The samples currently stored, oldest first.
    pub closed spec fn contents(&self) -> Seq<u32> {
        rb_items(self.ring)
    }

    /// The number of samples the buffer can hold.
    pub closed spec fn cap(&self) -> nat {
        self.capacity as nat
    }

    pub closed spec fn wf(&self) -> bool {
        &&& rb_capacity(self.ring) == self.capacity as nat
        &&& self.capacity > 0
        &&& rb_items(self.ring).len() <= self.capacity
    }

    /// An empty buffer of `capacity` samples; `None` for a zero capacity.
    pub fn new(capacity: usize) -> (r: Option<RingBuffer>)
        ensures
            r is None <==> capacity == 0,
            r matches Some(b) ==> b.wf() && b.cap() == capacity && b.contents() == Seq::<u32>::empty(),
    {
        if capacity == 0 {
            None
        } else {
            Some(RingBuffer { ring: heap_rb_new(capacity), capacity })
        }
    }

    /// The number of samples the buffer can hold.
    pub fn capacity(&self) -> (r: usize)
        ensures
            r == self.cap(),
    {
        self.capacity
    }

    /// Appends `batch`, evicting the oldest samples beyond the capacity.
    pub fn push(&mut self, batch: &[u32])
        requires
            old(self).wf(),
        ensures
            final(self).wf(),
            final(self).cap() == old(self).cap(),
            final(self).contents() == keep_last(old(self).contents() + batch@, old(self).cap()),
    {
        heap_rb_push_slice_overwrite(&mut self.ring, batch);
    }

    /// Removes and returns every stored sample, oldest first.
    pub fn drain_all(&mut self) -> (r: Vec<u32>)
        requires
            old(self).wf(),
        ensures
            final(self).wf(),
            final(self).cap() == old(self).cap(),
            r@ == old(self).contents(),
            final(self).contents() == Seq::<u32>::empty(),
    {
        heap_rb_pop_all(&mut self.ring)
    }
}

/// What the buffer holds after pushing each of `batches` in turn onto `s`.
pub open spec fn push_batches(s: Seq<u32>, batches: Seq<Seq<u32>>, cap: nat) -> Seq<u32>
    decreases batches.len(),
{
    if batches.len() == 0 {
        s
    } else {
        keep_last(push_batches(s, batches.drop_last(), cap) + batches.last(), cap)
    }
}

/// All the samples of `batches`, in order.
pub open spec fn concat_batches(batches: Seq<Seq<u32>>) -> Seq<u32>
    decreases batches.len(),
{
    if batches.len() == 0 {
        Seq::<u32>::empty()
    } else {
        concat_batches(batches.drop_last()) + batches.last()
    }
}

proof fn lemma_keep_last_twice(a: Seq<u32>, b: Seq<u32>, cap: nat)
    ensures
        keep_last(keep_last(a, cap) + b, cap) == keep_last(a + b, cap),
{
    let k = keep_last(a, cap);
    if a.len() > cap {
        let ab = a + b;
        let kb = k + b;
        if b.len() == 0 {
            assert(kb =~= k);
            assert(ab =~= a);
        } else {
            assert(keep_last(kb, cap) =~= keep_last(ab, cap)) by {
                assert forall|i: int| 0 <= i < cap implies keep_last(kb, cap)[i] == keep_last(ab, cap)[i] by {
                    let j = kb.len() - cap + i;
                    if j < k.len() {
                        assert(kb[j] == a[a.len() - cap + j]);
                    } else {
                        assert(kb[j] == b[j - k.len()]);
                    }
                }
            }
        }
    }
}

/// Overwrite law: pushing any sequence of batches leaves in the buffer the
/// most recent samples, at most `cap` of them, in the order they were pushed;
/// once `cap` or more samples have been pushed it holds exactly the last `cap`.
pub proof fn lemma_overwrite(s: Seq<u32>, batches: Seq<Seq<u32>>, cap: nat)
    requires
        s.len() <= cap,
    ensures
        push_batches(s, batches, cap) == keep_last(s + concat_batches(batches), cap),
        concat_batches(batches).len() >= cap ==> push_batches(s, batches, cap)
            == concat_batches(batches).subrange(
            concat_batches(batches).len() - cap,
            concat_batches(batches).len() as int,
        ),
    decreases batches.len(),
{
    let all = concat_batches(batches);
    if batches.len() == 0 {
        assert(s + all =~= s);
    } else {
        let init = batches.drop_last();
        lemma_overwrite(s, init, cap);
        lemma_keep_last_twice(s + concat_batches(init), batches.last(), cap);
        assert(s + concat_batches(init) + batches.last() =~= s + all);
    }
    if all.len() >= cap {
        let sa = s + all;
        assert(keep_last(sa, cap) =~= all.subrange(all.len() - cap, all.len() as int)) by {
            if sa.len() > cap {
                assert forall|i: int| 0 <= i < cap implies keep_last(sa, cap)[i] == all[all.len() - cap + i] by {
                    assert(sa[sa.len() - cap + i] == all[sa.len() - cap + i - s.len()]);
                }
            } else {
                assert(s.len() == 0);
                assert(sa =~= all);
            }
        }
    }
}

/// Atomicity law: a push and a drain on the same buffer act as if one ran
/// wholly before the other. Pushed first, the batch is in the drained samples
/// (past the oldest evicted) and nothing remains; drained first, the drained
/// samples are the old contents and the batch remains whole (its last `cap`
/// samples). No sample is split between the two, doubled or lost beyond eviction.
pub proof fn lemma_push_drain_serialized(s: Seq<u32>, batch: Seq<u32>, cap: nat)
    requires
        s.len() <= cap,
        cap > 0,
    ensures
        ({
            let drained = keep_last(s + batch, cap);
            &&& drained.len() <= cap
            &&& s.len() + batch.len() <= cap ==> drained == s + batch
            &&& batch.len() <= cap ==> drained.subrange(drained.len() - batch.len(), drained.len() as int) == batch
        }),
        ({
            let remaining = keep_last(batch, cap);
            &&& batch.len() <= cap ==> remaining == batch
            &&& remaining.len() <= cap
        }),
{
    let sb = s + batch;
    let drained = keep_last(sb, cap);
    if batch.len() <= cap {
        assert(drained.subrange(drained.len() - batch.len(), drained.len() as int) =~= batch) by {
            assert forall|i: int| 0 <= i < batch.len() implies drained[drained.len() - batch.len() + i] == batch[i] by {
                if sb.len() > cap {
                    assert(drained[drained.len() - batch.len() + i] == sb[sb.len() - cap + cap - batch.len() + i]);
                }
            }
        }
    }
}

} // verus!
