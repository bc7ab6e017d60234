use vstd::prelude::*;
use crate::bridge::{fill_silence, silence};

verus! {

/// A bounded first-in first-out queue of audio blocks of one fixed size. The
/// network side pushes decoded blocks, the audio side pops one per period and
/// gets silence when none is waiting; neither waits on the other. The blocks
/// live in one buffer allocated up front, used as a ring of slots.
pub struct BlockQueue {
    slots: Vec<i16>,
    frames: usize,
    capacity: usize,
    head: usize,
    len: usize,
}

proof fn lemma_slot_bound(s: int, j: int, frames: int, capacity: int)
    requires
        0 <= s < capacity,
        0 <= j < frames,
    ensures
        0 <= s * frames + j < capacity * frames,
{
    assert(0 <= s * frames + j < capacity * frames) by (nonlinear_arith)
        requires
            0 <= s < capacity,
            0 <= j < frames,
    ;
}

proof fn lemma_slot_end(s: int, frames: int, capacity: int)
    requires
        0 <= s < capacity,
        0 <= frames,
    ensures
        0 <= s * frames,
        s * frames + frames <= capacity * frames,
{
    assert(0 <= s * frames && s * frames + frames <= capacity * frames) by (nonlinear_arith)
        requires
            0 <= s < capacity,
            0 <= frames,
    ;
}

proof fn lemma_slots_disjoint(s: int, t: int, j: int, frames: int)
    requires
        0 <= s,
        0 <= t,
        s != t,
        0 <= j < frames,
    ensures
        s * frames + j < t * frames || s * frames + j >= t * frames + frames,
{
    if s < t {
        assert(s * frames + j < t * frames) by (nonlinear_arith)
            requires
                0 <= s < t,
                0 <= j < frames,
        ;
    } else {
        assert(s * frames + j >= t * frames + frames) by (nonlinear_arith)
            requires
                0 <= t < s,
                0 <= j < frames,
        ;
    }
}

impl BlockQueue {
    /// The slot that holds the `k`-th waiting block.
    closed spec fn slot_of(&self, k: int) -> int {
        if self.head + k < self.capacity {
            self.head + k
        } else {
            self.head + k - self.capacity
        }
    }

    /// The samples stored in slot `s`.
    closed spec fn block_in(&self, s: int) -> Seq<i16> {
        Seq::new(self.frames as nat, |j: int| self.slots@[s * self.frames + j])
    }

    /// The queue's internal invariant.
    pub closed spec fn wf(&self) -> bool {
        &&& self.capacity >= 1
        &&& self.head < self.capacity
        &&& self.len <= self.capacity
        &&& self.slots@.len() == self.capacity * self.frames
        &&& self.capacity * self.frames <= usize::MAX
    }

    /// How many blocks the queue holds at most.
    pub closed spec fn spec_capacity(&self) -> nat {
        self.capacity as nat
    }

    /// Samples in each block.
    pub closed spec fn spec_frames(&self) -> nat {
        self.frames as nat
    }

    /// An empty queue for up to `capacity` blocks of `frames` samples.
    pub fn new(capacity: usize, frames: usize) -> (r: BlockQueue)
        requires
            capacity >= 2,
            capacity * frames <= usize::MAX,
        ensures
            r.wf(),
            r@ == Seq::<Seq<i16>>::empty(),
            r.spec_capacity() == capacity,
            r.spec_frames() == frames,
    {
        let r = BlockQueue { slots: vec![0i16; capacity * frames], frames, capacity, head: 0, len: 0 };
        assert(r@ =~= Seq::<Seq<i16>>::empty());
        r
    }

    /// Number of blocks waiting.
    pub fn len(&self) -> (r: usize)
        requires
            self.wf(),
        ensures
            r == self@.len(),
    {
        self.len
    }

    /// How many blocks the queue holds at most.
    pub fn capacity(&self) -> (r: usize)
        requires
            self.wf(),
        ensures
            r == self.spec_capacity(),
    {
        self.capacity
    }

    /// Appends a copy of `block` when there is room, and reports whether
    /// there was; a full queue drops the new block and stays as it was.
    pub fn push(&mut self, block: &[i16]) -> (r: bool)
        requires
            old(self).wf(),
            block@.len() == old(self).spec_frames(),
        ensures
            final(self).wf(),
            final(self).spec_capacity() == old(self).spec_capacity(),
            final(self).spec_frames() == old(self).spec_frames(),
            r == (old(self)@.len() < old(self).spec_capacity()),
            r ==> final(self)@ == old(self)@.push(block@),
            !r ==> final(self)@ == old(self)@,
    {
        if self.len == self.capacity {
            return false;
        }
        let ghost old_q = *self;
        let t: usize = if self.len >= self.capacity - self.head {
            self.len - (self.capacity - self.head)
        } else {
            self.head + self.len
        };
        assert(t == self.slot_of(self.len as int));
        proof {
            lemma_slot_end(t as int, self.frames as int, self.capacity as int);
        }
        let n = self.frames;
        let base = t * n;
        let mut j: usize = 0;
        while j < n
            invariant
                old_q.wf(),
                n == old_q.frames,
                block@.len() == n,
                t < old_q.capacity,
                base == t * n,
                base + n <= old_q.capacity * n,
                0 <= j <= n,
                self.slots@.len() == old_q.slots@.len(),
                self.frames == old_q.frames,
                self.capacity == old_q.capacity,
                self.head == old_q.head,
                self.len == old_q.len,
                forall|i: int|
                    0 <= i < self.slots@.len() && (i < base || i >= base + n) ==> #[trigger] self.slots@[i]
                        == old_q.slots@[i],
                forall|i: int| 0 <= i < j ==> #[trigger] self.slots@[base + i] == block@[i],
            decreases n - j,
        {
            self.slots.set(base + j, block[j]);
            j = j + 1;
        }
        self.len = self.len + 1;
        proof {
            assert forall|k: int| 0 <= k < self.len implies #[trigger] self@[k] == old_q@.push(block@)[k] by {
                if k < old_q.len {
                    let s = old_q.slot_of(k);
                    assert(s != t as int);
                    assert forall|i: int| 0 <= i < n implies #[trigger] self.slots@[s * n + i] == old_q.slots@[s * n + i] by {
                        lemma_slots_disjoint(s, t as int, i, n as int);
                        lemma_slot_bound(s, i, n as int, old_q.capacity as int);
                    }
                    assert(self@[k] =~= old_q@[k]);
                } else {
                    assert(self.slot_of(k) == t as int);
                    assert(self@[k] =~= block@);
                }
            }
            assert(self@ =~= old_q@.push(block@));
        }
        true
    }

    /// Moves the oldest block into `out` and reports true; with no block
    /// waiting, makes `out` silent and reports false.
    pub fn pop_into(&mut self, out: &mut [i16]) -> (r: bool)
        requires
            old(self).wf(),
            old(out)@.len() == old(self).spec_frames(),
        ensures
            final(self).wf(),
            final(self).spec_capacity() == old(self).spec_capacity(),
            final(self).spec_frames() == old(self).spec_frames(),
            r == (old(self)@.len() > 0),
            r ==> final(out)@ == old(self)@[0] && final(self)@ == old(self)@.drop_first(),
            !r ==> final(out)@ == silence(old(out)@.len()) && final(self)@ == old(self)@,
    {
        if self.len == 0 {
            fill_silence(out);
            return false;
        }
        let ghost old_q = *self;
        let n = self.frames;
        let h = self.head;
        proof {
            lemma_slot_end(h as int, n as int, self.capacity as int);
        }
        let base = h * n;
        let mut j: usize = 0;
        while j < n
            invariant
                *self == old_q,
                old_q.wf(),
                n == old_q.frames,
                h == old_q.head,
                base == h * n,
                base + n <= old_q.capacity * n,
                out@.len() == n,
                0 <= j <= n,
                forall|i: int| 0 <= i < j ==> #[trigger] out@[i] == self.slots@[base + i],
            decreases n - j,
        {
            out[j] = self.slots[base + j];
            j = j + 1;
        }
        self.head = if self.head + 1 == self.capacity {
            0
        } else {
            self.head + 1
        };
        self.len = self.len - 1;
        proof {
            assert(final(out)@ =~= old_q@[0]);
            assert forall|k: int| 0 <= k < self.len implies #[trigger] self@[k] == old_q@.drop_first()[k] by {
                assert(self.slot_of(k) == old_q.slot_of(k + 1));
                assert(self@[k] =~= old_q@[k + 1]);
            }
            assert(self@ =~= old_q@.drop_first());
        }
        true
    }
}

impl View for BlockQueue {
    /// The waiting blocks, oldest first.
    type V = Seq<Seq<i16>>;

    closed spec fn view(&self) -> Seq<Seq<i16>> {
        Seq::new(self.len as nat, |k: int| self.block_in(self.slot_of(k)))
    }
}

} // verus!
