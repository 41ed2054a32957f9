//! Fixed-size circular buffer used as delay memory.
//!
//! Each `write` stores one sample and advances the write position;
//! `read_at(offset)` reads `offset` samples back from the write position, so
//! `offset == 1` is the most recent sample. Storage is allocated once, at
//! construction.

use vstd::prelude::*;

verus! {

/// A circular buffer of `capacity` samples.
#[derive(Debug)]
pub struct RingBuffer<T> {
    buf: Vec<T>,
    write: usize,
}

/// Storage slot holding the sample `back` steps behind the write position
/// (`back == 0` is the most recent write).
pub open spec fn slot(write: int, len: int, back: int) -> int {
    (write + len - 1 - back) % len
}

impl<T: Copy> RingBuffer<T> {
    /// Internal consistency: non-empty storage and an in-range write position.
    pub closed spec fn wf(&self) -> bool {
        &&& self.buf@.len() > 0
        &&& self.write < self.buf@.len()
    }

    /// The samples from the most recent backwards, one per storage slot:
    /// element `k` is what `read_at(k + 1)` returns.
    pub closed spec fn recent(&self) -> Seq<T> {
        Seq::new(self.buf@.len(), |k: int| self.buf@[slot(self.write as int, self.buf@.len() as int, k)])
    }

    /// A buffer of `capacity` samples, all `zero`.
    pub fn new(capacity: usize, zero: T) -> (r: Self)
        requires
            capacity > 0,
        ensures
            r.wf(),
            r.recent() == Seq::new(capacity as nat, |k: int| zero),
    {
        let mut buf: Vec<T> = Vec::new();
        let mut i: usize = 0;
        while i < capacity
            invariant
                i <= capacity,
                buf@.len() == i,
                forall|k: int| 0 <= k < i ==> buf@[k] == zero,
            decreases capacity - i,
        {
            buf.push(zero);
            i = i + 1;
        }
        let r = RingBuffer { buf, write: 0 };
        proof {
            lemma_slot_in_range(0, capacity as int);
        }
        assert(r.recent() =~= Seq::new(capacity as nat, |k: int| zero));
        r
    }

    /// Number of samples held.
    pub fn capacity(&self) -> (r: usize)
        requires
            self.wf(),
        ensures
            r == self.recent().len(),
    {
        self.buf.len()
    }

    /// Store one sample; it becomes the most recent, and the oldest is dropped.
    pub fn write(&mut self, sample: T)
        requires
            old(self).wf(),
        ensures
            final(self).wf(),
            final(self).recent() == seq![sample] + old(self).recent().drop_last(),
    {
        let len = self.buf.len();
        let w = self.write;
        self.buf.set(w, sample);
        self.write = if w + 1 == len {
            0
        } else {
            w + 1
        };
        proof {
            let n = len as int;
            let nw = self.write as int;
            lemma_slot_in_range(nw, n);
            lemma_slot_in_range(w as int, n);
            assert forall|k: int| 0 <= k < n implies #[trigger] self.recent()[k] == (seq![sample]
                + old(self).recent().drop_last())[k] by {
                lemma_slot_advance(w as int, nw, n, k);
                if k > 0 {
                    assert(slot(nw, n, k) != w as int);
                }
            }
            assert(self.recent() =~= seq![sample] + old(self).recent().drop_last());
        }
    }

    /// The sample `offset` steps back (`1` is the most recent).
    pub fn read_at(&self, offset: usize) -> (r: T)
        requires
            self.wf(),
            1 <= offset <= self.recent().len(),
        ensures
            r == self.recent()[offset - 1],
    {
        let len = self.buf.len();
        proof {
            lemma_slot_in_range(self.write as int, len as int);
        }
        let idx = if self.write >= offset {
            self.write - offset
        } else {
            self.write + (len - offset)
        };
        proof {
            let a = self.write + len - offset;
            if self.write >= offset {
                vstd::arithmetic::div_mod::lemma_mod_sub_multiples_vanish(a, len as int);
                vstd::arithmetic::div_mod::lemma_small_mod((a - len) as nat, len as nat);
            } else {
                vstd::arithmetic::div_mod::lemma_small_mod(a as nat, len as nat);
            }
        }
        self.buf[idx]
    }

    /// Set every sample to `zero` and rewind the write position.
    pub fn clear(&mut self, zero: T)
        requires
            old(self).wf(),
        ensures
            final(self).wf(),
            final(self).recent() == Seq::new(old(self).recent().len(), |k: int| zero),
    {
        let len = self.buf.len();
        let mut i: usize = 0;
        while i < len
            invariant
                i <= len,
                len == self.buf@.len(),
                self.write < len,
                forall|k: int| 0 <= k < i ==> self.buf@[k] == zero,
            decreases len - i,
        {
            self.buf.set(i, zero);
            i = i + 1;
        }
        self.write = 0;
        proof {
            lemma_slot_in_range(0, len as int);
        }
        assert(self.recent() =~= Seq::new(old(self).recent().len(), |k: int| zero));
    }
}

/// Every slot index is a valid storage index.
pub proof fn lemma_slot_in_range(write: int, len: int)
    requires
        0 <= write < len,
    ensures
        forall|k: int| 0 <= k < len ==> 0 <= #[trigger] slot(write, len, k) < len,
{
    assert forall|k: int| 0 <= k < len implies 0 <= #[trigger] slot(write, len, k) < len by {
        assert(0 <= write + len - 1 - k);
    }
}

/// After a write at `w`, the slot `k` steps back from the new position is the
/// new sample's slot for `k == 0`, else the slot `k - 1` steps back from `w`.
proof fn lemma_slot_advance(w: int, nw: int, n: int, k: int)
    requires
        0 <= w < n,
        nw == if w + 1 == n {
            0
        } else {
            w + 1
        },
        0 <= k < n,
    ensures
        k == 0 ==> slot(nw, n, k) == w,
        k > 0 ==> slot(nw, n, k) == slot(w, n, k - 1),
        slot(nw, n, k) == w ==> k == 0,
{
    let a = nw + n - 1 - k;
    let b = w + n - k;
    assert(0 <= a < 2 * n);
    assert(0 <= b < 2 * n);
    if w + 1 == n {
        assert(a == b - n);
    } else {
        assert(a == b);
    }
    vstd::arithmetic::div_mod::lemma_fundamental_div_mod(a, n);
    vstd::arithmetic::div_mod::lemma_fundamental_div_mod(b, n);
    if a < n {
        vstd::arithmetic::div_mod::lemma_small_mod(a as nat, n as nat);
    } else {
        vstd::arithmetic::div_mod::lemma_mod_sub_multiples_vanish(a, n);
        vstd::arithmetic::div_mod::lemma_small_mod((a - n) as nat, n as nat);
    }
    if b < n {
        vstd::arithmetic::div_mod::lemma_small_mod(b as nat, n as nat);
    } else {
        vstd::arithmetic::div_mod::lemma_mod_sub_multiples_vanish(b, n);
        vstd::arithmetic::div_mod::lemma_small_mod((b - n) as nat, n as nat);
    }
}

/// Reading back a write: after `write(x)`, `read_at(1)` gives `x`, and
/// every older sample has moved one step further back.
pub proof fn law_read_after_write<T: Copy>(before: RingBuffer<T>, after: RingBuffer<T>, x: T)
    requires
        before.wf(),
        after.recent() == seq![x] + before.recent().drop_last(),
    ensures
        after.recent().len() == before.recent().len(),
        after.recent()[0] == x,
        forall|k: int| 1 <= k < after.recent().len() ==> after.recent()[k] == before.recent()[k - 1],
{
}

} // verus!
