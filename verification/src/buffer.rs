//! A bounded experience-replay buffer.
//!
//! The buffer keeps the most recent `capacity` items that were added to it.
//! Items are stored in a ring of slots: once the ring is full, each new item
//! overwrites the oldest one.

use vstd::prelude::*;

use rand::rngs::StdRng;

use crate::rng::next_u32;

verus! {

/// The last `k` items of `s` (all of `s` when it is no longer than `k`).
pub open spec fn keep_last<T>(s: Seq<T>, k: nat) -> Seq<T> {
    if s.len() <= k {
        s
    } else {
        s.skip(s.len() - k)
    }
}

/// Keeping the last `k` items keeps `min(len, k)` of them, and after adding
/// an item to a bounded window the new item is the newest one kept and the
/// oldest kept items are dropped first.
pub proof fn lemma_keep_last_push<T>(s: Seq<T>, t: T, k: nat)
    requires
        k > 0,
    ensures
        keep_last(s.push(t), k).len() == if s.len() + 1 <= k {
            s.len() + 1
        } else {
            k
        },
        keep_last(s.push(t), k).last() == t,
        forall|i: int|
            0 <= i < keep_last(s.push(t), k).len() - 1 ==> #[trigger] keep_last(s.push(t), k)[i]
                == s[s.len() + 1 - keep_last(s.push(t), k).len() + i],
{
}

/// Each item of `batch` is a clone of some item of `items`.
pub open spec fn clones_of<T: Clone>(batch: Seq<T>, items: Seq<T>) -> bool {
    forall|i: int| 0 <= i < batch.len() ==> is_clone_of_some(#[trigger] batch[i], items)
}

/// `x` is a clone of some item of `items`.
pub open spec fn is_clone_of_some<T: Clone>(x: T, items: Seq<T>) -> bool {
    exists|j: int| 0 <= j < items.len() && cloned(items[j], x)
}

/// A ring buffer of at most `capacity` items.
pub struct ReplayBuffer<T> {
    buffer: Vec<T>,
    capacity: usize,
    position: usize,
}

impl<T> ReplayBuffer<T> {
    /// The buffer's internal invariant: it never holds more than `capacity`
    /// items, the write position stays inside the ring, and until the ring
    /// is full new items are appended at its end.
    pub closed spec fn wf(&self) -> bool {
        &&& self.buffer.len() <= self.capacity
        &&& self.capacity == 0 ==> self.position == 0
        &&& self.capacity > 0 ==> self.position < self.capacity
        &&& self.buffer.len() < self.capacity ==> self.position == self.buffer.len()
    }

    /// The maximum number of items the buffer holds.
    pub closed spec fn spec_capacity(&self) -> nat {
        self.capacity as nat
    }

    /// The slot that the next item is written to once the ring is full.
    pub closed spec fn spec_position(&self) -> nat {
        self.position as nat
    }

    /// The stored items in slot order (the order that sampling indexes).
    pub closed spec fn slots(&self) -> Seq<T> {
        self.buffer@
    }

    /// The stored items in the order in which they were added, oldest first.
    pub closed spec fn contents(&self) -> Seq<T> {
        if self.buffer.len() < self.capacity {
            self.buffer@
        } else {
            self.buffer@.skip(self.position as int) + self.buffer@.take(self.position as int)
        }
    }

    /// Every stored slot holds one of the items in `contents`, and both
    /// hold the same number of items.
    pub proof fn lemma_slots_are_contents(&self)
        requires
            self.wf(),
        ensures
            self.slots().len() == self.contents().len(),
            forall|k: int|
                0 <= k < self.slots().len() ==> #[trigger] self.slot_in_contents(k),
    {
        let b = self.buffer@;
        let p = self.position as int;
        if self.buffer.len() >= self.capacity {
            assert forall|k: int| 0 <= k < b.len() implies #[trigger] self.slot_in_contents(k) by {
                if k >= p {
                    assert(self.contents()[k - p] == b[k]);
                } else {
                    assert(self.contents()[b.len() - p + k] == b[k]);
                }
            }
        } else {
            assert forall|k: int| 0 <= k < b.len() implies #[trigger] self.slot_in_contents(k) by {
                assert(self.contents()[k] == b[k]);
            }
        }
    }

    /// The item in slot `k` occurs in `contents`.
    pub open spec fn slot_in_contents(&self, k: int) -> bool {
        exists|j: int| 0 <= j < self.contents().len() && self.slots()[k] == self.contents()[j]
    }

    /// The buffer never holds more than `capacity` items.
    pub proof fn lemma_len_at_most_capacity(&self)
        requires
            self.wf(),
        ensures
            self.contents().len() <= self.spec_capacity(),
    {
    }

    /// An empty buffer that keeps at most `capacity` items.
    pub fn new(capacity: usize) -> (buf: Self)
        ensures
            buf.wf(),
            buf.spec_capacity() == capacity,
            buf.contents() == Seq::<T>::empty(),
            buf.slots() == Seq::<T>::empty(),
            buf.spec_position() == 0,
    {
        Self { buffer: Vec::with_capacity(capacity), capacity, position: 0 }
    }

    /// Adds an item. When the buffer is full the oldest item is dropped.
    pub fn add(&mut self, transition: T)
        requires
            old(self).wf(),
            old(self).spec_capacity() > 0,
        ensures
            final(self).wf(),
            final(self).spec_capacity() == old(self).spec_capacity(),
            final(self).contents() == keep_last(
                old(self).contents().push(transition),
                old(self).spec_capacity(),
            ),
            old(self).slots().len() < old(self).spec_capacity() ==> final(self).slots()
                == old(self).slots().push(transition),
            old(self).slots().len() >= old(self).spec_capacity() ==> final(self).slots()
                == old(self).slots().update(old(self).spec_position() as int, transition),
            final(self).spec_position() == (old(self).spec_position() + 1) % old(
                self,
            ).spec_capacity(),
    {
        let ghost b = self.buffer@;
        let ghost p = self.position as int;
        let ghost cap = self.capacity as int;
        if self.buffer.len() < self.capacity {
            self.buffer.push(transition);
        } else {
            self.buffer.set(self.position, transition);
        }
        self.position = (self.position + 1) % self.capacity;
        proof {
            let nb = self.buffer@;
            let np = self.position as int;
            if b.len() < cap {
                if b.len() + 1 < cap {
                    vstd::arithmetic::div_mod::lemma_small_mod((p + 1) as nat, cap as nat);
                    assert(np == p + 1);
                } else {
                    vstd::arithmetic::div_mod::lemma_mod_self_0(cap);
                    assert(np == 0);
                    assert(nb.skip(0) + nb.take(0) =~= nb);
                }
            } else {
                let expect = (b.skip(p) + b.take(p)).push(transition);
                assert(keep_last(expect, cap as nat) =~= expect.skip(1));
                if p + 1 < cap {
                    vstd::arithmetic::div_mod::lemma_small_mod((p + 1) as nat, cap as nat);
                    assert(np == p + 1);
                    assert(nb.skip(np) + nb.take(np) =~= expect.skip(1));
                } else {
                    vstd::arithmetic::div_mod::lemma_mod_self_0(cap);
                    assert(np == 0);
                    assert(nb.skip(np) + nb.take(np) =~= expect.skip(1));
                }
            }
        }
    }

    /// The number of stored items.
    pub fn len(&self) -> (n: usize)
        requires
            self.wf(),
        ensures
            n == self.contents().len(),
    {
        self.buffer.len()
    }

    /// Whether the buffer holds no item.
    pub fn is_empty(&self) -> (b: bool)
        requires
            self.wf(),
        ensures
            b == (self.contents().len() == 0),
    {
        self.buffer.len() == 0
    }
}

impl<T: Clone> ReplayBuffer<T> {
    /// The items that the raw random words `draws` select: for each word,
    /// a clone of the item in slot `word % len`.
    pub fn sample_with(&self, draws: &[u32]) -> (batch: Vec<T>)
        requires
            self.wf(),
            self.slots().len() > 0,
        ensures
            batch.len() == draws.len(),
            forall|i: int|
                0 <= i < draws.len() ==> cloned(
                    self.slots()[(draws[i] as int) % (self.slots().len() as int)],
                    #[trigger] batch[i],
                ),
    {
        let n = self.buffer.len();
        let mut batch: Vec<T> = Vec::with_capacity(draws.len());
        let mut i: usize = 0;
        while i < draws.len()
            invariant
                n == self.buffer.len(),
                n > 0,
                i <= draws.len(),
                batch.len() == i,
                forall|k: int|
                    0 <= k < i ==> cloned(
                        self.buffer@[(draws[k] as int) % (n as int)],
                        #[trigger] batch[k],
                    ),
            decreases draws.len() - i,
        {
            let idx = (draws[i] as usize) % n;
            batch.push(self.buffer[idx].clone());
            i = i + 1;
        }
        batch
    }

    /// Draws `min(batch_size, len)` items uniformly with replacement, or
    /// `None` when the buffer is empty. Each drawn item is a clone of a
    /// stored one; which ones are drawn depends on `rng`.
    pub fn sample(&self, batch_size: usize, rng: &mut StdRng) -> (res: Option<Vec<T>>)
        requires
            self.wf(),
        ensures
            res is None <==> self.contents().len() == 0,
            res is None ==> *final(rng) == *old(rng),
            res matches Some(batch) ==> {
                &&& batch.len() == if batch_size < self.contents().len() {
                    batch_size as nat
                } else {
                    self.contents().len()
                }
                &&& clones_of(batch@, self.contents())
            },
    {
        proof {
            self.lemma_slots_are_contents();
        }
        if self.buffer.len() == 0 {
            return None;
        }
        let actual = if batch_size < self.buffer.len() {
            batch_size
        } else {
            self.buffer.len()
        };
        let mut draws: Vec<u32> = Vec::with_capacity(actual);
        let mut i: usize = 0;
        while i < actual
            invariant
                i <= actual,
                draws.len() == i,
            decreases actual - i,
        {
            draws.push(next_u32(rng));
            i = i + 1;
        }
        let batch = self.sample_with(&draws);
        proof {
            let n = self.buffer.len() as int;
            let items = self.contents();
            assert forall|i: int| 0 <= i < batch@.len() implies is_clone_of_some(
                #[trigger] batch@[i],
                items,
            ) by {
                let k = (draws@[i] as int) % n;
                assert(cloned(self.slots()[k], batch[i]));
                assert(self.slot_in_contents(k));
                let j = choose|j: int|
                    0 <= j < self.contents().len() && self.slots()[k] == self.contents()[j];
                assert(cloned(items[j], batch@[i]));
            }
            assert(batch.len() == actual);
            assert(self.contents().len() == n);
            assert(clones_of(batch@, items));
        }
        Some(batch)
    }
}

} // verus!
