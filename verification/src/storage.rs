use vstd::prelude::*;

use crate::error::{Error, Result};

verus! {

/// Fixed-capacity FIFO over caller-supplied storage.
///
/// No allocation is performed by the buffer once it exists. The caller
/// controls both the element type and exact capacity by supplying the backing
/// storage.
#[derive(Debug)]
pub struct RingBuffer<T: Copy> {
    storage: Vec<T>,
    head: usize,
    len: usize,
}

/// Physical slot of logical element `i` in a ring of capacity `cap` whose
/// oldest element sits at `head`.
pub open spec fn ring_slot(head: int, i: int, cap: int) -> int {
    if head + i < cap {
        head + i
    } else {
        head + i - cap
    }
}

impl<T: Copy> RingBuffer<T> {
    /// Queued elements, oldest first.
    pub closed spec fn view(&self) -> Seq<T> {
        Seq::new(
            self.len as nat,
            |i: int| self.storage@[ring_slot(self.head as int, i, self.storage@.len() as int)],
        )
    }

    /// Number of slots.
    pub closed spec fn spec_capacity(&self) -> nat {
        self.storage@.len()
    }

    pub closed spec fn wf(&self) -> bool {
        &&& self.len <= self.storage@.len()
        &&& (self.storage@.len() == 0 ==> self.head == 0)
        &&& (self.storage@.len() > 0 ==> self.head < self.storage@.len())
    }

    /// A queue using all of `storage` as its slots.
    pub fn new(storage: Vec<T>) -> (r: Self)
        ensures
            r.wf(),
            r.view() == Seq::<T>::empty(),
            r.spec_capacity() == storage@.len(),
    {
        let r = RingBuffer { storage, head: 0, len: 0 };
        assert(r.view() =~= Seq::<T>::empty());
        r
    }

    pub fn len(&self) -> (r: usize)
        ensures
            r == self.view().len(),
    {
        self.len
    }

    pub fn is_empty(&self) -> (r: bool)
        ensures
            r == (self.view().len() == 0),
    {
        self.len == 0
    }

    pub fn capacity(&self) -> (r: usize)
        ensures
            r == self.spec_capacity(),
    {
        self.storage.len()
    }

    /// Unused slots.
    pub fn free(&self) -> (r: usize)
        requires
            self.wf(),
        ensures
            r == self.spec_capacity() - self.view().len(),
    {
        self.storage.len() - self.len
    }

    /// Drops every queued element.
    pub fn clear(&mut self)
        requires
            old(self).wf(),
        ensures
            final(self).wf(),
            final(self).view() == Seq::<T>::empty(),
            final(self).spec_capacity() == old(self).spec_capacity(),
    {
        self.head = 0;
        self.len = 0;
        assert(self.view() =~= Seq::<T>::empty());
    }

    /// Appends `value`; `BufferFull` when every slot is taken.
    pub fn push_back(&mut self, value: T) -> (r: Result<()>)
        requires
            old(self).wf(),
        ensures
            final(self).wf(),
            final(self).spec_capacity() == old(self).spec_capacity(),
            old(self).view().len() < old(self).spec_capacity() ==> r is Ok && final(self).view()
                == old(self).view().push(value),
            old(self).view().len() >= old(self).spec_capacity() ==> r == Err::<(), Error>(
                Error::BufferFull,
            ) && final(self).view() == old(self).view(),
    {
        let cap = self.storage.len();
        if self.len == cap || cap == 0 {
            return Err(Error::BufferFull);
        }
        let idx = if self.len < cap - self.head {
            self.head + self.len
        } else {
            self.len - (cap - self.head)
        };
        let ghost before = self.view();
        self.storage.set(idx, value);
        self.len = self.len + 1;
        assert(self.view() =~= before.push(value));
        Ok(())
    }

    /// Removes and returns the oldest element.
    pub fn pop_front(&mut self) -> (r: Option<T>)
        requires
            old(self).wf(),
        ensures
            final(self).wf(),
            final(self).spec_capacity() == old(self).spec_capacity(),
            old(self).view().len() == 0 ==> r is None && final(self).view() == old(self).view(),
            old(self).view().len() > 0 ==> r == Some(old(self).view()[0]) && final(self).view()
                == old(self).view().drop_first(),
    {
        if self.len == 0 {
            return None;
        }
        let ghost before = self.view();
        let value = self.storage[self.head];
        let cap = self.storage.len();
        self.head = if self.head + 1 == cap {
            0
        } else {
            self.head + 1
        };
        self.len = self.len - 1;
        if self.len == 0 {
            self.head = 0;
        }
        assert(self.view() =~= before.drop_first());
        Some(value)
    }

    /// The oldest element.
    pub fn front(&self) -> (r: Option<&T>)
        requires
            self.wf(),
        ensures
            self.view().len() == 0 ==> r is None,
            self.view().len() > 0 ==> r == Some(&self.view()[0]),
    {
        if self.len == 0 {
            None
        } else {
            Some(&self.storage[self.head])
        }
    }
}

/// One fixed-size message slot in a [`MessagePool`].
#[derive(Debug, Clone, Copy, PartialEq, Eq)]
pub struct MessageSlot<M: Copy> {
    meta: Option<M>,
    len: usize,
}

impl<M: Copy> MessageSlot<M> {
    pub closed spec fn spec_meta(&self) -> Option<M> {
        self.meta
    }

    /// An unused slot.
    pub fn empty() -> (r: Self)
        ensures
            r.spec_meta() is None,
    {
        MessageSlot { meta: None, len: 0 }
    }

    pub fn is_used(&self) -> (r: bool)
        ensures
            r == self.spec_meta() is Some,
    {
        self.meta.is_some()
    }
}

/// Random-access bounded message pool. The caller supplies both slot metadata
/// and the byte arena. The arena is divided evenly between slots so accepting
/// a slot always guarantees storage for one full configured message.
#[derive(Debug)]
pub struct MessagePool<M: Copy> {
    slots: Vec<MessageSlot<M>>,
    bytes: Vec<u8>,
    slot_size: usize,
}

/// Metadata of an occupied slot.
pub open spec fn entry_meta<M>(e: Option<(M, Seq<u8>)>) -> M {
    e.unwrap().0
}

/// Bytes of an occupied slot.
pub open spec fn entry_bytes<M>(e: Option<(M, Seq<u8>)>) -> Seq<u8> {
    e.unwrap().1
}

/// Number of used slots among the first `n`.
pub open spec fn count_used<M>(s: Seq<Option<(M, Seq<u8>)>>, n: int) -> nat
    decreases n,
{
    if n <= 0 {
        0
    } else {
        count_used(s, n - 1) + if s[n - 1] is Some {
            1nat
        } else {
            0nat
        }
    }
}

/// Index of the first unused slot at or after `i`, or the length.
pub open spec fn first_unused<M>(s: Seq<Option<(M, Seq<u8>)>>, i: int) -> int
    decreases s.len() - i,
{
    if i >= s.len() || i < 0 {
        s.len() as int
    } else if s[i] is None {
        i
    } else {
        first_unused(s, i + 1)
    }
}

impl<M: Copy> MessagePool<M> {
    /// Contents of every slot: its metadata and message bytes, or `None`.
    pub closed spec fn view(&self) -> Seq<Option<(M, Seq<u8>)>> {
        Seq::new(
            self.slots@.len(),
            |i: int|
                match self.slots@[i].meta {
                    Some(m) => Some(
                        (
                            m,
                            self.bytes@.subrange(
                                i * self.slot_size,
                                i * self.slot_size + self.slots@[i].len,
                            ),
                        ),
                    ),
                    None => None,
                },
        )
    }

    /// Bytes reserved for each slot.
    pub closed spec fn spec_slot_size(&self) -> nat {
        self.slot_size as nat
    }

    pub closed spec fn wf(&self) -> bool {
        &&& self.slot_size > 0
        &&& self.slots@.len() * self.slot_size <= self.bytes@.len()
        &&& forall|i: int| 0 <= i < self.slots@.len() ==> #[trigger] self.slots@[i].len <= self.slot_size
    }

    /// A pool over `slots`, with the arena divided evenly between them.
    pub fn new(slots: Vec<MessageSlot<M>>, bytes: Vec<u8>) -> (r: Result<Self>)
        ensures
            (slots@.len() == 0 || bytes@.len() < slots@.len()) ==> r == Err::<Self, Error>(
                Error::InvalidLength,
            ),
            !(slots@.len() == 0 || bytes@.len() < slots@.len()) ==> r is Ok && r->Ok_0.wf()
                && r->Ok_0.view() == Seq::new(slots@.len(), |_i: int| None::<(M, Seq<u8>)>)
                && r->Ok_0.spec_slot_size() == bytes@.len() / slots@.len(),
    {
        if slots.len() == 0 || bytes.len() < slots.len() {
            return Err(Error::InvalidLength);
        }
        let slot_size = bytes.len() / slots.len();
        proof {
            let b = bytes@.len() as int;
            let n = slots@.len() as int;
            assert(n * (b / n) <= b && b / n >= 1) by (nonlinear_arith)
                requires
                    n > 0,
                    b >= n,
            ;
        }
        let ghost n0 = slots@.len();
        let mut slots = slots;
        let mut i: usize = 0;
        while i < slots.len()
            invariant
                i <= slots@.len(),
                slots@.len() == n0,
                slots@.len() * slot_size <= bytes@.len(),
                forall|j: int| 0 <= j < i ==> (#[trigger] slots@[j]).meta is None && slots@[j].len
                    == 0,
            decreases slots@.len() - i,
        {
            slots.set(i, MessageSlot { meta: None, len: 0 });
            i = i + 1;
        }
        let r = MessagePool { slots, bytes, slot_size };
        assert(r.view() =~= Seq::new(r.slots@.len(), |_i: int| None::<(M, Seq<u8>)>));
        Ok(r)
    }

    pub fn slot_size(&self) -> (r: usize)
        ensures
            r == self.spec_slot_size(),
    {
        self.slot_size
    }

    pub fn capacity(&self) -> (r: usize)
        ensures
            r == self.view().len(),
    {
        self.slots.len()
    }

    /// Number of occupied slots.
    pub fn used(&self) -> (r: usize)
        ensures
            r == count_used(self.view(), self.view().len() as int),
    {
        let mut n: usize = 0;
        let mut i: usize = 0;
        while i < self.slots.len()
            invariant
                i <= self.slots@.len(),
                n == count_used(self.view(), i as int),
                n <= i,
            decreases self.slots@.len() - i,
        {
            if self.slots[i].meta.is_some() {
                n = n + 1;
            }
            i = i + 1;
        }
        n
    }

    /// Number of free slots.
    pub fn free(&self) -> (r: usize)
        ensures
            r == self.view().len() - count_used(self.view(), self.view().len() as int),
    {
        let used = self.used();
        proof {
            lemma_count_used_bound(self.view(), self.view().len() as int);
        }
        self.slots.len() - used
    }

    /// Stores a message in the first free slot and returns its index.
    pub fn insert(&mut self, meta: M, data: &[u8]) -> (r: Result<usize>)
        requires
            old(self).wf(),
        ensures
            final(self).wf(),
            final(self).spec_slot_size() == old(self).spec_slot_size(),
            data@.len() > old(self).spec_slot_size() ==> r == Err::<usize, Error>(
                Error::MessageTooLarge,
            ) && final(self).view() == old(self).view(),
            data@.len() <= old(self).spec_slot_size() && first_unused(old(self).view(), 0)
                >= old(self).view().len() ==> r == Err::<usize, Error>(Error::BufferFull)
                && final(self).view() == old(self).view(),
            data@.len() <= old(self).spec_slot_size() && first_unused(old(self).view(), 0) < old(
                self,
            ).view().len() ==> r == Ok::<usize, Error>(first_unused(old(self).view(), 0) as usize)
                && final(self).view() == old(self).view().update(
                first_unused(old(self).view(), 0),
                Some((meta, data@)),
            ),
    {
        if data.len() > self.slot_size {
            return Err(Error::MessageTooLarge);
        }
        let mut idx: usize = 0;
        while idx < self.slots.len() && self.slots[idx].meta.is_some()
            invariant
                idx <= self.slots@.len(),
                self.slots@ == old(self).slots@,
                self.bytes@ == old(self).bytes@,
                self.slot_size == old(self).slot_size,
                first_unused(self.view(), 0) == first_unused(self.view(), idx as int),
            decreases self.slots@.len() - idx,
        {
            idx = idx + 1;
        }
        if idx == self.slots.len() {
            return Err(Error::BufferFull);
        }
        let ghost before = self.view();
        let ss = self.slot_size;
        let _blen = self.bytes.len();
        proof {
            lemma_slot_in_arena(idx as int, ss as int, self.slots@.len() as int, self.bytes@.len() as int);
        }
        let start = idx * ss;
        let mut k: usize = 0;
        while k < data.len()
            invariant
                k <= data@.len() <= ss,
                start == idx * ss,
                start + ss <= self.bytes@.len(),
                self.bytes@.len() <= usize::MAX,
                self.bytes@.len() == old(self).bytes@.len(),
                self.slots@ == old(self).slots@,
                self.slot_size == ss,
                idx < self.slots@.len(),
                forall|j: int| 0 <= j < k ==> self.bytes@[start + j] == data@[j],
                forall|j: int|
                    0 <= j < self.bytes@.len() && !(start <= j < start + ss) ==> self.bytes@[j]
                        == old(self).bytes@[j],
            decreases data@.len() - k,
        {
            self.bytes.set(start + k, data[k]);
            k = k + 1;
        }
        self.slots.set(idx, MessageSlot { meta: Some(meta), len: data.len() });
        proof {
            assert forall|i: int| 0 <= i < self.slots@.len() && i != idx implies self.view()[i]
                == before[i] by {
                lemma_slots_disjoint(i, idx as int, ss as int, self.slots@.len() as int);
                lemma_slot_in_arena(i, ss as int, self.slots@.len() as int, self.bytes@.len() as int);
                if self.slots@[i].meta is Some {
                    assert(self.bytes@.subrange(i * ss, i * ss + self.slots@[i].len)
                        =~= old(self).bytes@.subrange(i * ss, i * ss + self.slots@[i].len));
                }
            }
            assert(self.bytes@.subrange(start as int, start + data@.len()) =~= data@);
            assert(self.view() =~= before.update(idx as int, Some((meta, data@))));
        }
        Ok(idx)
    }

    /// Metadata and bytes of slot `idx`.
    pub fn get(&self, idx: usize) -> (r: Option<(M, &[u8])>)
        requires
            self.wf(),
        ensures
            idx >= self.view().len() ==> r is None,
            idx < self.view().len() ==> match self.view()[idx as int] {
                Some((m, b)) => r is Some && (r->0).0 == m && (r->0).1@ == b,
                None => r is None,
            },
    {
        if idx >= self.slots.len() {
            return None;
        }
        let slot = self.slots[idx];
        let meta = slot.meta?;
        let _blen = self.bytes.len();
        proof {
            lemma_slot_in_arena(idx as int, self.slot_size as int, self.slots@.len() as int, self.bytes@.len() as int);
        }
        let start = idx * self.slot_size;
        Some((meta, &self.bytes.as_slice()[start..start + slot.len]))
    }

    /// Metadata of slot `idx`.
    pub fn meta(&self, idx: usize) -> (r: Option<M>)
        ensures
            idx >= self.view().len() ==> r is None,
            idx < self.view().len() ==> match self.view()[idx as int] {
                Some((m, _)) => r == Some(m),
                None => r is None,
            },
    {
        if idx >= self.slots.len() {
            return None;
        }
        self.slots[idx].meta
    }

    /// Replaces the metadata of an occupied slot.
    pub fn set_meta(&mut self, idx: usize, meta: M) -> (r: Result<()>)
        requires
            old(self).wf(),
        ensures
            final(self).wf(),
            final(self).spec_slot_size() == old(self).spec_slot_size(),
            idx >= old(self).view().len() ==> r == Err::<(), Error>(Error::InvalidField)
                && final(self).view() == old(self).view(),
            idx < old(self).view().len() && old(self).view()[idx as int] is None ==> r == Err::<
                (),
                Error,
            >(Error::InvalidState) && final(self).view() == old(self).view(),
            idx < old(self).view().len() && old(self).view()[idx as int] is Some ==> r is Ok
                && final(self).view() == old(self).view().update(
                idx as int,
                Some((meta, entry_bytes(old(self).view()[idx as int]))),
            ),
    {
        if idx >= self.slots.len() {
            return Err(Error::InvalidField);
        }
        let slot = self.slots[idx];
        if slot.meta.is_none() {
            return Err(Error::InvalidState);
        }
        let ghost before = self.view();
        self.slots.set(idx, MessageSlot { meta: Some(meta), len: slot.len });
        assert(self.view() =~= before.update(idx as int, Some((meta, entry_bytes(before[idx as int])))));
        Ok(())
    }

    /// Copies out and frees slot `idx`; returns its metadata and length.
    pub fn remove_into(&mut self, idx: usize, out: &mut [u8]) -> (r: Result<(M, usize)>)
        requires
            old(self).wf(),
        ensures
            final(self).wf(),
            final(self).spec_slot_size() == old(self).spec_slot_size(),
            idx >= old(self).view().len() ==> r == Err::<(M, usize), Error>(Error::InvalidField)
                && final(self).view() == old(self).view() && final(out)@ == old(out)@,
            idx < old(self).view().len() && old(self).view()[idx as int] is None ==> r == Err::<
                (M, usize),
                Error,
            >(Error::InvalidState) && final(self).view() == old(self).view() && final(out)@ == old(
                out,
            )@,
            idx < old(self).view().len() && old(self).view()[idx as int] is Some ==> ({
                let (m, b) = old(self).view()[idx as int]->0;
                &&& old(out)@.len() < b.len() ==> r == Err::<(M, usize), Error>(Error::BufferFull)
                    && final(self).view() == old(self).view() && final(out)@ == old(out)@
                &&& old(out)@.len() >= b.len() ==> r == Ok::<(M, usize), Error>((m, b.len() as usize))
                    && final(self).view() == old(self).view().update(idx as int, None)
                    && final(out)@ == b + old(out)@.subrange(b.len() as int, old(out)@.len() as int)
            }),
    {
        if idx >= self.slots.len() {
            return Err(Error::InvalidField);
        }
        let slot = self.slots[idx];
        let meta = match slot.meta {
            Some(m) => m,
            None => {
                return Err(Error::InvalidState);
            },
        };
        let _blen = self.bytes.len();
        proof {
            lemma_slot_in_arena(idx as int, self.slot_size as int, self.slots@.len() as int, self.bytes@.len() as int);
        }
        if out.len() < slot.len {
            return Err(Error::BufferFull);
        }
        let start = idx * self.slot_size;
        crate::wire::bytes::put_slice(out, 0, &self.bytes.as_slice()[start..start + slot.len]);
        let ghost before = self.view();
        self.slots.set(idx, MessageSlot { meta: None, len: 0 });
        assert(self.view() =~= before.update(idx as int, None));
        assert(old(out)@.subrange(0, 0) + entry_bytes(before[idx as int]) =~= entry_bytes(before[idx as int]));
        Ok((meta, slot.len))
    }

    /// Frees slot `idx`; returns its metadata.
    pub fn remove(&mut self, idx: usize) -> (r: Result<M>)
        requires
            old(self).wf(),
        ensures
            final(self).wf(),
            final(self).spec_slot_size() == old(self).spec_slot_size(),
            idx >= old(self).view().len() ==> r == Err::<M, Error>(Error::InvalidField)
                && final(self).view() == old(self).view(),
            idx < old(self).view().len() && old(self).view()[idx as int] is None ==> r == Err::<
                M,
                Error,
            >(Error::InvalidState) && final(self).view() == old(self).view(),
            idx < old(self).view().len() && old(self).view()[idx as int] is Some ==> r == Ok::<
                M,
                Error,
            >(entry_meta(old(self).view()[idx as int])) && final(self).view() == old(self).view().update(
                idx as int,
                None,
            ),
    {
        if idx >= self.slots.len() {
            return Err(Error::InvalidField);
        }
        let slot = self.slots[idx];
        let meta = match slot.meta {
            Some(m) => m,
            None => {
                return Err(Error::InvalidState);
            },
        };
        let ghost before = self.view();
        self.slots.set(idx, MessageSlot { meta: None, len: 0 });
        assert(self.view() =~= before.update(idx as int, None));
        Ok(meta)
    }

    /// Frees every slot.
    pub fn clear(&mut self)
        requires
            old(self).wf(),
        ensures
            final(self).wf(),
            final(self).spec_slot_size() == old(self).spec_slot_size(),
            final(self).view() == Seq::new(old(self).view().len(), |_i: int| None::<(M, Seq<u8>)>),
    {
        let mut i: usize = 0;
        while i < self.slots.len()
            invariant
                self.wf(),
                self.slot_size == old(self).slot_size,
                self.slots@.len() == old(self).slots@.len(),
                i <= self.slots@.len(),
                forall|j: int| 0 <= j < i ==> (#[trigger] self.slots@[j]).meta is None,
            decreases self.slots@.len() - i,
        {
            self.slots.set(i, MessageSlot { meta: None, len: 0 });
            i = i + 1;
        }
        assert(self.view() =~= Seq::new(old(self).view().len(), |_i: int| None::<(M, Seq<u8>)>));
    }

    /// Index of the first used slot whose metadata satisfies `predicate`.
    pub fn find(&self, predicate: impl Fn(M) -> bool) -> (r: Option<usize>)
        requires
            forall|m: M| #[trigger] predicate.requires((m,)),
        ensures
            match r {
                Some(i) => i < self.view().len() && self.view()[i as int] is Some
                    && predicate.ensures((entry_meta(self.view()[i as int]),), true) && forall|j: int|
                    0 <= j < i && #[trigger] self.view()[j] is Some ==> predicate.ensures(
                        (entry_meta(self.view()[j]),),
                        false,
                    ),
                None => forall|j: int|
                    0 <= j < self.view().len() && #[trigger] self.view()[j] is Some
                        ==> predicate.ensures((entry_meta(self.view()[j]),), false),
            },
    {
        let mut i: usize = 0;
        while i < self.slots.len()
            invariant
                i <= self.slots@.len(),
                forall|m: M| #[trigger] predicate.requires((m,)),
                forall|j: int|
                    0 <= j < i && #[trigger] self.view()[j] is Some ==> predicate.ensures(
                        (entry_meta(self.view()[j]),),
                        false,
                    ),
            decreases self.slots@.len() - i,
        {
            match self.slots[i].meta {
                Some(m) => {
                    if predicate(m) {
                        return Some(i);
                    }
                },
                None => {},
            }
            i = i + 1;
        }
        None
    }

    /// Indices and metadata of the used slots, in index order.
    pub fn used_entries(&self) -> (r: Vec<(usize, M)>)
        ensures
            forall|k: int|
                0 <= k < r@.len() ==> (#[trigger] r@[k]).0 < self.view().len() && self.view()[r@[k].0 as int]
                    is Some && entry_meta(self.view()[r@[k].0 as int]) == r@[k].1,
            forall|k: int, l: int| 0 <= k < l < r@.len() ==> r@[k].0 < r@[l].0,
            forall|j: int|
                0 <= j < self.view().len() && #[trigger] self.view()[j] is Some ==> exists|k: int|
                    0 <= k < r@.len() && r@[k].0 == j,
    {
        let mut out: Vec<(usize, M)> = Vec::new();
        let mut i: usize = 0;
        while i < self.slots.len()
            invariant
                i <= self.slots@.len(),
                forall|k: int|
                    0 <= k < out@.len() ==> (#[trigger] out@[k]).0 < i && self.view()[out@[k].0 as int]
                        is Some && entry_meta(self.view()[out@[k].0 as int]) == out@[k].1,
                forall|k: int, l: int| 0 <= k < l < out@.len() ==> out@[k].0 < out@[l].0,
                forall|j: int|
                    0 <= j < i && #[trigger] self.view()[j] is Some ==> exists|k: int|
                        0 <= k < out@.len() && out@[k].0 == j,
            decreases self.slots@.len() - i,
        {
            match self.slots[i].meta {
                Some(m) => {
                    let ghost prev = out@;
                    out.push((i, m));
                    proof {
                        let k = out@.len() - 1;
                        assert(out@[k].0 == i);
                        assert forall|j: int|
                            0 <= j < i + 1 && #[trigger] self.view()[j] is Some implies exists|k: int|
                                0 <= k < out@.len() && out@[k].0 == j by {
                            if j < i {
                                let k0 = choose|k0: int| 0 <= k0 < prev.len() && prev[k0].0 == j;
                                assert(out@[k0] == prev[k0]);
                            } else {
                                assert(out@[k].0 == j);
                            }
                        }
                    }
                },
                None => {},
            }
            i = i + 1;
        }
        out
    }
}

pub proof fn lemma_count_used_bound<M>(s: Seq<Option<(M, Seq<u8>)>>, n: int)
    ensures
        count_used(s, n) <= if n > 0 {
            n
        } else {
            0
        },
    decreases n,
{
    if n > 0 {
        lemma_count_used_bound(s, n - 1);
    }
}

proof fn lemma_slot_in_arena(i: int, ss: int, n: int, b: int)
    requires
        0 <= i < n,
        ss > 0,
        n * ss <= b,
    ensures
        0 <= i * ss,
        i * ss + ss <= b,
{
    assert(i * ss + ss <= n * ss) by (nonlinear_arith)
        requires
            0 <= i < n,
            ss > 0,
    ;
    assert(0 <= i * ss) by (nonlinear_arith)
        requires
            0 <= i,
            ss > 0,
    ;
}

proof fn lemma_slots_disjoint(i: int, j: int, ss: int, n: int)
    requires
        0 <= i < n,
        0 <= j < n,
        i != j,
        ss > 0,
    ensures
        i * ss + ss <= j * ss || j * ss + ss <= i * ss,
{
    if i < j {
        assert(i * ss + ss <= j * ss) by (nonlinear_arith)
            requires
                i < j,
                ss > 0,
        ;
    } else {
        assert(j * ss + ss <= i * ss) by (nonlinear_arith)
            requires
                j < i,
                ss > 0,
        ;
    }
}


/// Metadata slot used by [`PacketBuffer`].
#[derive(Debug, Clone, Copy, PartialEq, Eq)]
pub struct PacketMetadata<M: Copy> {
    meta: Option<M>,
    offset: usize,
    len: usize,
}

impl<M: Copy> PacketMetadata<M> {
    pub closed spec fn spec_meta(&self) -> Option<M> {
        self.meta
    }

    /// An unused slot.
    pub fn empty() -> (r: Self)
        ensures
            r.spec_meta() is None,
    {
        PacketMetadata { meta: None, offset: 0, len: 0 }
    }

    pub fn is_used(&self) -> (r: bool)
        ensures
            r == self.spec_meta() is Some,
    {
        self.meta.is_some()
    }
}

/// A queued packet's place in the payload arena: offset and length.
pub open spec fn region_end(r: (nat, nat)) -> nat {
    r.0 + r.1
}

/// Bytes taken by the first `n` regions.
pub open spec fn bytes_upto(r: Seq<(nat, nat)>, n: int) -> nat
    decreases n,
{
    if n <= 0 {
        0
    } else {
        bytes_upto(r, n - 1) + r[n - 1].1
    }
}

/// Bytes taken by all regions.
pub open spec fn bytes_in(r: Seq<(nat, nat)>) -> nat {
    bytes_upto(r, r.len() as int)
}

/// The packets as plain values, oldest first, with their arena regions.
pub struct PacketBufferView<M> {
    pub packets: Seq<(M, Seq<u8>)>,
    pub regions: Seq<(nat, nat)>,
    pub packet_capacity: nat,
    pub payload_capacity: nat,
}

/// Where a packet of `n` bytes goes: after the newest packet when it fits
/// before the end of the arena (or before the oldest packet once the queue
/// has wrapped), else at the start of the arena when it fits before the
/// oldest packet. `None` when no contiguous free run is long enough.
pub open spec fn placement<M>(v: PacketBufferView<M>, n: nat) -> Option<nat> {
    if n > v.payload_capacity {
        None
    } else if v.regions.len() == 0 {
        Some(0)
    } else {
        let first = v.regions[0].0;
        let last_end = region_end(v.regions.last());
        if last_end >= first && bytes_in(v.regions) == last_end - first {
            if v.payload_capacity - last_end >= n {
                Some(last_end)
            } else if first >= n {
                Some(0)
            } else {
                None
            }
        } else if last_end <= first && first - last_end >= n {
            Some(last_end)
        } else {
            None
        }
    }
}

/// Regions `a..b` follow each other without gaps.
pub open spec fn contiguous(r: Seq<(nat, nat)>, a: int, b: int) -> bool {
    forall|i: int| a < i < b ==> #[trigger] r[i].0 == region_end(r[i - 1])
}

/// The arena holds the regions as one run from the oldest packet (the first
/// `k`), then, when `k` is short of all, a second run from the arena start
/// that ends before the oldest packet; all within `cap` bytes.
pub open spec fn arena_layout(r: Seq<(nat, nat)>, k: nat, cap: nat) -> bool {
    &&& (r.len() == 0 ==> k == 0)
    &&& (r.len() > 0 ==> 1 <= k <= r.len())
    &&& contiguous(r, 0, k as int)
    &&& contiguous(r, k as int, r.len() as int)
    &&& (k < r.len() ==> r[k as int].0 == 0 && region_end(r.last()) <= r[0].0)
    &&& forall|i: int| 0 <= i < r.len() ==> #[trigger] region_end(r[i]) <= cap
}

proof fn lemma_run_sum(r: Seq<(nat, nat)>, a: int, b: int)
    requires
        0 <= a < b <= r.len(),
        contiguous(r, a, b),
    ensures
        bytes_upto(r, b) - bytes_upto(r, a) == region_end(r[b - 1]) - r[a].0,
        forall|i: int| a <= i < b ==> r[a].0 <= #[trigger] r[i].0 && region_end(r[i]) <= region_end(r[b - 1]),
    decreases b - a,
{
    if b - a > 1 {
        lemma_run_sum(r, a, b - 1);
        assert(r[b - 1].0 == region_end(r[b - 2]));
        assert(bytes_upto(r, b) == bytes_upto(r, b - 1) + r[b - 1].1);
    }
}

proof fn lemma_drop_first_sum(r: Seq<(nat, nat)>, n: int)
    requires
        1 <= n <= r.len(),
    ensures
        bytes_upto(r.drop_first(), n - 1) + r[0].1 == bytes_upto(r, n),
    decreases n,
{
    let d = r.drop_first();
    if n > 1 {
        lemma_drop_first_sum(r, n - 1);
        assert(d[n - 2] == r[n - 1]);
        assert(bytes_upto(d, n - 1) == bytes_upto(d, n - 2) + d[n - 2].1);
        assert(bytes_upto(r, n) == bytes_upto(r, n - 1) + r[n - 1].1);
    } else {
        assert(bytes_upto(r, 1) == bytes_upto(r, 0) + r[0].1);
    }
}

/// Arena facts of a laid-out queue: how many bytes it holds, and that the
/// exact non-wrapped test of `placement` picks a valid reading.
proof fn lemma_layout_facts(r: Seq<(nat, nat)>, k: nat, cap: nat)
    requires
        arena_layout(r, k, cap),
        r.len() > 0,
    ensures
        bytes_in(r) <= cap,
        k == r.len() ==> region_end(r.last()) >= r[0].0 && bytes_in(r) == region_end(r.last()) - r[0].0,
        k < r.len() ==> bytes_in(r) == region_end(r[k - 1]) - r[0].0 + region_end(r.last()),
        (region_end(r.last()) >= r[0].0 && bytes_in(r) == region_end(r.last()) - r[0].0) ==> arena_layout(
            r,
            r.len() as nat,
            cap,
        ),
        forall|i: int| 0 <= i < k ==> r[0].0 <= #[trigger] r[i].0,
        forall|i: int| 0 <= i < k ==> #[trigger] region_end(r[i]) <= region_end(r[k - 1]),
        k < r.len() ==> forall|i: int| k <= i < r.len() ==> #[trigger] region_end(r[i]) <= region_end(r.last()),
{
    let n = r.len() as int;
    lemma_run_sum(r, 0, k as int);
    assert(region_end(r[k - 1]) <= cap);
    if k < n {
        lemma_run_sum(r, k as int, n);
        if region_end(r.last()) >= r[0].0 && bytes_in(r) == region_end(r.last()) - r[0].0 {
            assert(r[k as int].0 == region_end(r[k - 1]));
            assert(contiguous(r, 0, n)) by {
                assert forall|i: int| 0 < i < n implies #[trigger] r[i].0 == region_end(r[i - 1]) by {
                    if i < k {
                        assert(contiguous(r, 0, k as int));
                    } else if i > k {
                        assert(contiguous(r, k as int, n));
                    }
                }
            }
        }
    }
}

/// The queue does not wrap: its regions run from the oldest packet without
/// gaps, so the bytes they hold are the span they cover.
pub open spec fn unwrapped(r: Seq<(nat, nat)>) -> bool {
    region_end(r.last()) >= r[0].0 && bytes_in(r) == region_end(r.last()) - r[0].0
}

proof fn lemma_bytes_prefix(r: Seq<(nat, nat)>, s: Seq<(nat, nat)>, n: int)
    requires
        0 <= n <= r.len(),
        n <= s.len(),
        forall|i: int| 0 <= i < n ==> r[i] == s[i],
    ensures
        bytes_upto(r, n) == bytes_upto(s, n),
    decreases n,
{
    if n > 0 {
        lemma_bytes_prefix(r, s, n - 1);
    }
}

/// Placing a packet of `n` bytes at `o` as [`placement`] chooses keeps the
/// arena laid out, with `s` packets in the run from the oldest.
proof fn lemma_layout_push(r: Seq<(nat, nat)>, k: nat, s: nat, o: nat, n: nat, cap: nat)
    requires
        arena_layout(r, k, cap),
        o + n <= cap,
        r.len() == 0 ==> o == 0 && s == 1,
        r.len() > 0 && unwrapped(r) ==> (o == region_end(r.last()) && s == r.len() + 1) || (o == 0 && n
            <= r[0].0 && o != region_end(r.last()) && s == r.len()),
        r.len() > 0 && !unwrapped(r) ==> o == region_end(r.last()) && o + n <= r[0].0 && s == k,
    ensures
        arena_layout(r.push((o, n)), s, cap),
        bytes_in(r.push((o, n))) == bytes_in(r) + n,
{
    let r2 = r.push((o, n));
    let len = r.len() as int;
    lemma_bytes_prefix(r, r2, len);
    assert(bytes_upto(r2, len + 1) == bytes_upto(r2, len) + n);
    if len > 0 {
        lemma_layout_facts(r, k, cap);
        if unwrapped(r) {
            assert(arena_layout(r, len as nat, cap));
            assert(contiguous(r, 0, len));
            if o == region_end(r.last()) {
                assert(contiguous(r2, 0, len + 1)) by {
                    assert forall|i: int| 0 < i < len + 1 implies #[trigger] r2[i].0 == region_end(r2[i - 1]) by {
                        if i < len {
                            assert(r2[i] == r[i] && r2[i - 1] == r[i - 1]);
                        }
                    }
                }
            } else {
                assert(contiguous(r2, 0, len)) by {
                    assert forall|i: int| 0 < i < len implies #[trigger] r2[i].0 == region_end(r2[i - 1]) by {
                        assert(r2[i] == r[i] && r2[i - 1] == r[i - 1]);
                    }
                }
            }
        } else {
            assert(contiguous(r2, 0, k as int)) by {
                assert forall|i: int| 0 < i < k implies #[trigger] r2[i].0 == region_end(r2[i - 1]) by {
                    assert(r2[i] == r[i] && r2[i - 1] == r[i - 1]);
                }
            }
            assert(contiguous(r2, k as int, len + 1)) by {
                assert forall|i: int| k < i < len + 1 implies #[trigger] r2[i].0 == region_end(r2[i - 1]) by {
                    if i < len {
                        assert(contiguous(r, k as int, len));
                        assert(r2[i] == r[i] && r2[i - 1] == r[i - 1]);
                    }
                }
            }
        }
    }
    assert forall|i: int| 0 <= i < r2.len() implies #[trigger] region_end(r2[i]) <= cap by {
        if i < len {
            assert(r2[i] == r[i]);
        }
    }
}

/// Arena regions of the `len` packets whose metadata starts at `head`.
pub closed spec fn regions_of<M: Copy>(meta: Seq<PacketMetadata<M>>, head: int, len: int) -> Seq<(nat, nat)> {
    Seq::new(
        len as nat,
        |i: int|
            {
                let m = meta[ring_slot(head, i, meta.len() as int)];
                (m.offset as nat, m.len as nat)
            },
    )
}

/// The `len` packets whose metadata starts at `head`, with their bytes.
pub closed spec fn packets_of<M: Copy>(meta: Seq<PacketMetadata<M>>, pay: Seq<u8>, head: int, len: int) -> Seq<
    (M, Seq<u8>),
> {
    Seq::new(
        len as nat,
        |i: int|
            {
                let m = meta[ring_slot(head, i, meta.len() as int)];
                (m.meta.unwrap(), pay.subrange(m.offset as int, m.offset + m.len))
            },
    )
}

/// Writing a packet into slot `idx` after the `len` queued ones, at bytes
/// no queued packet uses, appends it to the queue and leaves the rest alone.
proof fn lemma_enqueue_views<M: Copy>(
    meta0: Seq<PacketMetadata<M>>,
    meta1: Seq<PacketMetadata<M>>,
    pay0: Seq<u8>,
    pay1: Seq<u8>,
    head: int,
    len: int,
    idx: int,
    m: M,
    data: Seq<u8>,
    o: usize,
    n: usize,
)
    requires
        0 <= head < meta0.len(),
        0 <= len < meta0.len(),
        n == data.len(),
        idx == ring_slot(head, len, meta0.len() as int),
        meta1 == meta0.update(idx, PacketMetadata { meta: Some(m), offset: o, len: n }),
        o + n <= pay0.len() == pay1.len(),
        forall|j: int| 0 <= j < n ==> pay1[o + j] == data[j],
        forall|j: int| 0 <= j < pay0.len() && !(o <= j < o + n) ==> pay1[j] == pay0[j],
        forall|j: int|
            0 <= j < len ==> region_end(#[trigger] regions_of(meta0, head, len)[j]) <= o || o + n
                <= regions_of(meta0, head, len)[j].0,
        forall|j: int|
            0 <= j < len ==> (#[trigger] meta0[ring_slot(head, j, meta0.len() as int)]).meta is Some
                && meta0[ring_slot(head, j, meta0.len() as int)].offset + meta0[ring_slot(
                head,
                j,
                meta0.len() as int,
            )].len <= pay0.len(),
    ensures
        regions_of(meta1, head, len + 1) == regions_of(meta0, head, len).push((o as nat, n as nat)),
        packets_of(meta1, pay1, head, len + 1) == packets_of(meta0, pay0, head, len).push((m, data)),
        forall|j: int|
            0 <= j < len + 1 ==> (#[trigger] meta1[ring_slot(head, j, meta1.len() as int)]).meta is Some
                && meta1[ring_slot(head, j, meta1.len() as int)].offset + meta1[ring_slot(
                head,
                j,
                meta1.len() as int,
            )].len <= pay1.len(),
{
    let cap = meta0.len() as int;
    assert forall|j: int| 0 <= j < len implies ring_slot(head, j, cap) != idx by {}
    assert(regions_of(meta1, head, len + 1) =~= regions_of(meta0, head, len).push((o as nat, n as nat)));
    assert forall|j: int| 0 <= j < len implies #[trigger] packets_of(meta1, pay1, head, len + 1)[j]
        == packets_of(meta0, pay0, head, len)[j] by {
        let s = ring_slot(head, j, cap);
        let mm = meta0[s];
        assert(regions_of(meta0, head, len)[j] == (mm.offset as nat, mm.len as nat));
        assert(pay1.subrange(mm.offset as int, mm.offset + mm.len) =~= pay0.subrange(
            mm.offset as int,
            mm.offset + mm.len,
        ));
    }
    assert(pay1.subrange(o as int, o + n) =~= data);
    assert(packets_of(meta1, pay1, head, len + 1) =~= packets_of(meta0, pay0, head, len).push((m, data)));
    assert forall|j: int| 0 <= j < len + 1 implies (#[trigger] meta1[ring_slot(head, j, meta1.len() as int)]).meta
        is Some && meta1[ring_slot(head, j, meta1.len() as int)].offset + meta1[ring_slot(
        head,
        j,
        meta1.len() as int,
    )].len <= pay1.len() by {
        if j < len {
            assert(ring_slot(head, j, cap) != idx);
            assert(meta1[ring_slot(head, j, cap)] == meta0[ring_slot(head, j, cap)]);
        }
    }
}

/// Emptying the oldest packet's metadata slot and moving the head past it
/// drops exactly that packet.
proof fn lemma_dequeue_views<M: Copy>(
    meta0: Seq<PacketMetadata<M>>,
    meta1: Seq<PacketMetadata<M>>,
    pay: Seq<u8>,
    head: int,
    head1: int,
    len: int,
)
    requires
        0 <= head < meta0.len(),
        0 < len <= meta0.len(),
        head1 == (if head + 1 == meta0.len() {
            0
        } else {
            head + 1
        }),
        meta1 == meta0.update(head, PacketMetadata { meta: None, offset: 0, len: 0 }),
    ensures
        regions_of(meta1, head1, len - 1) == regions_of(meta0, head, len).drop_first(),
        packets_of(meta1, pay, head1, len - 1) == packets_of(meta0, pay, head, len).drop_first(),
        forall|j: int|
            0 <= j < len - 1 ==> #[trigger] meta1[ring_slot(head1, j, meta1.len() as int)] == meta0[ring_slot(
                head,
                j + 1,
                meta0.len() as int,
            )],
{
    let cap = meta0.len() as int;
    assert forall|j: int| 0 <= j < len - 1 implies #[trigger] meta1[ring_slot(head1, j, cap)] == meta0[ring_slot(
        head,
        j + 1,
        cap,
    )] by {
        assert(ring_slot(head1, j, cap) == ring_slot(head, j + 1, cap));
        assert(ring_slot(head, j + 1, cap) != head);
    }
    assert(regions_of(meta1, head1, len - 1) =~= regions_of(meta0, head, len).drop_first());
    assert(packets_of(meta1, pay, head1, len - 1) =~= packets_of(meta0, pay, head, len).drop_first());
}

/// Dropping the oldest packet keeps the arena laid out.
proof fn lemma_layout_drop(r: Seq<(nat, nat)>, k: nat, cap: nat)
    requires
        arena_layout(r, k, cap),
        r.len() > 0,
    ensures
        arena_layout(
            r.drop_first(),
            if k > 1 {
                (k - 1) as nat
            } else {
                (r.len() - 1) as nat
            },
            cap,
        ),
        bytes_in(r.drop_first()) + r[0].1 == bytes_in(r),
{
    let d = r.drop_first();
    let n = r.len() as int;
    lemma_drop_first_sum(r, n);
    if k > 1 {
        assert(contiguous(d, 0, k - 1)) by {
            assert forall|i: int| 0 < i < k - 1 implies #[trigger] d[i].0 == region_end(d[i - 1]) by {
                assert(r[i + 1].0 == region_end(r[i]));
            }
        }
        assert(contiguous(d, k - 1, n - 1)) by {
            assert forall|i: int| k - 1 < i < n - 1 implies #[trigger] d[i].0 == region_end(d[i - 1]) by {
                assert(r[i + 1].0 == region_end(r[i]));
            }
        }
        assert(r[1].0 == region_end(r[0]));
    } else {
        assert(contiguous(d, 0, n - 1)) by {
            assert forall|i: int| 0 < i < n - 1 implies #[trigger] d[i].0 == region_end(d[i - 1]) by {
                assert(r[i + 1].0 == region_end(r[i]));
            }
        }
    }
    assert forall|i: int| 0 <= i < d.len() implies #[trigger] region_end(d[i]) <= cap by {
        assert(region_end(r[i + 1]) <= cap);
    }
}

/// A packet placed as [`placement`] chooses overlaps no queued packet.
proof fn lemma_place_disjoint(r: Seq<(nat, nat)>, k: nat, o: nat, n: nat, cap: nat)
    requires
        arena_layout(r, k, cap),
        r.len() > 0 && unwrapped(r) ==> o == region_end(r.last()) || (o == 0 && n <= r[0].0),
        r.len() > 0 && !unwrapped(r) ==> o == region_end(r.last()) && o + n <= r[0].0,
    ensures
        forall|j: int| 0 <= j < r.len() ==> region_end(#[trigger] r[j]) <= o || o + n <= r[j].0,
{
    if r.len() > 0 {
        lemma_layout_facts(r, k, cap);
        if unwrapped(r) {
            lemma_layout_facts(r, r.len() as nat, cap);
        }
    }
}

/// Variable-length packet FIFO over caller-supplied metadata and byte
/// storage. Packets never straddle the end of the byte arena, so a queued
/// packet is always one contiguous slice.
pub struct PacketBuffer<M: Copy> {
    metadata: Vec<PacketMetadata<M>>,
    payload: Vec<u8>,
    head: usize,
    len: usize,
    used_bytes: usize,
    /// Packets in the run that starts at the oldest packet.
    split: Ghost<nat>,
}

/// Another name for [`PacketBuffer`].
pub type MessageBuffer<M> = PacketBuffer<M>;

impl<M: Copy> PacketBuffer<M> {
    pub closed spec fn slot(&self, i: int) -> int {
        ring_slot(self.head as int, i, self.metadata@.len() as int)
    }

    pub closed spec fn view(&self) -> PacketBufferView<M> {
        PacketBufferView {
            packets: packets_of(self.metadata@, self.payload@, self.head as int, self.len as int),
            regions: regions_of(self.metadata@, self.head as int, self.len as int),
            packet_capacity: self.metadata@.len(),
            payload_capacity: self.payload@.len(),
        }
    }

    pub closed spec fn wf(&self) -> bool {
        &&& self.len <= self.metadata@.len()
        &&& (self.metadata@.len() == 0 ==> self.head == 0)
        &&& (self.metadata@.len() > 0 ==> self.head < self.metadata@.len())
        &&& forall|i: int|
            0 <= i < self.len ==> (#[trigger] self.metadata@[self.slot(i)]).meta is Some
                && self.metadata@[self.slot(i)].offset + self.metadata@[self.slot(i)].len <= self.payload@.len()
        &&& arena_layout(self.view().regions, self.split@, self.payload@.len())
        &&& self.used_bytes == bytes_in(self.view().regions)
    }

    /// An empty queue over `metadata` slots and the `payload` arena.
    pub fn new(metadata: Vec<PacketMetadata<M>>, payload: Vec<u8>) -> (r: Self)
        ensures
            r.wf(),
            r.view().packets.len() == 0,
            r.view().regions.len() == 0,
            r.view().packet_capacity == metadata@.len(),
            r.view().payload_capacity == payload@.len(),
    {
        let ghost n0 = metadata@.len();
        let mut metadata = metadata;
        let mut i: usize = 0;
        while i < metadata.len()
            invariant
                i <= metadata@.len() == n0,
            decreases metadata@.len() - i,
        {
            metadata.set(i, PacketMetadata { meta: None, offset: 0, len: 0 });
            i = i + 1;
        }
        let r = PacketBuffer { metadata, payload, head: 0, len: 0, used_bytes: 0, split: Ghost(0) };
        assert(r.view().regions =~= Seq::<(nat, nat)>::empty());
        r
    }

    pub fn len(&self) -> (r: usize)
        ensures
            r == self.view().packets.len(),
    {
        self.len
    }

    pub fn is_empty(&self) -> (r: bool)
        ensures
            r == (self.view().packets.len() == 0),
    {
        self.len == 0
    }

    pub fn packet_capacity(&self) -> (r: usize)
        ensures
            r == self.view().packet_capacity,
    {
        self.metadata.len()
    }

    pub fn payload_capacity(&self) -> (r: usize)
        ensures
            r == self.view().payload_capacity,
    {
        self.payload.len()
    }

    /// Arena bytes taken by queued packets.
    pub fn used_payload_bytes(&self) -> (r: usize)
        requires
            self.wf(),
        ensures
            r == bytes_in(self.view().regions),
    {
        self.used_bytes
    }

    /// Arena bytes not taken by queued packets.
    pub fn free_payload_bytes(&self) -> (r: usize)
        requires
            self.wf(),
        ensures
            r == self.view().payload_capacity - bytes_in(self.view().regions),
    {
        proof {
            if self.len > 0 {
                lemma_layout_facts(self.view().regions, self.split@, self.payload@.len());
            }
        }
        self.payload.len() - self.used_bytes
    }

    /// Metadata index of the `i`-th queued packet.
    fn meta_index(&self, i: usize) -> (r: usize)
        requires
            self.wf(),
            self.metadata@.len() > 0,
            i < self.metadata@.len(),
        ensures
            r == self.slot(i as int),
            r < self.metadata@.len(),
    {
        let cap = self.metadata.len();
        if i < cap - self.head {
            self.head + i
        } else {
            i - (cap - self.head)
        }
    }

    fn allocation_offset(&self, length: usize) -> (r: Option<usize>)
        requires
            self.wf(),
        ensures
            match placement(self.view(), length as nat) {
                Some(o) => r matches Some(x) && x == o,
                None => r is None,
            },
    {
        let p = self.payload.len();
        if length > p {
            return None;
        }
        if self.len == 0 {
            return Some(0);
        }
        let ghost v = self.view();
        let first = self.metadata[self.meta_index(0)];
        let last = self.metadata[self.meta_index(self.len - 1)];
        assert(v.regions[0] == (first.offset as nat, first.len as nat));
        assert(v.regions.last() == (last.offset as nat, last.len as nat));
        assert(self.metadata@[self.slot(self.len - 1)].offset + self.metadata@[self.slot(self.len - 1)].len
            <= self.payload@.len());
        let first_off = first.offset;
        let last_end = last.offset + last.len;
        if last_end >= first_off && self.used_bytes == last_end - first_off {
            if p - last_end >= length {
                Some(last_end)
            } else if first_off >= length {
                Some(0)
            } else {
                None
            }
        } else if last_end <= first_off && first_off - last_end >= length {
            Some(last_end)
        } else {
            None
        }
    }

    /// Appends a packet. `BufferFull` when every metadata slot is taken or
    /// no contiguous run of the arena fits it (see [`placement`]).
    pub fn enqueue(&mut self, meta: M, data: &[u8]) -> (r: Result<()>)
        requires
            old(self).wf(),
        ensures
            final(self).wf(),
            final(self).view().packet_capacity == old(self).view().packet_capacity,
            final(self).view().payload_capacity == old(self).view().payload_capacity,
            ({
                let v = old(self).view();
                if v.packets.len() >= v.packet_capacity || placement(v, data@.len()) is None {
                    r == Err::<(), Error>(Error::BufferFull) && final(self).view() == v
                } else {
                    &&& r == Ok::<(), Error>(())
                    &&& final(self).view().packets == v.packets.push((meta, data@))
                    &&& final(self).view().regions == v.regions.push(
                        (placement(v, data@.len())->0, data@.len()),
                    )
                    &&& bytes_in(final(self).view().regions) == bytes_in(v.regions) + data@.len()
                }
            }),
    {
        let cap = self.metadata.len();
        if cap == 0 || self.len == cap {
            return Err(Error::BufferFull);
        }
        let n = data.len();
        let offset = match self.allocation_offset(n) {
            Some(o) => o,
            None => return Err(Error::BufferFull),
        };
        let ghost v = self.view();
        let ghost r0 = v.regions;
        let ghost k = self.split@;
        let ghost new_split: nat = if self.len == 0 {
            1
        } else {
            let first = r0[0].0;
            let last_end = region_end(r0.last());
            if last_end >= first && bytes_in(r0) == last_end - first {
                if offset == last_end {
                    (self.len + 1) as nat
                } else {
                    self.len as nat
                }
            } else {
                k
            }
        };
        proof {
            if self.len > 0 {
                lemma_layout_facts(r0, k, self.payload@.len());
                let first = r0[0].0;
                let last_end = region_end(r0.last());
                if last_end >= first && bytes_in(r0) == last_end - first {
                    lemma_layout_facts(r0, self.len as nat, self.payload@.len());
                } else {
                    assert(k < r0.len());
                }
            }
        }
        let idx = self.meta_index(self.len);
        let _plen = self.payload.len();
        let ghost pay0 = self.payload@;
        let ghost meta0 = self.metadata@;
        let ghost l0 = self.len;
        let ghost h0 = self.head;
        let ghost u0 = self.used_bytes;
        assert(offset + n <= pay0.len());
        let mut i: usize = 0;
        while i < n
            invariant
                i <= n == data@.len(),
                offset + n <= pay0.len() <= usize::MAX,
                self.payload@.len() == pay0.len(),
                self.len == l0,
                self.head == h0,
                self.used_bytes == u0,
                self.split == old(self).split,
                l0 < meta0.len(),
                h0 < meta0.len(),
                idx == ring_slot(h0 as int, l0 as int, meta0.len() as int),
                forall|j: int| 0 <= j < i ==> self.payload@[offset + j] == data@[j],
                forall|j: int|
                    0 <= j < pay0.len() && !(offset <= j < offset + n) ==> self.payload@[j] == pay0[j],
                self.metadata@ == meta0,
            decreases n - i,
        {
            self.payload.set(offset + i, data[i]);
            i = i + 1;
        }
        self.metadata.set(idx, PacketMetadata { meta: Some(meta), offset, len: n });
        let ghost old_len = self.len;
        self.len = self.len + 1;
        proof {
            lemma_place_disjoint(r0, k, offset as nat, n as nat, pay0.len());
            assert forall|j: int| 0 <= j < old_len implies (#[trigger] meta0[ring_slot(
                h0 as int,
                j,
                meta0.len() as int,
            )]).meta is Some && meta0[ring_slot(h0 as int, j, meta0.len() as int)].offset + meta0[ring_slot(
                h0 as int,
                j,
                meta0.len() as int,
            )].len <= pay0.len() by {
                assert(old(self).metadata@[old(self).slot(j)] == meta0[ring_slot(h0 as int, j, meta0.len() as int)]);
            }
            lemma_enqueue_views(
                meta0,
                self.metadata@,
                pay0,
                self.payload@,
                h0 as int,
                old_len as int,
                idx as int,
                meta,
                data@,
                offset,
                n,
            );
            lemma_layout_push(r0, k, new_split, offset as nat, n as nat, pay0.len());
        }
        self.split = Ghost(new_split);
        self.used_bytes = self.used_bytes + n;
        proof {
            assert(arena_layout(self.view().regions, self.split@, self.payload@.len()));
            assert(self.used_bytes == bytes_in(self.view().regions));
        }
        Ok(())
    }

    /// Frees the oldest packet's slot.
    fn advance(&mut self)
        requires
            old(self).wf(),
            old(self).view().packets.len() > 0,
        ensures
            final(self).wf(),
            final(self).view().packets == old(self).view().packets.drop_first(),
            final(self).view().regions == old(self).view().regions.drop_first(),
            final(self).view().packet_capacity == old(self).view().packet_capacity,
            final(self).view().payload_capacity == old(self).view().payload_capacity,
            final(self).payload@ == old(self).payload@,
    {
        let ghost meta0 = self.metadata@;
        let ghost r0 = self.view().regions;
        let ghost k = self.split@;
        let ghost h0 = self.head as int;
        let ghost l0 = self.len as int;
        assert(self.metadata@[self.slot(0)].offset + self.metadata@[self.slot(0)].len <= self.payload@.len());
        let first_len = self.metadata[self.head].len;
        assert(r0[0] == (meta0[h0].offset as nat, first_len as nat));
        proof {
            lemma_layout_drop(r0, k, self.payload@.len());
            lemma_layout_facts(r0, k, self.payload@.len());
        }
        let cap = self.metadata.len();
        self.metadata.set(self.head, PacketMetadata { meta: None, offset: 0, len: 0 });
        self.head = if self.head + 1 == cap {
            0
        } else {
            self.head + 1
        };
        self.len = self.len - 1;
        self.used_bytes = self.used_bytes - first_len;
        self.split = Ghost(
            if k > 1 {
                (k - 1) as nat
            } else {
                (l0 - 1) as nat
            },
        );
        proof {
            lemma_dequeue_views(meta0, self.metadata@, self.payload@, h0, self.head as int, l0);
            assert forall|i: int| 0 <= i < self.len implies (#[trigger] self.metadata@[self.slot(i)]).meta is Some
                && self.metadata@[self.slot(i)].offset + self.metadata@[self.slot(i)].len <= self.payload@.len() by {
                assert(self.metadata@[self.slot(i)] == meta0[ring_slot(h0, i + 1, meta0.len() as int)]);
                assert(old(self).metadata@[old(self).slot(i + 1)] == meta0[ring_slot(h0, i + 1, meta0.len() as int)]);
            }
        }
        if self.len == 0 {
            self.head = 0;
            proof {
                assert(self.view().regions =~= old(self).view().regions.drop_first());
                assert(self.view().packets =~= old(self).view().packets.drop_first());
            }
        }
    }

    /// The oldest packet.
    pub fn peek(&self) -> (r: Option<(M, &[u8])>)
        requires
            self.wf(),
        ensures
            self.view().packets.len() == 0 ==> r is None,
            self.view().packets.len() > 0 ==> (r matches Some((m, b)) && m == self.view().packets[0].0 && b@
                == self.view().packets[0].1),
    {
        if self.len == 0 {
            return None;
        }
        assert(self.metadata@[self.slot(0)].offset + self.metadata@[self.slot(0)].len <= self.payload@.len());
        let slot = self.metadata[self.head];
        let meta = match slot.meta {
            Some(m) => m,
            None => return None,
        };
        let _plen = self.payload.len();
        Some((meta, &self.payload.as_slice()[slot.offset..slot.offset + slot.len]))
    }

    /// Copies out and removes the oldest packet; returns its metadata and
    /// length. `BufferFull` when `out` is too short for it.
    pub fn dequeue_into(&mut self, out: &mut [u8]) -> (r: Result<Option<(M, usize)>>)
        requires
            old(self).wf(),
        ensures
            final(self).wf(),
            final(self).view().packet_capacity == old(self).view().packet_capacity,
            final(self).view().payload_capacity == old(self).view().payload_capacity,
            ({
                let v = old(self).view();
                if v.packets.len() == 0 {
                    r == Ok::<Option<(M, usize)>, Error>(None) && final(self).view() == v && final(out)@ == old(
                        out,
                    )@
                } else {
                    let (m, b) = v.packets[0];
                    if old(out)@.len() < b.len() {
                        r == Err::<Option<(M, usize)>, Error>(Error::BufferFull) && final(self).view() == v
                            && final(out)@ == old(out)@
                    } else {
                        &&& r == Ok::<Option<(M, usize)>, Error>(Some((m, b.len() as usize)))
                        &&& final(self).view().packets == v.packets.drop_first()
                        &&& final(self).view().regions == v.regions.drop_first()
                        &&& final(out)@ == b + old(out)@.subrange(b.len() as int, old(out)@.len() as int)
                    }
                }
            }),
    {
        if self.len == 0 {
            return Ok(None);
        }
        assert(self.metadata@[self.slot(0)].offset + self.metadata@[self.slot(0)].len <= self.payload@.len());
        let slot = self.metadata[self.head];
        let meta = match slot.meta {
            Some(m) => m,
            None => return Err(Error::InvalidState),
        };
        if out.len() < slot.len {
            return Err(Error::BufferFull);
        }
        let _plen = self.payload.len();
        crate::wire::bytes::put_slice(out, 0, &self.payload.as_slice()[slot.offset..slot.offset + slot.len]);
        assert(old(out)@.subrange(0, 0) + self.view().packets[0].1 =~= self.view().packets[0].1);
        self.advance();
        Ok(Some((meta, slot.len)))
    }

    /// Removes the oldest packet and returns its metadata.
    pub fn drop_front(&mut self) -> (r: Option<M>)
        requires
            old(self).wf(),
        ensures
            final(self).wf(),
            final(self).view().packet_capacity == old(self).view().packet_capacity,
            final(self).view().payload_capacity == old(self).view().payload_capacity,
            old(self).view().packets.len() == 0 ==> r is None && final(self).view() == old(self).view(),
            old(self).view().packets.len() > 0 ==> r == Some(old(self).view().packets[0].0)
                && final(self).view().packets == old(self).view().packets.drop_first()
                && final(self).view().regions == old(self).view().regions.drop_first(),
    {
        if self.len == 0 {
            return None;
        }
        assert(self.metadata@[self.slot(0)].meta is Some);
        let slot = self.metadata[self.head];
        let meta = match slot.meta {
            Some(m) => m,
            None => return None,
        };
        self.advance();
        Some(meta)
    }

    /// Empties the queue.
    pub fn clear(&mut self)
        requires
            old(self).wf(),
        ensures
            final(self).wf(),
            final(self).view().packets.len() == 0,
            final(self).view().packet_capacity == old(self).view().packet_capacity,
            final(self).view().payload_capacity == old(self).view().payload_capacity,
    {
        let ghost n0 = self.metadata@.len();
        let mut i: usize = 0;
        while i < self.metadata.len()
            invariant
                i <= self.metadata@.len() == n0,
                self.payload@ == old(self).payload@,
            decreases self.metadata@.len() - i,
        {
            self.metadata.set(i, PacketMetadata { meta: None, offset: 0, len: 0 });
            i = i + 1;
        }
        self.head = 0;
        self.len = 0;
        self.used_bytes = 0;
        self.split = Ghost(0);
        assert(self.view().regions =~= Seq::<(nat, nat)>::empty());
    }
}

/// The queue `q` after `n` packets are taken from its front.
pub open spec fn after_dequeues<T>(q: Seq<T>, n: nat) -> Seq<T>
    decreases n,
{
    if n == 0 {
        q
    } else {
        after_dequeues(q.drop_first(), (n - 1) as nat)
    }
}

/// A packet buffer is first in, first out: `enqueue` appends a packet behind
/// the `q.len()` queued ones and each `dequeue_into` takes the front one, so
/// after those are taken the new packet is the only one left, and `peek`
/// gives it back whole, with its metadata.
pub proof fn law_packet_buffer_fifo<M>(q: Seq<(M, Seq<u8>)>, x: (M, Seq<u8>))
    ensures
        after_dequeues(q.push(x), q.len()) == seq![x],
    decreases q.len(),
{
    if q.len() == 0 {
        assert(q.push(x) =~= seq![x]);
    } else {
        assert(q.push(x).drop_first() =~= q.drop_first().push(x));
        law_packet_buffer_fifo(q.drop_first(), x);
    }
}

} // verus!
