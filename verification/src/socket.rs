use vstd::prelude::*;

use crate::error::{Error, Result};

verus! {

/// Index and generation of a socket slot.
#[derive(Debug, Clone, Copy, PartialEq, Eq, Structural, PartialOrd, Ord, Hash)]
pub struct SocketHandle {
    index: u16,
    generation: u16,
}

impl SocketHandle {
    pub closed spec fn spec_index(self) -> u16 {
        self.index
    }

    pub closed spec fn spec_generation(self) -> u16 {
        self.generation
    }

    /// Handles are equal exactly when index and generation are.
    pub proof fn lemma_eq(self, other: Self)
        ensures
            (self.spec_index() == other.spec_index() && self.spec_generation()
                == other.spec_generation()) <==> self == other,
    {
    }

    pub fn index(self) -> (r: usize)
        ensures
            r == self.spec_index(),
    {
        self.index as usize
    }

    pub fn generation(self) -> (r: u16)
        ensures
            r == self.spec_generation(),
    {
        self.generation
    }
}

/// One socket slot: a generation counter and maybe a socket.
#[derive(Debug, Clone)]
pub struct SocketStorage<T> {
    generation: u16,
    value: Option<T>,
}

/// Generation and contents of a slot.
pub struct SlotView<T> {
    pub generation: u16,
    pub value: Option<T>,
}

impl<T> SocketStorage<T> {
    pub closed spec fn view(&self) -> SlotView<T> {
        SlotView { generation: self.generation, value: self.value }
    }

    /// An unused slot at generation 1.
    pub fn empty() -> (r: Self)
        ensures
            r.view() == (SlotView::<T> { generation: 1, value: None }),
    {
        SocketStorage { generation: 1, value: None }
    }

    pub fn is_empty(&self) -> (r: bool)
        ensures
            r == self.view().value is None,
    {
        self.value.is_none()
    }
}

/// Generation a slot gets when its socket is removed: one more, skipping zero.
pub open spec fn next_generation(g: u16) -> u16 {
    if g == u16::MAX {
        1
    } else {
        (g + 1) as u16
    }
}

/// Number of occupied slots among the first `n`.
pub open spec fn count_occupied<T>(s: Seq<SlotView<T>>, n: int) -> nat
    decreases n,
{
    if n <= 0 {
        0
    } else {
        count_occupied(s, n - 1) + if s[n - 1].value is Some {
            1nat
        } else {
            0nat
        }
    }
}

/// Index of the first free slot at or after `i`, or the length.
pub open spec fn first_vacant<T>(s: Seq<SlotView<T>>, i: int) -> int
    decreases s.len() - i,
{
    if i >= s.len() || i < 0 {
        s.len() as int
    } else if s[i].value is None {
        i
    } else {
        first_vacant(s, i + 1)
    }
}

/// What looking `h` up in the slots gives.
pub open spec fn lookup_handle<T>(s: Seq<SlotView<T>>, h: SocketHandle) -> Result<T> {
    if h.spec_index() >= s.len() {
        Err(Error::InvalidField)
    } else if s[h.spec_index() as int].generation != h.spec_generation() || s[h.spec_index() as int].value is None {
        Err(Error::InvalidState)
    } else {
        Ok(s[h.spec_index() as int].value->0)
    }
}

/// Slots after removing the socket of `h`, when `h` is live.
pub open spec fn slots_without<T>(s: Seq<SlotView<T>>, h: SocketHandle) -> Seq<SlotView<T>> {
    s.update(
        h.spec_index() as int,
        SlotView { generation: next_generation(s[h.spec_index() as int].generation), value: None },
    )
}

proof fn lemma_count_occupied_bound<T>(s: Seq<SlotView<T>>, n: int)
    ensures
        count_occupied(s, n) <= if n > 0 {
            n
        } else {
            0
        },
    decreases n,
{
    if n > 0 {
        lemma_count_occupied_bound(s, n - 1);
    }
}

/// Generic socket collection backed entirely by caller-provided slots.
///
/// Handles contain an index and generation, so removing and reusing a slot
/// cannot accidentally make an old handle refer to a different socket.
#[derive(Debug)]
pub struct SocketSet<T> {
    storage: Vec<SocketStorage<T>>,
}

impl<T> SocketSet<T> {
    pub closed spec fn view(&self) -> Seq<SlotView<T>> {
        Seq::new(self.storage@.len(), |i: int| self.storage@[i].view())
    }

    /// A set whose capacity is the number of supplied slots.
    pub fn new(storage: Vec<SocketStorage<T>>) -> (r: Self)
        ensures
            r.view() == Seq::new(storage@.len(), |i: int| storage@[i].view()),
    {
        SocketSet { storage }
    }

    pub fn capacity(&self) -> (r: usize)
        ensures
            r == self.view().len(),
    {
        self.storage.len()
    }

    /// Number of live sockets.
    pub fn len(&self) -> (r: usize)
        ensures
            r == count_occupied(self.view(), self.view().len() as int),
    {
        let mut n: usize = 0;
        let mut i: usize = 0;
        while i < self.storage.len()
            invariant
                i <= self.storage@.len(),
                n == count_occupied(self.view(), i as int),
                n <= i,
            decreases self.storage@.len() - i,
        {
            if self.storage[i].value.is_some() {
                n = n + 1;
            }
            i = i + 1;
        }
        n
    }

    pub fn is_empty(&self) -> (r: bool)
        ensures
            r == (count_occupied(self.view(), self.view().len() as int) == 0),
    {
        self.len() == 0
    }

    /// Stores `value` in the first free slot.
    pub fn add(&mut self, value: T) -> (r: Result<SocketHandle>)
        ensures
            ({
                let k = first_vacant(old(self).view(), 0);
                &&& (k >= old(self).view().len() || k > u16::MAX) ==> r == Err::<SocketHandle, Error>(
                    Error::BufferFull,
                ) && final(self).view() == old(self).view()
                &&& (k < old(self).view().len() && k <= u16::MAX) ==> r is Ok && r->Ok_0.spec_index()
                    == k && r->Ok_0.spec_generation() == old(self).view()[k].generation
                    && final(self).view() == old(self).view().update(
                    k,
                    SlotView { generation: old(self).view()[k].generation, value: Some(value) },
                )
            }),
    {
        let mut i: usize = 0;
        while i < self.storage.len() && self.storage[i].value.is_some()
            invariant
                i <= self.storage@.len(),
                self.view() == old(self).view(),
                first_vacant(self.view(), 0) == first_vacant(self.view(), i as int),
            decreases self.storage@.len() - i,
        {
            i = i + 1;
        }
        if i == self.storage.len() || i > 65535 {
            return Err(Error::BufferFull);
        }
        let generation = self.storage[i].generation;
        let ghost before = self.view();
        self.storage.set(i, SocketStorage { generation, value: Some(value) });
        assert(self.view() =~= before.update(
            i as int,
            SlotView { generation, value: Some(value) },
        ));
        Ok(SocketHandle { index: i as u16, generation })
    }

    fn check(&self, handle: SocketHandle) -> (r: Result<()>)
        ensures
            match lookup_handle(self.view(), handle) {
                Ok(_) => r is Ok,
                Err(e) => r == Err::<(), Error>(e),
            },
    {
        let idx = handle.index as usize;
        if idx >= self.storage.len() {
            return Err(Error::InvalidField);
        }
        if self.storage[idx].generation != handle.generation || self.storage[idx].value.is_none() {
            return Err(Error::InvalidState);
        }
        Ok(())
    }

    /// The socket of `handle`.
    pub fn get(&self, handle: SocketHandle) -> (r: Result<&T>)
        ensures
            match lookup_handle(self.view(), handle) {
                Ok(v) => r is Ok && *r->Ok_0 == v,
                Err(e) => r is Err && r->Err_0 == e,
            },
    {
        self.check(handle)?;
        match &self.storage[handle.index as usize].value {
            Some(v) => Ok(v),
            None => Err(Error::InvalidState),
        }
    }

    /// Mutable access to the socket of `handle`.
    pub fn get_mut(&mut self, handle: SocketHandle) -> (r: Result<&mut T>)
        ensures
            match lookup_handle(old(self).view(), handle) {
                Ok(v) => r is Ok && *r->Ok_0 == v && final(self).view() == old(self).view().update(
                    handle.spec_index() as int,
                    SlotView {
                        generation: handle.spec_generation(),
                        value: Some(*final(r->Ok_0)),
                    },
                ),
                Err(e) => r is Err && r->Err_0 == e && final(self).view() == old(self).view(),
            },
    {
        self.check(handle)?;
        let idx = handle.index as usize;
        match self.storage[idx].value.as_mut() {
            Some(v) => Ok(v),
            None => Err(Error::InvalidState),
        }
    }

    /// Removes the socket of `handle`; the slot moves to its next generation.
    pub fn remove(&mut self, handle: SocketHandle) -> (r: Result<T>)
        ensures
            match lookup_handle(old(self).view(), handle) {
                Ok(v) => r == Ok::<T, Error>(v) && final(self).view() == slots_without(
                    old(self).view(),
                    handle,
                ),
                Err(e) => r == Err::<T, Error>(e) && final(self).view() == old(self).view(),
            },
    {
        self.check(handle)?;
        let idx = handle.index as usize;
        let generation = self.storage[idx].generation;
        let next = if generation == 65535 {
            1
        } else {
            generation + 1
        };
        let ghost before = self.view();
        let mut slot = SocketStorage { generation: next, value: None };
        std::mem::swap(&mut slot, &mut self.storage[idx]);
        assert(self.view() =~= slots_without(before, handle));
        match slot.value {
            Some(v) => Ok(v),
            None => Err(Error::InvalidState),
        }
    }

    /// Handles of the live sockets, in slot order.
    pub fn handles(&self) -> (r: Vec<SocketHandle>)
        ensures
            forall|k: int|
                0 <= k < r@.len() ==> lookup_handle(self.view(), #[trigger] r@[k]) is Ok,
            forall|k: int, l: int|
                0 <= k < l < r@.len() ==> r@[k].spec_index() < r@[l].spec_index(),
            forall|j: int|
                0 <= j < self.view().len() && j <= u16::MAX && #[trigger] self.view()[j].value is Some
                    ==> exists|k: int| 0 <= k < r@.len() && r@[k].spec_index() == j,
    {
        let mut out: Vec<SocketHandle> = Vec::new();
        let mut i: usize = 0;
        while i < self.storage.len() && i <= 65535
            invariant
                i <= self.storage@.len(),
                i <= 65536,
                forall|k: int|
                    0 <= k < out@.len() ==> lookup_handle(self.view(), #[trigger] out@[k]) is Ok
                        && out@[k].spec_index() < i,
                forall|k: int, l: int|
                    0 <= k < l < out@.len() ==> out@[k].spec_index() < out@[l].spec_index(),
                forall|j: int|
                    0 <= j < i && #[trigger] self.view()[j].value is Some ==> exists|k: int|
                        0 <= k < out@.len() && out@[k].spec_index() == j,
            decreases self.storage@.len() - i,
        {
            if self.storage[i].value.is_some() {
                let ghost prev = out@;
                let h = SocketHandle { index: i as u16, generation: self.storage[i].generation };
                out.push(h);
                proof {
                    assert forall|j: int|
                        0 <= j < i + 1 && #[trigger] self.view()[j].value is Some implies exists|k: int|
                            0 <= k < out@.len() && out@[k].spec_index() == j by {
                        if j < i {
                            let k0 = choose|k0: int| 0 <= k0 < prev.len() && prev[k0].spec_index() == j;
                            assert(out@[k0] == prev[k0]);
                        } else {
                            assert(out@[out@.len() - 1].spec_index() == j);
                        }
                    }
                }
            }
            i = i + 1;
        }
        out
    }

    /// Handle of the first live socket that satisfies `predicate`.
    pub fn find(&self, predicate: impl Fn(&T) -> bool) -> (r: Option<SocketHandle>)
        requires
            forall|t: &T| #[trigger] predicate.requires((t,)),
        ensures
            match r {
                Some(h) => lookup_handle(self.view(), h) is Ok && predicate.ensures(
                    (&self.view()[h.spec_index() as int].value->0,),
                    true,
                ),
                None => forall|j: int|
                    0 <= j < self.view().len() && j <= u16::MAX && #[trigger] self.view()[j].value is Some
                        ==> predicate.ensures((&self.view()[j].value->0,), false),
            },
    {
        let mut i: usize = 0;
        while i < self.storage.len() && i <= 65535
            invariant
                i <= self.storage@.len(),
                forall|t: &T| #[trigger] predicate.requires((t,)),
                forall|j: int|
                    0 <= j < i && #[trigger] self.view()[j].value is Some ==> predicate.ensures(
                        (&self.view()[j].value->0,),
                        false,
                    ),
            decreases self.storage@.len() - i,
        {
            match &self.storage[i].value {
                Some(v) => {
                    if predicate(v) {
                        return Some(
                            SocketHandle { index: i as u16, generation: self.storage[i].generation },
                        );
                    }
                },
                None => {},
            }
            i = i + 1;
        }
        None
    }
}

/// After a socket is removed, its handle is refused, and it stays refused
/// when the slot is reused by a later `add`.
pub proof fn law_stale_handle_rejected<T>(s: Seq<SlotView<T>>, h: SocketHandle, v: T)
    requires
        lookup_handle(s, h) is Ok,
    ensures
        lookup_handle(slots_without(s, h), h) == Err::<T, Error>(Error::InvalidState),
        ({
            let s1 = slots_without(s, h);
            let k = h.spec_index() as int;
            lookup_handle(s1.update(k, SlotView { generation: s1[k].generation, value: Some(v) }), h)
                == Err::<T, Error>(Error::InvalidState)
        }),
{
}

} // verus!

verus! {

/// Alloc-backed socket set that grows on demand.
#[derive(Debug, Clone)]
pub struct OwnedSocketSet<T> {
    storage: Vec<SocketStorage<T>>,
}

impl<T> OwnedSocketSet<T> {
    pub closed spec fn view(&self) -> Seq<SlotView<T>> {
        Seq::new(self.storage@.len(), |i: int| self.storage@[i].view())
    }

    /// An empty set.
    pub fn new() -> (r: Self)
        ensures
            r.view() == Seq::<SlotView<T>>::empty(),
    {
        let r = OwnedSocketSet { storage: Vec::new() };
        assert(r.view() =~= Seq::<SlotView<T>>::empty());
        r
    }

    /// Number of live sockets.
    pub fn len(&self) -> (r: usize)
        ensures
            r == count_occupied(self.view(), self.view().len() as int),
    {
        let mut n: usize = 0;
        let mut i: usize = 0;
        while i < self.storage.len()
            invariant
                i <= self.storage@.len(),
                n == count_occupied(self.view(), i as int),
                n <= i,
            decreases self.storage@.len() - i,
        {
            if self.storage[i].value.is_some() {
                n = n + 1;
            }
            i = i + 1;
        }
        n
    }

    pub fn is_empty(&self) -> (r: bool)
        ensures
            r == (count_occupied(self.view(), self.view().len() as int) == 0),
    {
        self.len() == 0
    }

    /// Stores `value` in the first free slot, or in a new slot at the end.
    pub fn add(&mut self, value: T) -> (r: Result<SocketHandle>)
        ensures
            ({
                let s = old(self).view();
                let k = first_vacant(s, 0);
                &&& k < s.len() && k <= u16::MAX ==> r is Ok && r->Ok_0.spec_index() == k
                    && r->Ok_0.spec_generation() == s[k].generation && final(self).view()
                    == s.update(k, SlotView { generation: s[k].generation, value: Some(value) })
                &&& k < s.len() && k > u16::MAX ==> r == Err::<SocketHandle, Error>(Error::BufferFull)
                    && final(self).view() == s
                &&& k >= s.len() && s.len() > u16::MAX ==> r == Err::<SocketHandle, Error>(
                    Error::BufferFull,
                ) && final(self).view() == s
                &&& k >= s.len() && s.len() <= u16::MAX ==> r is Ok && r->Ok_0.spec_index() == s.len()
                    && r->Ok_0.spec_generation() == 1 && final(self).view() == s.push(
                    SlotView { generation: 1, value: Some(value) },
                )
            }),
    {
        let mut i: usize = 0;
        while i < self.storage.len() && self.storage[i].value.is_some()
            invariant
                i <= self.storage@.len(),
                self.view() == old(self).view(),
                first_vacant(self.view(), 0) == first_vacant(self.view(), i as int),
            decreases self.storage@.len() - i,
        {
            i = i + 1;
        }
        let ghost before = self.view();
        if i < self.storage.len() {
            if i > 65535 {
                return Err(Error::BufferFull);
            }
            let generation = self.storage[i].generation;
            self.storage.set(i, SocketStorage { generation, value: Some(value) });
            assert(self.view() =~= before.update(
                i as int,
                SlotView { generation, value: Some(value) },
            ));
            return Ok(SocketHandle { index: i as u16, generation });
        }
        if self.storage.len() > 65535 {
            return Err(Error::BufferFull);
        }
        let index = self.storage.len();
        self.storage.push(SocketStorage { generation: 1, value: Some(value) });
        assert(self.view() =~= before.push(SlotView { generation: 1, value: Some(value) }));
        Ok(SocketHandle { index: index as u16, generation: 1 })
    }

    fn check(&self, handle: SocketHandle) -> (r: Result<()>)
        ensures
            match lookup_handle(self.view(), handle) {
                Ok(_) => r is Ok,
                Err(e) => r == Err::<(), Error>(e),
            },
    {
        let idx = handle.index as usize;
        if idx >= self.storage.len() {
            return Err(Error::InvalidField);
        }
        if self.storage[idx].generation != handle.generation || self.storage[idx].value.is_none() {
            return Err(Error::InvalidState);
        }
        Ok(())
    }

    /// The socket of `handle`.
    pub fn get(&self, handle: SocketHandle) -> (r: Result<&T>)
        ensures
            match lookup_handle(self.view(), handle) {
                Ok(v) => r is Ok && *r->Ok_0 == v,
                Err(e) => r is Err && r->Err_0 == e,
            },
    {
        self.check(handle)?;
        match &self.storage[handle.index as usize].value {
            Some(v) => Ok(v),
            None => Err(Error::InvalidState),
        }
    }

    /// Mutable access to the socket of `handle`.
    pub fn get_mut(&mut self, handle: SocketHandle) -> (r: Result<&mut T>)
        ensures
            match lookup_handle(old(self).view(), handle) {
                Ok(v) => r is Ok && *r->Ok_0 == v && final(self).view() == old(self).view().update(
                    handle.spec_index() as int,
                    SlotView {
                        generation: handle.spec_generation(),
                        value: Some(*final(r->Ok_0)),
                    },
                ),
                Err(e) => r is Err && r->Err_0 == e && final(self).view() == old(self).view(),
            },
    {
        self.check(handle)?;
        let idx = handle.index as usize;
        match self.storage[idx].value.as_mut() {
            Some(v) => Ok(v),
            None => Err(Error::InvalidState),
        }
    }

    /// Removes the socket of `handle`; the slot moves to its next generation.
    pub fn remove(&mut self, handle: SocketHandle) -> (r: Result<T>)
        ensures
            match lookup_handle(old(self).view(), handle) {
                Ok(v) => r == Ok::<T, Error>(v) && final(self).view() == slots_without(
                    old(self).view(),
                    handle,
                ),
                Err(e) => r == Err::<T, Error>(e) && final(self).view() == old(self).view(),
            },
    {
        self.check(handle)?;
        let idx = handle.index as usize;
        let generation = self.storage[idx].generation;
        let next = if generation == 65535 {
            1
        } else {
            generation + 1
        };
        let ghost before = self.view();
        let mut slot = SocketStorage { generation: next, value: None };
        std::mem::swap(&mut slot, &mut self.storage[idx]);
        assert(self.view() =~= slots_without(before, handle));
        match slot.value {
            Some(v) => Ok(v),
            None => Err(Error::InvalidState),
        }
    }

    /// Handles of the live sockets, in slot order.
    pub fn handles(&self) -> (r: Vec<SocketHandle>)
        ensures
            forall|k: int|
                0 <= k < r@.len() ==> lookup_handle(self.view(), #[trigger] r@[k]) is Ok,
            forall|k: int, l: int|
                0 <= k < l < r@.len() ==> r@[k].spec_index() < r@[l].spec_index(),
            forall|j: int|
                0 <= j < self.view().len() && j <= u16::MAX && #[trigger] self.view()[j].value is Some
                    ==> exists|k: int| 0 <= k < r@.len() && r@[k].spec_index() == j,
    {
        let mut out: Vec<SocketHandle> = Vec::new();
        let mut i: usize = 0;
        while i < self.storage.len() && i <= 65535
            invariant
                i <= self.storage@.len(),
                i <= 65536,
                forall|k: int|
                    0 <= k < out@.len() ==> lookup_handle(self.view(), #[trigger] out@[k]) is Ok
                        && out@[k].spec_index() < i,
                forall|k: int, l: int|
                    0 <= k < l < out@.len() ==> out@[k].spec_index() < out@[l].spec_index(),
                forall|j: int|
                    0 <= j < i && #[trigger] self.view()[j].value is Some ==> exists|k: int|
                        0 <= k < out@.len() && out@[k].spec_index() == j,
            decreases self.storage@.len() - i,
        {
            if self.storage[i].value.is_some() {
                let ghost prev = out@;
                let h = SocketHandle { index: i as u16, generation: self.storage[i].generation };
                out.push(h);
                proof {
                    assert forall|j: int|
                        0 <= j < i + 1 && #[trigger] self.view()[j].value is Some implies exists|k: int|
                            0 <= k < out@.len() && out@[k].spec_index() == j by {
                        if j < i {
                            let k0 = choose|k0: int| 0 <= k0 < prev.len() && prev[k0].spec_index() == j;
                            assert(out@[k0] == prev[k0]);
                        } else {
                            assert(out@[out@.len() - 1].spec_index() == j);
                        }
                    }
                }
            }
            i = i + 1;
        }
        out
    }

    /// Handle of the first live socket that satisfies `predicate`.
    pub fn find(&self, predicate: impl Fn(&T) -> bool) -> (r: Option<SocketHandle>)
        requires
            forall|t: &T| #[trigger] predicate.requires((t,)),
        ensures
            match r {
                Some(h) => lookup_handle(self.view(), h) is Ok && predicate.ensures(
                    (&self.view()[h.spec_index() as int].value->0,),
                    true,
                ),
                None => forall|j: int|
                    0 <= j < self.view().len() && j <= u16::MAX && #[trigger] self.view()[j].value is Some
                        ==> predicate.ensures((&self.view()[j].value->0,), false),
            },
    {
        let mut i: usize = 0;
        while i < self.storage.len() && i <= 65535
            invariant
                i <= self.storage@.len(),
                forall|t: &T| #[trigger] predicate.requires((t,)),
                forall|j: int|
                    0 <= j < i && #[trigger] self.view()[j].value is Some ==> predicate.ensures(
                        (&self.view()[j].value->0,),
                        false,
                    ),
            decreases self.storage@.len() - i,
        {
            match &self.storage[i].value {
                Some(v) => {
                    if predicate(v) {
                        return Some(
                            SocketHandle { index: i as u16, generation: self.storage[i].generation },
                        );
                    }
                },
                None => {},
            }
            i = i + 1;
        }
        None
    }
}

} // verus!
