//! Generational object storage, entity ids and event queues.
//!
//! An [`ObjectBuffer`] is a fixed row of slots.  Each slot counts the
//! allocations made in it (its generation); an [`ObjectRef`] names a slot and
//! the generation it was made for, so a reference to an object that has been
//! freed, or whose slot was reused, no longer resolves.
use vstd::prelude::*;
use std::collections::VecDeque;

verus! {

/// One slot of an [`ObjectBuffer`].
#[derive(Clone, Debug)]
pub struct ObjectSlot<T> {
    pub value: Option<T>,
    pub generation: u64,
}

impl<T> Default for ObjectSlot<T> {
    fn default() -> (r: Self)
        ensures
            r.value is None,
            r.generation == 0,
    {
        ObjectSlot { value: None, generation: 0 }
    }
}

/// A row of slots, and the deletions that wait for [`ObjectBuffer::run_free_queue`].
/// The buffer's id, given when it is made, is recorded in every reference it
/// makes; a reference made by a buffer of another id does not resolve here.
#[derive(Debug)]
pub struct ObjectBuffer<T> {
    pub buffer: Vec<ObjectSlot<T>>,
    /// Deferred deletions, each recorded as `(generation, index)`.
    pub free_queue: Vec<(u64, u64)>,
    /// The buffer's id, recorded in the references it makes.
    pub id: u64,
}

/// A reference to the object made in slot `idx` at generation `generation`
/// by the buffer whose id is `owner`.  A reference that belongs to no buffer
/// (`parent` false) never resolves.
#[derive(Clone, Copy, Debug)]
pub struct ObjectRef {
    idx: u64,
    generation: u64,
    parent: bool,
    owner: u64,
}

/// Shared access to a live object.
pub struct ObjectRead<'a, T> {
    pub value: &'a T,
}

/// Exclusive access to a live object.
pub struct ObjectWrite<'a, T> {
    pub value: &'a mut T,
}

impl ObjectRef {
    pub closed spec fn index(self) -> u64 {
        self.idx
    }

    pub closed spec fn gen(self) -> u64 {
        self.generation
    }

    pub closed spec fn bound(self) -> bool {
        self.parent
    }

    /// The id of the buffer that made the reference.
    pub closed spec fn owner(self) -> u64 {
        self.owner
    }
}

impl<T> ObjectBuffer<T> {
    /// The buffer's id.
    pub open spec fn id(&self) -> u64 {
        self.id
    }
}

/// The reference to slot `i` at generation `g` of the buffer with id `id`.
pub closed spec fn reference_to(id: u64, i: int, g: u64) -> ObjectRef {
    ObjectRef { idx: i as u64, generation: g, parent: true, owner: id }
}

/// What [`reference_to`] names.
pub proof fn lemma_reference_to(id: u64, i: int, g: u64)
    ensures
        reference_to(id, i, g).index() == i as u64,
        reference_to(id, i, g).gen() == g,
        reference_to(id, i, g).bound(),
        reference_to(id, i, g).owner() == id,
{
}

/// Whether `rf` names the live object of its slot in the buffer with id `id`
/// and slots `slots`.
pub open spec fn resolves<T>(id: u64, slots: Seq<ObjectSlot<T>>, rf: ObjectRef) -> bool {
    &&& rf.bound()
    &&& rf.owner() == id
    &&& rf.index() < slots.len()
    &&& slots[rf.index() as int].generation == rf.gen()
    &&& slots[rf.index() as int].value is Some
}

/// The object that `rf` names (meaningful where it resolves).
pub open spec fn target<T>(slots: Seq<ObjectSlot<T>>, rf: ObjectRef) -> T {
    slots[rf.index() as int].value->Some_0
}

/// The first free slot from index 1 on, if there is one: slot 0 is never
/// handed out, so that index 0 can mean "no object".
pub open spec fn first_free<T>(slots: Seq<ObjectSlot<T>>) -> Option<int> {
    if exists|i: int|
        1 <= i < slots.len() && slots[i].value is None && forall|j: int|
            1 <= j < i ==> slots[j].value is Some {
        Some(
            choose|i: int|
                1 <= i < slots.len() && slots[i].value is None && forall|j: int|
                    1 <= j < i ==> slots[j].value is Some,
        )
    } else {
        None
    }
}

/// `n` empty slots of generation 0.
pub open spec fn empty_slots<T>(n: nat) -> Seq<ObjectSlot<T>> {
    Seq::new(n, |i: int| ObjectSlot { value: None, generation: 0 })
}

impl<T> ObjectBuffer<T> {
    /// A buffer of 32000 empty slots, with id `id`.
    pub fn new(id: u64) -> (r: Self)
        ensures
            r.buffer@ == empty_slots::<T>(32000),
            r.free_queue@.len() == 0,
            r.id() == id,
    {
        Self::new_capacity(32000, id)
    }

    /// A buffer of `capacity` empty slots, with id `id`.
    pub fn new_capacity(capacity: usize, id: u64) -> (r: Self)
        ensures
            r.buffer@ == empty_slots::<T>(capacity as nat),
            r.free_queue@.len() == 0,
            r.id() == id,
    {
        let mut buf: Vec<ObjectSlot<T>> = Vec::new();
        let mut i: usize = 0;
        while i < capacity
            invariant
                i <= capacity,
                buf@ == empty_slots::<T>(i as nat),
            decreases capacity - i,
        {
            proof {
                assert(buf@.push(ObjectSlot { value: None, generation: 0 }) =~= empty_slots::<T>((i + 1) as nat));
            }
            buf.push(ObjectSlot { value: None, generation: 0 });
            i = i + 1;
        }
        ObjectBuffer { buffer: buf, free_queue: Vec::new(), id }
    }

    /// Stores `item` in the first free slot from index 1 on, one generation
    /// later than the slot's last; gives the item back when no slot is free.
    pub fn allocate_object(&mut self, item: T) -> (r: Result<ObjectRef, T>)
        ensures
            final(self).id() == old(self).id(),
            final(self).free_queue == old(self).free_queue,
            match first_free(old(self).buffer@) {
                Some(k) => {
                    let g = vstd::wrapping::u64_specs::wrapping_add(old(self).buffer@[k].generation, 1);
                    &&& r is Ok
                    &&& r->Ok_0.index() == k
                    &&& r->Ok_0.gen() == g
                    &&& r->Ok_0.bound()
                    &&& r->Ok_0.owner() == old(self).id()
                    &&& final(self).buffer@ == old(self).buffer@.update(
                        k,
                        ObjectSlot { value: Some(item), generation: g },
                    )
                },
                None => {
                    &&& r == Err::<ObjectRef, T>(item)
                    &&& final(self).buffer@ == old(self).buffer@
                    &&& forall|j: int| 1 <= j < old(self).buffer@.len() ==> old(self).buffer@[j].value is Some
                },
            },
    {
        let len = self.buffer.len();
        let mut i: usize = 1;
        while i < len
            invariant
                self.id == old(self).id,
                1 <= i,
                len == self.buffer@.len(),
                self.buffer == old(self).buffer,
                self.free_queue == old(self).free_queue,
                forall|j: int| 1 <= j < i ==> self.buffer@[j].value is Some,
            decreases len - i,
        {
            if self.buffer[i].value.is_none() {
                let g = self.buffer[i].generation.wrapping_add(1);
                proof {
                    let k = first_free(self.buffer@)->Some_0;
                    assert(first_free(self.buffer@) is Some);
                    assert(k == i) by {
                        if k < i {
                        } else if k > i {
                        }
                    }
                }
                self.buffer.set(i, ObjectSlot { value: Some(item), generation: g });
                return Ok(ObjectRef { idx: i as u64, generation: g, parent: true, owner: self.id });
            }
            i = i + 1;
        }
        proof {
            if first_free(self.buffer@) is Some {
                let k = first_free(self.buffer@)->Some_0;
                assert(self.buffer@[k].value is Some);
            }
        }
        Err(item)
    }

    /// The live object that `rf` names; `None` for a reference made by
    /// another buffer, and for one whose object is gone.
    pub fn get_object<'a>(&'a self, rf: &ObjectRef) -> (r: Option<ObjectRead<'a, T>>)
        ensures
            resolves(self.id(), self.buffer@, *rf) ==> r is Some && *r->Some_0.value == target(self.buffer@, *rf),
            !resolves(self.id(), self.buffer@, *rf) ==> r is None,
    {
        if !rf.parent || rf.owner != self.id || rf.idx >= self.buffer.len() as u64 {
            return None;
        }
        let slot = &self.buffer[rf.idx as usize];
        if slot.generation != rf.generation {
            return None;
        }
        match &slot.value {
            Some(v) => Some(ObjectRead { value: v }),
            None => None,
        }
    }

    /// Exclusive access to the live object that `rf` names; `None` (and no
    /// change) for a reference made by another buffer, and for one whose
    /// object is gone.
    pub fn get_object_mut<'a>(&'a mut self, rf: &ObjectRef) -> (r: Option<ObjectWrite<'a, T>>)
        ensures
            final(self).id() == old(self).id(),
            resolves(old(self).id(), old(self).buffer@, *rf) ==> {
                &&& r is Some
                &&& *r->Some_0.value == target(old(self).buffer@, *rf)
                &&& final(self).buffer@ == old(self).buffer@.update(
                    rf.index() as int,
                    ObjectSlot { value: Some(*final(r->Some_0.value)), generation: rf.gen() },
                )
            },
            !resolves(old(self).id(), old(self).buffer@, *rf) ==> r is None && final(self).buffer@ == old(self).buffer@,
            final(self).free_queue == old(self).free_queue,
    {
        if !rf.parent || rf.owner != self.id || rf.idx >= self.buffer.len() as u64 {
            return None;
        }
        let i = rf.idx as usize;
        if self.buffer[i].generation != rf.generation || self.buffer[i].value.is_none() {
            return None;
        }
        match &mut self.buffer[i].value {
            Some(v) => Some(ObjectWrite { value: v }),
            None => None,
        }
    }
}


/// Whether some entry `(a, b)` of `queue` names slot `i` at its generation.
pub open spec fn queued_for<T>(queue: Seq<(u64, u64)>, slots: Seq<ObjectSlot<T>>, i: int) -> bool {
    exists|j: int| 0 <= j < queue.len() && queue[j].0 == i && queue[j].1 == slots[i].generation
}

/// The slots after every queue entry `(a, b)` has freed the object in slot
/// `a` if that slot is at generation `b`; generations do not change.
pub open spec fn after_free_queue<T>(slots: Seq<ObjectSlot<T>>, queue: Seq<(u64, u64)>) -> Seq<ObjectSlot<T>> {
    Seq::new(
        slots.len(),
        |i: int|
            if queued_for(queue, slots, i) {
                ObjectSlot { value: None, generation: slots[i].generation }
            } else {
                slots[i]
            },
    )
}

/// The first occupied slot at index `from` or later.
pub open spec fn next_occupied<T>(slots: Seq<ObjectSlot<T>>, from: int) -> Option<int> {
    if exists|k: int|
        from <= k < slots.len() && slots[k].value is Some && forall|j: int|
            from <= j < k ==> slots[j].value is None {
        Some(
            choose|k: int|
                from <= k < slots.len() && slots[k].value is Some && forall|j: int|
                    from <= j < k ==> slots[j].value is None,
        )
    } else {
        None
    }
}

/// Where an iterator at `idx` stands once no occupied slot is left.
pub open spec fn exhausted_index(idx: u64, len: nat) -> u64 {
    if idx < len {
        len as u64
    } else {
        idx
    }
}

impl<T> ObjectBuffer<T> {
    /// Same as [`ObjectBuffer::get_object`]: with exclusive access to the
    /// buffer no slot is ever held elsewhere, so the attempt never gives up.
    pub fn try_get_object<'a>(&'a self, rf: &ObjectRef) -> (r: Option<ObjectRead<'a, T>>)
        ensures
            resolves(self.id(), self.buffer@, *rf) ==> r is Some && *r->Some_0.value == target(self.buffer@, *rf),
            !resolves(self.id(), self.buffer@, *rf) ==> r is None,
    {
        self.get_object(rf)
    }

    /// Same as [`ObjectBuffer::get_object_mut`] (see [`ObjectBuffer::try_get_object`]).
    pub fn try_get_object_mut<'a>(&'a mut self, rf: &ObjectRef) -> (r: Option<ObjectWrite<'a, T>>)
        ensures
            final(self).id() == old(self).id(),
            resolves(old(self).id(), old(self).buffer@, *rf) ==> {
                &&& r is Some
                &&& *r->Some_0.value == target(old(self).buffer@, *rf)
                &&& final(self).buffer@ == old(self).buffer@.update(
                    rf.index() as int,
                    ObjectSlot { value: Some(*final(r->Some_0.value)), generation: rf.gen() },
                )
            },
            !resolves(old(self).id(), old(self).buffer@, *rf) ==> r is None && final(self).buffer@ == old(self).buffer@,
            final(self).free_queue == old(self).free_queue,
    {
        self.get_object_mut(rf)
    }

    /// Frees the object that `rf` names, at once; the slot keeps its
    /// generation.  Does nothing when `rf` does not resolve, a reference made
    /// by another buffer included.
    pub fn deallocate_object_immediate(&mut self, rf: &ObjectRef)
        ensures
            final(self).id() == old(self).id(),
            final(self).free_queue == old(self).free_queue,
            resolves(old(self).id(), old(self).buffer@, *rf) ==> final(self).buffer@ == old(self).buffer@.update(
                rf.index() as int,
                ObjectSlot { value: None, generation: rf.gen() },
            ),
            !resolves(old(self).id(), old(self).buffer@, *rf) ==> final(self).buffer@ == old(self).buffer@,
    {
        if !rf.parent || rf.owner != self.id || rf.idx >= self.buffer.len() as u64 {
            return;
        }
        let i = rf.idx as usize;
        if self.buffer[i].generation != rf.generation || self.buffer[i].value.is_none() {
            return;
        }
        self.buffer.set(i, ObjectSlot { value: None, generation: rf.generation });
    }

    /// Records a deferred deletion as the pair `(generation, index)`.
    pub fn deallocate_object(&mut self, rf: &ObjectRef)
        ensures
            final(self).id() == old(self).id(),
            final(self).buffer == old(self).buffer,
            final(self).free_queue@ == old(self).free_queue@.push((rf.gen(), rf.index())),
    {
        self.free_queue.push((rf.generation, rf.idx));
    }

    /// Applies each queued entry `(a, b)` as a reference to slot `a` at
    /// generation `b`, freeing the objects that resolve, then empties the
    /// queue.
    pub fn run_free_queue(&mut self)
        ensures
            final(self).id() == old(self).id(),
            final(self).buffer@ == after_free_queue(old(self).buffer@, old(self).free_queue@),
            final(self).free_queue@.len() == 0,
    {
        let n = self.free_queue.len();
        let ghost slots = self.buffer@;
        let ghost queue = self.free_queue@;
        let mut j: usize = 0;
        proof {
            assert(after_free_queue(slots, queue.take(0)) =~= slots);
        }
        while j < n
            invariant
                self.id == old(self).id,
                j <= n,
                n == queue.len(),
                self.free_queue@ == queue,
                self.buffer@ == after_free_queue(slots, queue.take(j as int)),
            decreases n - j,
        {
            let (a, b) = self.free_queue[j];
            let rf = ObjectRef { idx: a, generation: b, parent: true, owner: self.id };
            self.deallocate_object_immediate(&rf);
            proof {
                let q0 = queue.take(j as int);
                let q1 = queue.take(j + 1);
                assert(q1 =~= q0.push((a, b)));
                assert forall|i: int| 0 <= i < slots.len() implies #[trigger] queued_for(q1, slots, i)
                    == (queued_for(q0, slots, i) || (i == a && b == slots[i].generation)) by {
                    if queued_for(q1, slots, i) && !(i == a && b == slots[i].generation) {
                        let w = choose|w: int| 0 <= w < q1.len() && q1[w].0 == i && q1[w].1 == slots[i].generation;
                        assert(w < q0.len());
                        assert(q0[w] == q1[w]);
                    }
                    if queued_for(q0, slots, i) {
                        let w = choose|w: int| 0 <= w < q0.len() && q0[w].0 == i && q0[w].1 == slots[i].generation;
                        assert(q1[w] == q0[w]);
                    }
                    if i == a && b == slots[i].generation {
                        assert(q1[j as int] == (a, b));
                    }
                }
                assert(self.buffer@ =~= after_free_queue(slots, q1));
            }
            j = j + 1;
        }
        proof {
            assert(queue.take(n as int) =~= queue);
        }
        self.free_queue.clear();
    }

    /// Puts `value` in slot `idx` at generation `generation`, whatever the
    /// slot held, and gives a reference to it; gives `None` (and drops the
    /// value) when `idx` is past the end of the buffer.
    pub fn unsafe_allocate_object_at(&mut self, idx: u64, generation: u64, value: T) -> (r: Option<ObjectRef>)
        requires
            idx != old(self).buffer@.len(),
        ensures
            final(self).id() == old(self).id(),
            final(self).free_queue == old(self).free_queue,
            idx > old(self).buffer@.len() ==> r is None && final(self).buffer@ == old(self).buffer@,
            idx < old(self).buffer@.len() ==> {
                &&& r is Some
                &&& r->Some_0.index() == idx
                &&& r->Some_0.gen() == generation
                &&& r->Some_0.bound()
                &&& r->Some_0.owner() == old(self).id()
                &&& final(self).buffer@ == old(self).buffer@.update(
                    idx as int,
                    ObjectSlot { value: Some(value), generation },
                )
            },
    {
        if idx > self.buffer.len() as u64 {
            return None;
        }
        self.buffer.set(idx as usize, ObjectSlot { value: Some(value), generation });
        Some(ObjectRef { idx, generation, parent: true, owner: self.id })
    }

    /// A reference to slot `idx` at generation `generation` of this buffer.
    pub fn unsafe_construct_reference(&self, idx: u64, generation: u64) -> (r: ObjectRef)
        ensures
            r.index() == idx,
            r.gen() == generation,
            r.bound(),
            r.owner() == self.id(),
    {
        ObjectRef { idx, generation, parent: true, owner: self.id }
    }

    /// A reference to slot `i` at its present generation.
    pub fn slot_reference(&self, i: usize) -> (r: ObjectRef)
        requires
            i < self.buffer@.len(),
        ensures
            r.index() == i,
            r.gen() == self.buffer@[i as int].generation,
            r.bound(),
            r.owner() == self.id(),
    {
        ObjectRef { idx: i as u64, generation: self.buffer[i].generation, parent: true, owner: self.id }
    }

    /// An iterator over the live objects, from slot 0 on.
    pub fn iter(&self) -> (r: ObjectIterator)
        ensures
            r.idx == 0,
    {
        ObjectIterator { idx: 0 }
    }

    /// An iterator over the live objects that skips slots held elsewhere; with
    /// exclusive access it visits the same objects as [`ObjectBuffer::iter`].
    pub fn iter_non_blocking(&self) -> (r: ObjectIteratorNonBlocking)
        ensures
            r.idx == 0,
    {
        ObjectIteratorNonBlocking { idx: 0 }
    }

    /// An iterator over the live objects, giving exclusive access to each.
    pub fn iter_mut(&self) -> (r: ObjectIteratorMut)
        ensures
            r.idx == 0,
    {
        ObjectIteratorMut { idx: 0 }
    }

    /// The exclusive iterator that skips slots held elsewhere.
    pub fn iter_mut_non_blocking(&self) -> (r: ObjectIteratorMutNonBlocking)
        ensures
            r.idx == 0,
    {
        ObjectIteratorMutNonBlocking { idx: 0 }
    }

    /// Runs `to_run` on each live object, in slot order.
    pub fn for_each<F: Fn(&T)>(&self, to_run: F)
        requires
            forall|i: int|
                0 <= i < self.buffer@.len() && self.buffer@[i].value is Some ==> to_run.requires(
                    (&self.buffer@[i].value->Some_0,),
                ),
    {
        let len = self.buffer.len();
        let mut i: usize = 0;
        while i < len
            invariant
                len == self.buffer@.len(),
                i <= len,
                forall|k: int|
                    0 <= k < self.buffer@.len() && self.buffer@[k].value is Some ==> to_run.requires(
                        (&self.buffer@[k].value->Some_0,),
                    ),
            decreases len - i,
        {
            match &self.buffer[i].value {
                Some(v) => {
                    to_run(v);
                },
                None => {},
            }
            i = i + 1;
        }
    }

    /// Replaces each live object `v` by `to_run(&v)`; free slots and all
    /// generations stay as they are.
    pub fn for_each_mut<F: Fn(&T) -> T>(&mut self, to_run: F)
        requires
            forall|i: int|
                0 <= i < old(self).buffer@.len() && old(self).buffer@[i].value is Some ==> to_run.requires(
                    (&old(self).buffer@[i].value->Some_0,),
                ),
        ensures
            final(self).id() == old(self).id(),
            final(self).free_queue == old(self).free_queue,
            final(self).buffer@.len() == old(self).buffer@.len(),
            forall|i: int|
                0 <= i < old(self).buffer@.len() ==> {
                    &&& #[trigger] final(self).buffer@[i].generation == old(self).buffer@[i].generation
                    &&& (final(self).buffer@[i].value is Some <==> old(self).buffer@[i].value is Some)
                    &&& old(self).buffer@[i].value is Some ==> to_run.ensures(
                        (&old(self).buffer@[i].value->Some_0,),
                        final(self).buffer@[i].value->Some_0,
                    )
                },
    {
        let len = self.buffer.len();
        let mut i: usize = 0;
        while i < len
            invariant
                self.id == old(self).id,
                len == self.buffer@.len(),
                len == old(self).buffer@.len(),
                i <= len,
                self.free_queue == old(self).free_queue,
                forall|k: int|
                    0 <= k < old(self).buffer@.len() && old(self).buffer@[k].value is Some
                        ==> to_run.requires((&old(self).buffer@[k].value->Some_0,)),
                forall|k: int| i <= k < len ==> #[trigger] self.buffer@[k] == old(self).buffer@[k],
                forall|k: int|
                    0 <= k < i ==> {
                        &&& #[trigger] self.buffer@[k].generation == old(self).buffer@[k].generation
                        &&& (self.buffer@[k].value is Some <==> old(self).buffer@[k].value is Some)
                        &&& old(self).buffer@[k].value is Some ==> to_run.ensures(
                            (&old(self).buffer@[k].value->Some_0,),
                            self.buffer@[k].value->Some_0,
                        )
                    },
            decreases len - i,
        {
            let ghost before = self.buffer@;
            let replaced = match &self.buffer[i].value {
                Some(v) => Some(to_run(v)),
                None => None,
            };
            match replaced {
                Some(nv) => {
                    let g = self.buffer[i].generation;
                    self.buffer.set(i, ObjectSlot { value: Some(nv), generation: g });
                    assert(to_run.ensures((&old(self).buffer@[i as int].value->Some_0,), self.buffer@[i as int].value->Some_0));
                },
                None => {},
            }
            assert forall|k: int| 0 <= k < i + 1 implies {
                &&& #[trigger] self.buffer@[k].generation == old(self).buffer@[k].generation
                &&& (self.buffer@[k].value is Some <==> old(self).buffer@[k].value is Some)
                &&& old(self).buffer@[k].value is Some ==> to_run.ensures(
                    (&old(self).buffer@[k].value->Some_0,),
                    self.buffer@[k].value->Some_0,
                )
            } by {
                if k < i {
                    assert(self.buffer@[k] == before[k]);
                }
            }
            i = i + 1;
        }
        assert forall|k: int| 0 <= k < old(self).buffer@.len() implies {
            &&& #[trigger] self.buffer@[k].generation == old(self).buffer@[k].generation
            &&& (self.buffer@[k].value is Some <==> old(self).buffer@[k].value is Some)
            &&& old(self).buffer@[k].value is Some ==> to_run.ensures(
                (&old(self).buffer@[k].value->Some_0,),
                self.buffer@[k].value->Some_0,
            )
        } by {
            assert(k < i);
        }
    }

    /// Replaces each live object `v` in slot `i` by `to_run(r, &v)`, where
    /// `r` references slot `i` at its generation; free slots and generations
    /// stay as they are.
    pub fn update<F: Fn(ObjectRef, &T) -> T>(&mut self, to_run: F)
        requires
            forall|i: int|
                0 <= i < old(self).buffer@.len() && old(self).buffer@[i].value is Some ==> to_run.requires(
                    (reference_to(old(self).id(), i, old(self).buffer@[i].generation), &old(self).buffer@[i].value->Some_0),
                ),
        ensures
            final(self).id() == old(self).id(),
            final(self).free_queue == old(self).free_queue,
            final(self).buffer@.len() == old(self).buffer@.len(),
            forall|i: int|
                0 <= i < old(self).buffer@.len() ==> {
                    &&& #[trigger] final(self).buffer@[i].generation == old(self).buffer@[i].generation
                    &&& (final(self).buffer@[i].value is Some <==> old(self).buffer@[i].value is Some)
                    &&& old(self).buffer@[i].value is Some ==> to_run.ensures(
                        (reference_to(old(self).id(), i, old(self).buffer@[i].generation), &old(self).buffer@[i].value->Some_0),
                        final(self).buffer@[i].value->Some_0,
                    )
                },
    {
        let len = self.buffer.len();
        let mut i: usize = 0;
        while i < len
            invariant
                self.id == old(self).id,
                len == self.buffer@.len(),
                len == old(self).buffer@.len(),
                i <= len,
                self.free_queue == old(self).free_queue,
                forall|k: int|
                    0 <= k < old(self).buffer@.len() && old(self).buffer@[k].value is Some ==> to_run.requires(
                        (reference_to(old(self).id(), k, old(self).buffer@[k].generation), &old(self).buffer@[k].value->Some_0),
                    ),
                forall|k: int| i <= k < len ==> #[trigger] self.buffer@[k] == old(self).buffer@[k],
                forall|k: int|
                    0 <= k < i ==> {
                        &&& #[trigger] self.buffer@[k].generation == old(self).buffer@[k].generation
                        &&& (self.buffer@[k].value is Some <==> old(self).buffer@[k].value is Some)
                        &&& old(self).buffer@[k].value is Some ==> to_run.ensures(
                            (reference_to(old(self).id(), k, old(self).buffer@[k].generation), &old(self).buffer@[k].value->Some_0),
                            self.buffer@[k].value->Some_0,
                        )
                    },
            decreases len - i,
        {
            let ghost before = self.buffer@;
            let rf = ObjectRef { idx: i as u64, generation: self.buffer[i].generation, parent: true, owner: self.id };
            assert(rf == reference_to(old(self).id(), i as int, old(self).buffer@[i as int].generation));
            let replaced = match &self.buffer[i].value {
                Some(v) => Some(to_run(rf, v)),
                None => None,
            };
            match replaced {
                Some(nv) => {
                    let g = self.buffer[i].generation;
                    self.buffer.set(i, ObjectSlot { value: Some(nv), generation: g });
                },
                None => {},
            }
            assert forall|k: int| 0 <= k < i + 1 implies {
                &&& #[trigger] self.buffer@[k].generation == old(self).buffer@[k].generation
                &&& (self.buffer@[k].value is Some <==> old(self).buffer@[k].value is Some)
                &&& old(self).buffer@[k].value is Some ==> to_run.ensures(
                    (reference_to(old(self).id(), k, old(self).buffer@[k].generation), &old(self).buffer@[k].value->Some_0),
                    self.buffer@[k].value->Some_0,
                )
            } by {
                if k < i {
                    assert(self.buffer@[k] == before[k]);
                }
            }
            i = i + 1;
        }
        assert forall|k: int| 0 <= k < old(self).buffer@.len() implies {
            &&& #[trigger] self.buffer@[k].generation == old(self).buffer@[k].generation
            &&& (self.buffer@[k].value is Some <==> old(self).buffer@[k].value is Some)
            &&& old(self).buffer@[k].value is Some ==> to_run.ensures(
                (reference_to(old(self).id(), k, old(self).buffer@[k].generation), &old(self).buffer@[k].value->Some_0),
                self.buffer@[k].value->Some_0,
            )
        } by {
            assert(k < i);
        }
    }

    /// The number of slots.
    pub fn object_capacity(&self) -> (r: usize)
        ensures
            r == self.buffer@.len(),
    {
        self.buffer.len()
    }

    /// Queues the deletion of slot `at` at generation `generation`, recorded
    /// like [`ObjectBuffer::deallocate_object`] does.
    pub fn delete_object(&mut self, at: u64, generation: u64)
        ensures
            final(self).id() == old(self).id(),
            final(self).buffer == old(self).buffer,
            final(self).free_queue@ == old(self).free_queue@.push((generation, at)),
    {
        let rf = ObjectRef { idx: at, generation, parent: true, owner: self.id };
        self.deallocate_object(&rf);
    }

    /// Runs the queued deletions (see [`ObjectBuffer::run_free_queue`]).
    pub fn run_delete_queue(&mut self)
        ensures
            final(self).id() == old(self).id(),
            final(self).buffer@ == after_free_queue(old(self).buffer@, old(self).free_queue@),
            final(self).free_queue@.len() == 0,
    {
        self.run_free_queue();
    }
}

/// Iterators over the live objects of a buffer; each holds the index of the
/// next slot to look at, and is advanced with the buffer it was made from.
pub struct ObjectIterator {
    pub idx: u64,
}

pub struct ObjectIteratorNonBlocking {
    pub idx: u64,
}

pub struct ObjectIteratorMut {
    pub idx: u64,
}

pub struct ObjectIteratorMutNonBlocking {
    pub idx: u64,
}

fn scan_from<T>(slots: &Vec<ObjectSlot<T>>, from: u64) -> (r: (Option<usize>, u64))
    ensures
        r.0 is Some ==> r.0->Some_0 < slots@.len() && slots@[r.0->Some_0 as int].value is Some,
        match next_occupied(slots@, from as int) {
            Some(k) => r.0 is Some && r.0->Some_0 as int == k && r.1 == k + 1,
            None => r.0 is None && r.1 == exhausted_index(from, slots@.len()),
        },
{
    let len = slots.len();
    let mut idx = from;
    while idx < len as u64
        invariant
            len == slots@.len(),
            from <= idx,
            from < len ==> idx <= len,
            idx > from ==> from < len,
            forall|j: int| from <= j < idx ==> slots@[j].value is None,
        decreases len - idx,
    {
        let i = idx as usize;
        idx = idx + 1;
        if slots[i].value.is_some() {
            proof {
                let k = next_occupied(slots@, from as int)->Some_0;
                assert(next_occupied(slots@, from as int) is Some);
                assert(k == i) by {
                    if k < i {
                    } else if k > i {
                    }
                }
            }
            return (Some(i), idx);
        }
    }
    proof {
        if next_occupied(slots@, from as int) is Some {
            let k = next_occupied(slots@, from as int)->Some_0;
            assert(slots@[k].value is Some);
        }
    }
    (None, idx)
}

impl ObjectIterator {
    /// The next live object at or after the iterator's index; the iterator
    /// then stands just past it (or at the end when there is none).
    pub fn next<'a, T>(&mut self, parent: &'a ObjectBuffer<T>) -> (r: Option<ObjectRead<'a, T>>)
        ensures
            match next_occupied(parent.buffer@, old(self).idx as int) {
                Some(k) => r is Some && *r->Some_0.value == parent.buffer@[k].value->Some_0
                    && final(self).idx == k + 1,
                None => r is None && final(self).idx == exhausted_index(old(self).idx, parent.buffer@.len()),
            },
    {
        let (found, idx) = scan_from(&parent.buffer, self.idx);
        self.idx = idx;
        match found {
            Some(i) => read_access(parent, i),
            None => None,
        }
    }
}

impl ObjectIteratorNonBlocking {
    /// As [`ObjectIterator::next`].
    pub fn next<'a, T>(&mut self, parent: &'a ObjectBuffer<T>) -> (r: Option<ObjectRead<'a, T>>)
        ensures
            match next_occupied(parent.buffer@, old(self).idx as int) {
                Some(k) => r is Some && *r->Some_0.value == parent.buffer@[k].value->Some_0
                    && final(self).idx == k + 1,
                None => r is None && final(self).idx == exhausted_index(old(self).idx, parent.buffer@.len()),
            },
    {
        let mut it = ObjectIterator { idx: self.idx };
        let r = it.next(parent);
        self.idx = it.idx;
        r
    }
}

fn read_access<'a, T>(parent: &'a ObjectBuffer<T>, i: usize) -> (r: Option<ObjectRead<'a, T>>)
    requires
        i < parent.buffer@.len(),
        parent.buffer@[i as int].value is Some,
    ensures
        r is Some,
        *r->Some_0.value == parent.buffer@[i as int].value->Some_0,
{
    match &parent.buffer[i].value {
        Some(v) => Some(ObjectRead { value: v }),
        None => None,
    }
}

fn write_access<'a, T>(parent: &'a mut ObjectBuffer<T>, i: usize) -> (r: Option<ObjectWrite<'a, T>>)
    requires
        i < old(parent).buffer@.len(),
        old(parent).buffer@[i as int].value is Some,
    ensures
        final(parent).id() == old(parent).id(),
        r is Some,
        *r->Some_0.value == old(parent).buffer@[i as int].value->Some_0,
        final(parent).buffer@ == old(parent).buffer@.update(
            i as int,
            ObjectSlot { value: Some(*final(r->Some_0.value)), generation: old(parent).buffer@[i as int].generation },
        ),
        final(parent).free_queue == old(parent).free_queue,
{
    match &mut parent.buffer[i].value {
        Some(v) => Some(ObjectWrite { value: v }),
        None => None,
    }
}

impl ObjectIteratorMut {
    /// As [`ObjectIterator::next`], with exclusive access to the object.
    pub fn next<'a, T>(&mut self, parent: &'a mut ObjectBuffer<T>) -> (r: Option<ObjectWrite<'a, T>>)
        ensures
            final(parent).id() == old(parent).id(),
            match next_occupied(old(parent).buffer@, old(self).idx as int) {
                Some(k) => {
                    &&& r is Some
                    &&& *r->Some_0.value == old(parent).buffer@[k].value->Some_0
                    &&& final(self).idx == k + 1
                    &&& final(parent).buffer@ == old(parent).buffer@.update(
                        k,
                        ObjectSlot { value: Some(*final(r->Some_0.value)), generation: old(parent).buffer@[k].generation },
                    )
                },
                None => r is None && final(self).idx == exhausted_index(old(self).idx, old(parent).buffer@.len())
                    && final(parent).buffer@ == old(parent).buffer@,
            },
            final(parent).free_queue == old(parent).free_queue,
    {
        let (found, idx) = scan_from(&parent.buffer, self.idx);
        self.idx = idx;
        match found {
            Some(i) => write_access(parent, i),
            None => None,
        }
    }
}

impl ObjectIteratorMutNonBlocking {
    /// As [`ObjectIteratorMut::next`].
    pub fn next<'a, T>(&mut self, parent: &'a mut ObjectBuffer<T>) -> (r: Option<ObjectWrite<'a, T>>)
        ensures
            final(parent).id() == old(parent).id(),
            match next_occupied(old(parent).buffer@, old(self).idx as int) {
                Some(k) => {
                    &&& r is Some
                    &&& *r->Some_0.value == old(parent).buffer@[k].value->Some_0
                    &&& final(self).idx == k + 1
                    &&& final(parent).buffer@ == old(parent).buffer@.update(
                        k,
                        ObjectSlot { value: Some(*final(r->Some_0.value)), generation: old(parent).buffer@[k].generation },
                    )
                },
                None => r is None && final(self).idx == exhausted_index(old(self).idx, old(parent).buffer@.len())
                    && final(parent).buffer@ == old(parent).buffer@,
            },
            final(parent).free_queue == old(parent).free_queue,
    {
        let (found, idx) = scan_from(&parent.buffer, self.idx);
        self.idx = idx;
        match found {
            Some(i) => write_access(parent, i),
            None => None,
        }
    }
}


impl Default for ObjectRef {
    fn default() -> (r: Self)
        ensures
            r.index() == 0,
            r.gen() == 0,
            !r.bound(),
            r.owner() == 0,
    {
        ObjectRef { idx: 0, generation: 0, parent: false, owner: 0 }
    }
}

impl ObjectRef {
    /// Whether the reference belongs to a buffer and names a slot other than
    /// slot 0 (whether the object is still live is not looked at).
    pub fn is_valid(&self) -> (r: bool)
        ensures
            r == (self.index() != 0 && self.bound()),
    {
        self.idx != 0 && self.parent
    }

    /// The reference that belongs to no buffer.
    pub fn new_invalid() -> (r: Self)
        ensures
            r.index() == 0,
            r.gen() == 0,
            !r.bound(),
            r.owner() == 0,
    {
        ObjectRef { idx: 0, generation: 0, parent: false, owner: 0 }
    }

    /// The live object named, looked up in `parent` (see
    /// [`ObjectBuffer::try_get_object`]).
    pub fn try_get<'a, T>(&self, parent: &'a ObjectBuffer<T>) -> (r: Option<ObjectRead<'a, T>>)
        ensures
            resolves(parent.id(), parent.buffer@, *self) ==> r is Some && *r->Some_0.value == target(parent.buffer@, *self),
            !resolves(parent.id(), parent.buffer@, *self) ==> r is None,
    {
        if self.parent {
            parent.try_get_object(self)
        } else {
            None
        }
    }

    /// Exclusive access to the live object named, in `parent`.
    pub fn try_get_mut<'a, T>(&self, parent: &'a mut ObjectBuffer<T>) -> (r: Option<ObjectWrite<'a, T>>)
        ensures
            final(parent).id() == old(parent).id(),
            resolves(old(parent).id(), old(parent).buffer@, *self) ==> {
                &&& r is Some
                &&& *r->Some_0.value == target(old(parent).buffer@, *self)
                &&& final(parent).buffer@ == old(parent).buffer@.update(
                    self.index() as int,
                    ObjectSlot { value: Some(*final(r->Some_0.value)), generation: self.gen() },
                )
            },
            !resolves(old(parent).id(), old(parent).buffer@, *self) ==> r is None && final(parent).buffer@ == old(parent).buffer@,
            final(parent).free_queue == old(parent).free_queue,
    {
        if self.parent {
            parent.try_get_object_mut(self)
        } else {
            None
        }
    }

    /// The live object named, looked up in `parent`.
    pub fn get<'a, T>(&self, parent: &'a ObjectBuffer<T>) -> (r: Option<ObjectRead<'a, T>>)
        ensures
            resolves(parent.id(), parent.buffer@, *self) ==> r is Some && *r->Some_0.value == target(parent.buffer@, *self),
            !resolves(parent.id(), parent.buffer@, *self) ==> r is None,
    {
        if self.parent {
            parent.get_object(self)
        } else {
            None
        }
    }

    /// Exclusive access to the live object named, in `parent`.
    pub fn get_mut<'a, T>(&self, parent: &'a mut ObjectBuffer<T>) -> (r: Option<ObjectWrite<'a, T>>)
        ensures
            final(parent).id() == old(parent).id(),
            resolves(old(parent).id(), old(parent).buffer@, *self) ==> {
                &&& r is Some
                &&& *r->Some_0.value == target(old(parent).buffer@, *self)
                &&& final(parent).buffer@ == old(parent).buffer@.update(
                    self.index() as int,
                    ObjectSlot { value: Some(*final(r->Some_0.value)), generation: self.gen() },
                )
            },
            !resolves(old(parent).id(), old(parent).buffer@, *self) ==> r is None && final(parent).buffer@ == old(parent).buffer@,
            final(parent).free_queue == old(parent).free_queue,
    {
        if self.parent {
            parent.get_object_mut(self)
        } else {
            None
        }
    }

    /// The live object named, which must exist.
    pub fn get_panic<'a, T>(&self, parent: &'a ObjectBuffer<T>) -> (r: ObjectRead<'a, T>)
        requires
            resolves(parent.id(), parent.buffer@, *self),
        ensures
            *r.value == target(parent.buffer@, *self),
    {
        parent.get_object(self).unwrap()
    }

    /// Exclusive access to the live object named, which must exist.
    pub fn get_mut_panic<'a, T>(&self, parent: &'a mut ObjectBuffer<T>) -> (r: ObjectWrite<'a, T>)
        requires
            resolves(old(parent).id(), old(parent).buffer@, *self),
        ensures
            final(parent).id() == old(parent).id(),
            *r.value == target(old(parent).buffer@, *self),
            final(parent).buffer@ == old(parent).buffer@.update(
                self.index() as int,
                ObjectSlot { value: Some(*final(r.value)), generation: self.gen() },
            ),
            final(parent).free_queue == old(parent).free_queue,
    {
        parent.get_object_mut(self).unwrap()
    }

    /// Queues the deletion of the object in `parent`, the buffer that made
    /// the reference (see [`ObjectBuffer::deallocate_object`]); a reference
    /// that belongs to no buffer, or to another one, queues nothing.
    pub fn delete<T>(&self, parent: &mut ObjectBuffer<T>)
        ensures
            final(parent).id() == old(parent).id(),
            final(parent).buffer == old(parent).buffer,
            self.bound() && self.owner() == old(parent).id() ==> final(parent).free_queue@ == old(
                parent,
            ).free_queue@.push((self.gen(), self.index())),
            !(self.bound() && self.owner() == old(parent).id()) ==> final(parent).free_queue == old(parent).free_queue,
    {
        if self.parent && self.owner == parent.id {
            parent.deallocate_object(self);
        }
    }

    /// Frees the object in `parent` at once (see
    /// [`ObjectBuffer::deallocate_object_immediate`]).
    pub fn delete_now<T>(&self, parent: &mut ObjectBuffer<T>)
        ensures
            final(parent).id() == old(parent).id(),
            final(parent).free_queue == old(parent).free_queue,
            resolves(old(parent).id(), old(parent).buffer@, *self) ==> final(parent).buffer@ == old(parent).buffer@.update(
                self.index() as int,
                ObjectSlot { value: None, generation: self.gen() },
            ),
            !resolves(old(parent).id(), old(parent).buffer@, *self) ==> final(parent).buffer@ == old(parent).buffer@,
    {
        if self.parent {
            parent.deallocate_object_immediate(self);
        }
    }
}

// ---------------------------------------------------------------------------
// Entities.

/// The state of one entity id.
#[derive(Clone, Copy, Debug)]
pub struct EntitySlot {
    pub is_valid: bool,
    pub generation: u64,
}

/// A buffer of components whose objects belong to entities: an entity's
/// deletion queues the deletion of its object in every such buffer.
pub trait TObjectBuffer {
    /// The deletions queued so far, each as `(generation, index)`.  A
    /// buffer implemented outside Verus cannot state this and keeps this
    /// default, which its `delete_object` cannot meet: for such a buffer the
    /// entity table's promise about queued deletions is not claimed.
    open spec fn queued_deletions(&self) -> Seq<(u64, u64)> {
        Seq::empty()
    }

    /// Queues the deletion of slot `at` at generation `generation`.
    fn delete_object(&mut self, at: u64, generation: u64)
        ensures
            final(self).queued_deletions() == old(self).queued_deletions().push((generation, at)),
    ;

    /// Runs the queued deletions.
    fn run_delete_queue(&mut self)
        ensures
            final(self).queued_deletions().len() == 0,
    ;

    /// The number of slots.
    fn object_capacity(&self) -> usize;
}

impl<T> TObjectBuffer for ObjectBuffer<T> {
    open spec fn queued_deletions(&self) -> Seq<(u64, u64)> {
        self.free_queue@
    }

    fn delete_object(&mut self, at: u64, generation: u64)
        ensures
            final(self).buffer == old(self).buffer,
            final(self).id() == old(self).id(),
    {
        ObjectBuffer::delete_object(self, at, generation);
    }

    fn run_delete_queue(&mut self)
        ensures
            final(self).buffer@ == after_free_queue(old(self).buffer@, old(self).free_queue@),
            final(self).id() == old(self).id(),
    {
        ObjectBuffer::run_delete_queue(self);
    }

    fn object_capacity(&self) -> (r: usize)
        ensures
            r == self.buffer@.len(),
    {
        ObjectBuffer::object_capacity(self)
    }
}

/// The table of entity ids, and the component buffers that an entity's
/// deletion reaches, in order.
#[derive(Debug)]
pub struct ECS<C> {
    pub entities: Vec<EntitySlot>,
    pub components: Vec<C>,
}

/// An entity: an index into the table and the generation it was made at.
#[derive(Clone, Copy, Debug)]
pub struct EntityId {
    idx: u64,
    generation: u64,
}

impl EntityId {
    pub closed spec fn index(self) -> u64 {
        self.idx
    }

    pub closed spec fn gen(self) -> u64 {
        self.generation
    }

    /// The id of no entity: index 0, generation 0.
    pub fn new_invalid() -> (r: Self)
        ensures
            r.index() == 0,
            r.gen() == 0,
    {
        EntityId { idx: 0, generation: 0 }
    }

    pub fn get_idx(&self) -> (r: u64)
        ensures
            r == self.index(),
    {
        self.idx
    }

    pub fn get_gen(&self) -> (r: u64)
        ensures
            r == self.gen(),
    {
        self.generation
    }
}

/// The first entity slot from index 1 on that is not marked valid.
pub open spec fn first_unused(slots: Seq<EntitySlot>) -> Option<int> {
    if exists|i: int|
        1 <= i < slots.len() && !slots[i].is_valid && forall|j: int|
            1 <= j < i ==> slots[j].is_valid {
        Some(
            choose|i: int|
                1 <= i < slots.len() && !slots[i].is_valid && forall|j: int|
                    1 <= j < i ==> slots[j].is_valid,
        )
    } else {
        None
    }
}

/// Whether `id` names an entity that is marked valid.
pub open spec fn entity_valid(slots: Seq<EntitySlot>, id: EntityId) -> bool {
    &&& id.index() != 0
    &&& id.index() < slots.len()
    &&& slots[id.index() as int].generation == id.gen()
    &&& slots[id.index() as int].is_valid
}

impl<C> ECS<C> {
    /// A table of 32000 unused ids of generation 0, reaching the component
    /// buffers `comps`, in that order.
    pub fn new(comps: Vec<C>) -> (r: Self)
        ensures
            r.entities@ == Seq::new(32000, |i: int| EntitySlot { is_valid: false, generation: 0 }),
            r.components == comps,
    {
        let mut v: Vec<EntitySlot> = Vec::new();
        let mut i: usize = 0;
        while i < 32000
            invariant
                i <= 32000,
                v@ == Seq::new(i as nat, |k: int| EntitySlot { is_valid: false, generation: 0 }),
            decreases 32000 - i,
        {
            proof {
                assert(v@.push(EntitySlot { is_valid: false, generation: 0 }) =~= Seq::new(
                    (i + 1) as nat,
                    |k: int| EntitySlot { is_valid: false, generation: 0 },
                ));
            }
            v.push(EntitySlot { is_valid: false, generation: 0 });
            i = i + 1;
        }
        ECS { entities: v, components: comps }
    }

    /// Takes the first slot from index 1 on that is not marked valid, moves
    /// it one generation on and gives its id.  The slot is not marked valid.
    pub fn alloc_entity(&mut self) -> (r: Option<EntityId>)
        ensures
            final(self).components == old(self).components,
            match first_unused(old(self).entities@) {
                Some(k) => {
                    let g = vstd::wrapping::u64_specs::wrapping_add(old(self).entities@[k].generation, 1);
                    &&& r is Some
                    &&& r->Some_0.index() == k
                    &&& r->Some_0.gen() == g
                    &&& final(self).entities@ == old(self).entities@.update(
                        k,
                        EntitySlot { is_valid: false, generation: g },
                    )
                },
                None => {
                    &&& r is None
                    &&& final(self).entities@ == old(self).entities@
                    &&& forall|j: int| 1 <= j < old(self).entities@.len() ==> old(self).entities@[j].is_valid
                },
            },
    {
        let len = self.entities.len();
        let mut j: usize = 1;
        while j < len
            invariant
                1 <= j,
                len == self.entities@.len(),
                self.entities == old(self).entities,
                self.components == old(self).components,
                forall|k: int| 1 <= k < j ==> self.entities@[k].is_valid,
            decreases len - j,
        {
            if !self.entities[j].is_valid {
                let g = self.entities[j].generation.wrapping_add(1);
                proof {
                    let k = first_unused(self.entities@)->Some_0;
                    assert(first_unused(self.entities@) is Some);
                    assert(k == j) by {
                        if k < j {
                        } else if k > j {
                        }
                    }
                }
                self.entities.set(j, EntitySlot { is_valid: false, generation: g });
                return Some(EntityId { idx: j as u64, generation: g });
            }
            j = j + 1;
        }
        proof {
            if first_unused(self.entities@) is Some {
                let k = first_unused(self.entities@)->Some_0;
                assert(self.entities@[k].is_valid);
            }
        }
        None
    }

    /// Whether `id` names a valid entity at its generation; index 0 never
    /// does.
    pub fn is_entity_valid(&self, id: EntityId) -> (r: bool)
        ensures
            r == entity_valid(self.entities@, id),
    {
        if id.idx >= self.entities.len() as u64 {
            return false;
        }
        if id.idx == 0 {
            return false;
        }
        let slot = self.entities[id.idx as usize];
        slot.generation == id.generation && slot.is_valid
    }
}

impl<C: TObjectBuffer> ECS<C> {
    /// Marks the entity no longer valid when `id` names a valid entity at
    /// its generation, and then queues the deletion of its object, as
    /// `(generation, index)`, in every component buffer in turn; the answer
    /// tells whether it did.  Otherwise nothing changes.
    pub fn dealloc_entity(&mut self, id: EntityId) -> (r: bool)
        ensures
            r == (id.index() < old(self).entities@.len() && old(self).entities@[id.index() as int].is_valid
                && old(self).entities@[id.index() as int].generation == id.gen()),
            r ==> final(self).entities@ == old(self).entities@.update(
                id.index() as int,
                EntitySlot { is_valid: false, generation: id.gen() },
            ),
            r ==> final(self).components@.len() == old(self).components@.len(),
            r ==> forall|k: int|
                0 <= k < old(self).components@.len() ==> #[trigger] final(self).components@[k].queued_deletions()
                    == old(self).components@[k].queued_deletions().push((id.gen(), id.index())),
            !r ==> final(self).entities@ == old(self).entities@ && final(self).components == old(self).components,
    {
        if id.idx >= self.entities.len() as u64 {
            return false;
        }
        let i = id.idx as usize;
        let slot = self.entities[i];
        if slot.is_valid && id.generation == slot.generation {
            self.entities.set(i, EntitySlot { is_valid: false, generation: slot.generation });
            let n = self.components.len();
            let mut k: usize = 0;
            while k < n
                invariant
                    k <= n,
                    n == old(self).components@.len(),
                    self.components@.len() == n,
                    self.entities@ == old(self).entities@.update(
                        id.index() as int,
                        EntitySlot { is_valid: false, generation: id.gen() },
                    ),
                    forall|j: int|
                        0 <= j < k ==> #[trigger] self.components@[j].queued_deletions()
                            == old(self).components@[j].queued_deletions().push((id.gen(), id.index())),
                    forall|j: int| k <= j < n ==> #[trigger] self.components@[j] == old(self).components@[j],
                decreases n - k,
            {
                self.components[k].delete_object(id.idx, id.generation);
                k = k + 1;
            }
            true
        } else {
            false
        }
    }
}

// ---------------------------------------------------------------------------
// Events.

/// A first-in first-out queue of events.
pub struct EventBuffer<T> {
    inner: VecDeque<T>,
}

impl<T> View for EventBuffer<T> {
    type V = Seq<T>;

    closed spec fn view(&self) -> Seq<T> {
        self.inner@
    }
}

impl<T> EventBuffer<T> {
    /// An empty queue.
    pub fn new() -> (r: Self)
        ensures
            r@ == Seq::<T>::empty(),
    {
        EventBuffer { inner: VecDeque::new() }
    }

    /// Adds an event at the back of the queue.
    pub fn new_event(&mut self, ev: T)
        ensures
            final(self)@ == old(self)@.push(ev),
    {
        self.inner.push_back(ev);
    }

    /// Takes the oldest event out of the queue.
    pub fn pull(&mut self) -> (r: Option<T>)
        ensures
            old(self)@.len() == 0 ==> r is None && final(self)@ == old(self)@,
            old(self)@.len() > 0 ==> r == Some(old(self)@[0]) && final(self)@ == old(self)@.drop_first(),
    {
        self.inner.pop_front()
    }

    /// The number of events waiting.
    pub fn len(&self) -> (r: usize)
        ensures
            r == self@.len(),
    {
        self.inner.len()
    }
}

/// What one run of a waiting callback came to: not ready yet, a further
/// callback to run in its place, or a finished value.
pub enum CallbackResult<C, U> {
    Pending,
    NextStage(C),
    Finished(U),
}

impl<C> EventBuffer<C> {
    /// Files what running the callback `ran` came to.  A finished value joins
    /// `out` and the callback is dropped; a next stage goes to the back of the
    /// queue in its place; a callback that is still pending goes back itself.
    pub fn settle<U>(&mut self, ran: C, result: CallbackResult<C, U>, out: &mut Vec<U>)
        ensures
            (match result {
                CallbackResult::Finished(x) => final(out)@ == old(out)@.push(x) && final(self)@ == old(self)@,
                CallbackResult::NextStage(next) => final(out)@ == old(out)@ && final(self)@ == old(self)@.push(next),
                CallbackResult::Pending => final(out)@ == old(out)@ && final(self)@ == old(self)@.push(ran),
            }),
    {
        match result {
            CallbackResult::Finished(x) => {
                out.push(x);
            },
            CallbackResult::NextStage(next) => {
                self.new_event(next);
            },
            CallbackResult::Pending => {
                self.new_event(ran);
            },
        }
    }
}


// ---------------------------------------------------------------------------
// Laws.

/// An allocation makes a reference that resolves to the stored item, and
/// leaves what every other slot's references resolve to unchanged.
pub proof fn law_allocation_resolves<T>(id: u64, slots: Seq<ObjectSlot<T>>, item: T, other: ObjectRef)
    requires
        first_free(slots) is Some,
        slots.len() <= u64::MAX,
    ensures
        ({
            let k = first_free(slots)->Some_0;
            let g = vstd::wrapping::u64_specs::wrapping_add(slots[k].generation, 1);
            let after = slots.update(k, ObjectSlot { value: Some(item), generation: g });
            &&& 1 <= k < slots.len()
            &&& resolves(id, after, reference_to(id, k, g))
            &&& target(after, reference_to(id, k, g)) == item
            &&& other.index() != k ==> (resolves(id, after, other) == resolves(id, slots, other))
            &&& (other.index() != k && resolves(id, slots, other)) ==> target(after, other) == target(slots, other)
        }),
{
    let k = first_free(slots)->Some_0;
    let g = vstd::wrapping::u64_specs::wrapping_add(slots[k].generation, 1);
    lemma_reference_to(id, k, g);
}

/// Freeing an object at once makes its reference stop resolving.
pub proof fn law_freed_reference_does_not_resolve<T>(id: u64, slots: Seq<ObjectSlot<T>>, rf: ObjectRef)
    requires
        resolves(id, slots, rf),
    ensures
        !resolves(id, slots.update(rf.index() as int, ObjectSlot { value: None, generation: rf.gen() }), rf),
{
}

/// Once an object is freed, no later allocation makes its old reference
/// resolve again: the slot's next generation differs from the old one.
pub proof fn law_stale_reference_stays_stale<T>(id: u64, slots: Seq<ObjectSlot<T>>, rf: ObjectRef, item: T)
    requires
        resolves(id, slots, rf),
    ensures
        ({
            let freed = slots.update(rf.index() as int, ObjectSlot { value: None, generation: rf.gen() });
            first_free(freed) is Some ==> ({
                let k = first_free(freed)->Some_0;
                let g = vstd::wrapping::u64_specs::wrapping_add(freed[k].generation, 1);
                !resolves(id, freed.update(k, ObjectSlot { value: Some(item), generation: g }), rf)
            })
        }),
{
}

/// A buffer hands out slot 0 only through [`ObjectBuffer::unsafe_allocate_object_at`]:
/// the first free slot is never slot 0, and slot 0 is never queued by
/// `allocate_object` even when it is free.
pub proof fn law_slot_zero_is_never_allocated<T>(slots: Seq<ObjectSlot<T>>)
    requires
        first_free(slots) is Some,
    ensures
        first_free(slots)->Some_0 >= 1,
{
}

/// A queued deletion `delete(rf)` followed by `run_free_queue` frees the
/// object, where the reference's index equals its generation (the queue
/// records `(generation, index)` and applies each entry as `(index,
/// generation)`).
pub proof fn law_queued_delete_frees<T>(id: u64, slots: Seq<ObjectSlot<T>>, rf: ObjectRef)
    requires
        resolves(id, slots, rf),
        rf.index() == rf.gen(),
    ensures
        !resolves(id, after_free_queue(slots, seq![(rf.gen(), rf.index())]), rf),
{
    let q = seq![(rf.gen(), rf.index())];
    assert(queued_for(q, slots, rf.index() as int)) by {
        assert(q[0].0 == rf.index() && q[0].1 == slots[rf.index() as int].generation);
    }
}

/// A reference that belongs to no buffer never resolves.
pub proof fn law_unbound_reference_never_resolves<T>(id: u64, slots: Seq<ObjectSlot<T>>, rf: ObjectRef)
    requires
        !rf.bound(),
    ensures
        !resolves(id, slots, rf),
{
}

/// A reference resolves only in the buffer that made it: never in a buffer
/// of another id, whatever that buffer's slots hold, so it resolves in at
/// most one of two buffers with different ids.
pub proof fn law_foreign_reference_never_resolves<T>(
    id: u64,
    slots: Seq<ObjectSlot<T>>,
    other_id: u64,
    other_slots: Seq<ObjectSlot<T>>,
    rf: ObjectRef,
)
    requires
        id != other_id,
    ensures
        rf.owner() != id ==> !resolves(id, slots, rf),
        !(resolves(id, slots, rf) && resolves(other_id, other_slots, rf)),
{
}

/// Running the deletion queue never changes a generation, and frees only:
/// every object left was there before.
pub proof fn law_free_queue_only_frees<T>(slots: Seq<ObjectSlot<T>>, queue: Seq<(u64, u64)>, i: int)
    requires
        0 <= i < slots.len(),
    ensures
        after_free_queue(slots, queue).len() == slots.len(),
        after_free_queue(slots, queue)[i].generation == slots[i].generation,
        after_free_queue(slots, queue)[i].value is Some ==> after_free_queue(slots, queue)[i] == slots[i],
{
}

/// Deleting an entity makes its id no longer valid, and an id is valid
/// only while its slot is at the id's generation.
pub proof fn law_dealloc_invalidates(slots: Seq<EntitySlot>, id: EntityId)
    requires
        entity_valid(slots, id),
    ensures
        !entity_valid(slots.update(id.index() as int, EntitySlot { is_valid: false, generation: id.gen() }), id),
{
}

/// Allocating an entity never marks it valid: the table's valid marks are
/// the same after `alloc_entity` as before.
pub proof fn law_alloc_keeps_valid_marks(slots: Seq<EntitySlot>, i: int)
    requires
        first_unused(slots) is Some,
        0 <= i < slots.len(),
    ensures
        ({
            let k = first_unused(slots)->Some_0;
            let g = vstd::wrapping::u64_specs::wrapping_add(slots[k].generation, 1);
            slots.update(k, EntitySlot { is_valid: false, generation: g })[i].is_valid == slots[i].is_valid
        }),
{
}

/// Events come out of the queue in the order they went in.
pub proof fn law_events_first_in_first_out<T>(queue: Seq<T>, a: T, b: T)
    ensures
        ({
            let q = queue.push(a).push(b);
            &&& q.len() >= 2
            &&& queue.len() == 0 ==> q[0] == a && q.drop_first()[0] == b
            &&& queue.len() > 0 ==> q[0] == queue[0] && q.drop_first() == queue.drop_first().push(a).push(b)
        }),
{
    let q = queue.push(a).push(b);
    if queue.len() > 0 {
        assert(q.drop_first() =~= queue.drop_first().push(a).push(b));
    }
}

} // verus!
