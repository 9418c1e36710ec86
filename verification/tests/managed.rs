use bios::managed::{CallbackResult, EntityId, EventBuffer, ObjectBuffer, ObjectRef, ECS};

#[test]
fn allocation_starts_at_slot_one_and_resolves() {
    let mut b: ObjectBuffer<u32> = ObjectBuffer::new_capacity(4, 1);
    let r1 = b.allocate_object(10).ok().unwrap();
    let r2 = b.allocate_object(20).ok().unwrap();
    assert!(r1.is_valid());
    assert_eq!(*b.get_object(&r1).unwrap().value, 10);
    assert_eq!(*r2.get(&b).unwrap().value, 20);
    assert_eq!(b.buffer[1].generation, 1);
    assert!(b.buffer[0].value.is_none());
    let _r3 = b.allocate_object(30).ok().unwrap();
    assert_eq!(b.allocate_object(40).err(), Some(40));
    assert_eq!(b.object_capacity(), 4);
    assert_eq!(ObjectBuffer::<u8>::new(1).buffer.len(), 32000);
}

#[test]
fn writes_go_through_to_the_slot() {
    let mut b: ObjectBuffer<u32> = ObjectBuffer::new_capacity(3, 1);
    let r = b.allocate_object(1).ok().unwrap();
    *b.get_object_mut(&r).unwrap().value = 5;
    assert_eq!(*b.try_get_object(&r).unwrap().value, 5);
    *r.get_mut_panic(&mut b).value += 1;
    assert_eq!(*r.get_panic(&b).value, 6);
    *r.try_get_mut(&mut b).unwrap().value = 8;
    assert_eq!(*r.try_get(&b).unwrap().value, 8);
}

#[test]
fn freed_references_stay_stale() {
    let mut b: ObjectBuffer<&str> = ObjectBuffer::new_capacity(2, 1);
    let old = b.allocate_object("a").ok().unwrap();
    old.delete_now(&mut b);
    assert!(b.get_object(&old).is_none());
    let new = b.allocate_object("b").ok().unwrap();
    assert_eq!(b.buffer[1].generation, 2);
    assert!(b.get_object(&old).is_none());
    assert_eq!(*b.get_object(&new).unwrap().value, "b");
}

#[test]
fn unbound_references_never_resolve() {
    let mut b: ObjectBuffer<u8> = ObjectBuffer::new_capacity(2, 1);
    b.unsafe_allocate_object_at(0, 0, 3).unwrap();
    let inv = ObjectRef::new_invalid();
    assert!(!inv.is_valid());
    assert!(b.get_object(&inv).is_none());
    assert!(b.get_object(&ObjectRef::default()).is_none());
    inv.delete(&mut b);
    assert!(b.free_queue.is_empty());
    let bound = b.unsafe_construct_reference(0, 0);
    assert!(!bound.is_valid());
    assert_eq!(*b.get_object(&bound).unwrap().value, 3);
}

#[test]
fn placed_objects_and_out_of_range_places() {
    let mut b: ObjectBuffer<u8> = ObjectBuffer::new_capacity(3, 1);
    let r = b.unsafe_allocate_object_at(2, 9, 4).unwrap();
    assert_eq!(*b.get_object(&r).unwrap().value, 4);
    assert!(b.unsafe_allocate_object_at(4, 0, 1).is_none());
    let s = b.slot_reference(2);
    assert_eq!(*b.get_object(&s).unwrap().value, 4);
    assert!(b.get_object(&b.unsafe_construct_reference(2, 8)).is_none());
}

#[test]
fn queued_deletions_apply_index_and_generation_as_recorded() {
    let mut b: ObjectBuffer<u8> = ObjectBuffer::new_capacity(4, 1);
    // Slot 1 at generation 1: index equals generation, the queued deletion frees it.
    let r = b.allocate_object(7).ok().unwrap();
    r.delete(&mut b);
    assert_eq!(b.free_queue, vec![(1, 1)]);
    assert!(b.get_object(&r).is_some());
    b.run_free_queue();
    assert!(b.get_object(&r).is_none());
    assert!(b.free_queue.is_empty());
    // Slot 2 at generation 3: the entry (3, 2) names slot 3 at generation 2.
    let r2 = b.unsafe_allocate_object_at(2, 3, 8).unwrap();
    let r3 = b.unsafe_allocate_object_at(3, 2, 9).unwrap();
    b.deallocate_object(&r2);
    b.run_delete_queue();
    assert!(b.get_object(&r2).is_some());
    assert!(b.get_object(&r3).is_none());
    b.delete_object(3, 2);
    assert_eq!(b.free_queue, vec![(2, 3)]);
}

#[test]
fn iterators_visit_live_objects_in_order() {
    let mut b: ObjectBuffer<u32> = ObjectBuffer::new_capacity(6, 1);
    for v in [1, 2, 3] {
        b.allocate_object(v).ok().unwrap();
    }
    let r2 = b.slot_reference(2);
    b.deallocate_object_immediate(&r2);
    let mut it = b.iter();
    let mut seen = vec![];
    while let Some(x) = it.next(&b) {
        seen.push(*x.value);
    }
    assert_eq!(seen, vec![1, 3]);
    assert_eq!(it.idx, 6);
    let mut it = b.iter_non_blocking();
    assert_eq!(*it.next(&b).unwrap().value, 1);
    assert_eq!(it.idx, 2);
    let mut m = b.iter_mut();
    while let Some(w) = m.next(&mut b) {
        *w.value *= 10;
    }
    let mut m = b.iter_mut_non_blocking();
    *m.next(&mut b).unwrap().value += 1;
    assert_eq!(*b.buffer[1].value.as_ref().unwrap(), 11);
    assert_eq!(*b.buffer[3].value.as_ref().unwrap(), 30);
}

#[test]
fn bulk_updates_touch_live_objects_only() {
    let mut b: ObjectBuffer<u32> = ObjectBuffer::new_capacity(4, 1);
    b.allocate_object(2).ok().unwrap();
    b.allocate_object(5).ok().unwrap();
    b.for_each_mut(|v: &u32| v * 3);
    assert_eq!(b.buffer[1].value, Some(6));
    assert_eq!(b.buffer[2].value, Some(15));
    assert_eq!(b.buffer[3].value, None);
    b.update(|r: ObjectRef, v: &u32| v + if r.is_valid() { 1 } else { 0 });
    assert_eq!(b.buffer[1].value, Some(7));
    assert_eq!(b.buffer[1].generation, 1);
    let total = std::cell::Cell::new(0);
    b.for_each(|v: &u32| total.set(total.get() + *v));
    assert_eq!(total.get(), 23);
}

#[test]
fn entity_ids_move_on_a_generation_and_stay_unmarked() {
    let mut ecs: ECS<ObjectBuffer<u8>> = ECS::new(Vec::new());
    assert_eq!(ecs.entities.len(), 32000);
    let a = ecs.alloc_entity().unwrap();
    assert_eq!((a.get_idx(), a.get_gen()), (1, 1));
    assert!(!ecs.is_entity_valid(a));
    let b = ecs.alloc_entity().unwrap();
    assert_eq!((b.get_idx(), b.get_gen()), (1, 2));
    assert!(!ecs.dealloc_entity(b));
    ecs.entities[5].is_valid = true;
    ecs.entities[5].generation = 0;
    let none = EntityId::new_invalid();
    assert_eq!((none.get_idx(), none.get_gen()), (0, 0));
    assert!(!ecs.is_entity_valid(none));
}

#[test]
fn dealloc_clears_a_valid_entity() {
    let mut ecs: ECS<ObjectBuffer<u8>> = ECS::new(Vec::new());
    for i in 1..ecs.entities.len() {
        ecs.entities[i].is_valid = true;
    }
    assert!(ecs.alloc_entity().is_none());
    ecs.entities[3].is_valid = false;
    let e = ecs.alloc_entity().unwrap();
    assert_eq!((e.get_idx(), e.get_gen()), (3, 1));
    ecs.entities[3].is_valid = true;
    assert!(ecs.is_entity_valid(e));
    assert!(ecs.dealloc_entity(e));
    assert!(!ecs.is_entity_valid(e));
    assert!(!ecs.dealloc_entity(e));
}

#[test]
fn events_come_out_in_order() {
    let mut q: EventBuffer<&str> = EventBuffer::new();
    assert_eq!(q.pull(), None);
    q.new_event("a");
    q.new_event("b");
    assert_eq!(q.len(), 2);
    assert_eq!(q.pull(), Some("a"));
    q.new_event("c");
    assert_eq!(q.pull(), Some("b"));
    assert_eq!(q.pull(), Some("c"));
    assert_eq!(q.pull(), None);
}

#[test]
fn settled_callbacks_finish_or_wait_their_turn() {
    let mut q: EventBuffer<u32> = EventBuffer::new();
    q.new_event(1);
    q.new_event(2);
    q.new_event(3);
    let mut out: Vec<&str> = Vec::new();
    let first = q.pull().unwrap();
    q.settle(first, CallbackResult::Finished("one"), &mut out);
    let second = q.pull().unwrap();
    q.settle(second, CallbackResult::Pending, &mut out);
    let third = q.pull().unwrap();
    q.settle(third, CallbackResult::NextStage(30), &mut out);
    assert_eq!(out, vec!["one"]);
    assert_eq!(q.len(), 2);
    assert_eq!(q.pull(), Some(2));
    assert_eq!(q.pull(), Some(30));
    assert_eq!(q.pull(), None);
}

#[test]
fn a_reference_of_another_buffer_is_refused() {
    let mut a: ObjectBuffer<u32> = ObjectBuffer::new_capacity(3, 1);
    let mut b: ObjectBuffer<u32> = ObjectBuffer::new_capacity(3, 2);
    let ra = a.allocate_object(10).ok().unwrap();
    let rb = b.allocate_object(20).ok().unwrap();
    // the same slot and generation in both buffers
    assert!(a.get_object(&rb).is_none());
    assert!(b.get_object(&ra).is_none());
    assert!(b.get_object_mut(&ra).is_none());
    assert!(b.try_get_object(&ra).is_none());
    assert!(b.try_get_object_mut(&ra).is_none());
    assert!(ra.get(&b).is_none());
    b.deallocate_object_immediate(&ra);
    assert_eq!(*b.get_object(&rb).unwrap().value, 20);
    ra.delete(&mut b);
    assert!(b.free_queue.is_empty());
    rb.delete(&mut b);
    assert_eq!(b.free_queue, vec![(1, 1)]);
    assert_eq!(*ra.get(&a).unwrap().value, 10);
}

#[test]
fn freeing_an_entity_queues_its_components_deletion() {
    let comps: Vec<ObjectBuffer<u32>> = vec![ObjectBuffer::new_capacity(8, 1), ObjectBuffer::new_capacity(8, 2)];
    let mut ecs = ECS::new(comps);
    assert_eq!(ecs.components.len(), 2);
    assert_eq!(ecs.components[1].object_capacity(), 8);
    let e = ecs.alloc_entity().unwrap();
    // an allocated entity is not marked valid, so freeing it does nothing
    assert!(!ecs.dealloc_entity(e));
    assert!(ecs.components[0].free_queue.is_empty());
    ecs.entities[1].is_valid = true;
    assert!(ecs.dealloc_entity(e));
    assert_eq!(ecs.components[0].free_queue, vec![(1, 1)]);
    assert_eq!(ecs.components[1].free_queue, vec![(1, 1)]);
    assert!(!ecs.dealloc_entity(e));
    assert_eq!(ecs.components[0].free_queue.len(), 1);
}
