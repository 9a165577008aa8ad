use entity_borrow::Archetype;
use entity_borrow::EntityRef;
use entity_borrow::Ref;
use entity_borrow::RefMut;

#[derive(Clone, Copy, Debug, PartialEq)]
struct Position {
    x: i64,
    y: i64,
}

const POSITION: u64 = 1;
const VELOCITY: u64 = 2;

fn position_group(slots: usize) -> Archetype<Position> {
    Archetype::new(vec![POSITION], vec![vec![Position { x: 0, y: 0 }; slots]])
}

#[test]
fn component_types_of_empty_view_is_empty() {
    let group = position_group(3);
    let view = EntityRef::empty();
    assert_eq!(view.component_types(&group), Vec::<u64>::new());
}

#[test]
fn component_types_in_registration_order_and_repeatable() {
    let group: Archetype<i64> = Archetype::new(vec![7, 9], vec![vec![0, 0], vec![0, 0]]);
    let view = EntityRef::new(&group, 0);
    assert_eq!(view.component_types(&group), vec![7, 9]);
    assert_eq!(view.component_types(&group), vec![7, 9]);
}

#[test]
fn get_returns_handle_to_slot_value() {
    let mut group = position_group(3);
    let view = EntityRef::new(&group, 2);
    let handle = view.get(&mut group, POSITION).unwrap();
    assert_eq!(*handle.value(&group), Position { x: 0, y: 0 });
    handle.release(&mut group);
}

#[test]
fn shared_handles_at_different_slots_coexist() {
    let mut group = position_group(6);
    let first = EntityRef::new(&group, 2);
    let second = EntityRef::new(&group, 5);
    let a = first.get(&mut group, POSITION);
    let b = second.get(&mut group, POSITION);
    assert!(a.is_some());
    assert!(b.is_some());
    a.unwrap().release(&mut group);
    b.unwrap().release(&mut group);
}

#[test]
fn get_of_absent_type_returns_none() {
    let mut group = position_group(3);
    let view = EntityRef::new(&group, 0);
    assert!(view.get(&mut group, VELOCITY).is_none());
    assert!(view.get_mut(&mut group, VELOCITY).is_none());
}

#[test]
fn factory_reports_which_type_was_missing() {
    let mut group = position_group(3);
    let err = Ref::new(&mut group, 0, VELOCITY).unwrap_err();
    assert_eq!(err.id(), VELOCITY);
    let err = RefMut::new(&mut group, 0, VELOCITY).unwrap_err();
    assert_eq!(err.id(), VELOCITY);
}

#[test]
fn get_on_view_without_group_returns_none() {
    let mut group = position_group(3);
    let view = EntityRef::empty();
    assert!(view.get(&mut group, POSITION).is_none());
    assert!(view.get_mut(&mut group, POSITION).is_none());
}

#[test]
fn strict_exclusive_conflict_is_surfaced_as_none() {
    // A view requests the exclusive handle while another holds a shared
    // one on the same (group, type): the strict path surfaces the
    // conflict as an absent value and leaves the counter untouched.
    let mut group = position_group(6);
    let holder = EntityRef::new(&group, 2);
    let shared = holder.get(&mut group, POSITION).unwrap();
    let other = EntityRef::new(&group, 5);
    assert!(other.get_mut(&mut group, POSITION).is_none());
    shared.release(&mut group);
    let exclusive = other.get_mut(&mut group, POSITION);
    assert!(exclusive.is_some());
    exclusive.unwrap().release(&mut group);
}

#[test]
fn ungated_path_builds_handle_despite_denied_grant() {
    // The ungated path discards the grant outcome: the exclusive handle
    // is built even while a shared grant is outstanding. The denied
    // grant is visible only in what the counter still refuses.
    let mut group = position_group(6);
    let holder = EntityRef::new(&group, 2);
    let shared = holder.get(&mut group, POSITION).unwrap();
    let other = EntityRef::new(&group, 5);
    let aliasing = other.get_mut_ungated(&mut group, POSITION);
    assert!(aliasing.is_some());
    // The grant was never obtained, so the ungated handle must not be
    // released; the shared holder still releases cleanly.
    shared.release(&mut group);
}

#[test]
fn exclusive_handle_reads_and_writes_its_slot() {
    let mut group = position_group(3);
    let view = EntityRef::new(&group, 2);
    let handle = view.get_mut(&mut group, POSITION).unwrap();
    handle.set(&mut group, Position { x: 3, y: 4 });
    assert_eq!(*handle.value(&group), Position { x: 3, y: 4 });
    handle.release(&mut group);
    let view_other = EntityRef::new(&group, 1);
    let reader = view_other.get(&mut group, POSITION).unwrap();
    assert_eq!(*reader.value(&group), Position { x: 0, y: 0 });
    reader.release(&mut group);
}

#[test]
fn exclusive_holder_blocks_shared_at_another_slot() {
    // The unit of mutual exclusion is per (group, type), not per slot.
    let mut group = position_group(6);
    let writer_view = EntityRef::new(&group, 2);
    let writer = writer_view.get_mut(&mut group, POSITION).unwrap();
    let reader_view = EntityRef::new(&group, 5);
    assert!(reader_view.get(&mut group, POSITION).is_none());
    writer.release(&mut group);
    let reader = reader_view.get(&mut group, POSITION);
    assert!(reader.is_some());
    reader.unwrap().release(&mut group);
}

#[test]
fn duplicated_shared_handle_bumps_the_counter_independently() {
    let mut group = position_group(3);
    let view = EntityRef::new(&group, 0);
    let first = view.get(&mut group, POSITION).unwrap();
    let second = first.duplicate(&mut group).unwrap();
    first.release(&mut group);
    // One shared holder is still live, so the exclusive grant is denied.
    assert!(view.get_mut(&mut group, POSITION).is_none());
    second.release(&mut group);
    let exclusive = view.get_mut(&mut group, POSITION);
    assert!(exclusive.is_some());
    exclusive.unwrap().release(&mut group);
}

#[test]
fn columns_of_different_types_have_independent_counters() {
    // Contention is per (group, type): exclusive grants on two distinct
    // types of the same group coexist.
    let mut group: Archetype<i64> = Archetype::new(vec![7, 9], vec![vec![10, 20], vec![30, 40]]);
    let view = EntityRef::new(&group, 1);
    let first = view.get_mut(&mut group, 7).unwrap();
    let second = view.get_mut(&mut group, 9).unwrap();
    assert_eq!(*first.value(&group), 20);
    assert_eq!(*second.value(&group), 40);
    first.release(&mut group);
    second.release(&mut group);
}

#[test]
fn strict_shared_get_is_denied_while_exclusive_held_and_leaves_state() {
    let mut group = position_group(3);
    let view = EntityRef::new(&group, 0);
    let writer = view.get_mut(&mut group, POSITION).unwrap();
    assert!(view.get(&mut group, POSITION).is_none());
    writer.release(&mut group);
    let reader = view.get(&mut group, POSITION);
    assert!(reader.is_some());
    reader.unwrap().release(&mut group);
}
