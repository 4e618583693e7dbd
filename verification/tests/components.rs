//! Unit tests of the engine's building blocks: event channels, per-entity
//! storage, visibility transitions and the constraint diff tracker.

use lime_layout::channel::EventChannel;
use lime_layout::cons::{linear_constraint, Constraints, ConstraintUpdate};
use lime_layout::pos::Position;
use lime_layout::solver::{Rel, Strength};
use lime_layout::storage::{Entity, Storage};
use lime_layout::visibility::{Visibility, VisibilityEvent, VisibilityState};
use lime_layout::visibility::VisibilityState::{Collapsed, Hidden, Visible};

fn con(var: cassowary::Variable, value: i32) -> cassowary::Constraint {
    linear_constraint(&vec![(var, 1)], -value, Rel::Equal, Strength::Required)
}

#[test]
fn channel_readers_are_independent_and_ordered() {
    let mut ch: EventChannel<u32> = EventChannel::new();
    let mut r1 = ch.register_reader();
    ch.single_write(1);
    ch.single_write(2);
    let mut r2 = ch.register_reader();
    ch.single_write(3);

    assert_eq!(ch.read_all(&mut r1), vec![1, 2, 3]);
    assert_eq!(ch.read_all(&mut r1), Vec::<u32>::new());
    assert_eq!(ch.read_all(&mut r2), vec![3]);
}

#[test]
fn channel_read_last_supersedes_backlog() {
    let mut ch: EventChannel<u32> = EventChannel::new();
    let mut r = ch.register_reader();
    assert_eq!(ch.read_last(&mut r), None);
    ch.single_write(7);
    ch.single_write(8);
    ch.single_write(9);
    assert_eq!(ch.read_last(&mut r), Some(9));
    assert_eq!(ch.read_last(&mut r), None);
}

#[test]
fn storage_insert_get_take() {
    let mut st: Storage<u32> = Storage::new();
    let e3 = Entity { index: 3 };
    let e5 = Entity { index: 5 };
    assert!(st.get(e3).is_none());
    st.insert(e3, 30);
    st.insert(e5, 50);
    assert_eq!(st.get(e3), Some(&30));
    assert_eq!(st.get(e5), Some(&50));
    assert!(st.get(Entity { index: 4 }).is_none());
    assert_eq!(st.take(e3), Some(30));
    assert!(st.get(e3).is_none());
    assert_eq!(st.get(e5), Some(&50));
}

#[test]
fn visibility_transitions_emit_events() {
    let mut ch: EventChannel<VisibilityEvent> = EventChannel::new();
    let mut r = ch.register_reader();
    let e = Entity { index: 1 };
    let mut v = Visibility::new();
    assert_eq!(v.get(), VisibilityState::Visible);
    assert!(v.needs_draw());

    v.set(VisibilityState::Hidden, e, &mut ch);
    v.set(VisibilityState::Hidden, e, &mut ch);  // no transition, no event
    v.set(VisibilityState::Collapsed, e, &mut ch);
    assert!(!v.needs_draw());

    let evs = ch.read_all(&mut r);
    assert_eq!(evs.len(), 2);
    assert_eq!((evs[0].was, evs[0].now), (VisibilityState::Visible, VisibilityState::Hidden));
    assert_eq!((evs[1].was, evs[1].now), (VisibilityState::Hidden, VisibilityState::Collapsed));
}

#[test]
fn layout_structural_transitions() {
    let e = Entity { index: 0 };
    let mk = |was, now| VisibilityEvent { entity: e, was, now };
    assert_eq!(mk(Collapsed, Visible).needs_layout_changed(), Some(true));
    assert_eq!(mk(Collapsed, Hidden).needs_layout_changed(), Some(true));
    assert_eq!(mk(Visible, Collapsed).needs_layout_changed(), Some(false));
    assert_eq!(mk(Hidden, Collapsed).needs_layout_changed(), Some(false));
    assert_eq!(mk(Collapsed, Collapsed).needs_layout_changed(), None);
    assert_eq!(mk(Visible, Hidden).needs_layout_changed(), None);
    assert_eq!(mk(Hidden, Visible).needs_layout_changed(), None);
    assert_eq!(mk(Visible, Visible).needs_layout_changed(), None);
}

#[test]
fn tracker_queues_in_order() {
    let x = Position::fresh();
    let c1 = con(x.left_var, 1);
    let c2 = con(x.top_var, 2);
    let z1 = con(x.right_var, 0);

    let mut cs = Constraints::new(vec![c1.clone(), c2.clone()], vec![z1.clone()]);
    assert!(cs.is_expanded());
    cs.collapse();
    assert!(!cs.is_expanded());
    cs.collapse();  // already collapsed: queues nothing more
    let ops = cs.drain();
    // the initial adds, then the collapse: removals first, substitute after
    assert_eq!(ops.len(), 5);
    assert!(matches!(&ops[0], ConstraintUpdate::Add(c) if *c == c1));
    assert!(matches!(&ops[1], ConstraintUpdate::Add(c) if *c == c2));
    assert!(matches!(&ops[2], ConstraintUpdate::Remove(c) if *c == c1));
    assert!(matches!(&ops[3], ConstraintUpdate::Remove(c) if *c == c2));
    assert!(matches!(&ops[4], ConstraintUpdate::Add(c) if *c == z1));
    assert_eq!(cs.drain().len(), 0);

    cs.expand();
    let ops2 = cs.drain();
    assert_eq!(ops2.len(), 3);
    assert!(matches!(&ops2[0], ConstraintUpdate::Remove(c) if *c == z1));
    assert!(matches!(&ops2[1], ConstraintUpdate::Add(c) if *c == c1));
    assert!(matches!(&ops2[2], ConstraintUpdate::Add(c) if *c == c2));
}

#[test]
fn tracker_add_remove() {
    let x = Position::fresh();
    let c1 = con(x.left_var, 1);
    let c2 = con(x.top_var, 2);
    let mut cs = Constraints::new(vec![c1.clone()], Vec::new());
    cs.drain();

    cs.add(c2.clone());
    assert!(cs.remove(&c1));
    assert!(!cs.remove(&c1));  // already gone
    let ops = cs.drain();
    assert_eq!(ops.len(), 2);
    assert!(matches!(&ops[0], ConstraintUpdate::Add(c) if *c == c2));
    assert!(matches!(&ops[1], ConstraintUpdate::Remove(c) if *c == c1));
}

#[test]
fn constraints_compare_by_identity() {
    let x = Position::fresh();
    let c1 = con(x.left_var, 1);
    let c1_again = con(x.left_var, 1);
    assert!(c1 == c1.clone());
    assert!(c1 != c1_again);  // same shape, distinct constraint
}

#[test]
fn fresh_position_vars_are_distinct() {
    let p = Position::fresh();
    let vars = [p.left_var, p.top_var, p.right_var, p.bottom_var];
    for i in 0..4 {
        for j in (i + 1)..4 {
            assert!(vars[i] != vars[j]);
        }
    }
}

#[test]
fn position_rect_is_derived_from_edges() {
    let p = Position::fresh();
    assert_eq!(p.rect(), Some((0, 0, 0, 0)));
    let q = Position { left: 10, top: 20, right: 110, bottom: 45, ..p };
    assert_eq!(q.rect(), Some((10, 20, 100, 25)));
    let bad = Position { left: 10, right: 0, ..p };
    assert_eq!(bad.rect(), None);
}
