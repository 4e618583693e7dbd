//! End-to-end ticks of the layout engine against the real solver.

use lime_layout::channel::EventChannel;
use lime_layout::cons::{zero_size_set, Constraints};
use lime_layout::cons::linear_constraint;
use lime_layout::pos::Position;
use lime_layout::solver::{Rel, Strength};
use lime_layout::storage::{Entity, Storage};
use lime_layout::sys::{LayoutSystem, ScreenDimensions, TickReport};
use lime_layout::visibility::{Visibility, VisibilityEvent};

struct Scene {
    dims_tx: EventChannel<ScreenDimensions>,
    vis_tx: EventChannel<VisibilityEvent>,
    cons: Storage<Constraints>,
    poss: Storage<Position>,
    root: Entity,
    sys: LayoutSystem,
}

fn scene(width: u32, height: u32) -> Scene {
    let dims_tx: EventChannel<ScreenDimensions> = EventChannel::new();
    let vis_tx: EventChannel<VisibilityEvent> = EventChannel::new();
    let mut poss: Storage<Position> = Storage::new();
    let root = Entity { index: 0 };
    let dims = ScreenDimensions { width, height };
    let sys = LayoutSystem::add(&dims, &dims_tx, &vis_tx, root, &mut poss)
        .ok()
        .expect("solver setup");
    Scene { dims_tx, vis_tx, cons: Storage::new(), poss, root, sys }
}

impl Scene {
    fn tick(&mut self) -> TickReport {
        let r = self.sys.run(&self.dims_tx, &self.vis_tx, &mut self.cons, &mut self.poss);
        assert!(r.fatal.is_none());
        r
    }

    fn rect(&self, e: Entity) -> (i64, i64, i64, i64) {
        self.poss.get(e).expect("position").rect().expect("rect")
    }

    fn root_pos(&self) -> Position {
        *self.poss.get(self.root).expect("root position")
    }
}

/// `var == other` at required strength.
fn eq_vars(a: cassowary::Variable, b: cassowary::Variable) -> cassowary::Constraint {
    linear_constraint(&vec![(a, 1), (b, -1)], 0, Rel::Equal, Strength::Required)
}

/// `hi - lo == size` at required strength.
fn span(hi: cassowary::Variable, lo: cassowary::Variable, size: i32) -> cassowary::Constraint {
    linear_constraint(&vec![(hi, 1), (lo, -1)], -size, Rel::Equal, Strength::Required)
}

/// Adds an entity whose constraint set is given; returns its entity id.
fn add_entity(s: &mut Scene, index: u32, pos: Position, normal: Vec<cassowary::Constraint>) -> Entity {
    let e = Entity { index };
    let zero = zero_size_set(&pos);
    s.cons.insert(e, Constraints::new(normal, zero));
    s.poss.insert(e, pos);
    e
}

#[test]
fn resize_pins_root_rect() {
    let mut s = scene(800, 600);
    s.tick();
    assert_eq!(s.rect(s.root), (0, 0, 800, 600));

    s.dims_tx.single_write(ScreenDimensions { width: 1024, height: 768 });
    s.tick();
    assert_eq!(s.rect(s.root), (0, 0, 1024, 768));
}

#[test]
fn resize_backlog_last_wins() {
    let mut s = scene(800, 600);
    s.tick();
    s.dims_tx.single_write(ScreenDimensions { width: 100, height: 100 });
    s.dims_tx.single_write(ScreenDimensions { width: 200, height: 200 });
    s.dims_tx.single_write(ScreenDimensions { width: 320, height: 240 });
    s.tick();
    assert_eq!(s.rect(s.root), (0, 0, 320, 240));
}

#[test]
fn idle_tick_changes_nothing() {
    let mut s = scene(800, 600);
    s.tick();
    let before = s.root_pos();
    let r = s.tick();
    let after = s.root_pos();
    assert_eq!(
        (before.left, before.top, before.right, before.bottom),
        (after.left, after.top, after.right, after.bottom)
    );
    assert_eq!(r.duplicate_adds, 0);
    assert_eq!(r.unsatisfiable, 0);
    assert_eq!(r.unknown_removals, 0);
}

#[test]
fn full_width_strip_follows_resize() {
    let mut s = scene(800, 600);
    let root_p = s.root_pos();
    let pa = Position::fresh();
    let normal = vec![
        eq_vars(pa.left_var, root_p.left_var),
        eq_vars(pa.right_var, root_p.right_var),
        eq_vars(pa.top_var, root_p.top_var),
        span(pa.bottom_var, pa.top_var, 50),
    ];
    let a = add_entity(&mut s, 1, pa, normal);
    s.tick();
    assert_eq!(s.rect(a), (0, 0, 800, 50));

    s.dims_tx.single_write(ScreenDimensions { width: 400, height: 600 });
    s.tick();
    assert_eq!(s.rect(a), (0, 0, 400, 50));
}

/// Two boxes stacked vertically: B sits directly under A.  A's substitute
/// set keeps it anchored to the root's corner at zero size, so the scene
/// stays fully determined while A is collapsed.
fn stacked_scene() -> (Scene, Entity, Entity) {
    let mut s = scene(800, 600);
    let root_p = s.root_pos();
    let pa = Position::fresh();
    let pb = Position::fresh();
    let normal_a = vec![
        eq_vars(pa.left_var, root_p.left_var),
        span(pa.right_var, pa.left_var, 100),
        eq_vars(pa.top_var, root_p.top_var),
        span(pa.bottom_var, pa.top_var, 50),
    ];
    let zero_a = vec![
        eq_vars(pa.left_var, root_p.left_var),
        eq_vars(pa.top_var, root_p.top_var),
        eq_vars(pa.right_var, pa.left_var),
        eq_vars(pa.bottom_var, pa.top_var),
    ];
    let normal_b = vec![
        eq_vars(pb.left_var, root_p.left_var),
        span(pb.right_var, pb.left_var, 100),
        eq_vars(pb.top_var, pa.bottom_var),
        span(pb.bottom_var, pb.top_var, 40),
    ];
    let a = Entity { index: 1 };
    s.cons.insert(a, Constraints::new(normal_a, zero_a));
    s.poss.insert(a, pa);
    let b = add_entity(&mut s, 2, pb, normal_b);
    s.tick();
    assert_eq!(s.rect(a), (0, 0, 100, 50));
    assert_eq!(s.rect(b), (0, 50, 100, 40));
    (s, a, b)
}

#[test]
fn collapse_reflows_then_expand_restores() {
    let (mut s, a, b) = stacked_scene();
    let mut vis_a = Visibility::new();

    vis_a.set(lime_layout::visibility::VisibilityState::Collapsed, a, &mut s.vis_tx);
    s.tick();
    let (_, _, aw, ah) = s.rect(a);
    assert_eq!((aw, ah), (0, 0));
    assert_eq!(s.rect(b), (0, 0, 100, 40));

    vis_a.set(lime_layout::visibility::VisibilityState::Visible, a, &mut s.vis_tx);
    s.tick();
    assert_eq!(s.rect(a), (0, 0, 100, 50));
    assert_eq!(s.rect(b), (0, 50, 100, 40));
}

#[test]
fn hidden_is_layout_neutral_collapsed_is_not() {
    let (mut s, a, b) = stacked_scene();
    let mut vis_a = Visibility::new();
    let before_a = *s.poss.get(a).unwrap();
    let before_b = *s.poss.get(b).unwrap();

    vis_a.set(lime_layout::visibility::VisibilityState::Hidden, a, &mut s.vis_tx);
    let r = s.tick();
    assert_eq!(r.duplicate_adds + r.unsatisfiable + r.unknown_removals, 0);
    let after_a = *s.poss.get(a).unwrap();
    let after_b = *s.poss.get(b).unwrap();
    assert_eq!(
        (before_a.left, before_a.top, before_a.right, before_a.bottom),
        (after_a.left, after_a.top, after_a.right, after_a.bottom)
    );
    assert_eq!(
        (before_b.left, before_b.top, before_b.right, before_b.bottom),
        (after_b.left, after_b.top, after_b.right, after_b.bottom)
    );

    vis_a.set(lime_layout::visibility::VisibilityState::Visible, a, &mut s.vis_tx);
    s.tick();
    assert_eq!(s.rect(b), (0, 50, 100, 40));

    vis_a.set(lime_layout::visibility::VisibilityState::Collapsed, a, &mut s.vis_tx);
    s.tick();
    assert_eq!(s.rect(b), (0, 0, 100, 40));

    vis_a.set(lime_layout::visibility::VisibilityState::Visible, a, &mut s.vis_tx);
    s.tick();
    assert_eq!(s.rect(b), (0, 50, 100, 40));
}

#[test]
fn duplicate_add_warns_and_changes_nothing() {
    let mut s = scene(800, 600);
    let root_p = s.root_pos();
    let pa = Position::fresh();
    let c = span(pa.bottom_var, pa.top_var, 50);
    let normal = vec![
        eq_vars(pa.left_var, root_p.left_var),
        eq_vars(pa.right_var, root_p.right_var),
        eq_vars(pa.top_var, root_p.top_var),
        c.clone(),
    ];
    let a = add_entity(&mut s, 1, pa, normal);
    let r = s.tick();
    assert_eq!(r.duplicate_adds, 0);
    assert_eq!(s.rect(a), (0, 0, 800, 50));

    // Queue the very same constraint a second time: the solver rejects the
    // duplicate with a warning and the layout is what adding it once gives.
    let mut ca = s.cons.take(a).unwrap();
    ca.add(c.clone());
    s.cons.insert(a, ca);
    let r2 = s.tick();
    assert_eq!(r2.duplicate_adds, 1);
    assert_eq!(r2.unsatisfiable, 0);
    assert_eq!(s.rect(a), (0, 0, 800, 50));
}

#[test]
fn unknown_removal_warns_and_tick_survives() {
    let mut s = scene(800, 600);
    let root_p = s.root_pos();
    let pa = Position::fresh();
    let c = span(pa.bottom_var, pa.top_var, 50);
    let normal = vec![
        eq_vars(pa.left_var, root_p.left_var),
        eq_vars(pa.right_var, root_p.right_var),
        eq_vars(pa.top_var, root_p.top_var),
        c.clone(),
    ];
    let a = add_entity(&mut s, 1, pa, normal);
    // a second entity carries the very same height constraint
    let e2 = Entity { index: 2 };
    s.cons.insert(e2, Constraints::new(vec![c.clone()], Vec::new()));
    let r1 = s.tick();
    assert_eq!(r1.duplicate_adds, 1);

    // both entities drop the shared constraint: the second removal reaches
    // the solver after the first already unregistered it
    let mut ca = s.cons.take(a).unwrap();
    assert!(ca.remove(&c));
    s.cons.insert(a, ca);
    let mut c2 = s.cons.take(e2).unwrap();
    assert!(c2.remove(&c));
    s.cons.insert(e2, c2);
    let r = s.tick();
    assert_eq!(r.unknown_removals, 1);
    assert!(r.fatal.is_none());
}

#[test]
fn strong_constraints_yield_to_window_size() {
    let mut s = scene(800, 600);
    let root_p = s.root_pos();
    let pa = Position::fresh();
    let normal = vec![
        eq_vars(pa.left_var, root_p.left_var),
        eq_vars(pa.right_var, root_p.right_var),
        eq_vars(pa.top_var, root_p.top_var),
        span(pa.bottom_var, pa.top_var, 50),
        // a strong preference that contradicts the suggested window width:
        // the window edit variables sit just below required, so they win
        linear_constraint(&vec![(root_p.right_var, 1)], -500, Rel::Equal, Strength::Strong),
    ];
    let a = add_entity(&mut s, 1, pa, normal);
    let r = s.tick();
    assert_eq!(r.unsatisfiable, 0);
    assert_eq!(s.rect(s.root), (0, 0, 800, 600));
    assert_eq!(s.rect(a), (0, 0, 800, 50));
}

#[test]
fn unsatisfiable_constraint_is_skipped() {
    let mut s = scene(800, 600);
    let root_p = s.root_pos();
    let pa = Position::fresh();
    let normal = vec![
        eq_vars(pa.left_var, root_p.left_var),
        eq_vars(pa.right_var, root_p.right_var),
        eq_vars(pa.top_var, root_p.top_var),
        span(pa.bottom_var, pa.top_var, 50),
        // contradicts the height of 50 at required strength
        span(pa.bottom_var, pa.top_var, 60),
    ];
    let a = add_entity(&mut s, 1, pa, normal);
    let r = s.tick();
    assert_eq!(r.unsatisfiable, 1);
    assert!(r.fatal.is_none());
    // the first height constraint won
    assert_eq!(s.rect(a), (0, 0, 800, 50));
}
