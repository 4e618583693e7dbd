//! Per-entity constraint sets and their pending add/remove updates.
//!
//! Each entity's `Constraints` value carries its normal constraint set, a
//! substitute fixed-zero-size set, an expanded/collapsed flag and a queue
//! of pending updates.  `collapse` swaps the normal set for the zero-size
//! set so siblings re-flow without a gap; `expand` reverses this.  A drain
//! yields the queued updates in order and clears the queue.
//!
//! The effect of a queue on the solver's registered set is modelled by
//! `apply_updates`; the laws at the end of this module state that a queue
//! converges to its net outcome, that re-adding a present constraint
//! changes nothing, and that a collapse immediately followed by an expand
//! restores the registered set exactly.

use crate::pos::Position;
use crate::solver::{
    con_constant, con_op, con_strength, con_terms, make_constraint, strength_value, Rel, Strength,
};
use vstd::prelude::*;

verus! {

/// One queued edit of the solver's constraint set.
pub enum ConstraintUpdate {
    Add(cassowary::Constraint),
    Remove(cassowary::Constraint),
}

/// The constraint an update speaks of.
pub open spec fn update_con(u: ConstraintUpdate) -> cassowary::Constraint {
    match u {
        ConstraintUpdate::Add(c) => c,
        ConstraintUpdate::Remove(c) => c,
    }
}

/// An `Add` update for each constraint, in order.
pub open spec fn adds_of(cs: Seq<cassowary::Constraint>) -> Seq<ConstraintUpdate> {
    cs.map_values(|c: cassowary::Constraint| ConstraintUpdate::Add(c))
}

/// A `Remove` update for each constraint, in order.
pub open spec fn removes_of(cs: Seq<cassowary::Constraint>) -> Seq<ConstraintUpdate> {
    cs.map_values(|c: cassowary::Constraint| ConstraintUpdate::Remove(c))
}

/// One update applied to a set of registered constraints.  Adding a present
/// constraint and removing an absent one leave the set unchanged, as the
/// solver skips both with a warning.
pub open spec fn step_update(
    s: Set<cassowary::Constraint>,
    u: ConstraintUpdate,
) -> Set<cassowary::Constraint> {
    match u {
        ConstraintUpdate::Add(c) => s.insert(c),
        ConstraintUpdate::Remove(c) => s.remove(c),
    }
}

/// A queue of updates applied in order to a set of registered constraints.
pub open spec fn apply_updates(
    s: Set<cassowary::Constraint>,
    ops: Seq<ConstraintUpdate>,
) -> Set<cassowary::Constraint>
    decreases ops.len(),
{
    if ops.len() == 0 {
        s
    } else {
        step_update(apply_updates(s, ops.drop_last()), ops.last())
    }
}

/// Whether some update in the queue speaks of `c`.
pub open spec fn touches(ops: Seq<ConstraintUpdate>, c: cassowary::Constraint) -> bool
    decreases ops.len(),
{
    if ops.len() == 0 {
        false
    } else {
        update_con(ops.last()) == c || touches(ops.drop_last(), c)
    }
}

/// Whether the last update in the queue that speaks of `c` is an `Add`.
pub open spec fn last_update_is_add(
    ops: Seq<ConstraintUpdate>,
    c: cassowary::Constraint,
) -> bool
    decreases ops.len(),
{
    if ops.len() == 0 {
        false
    } else if update_con(ops.last()) == c {
        ops.last() is Add
    } else {
        last_update_is_add(ops.drop_last(), c)
    }
}

/// The view of a `Constraints` value.
#[verifier::ext_equal]
pub struct ConsView {
    pub normal: Seq<cassowary::Constraint>,
    pub zero: Seq<cassowary::Constraint>,
    pub expanded: bool,
    pub pending: Seq<ConstraintUpdate>,
}

/// `v` after a collapse: queues the removal of the normal set and the
/// addition of the zero-size set; a no-op when already collapsed.
pub open spec fn spec_collapsed(v: ConsView) -> ConsView {
    if v.expanded {
        ConsView {
            expanded: false,
            pending: v.pending + removes_of(v.normal) + adds_of(v.zero),
            ..v
        }
    } else {
        v
    }
}

/// `v` after an expand: queues the removal of the zero-size set and the
/// addition of the normal set; a no-op when already expanded.
pub open spec fn spec_expanded(v: ConsView) -> ConsView {
    if !v.expanded {
        ConsView {
            expanded: true,
            pending: v.pending + removes_of(v.zero) + adds_of(v.normal),
            ..v
        }
    } else {
        v
    }
}

/// `v` with its queue drained.
pub open spec fn spec_drained(v: ConsView) -> ConsView {
    ConsView { pending: Seq::empty(), ..v }
}

/// The constraint set the entity asks the solver to hold: its normal set
/// while expanded, the substitute zero-size set while collapsed.
pub open spec fn effective(v: ConsView) -> Set<cassowary::Constraint> {
    if v.expanded {
        v.normal.to_set()
    } else {
        v.zero.to_set()
    }
}

/// An entity's constraint set, with its pending update queue.
pub struct Constraints {
    normal: Vec<cassowary::Constraint>,
    zero: Vec<cassowary::Constraint>,
    expanded: bool,
    pending: Vec<ConstraintUpdate>,
}

impl View for Constraints {
    type V = ConsView;

    closed spec fn view(&self) -> ConsView {
        ConsView {
            normal: self.normal@,
            zero: self.zero@,
            expanded: self.expanded,
            pending: self.pending@,
        }
    }
}

impl Constraints {
    /// A fresh, expanded constraint set; the whole normal set is queued for
    /// addition, so the next tick installs it.
    pub fn new(normal: Vec<cassowary::Constraint>, zero: Vec<cassowary::Constraint>) -> (r:
        Constraints)
        ensures
            r@.normal == normal@,
            r@.zero == zero@,
            r@.expanded == true,
            r@.pending == adds_of(normal@),
    {
        let mut pending: Vec<ConstraintUpdate> = Vec::new();
        let mut i: usize = 0;
        proof {
            assert(pending@ =~= adds_of(normal@.take(0)));
        }
        while i < normal.len()
            invariant
                i <= normal@.len(),
                pending@ == adds_of(normal@.take(i as int)),
            decreases normal@.len() - i,
        {
            pending.push(ConstraintUpdate::Add(normal[i].clone()));
            proof {
                assert(pending@ =~= adds_of(normal@.take(i + 1 as int)));
            }
            i = i + 1;
        }
        proof {
            assert(normal@.take(normal@.len() as int) =~= normal@);
        }
        Constraints { normal, zero, expanded: true, pending }
    }

    /// Whether the entity currently takes part in layout with its normal
    /// set.
    pub fn is_expanded(&self) -> (r: bool)
        ensures
            r == self@.expanded,
    {
        self.expanded
    }

    /// Adds one constraint to the normal set; while expanded, its addition
    /// is queued.
    pub fn add(&mut self, c: cassowary::Constraint)
        ensures
            final(self)@.normal == old(self)@.normal.push(c),
            final(self)@.zero == old(self)@.zero,
            final(self)@.expanded == old(self)@.expanded,
            final(self)@.pending == (if old(self)@.expanded {
                old(self)@.pending.push(ConstraintUpdate::Add(c))
            } else {
                old(self)@.pending
            }),
    {
        let c2 = c.clone();
        self.normal.push(c);
        if self.expanded {
            self.pending.push(ConstraintUpdate::Add(c2));
        }
    }

    /// Removes the first occurrence of `c` from the normal set, if present;
    /// while expanded, its removal is queued.  Returns whether `c` was
    /// present.
    pub fn remove(&mut self, c: &cassowary::Constraint) -> (r: bool)
        ensures
            r == old(self)@.normal.contains(*c),
            final(self)@.normal == old(self)@.normal.remove_value(*c),
            final(self)@.zero == old(self)@.zero,
            final(self)@.expanded == old(self)@.expanded,
            final(self)@.pending == (if r && old(self)@.expanded {
                old(self)@.pending.push(ConstraintUpdate::Remove(*c))
            } else {
                old(self)@.pending
            }),
    {
        let mut i: usize = 0;
        while i < self.normal.len()
            invariant
                i <= self@.normal.len(),
                forall|j: int| 0 <= j < i ==> self@.normal[j] != *c,
                *self == *old(self),
            decreases self@.normal.len() - i,
        {
            if self.normal[i].eq(c) {
                proof {
                    old(self)@.normal.index_of_first_ensures(*c);
                    assert(self@ == old(self)@);
                    assert(old(self)@.normal[i as int] == *c);
                    assert(old(self)@.normal.contains(*c));
                    if let Some(k) = old(self)@.normal.index_of_first(*c) {
                        if k < i as int {
                            assert(self@.normal[k] != *c);
                        } else if k > i as int {
                            assert(old(self)@.normal[i as int] != *c);
                        }
                        assert(k == i as int);
                    }
                }
                self.normal.remove(i);
                if self.expanded {
                    self.pending.push(ConstraintUpdate::Remove(c.clone()));
                }
                proof {
                    assert(final(self)@.normal =~= old(self)@.normal.remove_value(*c));
                }
                return true;
            }
            i = i + 1;
        }
        proof {
            assert(!old(self)@.normal.contains(*c));
            old(self)@.normal.index_of_first_ensures(*c);
        }
        false
    }

    /// Swaps the normal set out for the fixed-zero-size set, queueing the
    /// removals and additions; a no-op when already collapsed.
    pub fn collapse(&mut self)
        ensures
            final(self)@ == spec_collapsed(old(self)@),
    {
        if self.expanded {
            self.expanded = false;
            self.queue_removes_of_normal();
            self.queue_adds_of_zero();
            proof {
                assert(final(self)@ =~= spec_collapsed(old(self)@));
            }
        }
    }

    /// Restores the normal set, queueing the removal of the zero-size set
    /// and the addition of the normal set; a no-op when already expanded.
    pub fn expand(&mut self)
        ensures
            final(self)@ == spec_expanded(old(self)@),
    {
        if !self.expanded {
            self.expanded = true;
            self.queue_removes_of_zero();
            self.queue_adds_of_normal();
            proof {
                assert(final(self)@ =~= spec_expanded(old(self)@));
            }
        }
    }

    /// Yields the queued updates in the order they were queued and clears
    /// the queue.
    pub fn drain(&mut self) -> (r: Vec<ConstraintUpdate>)
        ensures
            r@ == old(self)@.pending,
            final(self)@ == spec_drained(old(self)@),
    {
        let mut r: Vec<ConstraintUpdate> = Vec::new();
        core::mem::swap(&mut r, &mut self.pending);
        proof {
            assert(final(self)@ =~= spec_drained(old(self)@));
        }
        r
    }

    fn queue_removes_of_normal(&mut self)
        ensures
            final(self)@ == (ConsView {
                pending: old(self)@.pending + removes_of(old(self)@.normal),
                ..old(self)@
            }),
    {
        let mut i: usize = 0;
        proof {
            assert(self@.pending =~= old(self)@.pending + removes_of(old(self)@.normal.take(0)));
        }
        while i < self.normal.len()
            invariant
                i <= self@.normal.len(),
                self@.normal == old(self)@.normal,
                self@.zero == old(self)@.zero,
                self@.expanded == old(self)@.expanded,
                self@.pending == old(self)@.pending + removes_of(old(self)@.normal.take(i as int)),
            decreases self@.normal.len() - i,
        {
            self.pending.push(ConstraintUpdate::Remove(self.normal[i].clone()));
            proof {
                assert(self@.pending =~= old(self)@.pending + removes_of(
                    old(self)@.normal.take(i + 1 as int),
                ));
            }
            i = i + 1;
        }
        proof {
            assert(old(self)@.normal.take(old(self)@.normal.len() as int) =~= old(self)@.normal);
            assert(final(self)@ =~= (ConsView {
                pending: old(self)@.pending + removes_of(old(self)@.normal),
                ..old(self)@
            }));
        }
    }

    fn queue_adds_of_normal(&mut self)
        ensures
            final(self)@ == (ConsView {
                pending: old(self)@.pending + adds_of(old(self)@.normal),
                ..old(self)@
            }),
    {
        let mut i: usize = 0;
        proof {
            assert(self@.pending =~= old(self)@.pending + adds_of(old(self)@.normal.take(0)));
        }
        while i < self.normal.len()
            invariant
                i <= self@.normal.len(),
                self@.normal == old(self)@.normal,
                self@.zero == old(self)@.zero,
                self@.expanded == old(self)@.expanded,
                self@.pending == old(self)@.pending + adds_of(old(self)@.normal.take(i as int)),
            decreases self@.normal.len() - i,
        {
            self.pending.push(ConstraintUpdate::Add(self.normal[i].clone()));
            proof {
                assert(self@.pending =~= old(self)@.pending + adds_of(
                    old(self)@.normal.take(i + 1 as int),
                ));
            }
            i = i + 1;
        }
        proof {
            assert(old(self)@.normal.take(old(self)@.normal.len() as int) =~= old(self)@.normal);
            assert(final(self)@ =~= (ConsView {
                pending: old(self)@.pending + adds_of(old(self)@.normal),
                ..old(self)@
            }));
        }
    }

    fn queue_removes_of_zero(&mut self)
        ensures
            final(self)@ == (ConsView {
                pending: old(self)@.pending + removes_of(old(self)@.zero),
                ..old(self)@
            }),
    {
        let mut i: usize = 0;
        proof {
            assert(self@.pending =~= old(self)@.pending + removes_of(old(self)@.zero.take(0)));
        }
        while i < self.zero.len()
            invariant
                i <= self@.zero.len(),
                self@.normal == old(self)@.normal,
                self@.zero == old(self)@.zero,
                self@.expanded == old(self)@.expanded,
                self@.pending == old(self)@.pending + removes_of(old(self)@.zero.take(i as int)),
            decreases self@.zero.len() - i,
        {
            self.pending.push(ConstraintUpdate::Remove(self.zero[i].clone()));
            proof {
                assert(self@.pending =~= old(self)@.pending + removes_of(
                    old(self)@.zero.take(i + 1 as int),
                ));
            }
            i = i + 1;
        }
        proof {
            assert(old(self)@.zero.take(old(self)@.zero.len() as int) =~= old(self)@.zero);
            assert(final(self)@ =~= (ConsView {
                pending: old(self)@.pending + removes_of(old(self)@.zero),
                ..old(self)@
            }));
        }
    }

    fn queue_adds_of_zero(&mut self)
        ensures
            final(self)@ == (ConsView {
                pending: old(self)@.pending + adds_of(old(self)@.zero),
                ..old(self)@
            }),
    {
        let mut i: usize = 0;
        proof {
            assert(self@.pending =~= old(self)@.pending + adds_of(old(self)@.zero.take(0)));
        }
        while i < self.zero.len()
            invariant
                i <= self@.zero.len(),
                self@.normal == old(self)@.normal,
                self@.zero == old(self)@.zero,
                self@.expanded == old(self)@.expanded,
                self@.pending == old(self)@.pending + adds_of(old(self)@.zero.take(i as int)),
            decreases self@.zero.len() - i,
        {
            self.pending.push(ConstraintUpdate::Add(self.zero[i].clone()));
            proof {
                assert(self@.pending =~= old(self)@.pending + adds_of(
                    old(self)@.zero.take(i + 1 as int),
                ));
            }
            i = i + 1;
        }
        proof {
            assert(old(self)@.zero.take(old(self)@.zero.len() as int) =~= old(self)@.zero);
            assert(final(self)@ =~= (ConsView {
                pending: old(self)@.pending + adds_of(old(self)@.zero),
                ..old(self)@
            }));
        }
    }
}

/// The substitute constraint set of a collapsed entity: its right edge
/// pinned to its left and its bottom edge to its top, both required, so the
/// entity occupies zero width and height and siblings re-flow without a
/// gap.
pub fn zero_size_set(pos: &Position) -> (r: Vec<cassowary::Constraint>)
    ensures
        r@.len() == 2,
        con_terms(r@[0]) == seq![(pos.right_var, 1 as int), (pos.left_var, -1 as int)],
        con_constant(r@[0]) == 0,
        con_op(r@[0]) == Rel::Equal,
        con_strength(r@[0]) == strength_value(Strength::Required),
        con_terms(r@[1]) == seq![(pos.bottom_var, 1 as int), (pos.top_var, -1 as int)],
        con_constant(r@[1]) == 0,
        con_op(r@[1]) == Rel::Equal,
        con_strength(r@[1]) == strength_value(Strength::Required),
{
    let mut width_terms: Vec<(cassowary::Variable, i32)> = Vec::new();
    width_terms.push((pos.right_var, 1));
    width_terms.push((pos.left_var, -1));
    let width_zero = make_constraint(&width_terms, 0, Rel::Equal, Strength::Required);
    proof {
        assert(con_terms(width_zero) =~= seq![
            (pos.right_var, 1 as int),
            (pos.left_var, -1 as int),
        ]);
    }
    let mut height_terms: Vec<(cassowary::Variable, i32)> = Vec::new();
    height_terms.push((pos.bottom_var, 1));
    height_terms.push((pos.top_var, -1));
    let height_zero = make_constraint(&height_terms, 0, Rel::Equal, Strength::Required);
    proof {
        assert(con_terms(height_zero) =~= seq![
            (pos.bottom_var, 1 as int),
            (pos.top_var, -1 as int),
        ]);
    }
    let mut r: Vec<cassowary::Constraint> = Vec::new();
    r.push(width_zero);
    r.push(height_zero);
    r
}

/// Builds the linear constraint `sum(coefficient * variable) + constant
/// op 0` at the given strength, for callers assembling an entity's
/// constraint set.  Constraints compare by identity: the result is a fresh
/// constraint, equal only to its own clones.
pub fn linear_constraint(
    terms: &Vec<(cassowary::Variable, i32)>,
    constant: i32,
    op: Rel,
    strength: Strength,
) -> (c: cassowary::Constraint)
    ensures
        con_terms(c) == terms@.map_values(|t: (cassowary::Variable, i32)| (t.0, t.1 as int)),
        con_constant(c) == constant as int,
        con_op(c) == op,
        con_strength(c) == strength_value(strength),
{
    make_constraint(terms, constant, op, strength)
}

// ------------------------------------------------------------------------
// Laws of update queues.
// ------------------------------------------------------------------------

/// Applying a concatenation of queues is applying one after the other.
pub proof fn lemma_apply_updates_concat(
    s: Set<cassowary::Constraint>,
    a: Seq<ConstraintUpdate>,
    b: Seq<ConstraintUpdate>,
)
    ensures
        apply_updates(s, a + b) == apply_updates(apply_updates(s, a), b),
    decreases b.len(),
{
    if b.len() == 0 {
        assert(a + b =~= a);
    } else {
        lemma_apply_updates_concat(s, a, b.drop_last());
        assert((a + b).drop_last() =~= a + b.drop_last());
        assert((a + b).last() == b.last());
    }
}

/// Law: a queue of add/remove updates converges to its net outcome.  After
/// the whole queue is applied, a constraint that the queue touches is
/// registered exactly when the last update that speaks of it is an add; a
/// constraint the queue does not touch keeps its prior registration.  In
/// particular the final set depends only on the net surviving updates, not
/// on the intermediate history.
pub proof fn lemma_net_convergence(s: Set<cassowary::Constraint>, ops: Seq<ConstraintUpdate>)
    ensures
        forall|c: cassowary::Constraint|
            #[trigger] apply_updates(s, ops).contains(c) == (if touches(ops, c) {
                last_update_is_add(ops, c)
            } else {
                s.contains(c)
            }),
    decreases ops.len(),
{
    if ops.len() > 0 {
        lemma_net_convergence(s, ops.drop_last());
        assert forall|c: cassowary::Constraint|
            #[trigger] apply_updates(s, ops).contains(c) == (if touches(ops, c) {
                last_update_is_add(ops, c)
            } else {
                s.contains(c)
            }) by {
            assert(apply_updates(s, ops.drop_last()).contains(c) == (if touches(
                ops.drop_last(),
                c,
            ) {
                last_update_is_add(ops.drop_last(), c)
            } else {
                s.contains(c)
            }));
            assert(apply_updates(s, ops) == step_update(
                apply_updates(s, ops.drop_last()),
                ops.last(),
            ));
        }
    }
}

/// Law: adding a constraint that is already registered has no effect on the
/// registered set; the solver rejects the duplicate with a warning and the
/// final layout equals the one after adding it once.
pub proof fn lemma_duplicate_add_no_effect(s: Set<cassowary::Constraint>, c: cassowary::Constraint)
    ensures
        apply_updates(s, seq![ConstraintUpdate::Add(c), ConstraintUpdate::Add(c)]) == apply_updates(
            s,
            seq![ConstraintUpdate::Add(c)],
        ),
{
    let twice = seq![ConstraintUpdate::Add(c), ConstraintUpdate::Add(c)];
    let once = seq![ConstraintUpdate::Add(c)];
    assert(twice.drop_last() =~= once);
    assert(once.drop_last() =~= Seq::<ConstraintUpdate>::empty());
    assert(apply_updates(s, twice) =~= apply_updates(s, once));
}

/// Applying only removals takes the set difference.
pub proof fn lemma_apply_removes(s: Set<cassowary::Constraint>, cs: Seq<cassowary::Constraint>)
    ensures
        apply_updates(s, removes_of(cs)) == s.difference(cs.to_set()),
    decreases cs.len(),
{
    if cs.len() == 0 {
        assert(removes_of(cs) =~= Seq::<ConstraintUpdate>::empty());
        assert(cs.to_set() =~= Set::<cassowary::Constraint>::empty());
        assert(s.difference(cs.to_set()) =~= s);
    } else {
        lemma_apply_removes(s, cs.drop_last());
        assert(removes_of(cs).drop_last() =~= removes_of(cs.drop_last()));
        assert(removes_of(cs).last() == ConstraintUpdate::Remove(cs.last()));
        assert(cs.drop_last().push(cs.last()) =~= cs);
        broadcast use vstd::seq_lib::group_seq_properties;

        assert(cs.to_set() =~= cs.drop_last().to_set().insert(cs.last()));
        assert(s.difference(cs.drop_last().to_set()).remove(cs.last()) =~= s.difference(
            cs.to_set(),
        ));
    }
}

/// Applying only additions takes the set union.
pub proof fn lemma_apply_adds(s: Set<cassowary::Constraint>, cs: Seq<cassowary::Constraint>)
    ensures
        apply_updates(s, adds_of(cs)) == s.union(cs.to_set()),
    decreases cs.len(),
{
    if cs.len() == 0 {
        assert(adds_of(cs) =~= Seq::<ConstraintUpdate>::empty());
        assert(cs.to_set() =~= Set::<cassowary::Constraint>::empty());
        assert(s.union(cs.to_set()) =~= s);
    } else {
        lemma_apply_adds(s, cs.drop_last());
        assert(adds_of(cs).drop_last() =~= adds_of(cs.drop_last()));
        assert(adds_of(cs).last() == ConstraintUpdate::Add(cs.last()));
        assert(cs.drop_last().push(cs.last()) =~= cs);
        broadcast use vstd::seq_lib::group_seq_properties;

        assert(cs.to_set() =~= cs.drop_last().to_set().insert(cs.last()));
        assert(s.union(cs.drop_last().to_set()).insert(cs.last()) =~= s.union(cs.to_set()));
    }
}

/// Law: a collapse immediately followed by an expand restores the
/// registered constraint set exactly, provided the solver held the whole
/// normal set and none of the zero-size set — the state an expanded,
/// synchronised entity is in.
pub proof fn lemma_collapse_expand_restores(
    s: Set<cassowary::Constraint>,
    normal: Seq<cassowary::Constraint>,
    zero: Seq<cassowary::Constraint>,
)
    requires
        forall|c: cassowary::Constraint| normal.contains(c) ==> s.contains(c),
        forall|c: cassowary::Constraint| zero.contains(c) ==> !s.contains(c),
    ensures
        apply_updates(
            s,
            (removes_of(normal) + adds_of(zero)) + (removes_of(zero) + adds_of(normal)),
        ) == s,
{
    let collapse_ops = removes_of(normal) + adds_of(zero);
    let expand_ops = removes_of(zero) + adds_of(normal);
    lemma_apply_updates_concat(s, collapse_ops, expand_ops);
    lemma_apply_updates_concat(s, removes_of(normal), adds_of(zero));
    lemma_apply_removes(s, normal);
    let s1 = s.difference(normal.to_set());
    lemma_apply_adds(s1, zero);
    let s2 = s1.union(zero.to_set());
    lemma_apply_updates_concat(s2, removes_of(zero), adds_of(normal));
    lemma_apply_removes(s2, zero);
    let s3 = s2.difference(zero.to_set());
    lemma_apply_adds(s3, normal);
    broadcast use vstd::seq_lib::group_seq_properties;

    assert(s3 =~= s.difference(normal.to_set()));
    assert(s3.union(normal.to_set()) =~= s);
}

} // verus!
