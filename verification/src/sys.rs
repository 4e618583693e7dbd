//! The layout engine: one deterministic pass per tick.
//!
//! Each tick the engine reads the most recent unread resize event and
//! suggests the window edges to the solver, drains every unread visibility
//! event and collapses or expands the affected entities, drains all pending
//! constraint updates into the solver in the order queued, and finally
//! fetches the coalesced variable-value deltas and refreshes every
//! position.
//!
//! Structural errors (a duplicate or unsatisfiable constraint, the removal
//! of an absent one) are counted in the tick report and never abort the
//! tick; only an internal solver fault is fatal, and the report then says
//! so.

use crate::channel::{EventChannel, ReaderId};
use crate::cons::{
    apply_updates, spec_collapsed, spec_drained, spec_expanded, ConsView, Constraints,
    ConstraintUpdate,
};
use crate::pos::{map_of, spec_updated, Changes, Position};
use crate::solver::{
    con_constant, con_op, con_strength, con_terms, make_constraint, new_vars, no_pending,
    solver_add, solver_add_edit, solver_cons, solver_edits, solver_fetch, solver_new,
    solver_pending, solver_remove, solver_sugs, solver_suggest, var_reported, var_value,
    AddOutcome, EditOutcome, Rel, RemoveOutcome, Strength, SuggestOutcome, STRENGTH_EDIT,
    STRENGTH_REQUIRED,
};
use crate::storage::{Entity, Storage};
use crate::visibility::VisibilityEvent;
use vstd::prelude::*;

verus! {

/// The window's size in pixels, as a resize event reports it.
#[derive(Clone, Copy, PartialEq, Eq, Structural, Debug)]
pub struct ScreenDimensions {
    pub width: u32,
    pub height: u32,
}

/// An invariant-breaking failure: the solver reported an internal fault.
/// The engine cannot roll such a state back; the caller is expected to
/// abort.
#[derive(Clone, Copy, PartialEq, Eq, Structural, Debug)]
pub enum FatalError {
    SolverFault,
}

/// What one tick did: how many structural errors were skipped with a
/// warning, and whether a fatal fault ended the tick early.  `applied`
/// names the variable-value deltas this tick wrote into positions.
pub struct TickReport {
    pub duplicate_adds: usize,
    pub unsatisfiable: usize,
    pub unknown_removals: usize,
    pub fatal: Option<FatalError>,
    pub applied: Ghost<Map<cassowary::Variable, int>>,
}

/// The views of a constraint storage's slots.
pub open spec fn cons_views(m: Seq<Option<Constraints>>) -> Seq<Option<ConsView>> {
    m.map_values(
        |o: Option<Constraints>|
            match o {
                Some(c) => Some(c@),
                None => None,
            },
    )
}

/// One visibility event applied to the constraint views: leaving
/// `Collapsed` expands the entity's constraints, entering it collapses
/// them; layout-neutral events and entities without constraints change
/// nothing.
pub open spec fn vis_step(m: Seq<Option<ConsView>>, ev: VisibilityEvent) -> Seq<Option<ConsView>> {
    match ev.spec_needs_layout_changed() {
        Some(restore) => {
            let i = ev.entity.index as int;
            if 0 <= i < m.len() {
                match m[i] {
                    Some(v) => m.update(
                        i,
                        Some(
                            if restore {
                                spec_expanded(v)
                            } else {
                                spec_collapsed(v)
                            },
                        ),
                    ),
                    None => m,
                }
            } else {
                m
            }
        },
        None => m,
    }
}

/// A backlog of visibility events applied in order.
pub open spec fn vis_fold(m: Seq<Option<ConsView>>, evs: Seq<VisibilityEvent>) -> Seq<
    Option<ConsView>,
>
    decreases evs.len(),
{
    if evs.len() == 0 {
        m
    } else {
        vis_step(vis_fold(m, evs.drop_last()), evs.last())
    }
}

/// Every entity's pending queue drained.
pub open spec fn drain_all(m: Seq<Option<ConsView>>) -> Seq<Option<ConsView>> {
    m.map_values(
        |o: Option<ConsView>|
            match o {
                Some(v) => Some(spec_drained(v)),
                None => None,
            },
    )
}

/// The pending queue of one slot.
pub open spec fn pending_of(o: Option<ConsView>) -> Seq<ConstraintUpdate> {
    match o {
        Some(v) => v.pending,
        None => Seq::empty(),
    }
}

/// The pending updates of all entities: entity-index order, each entity's
/// queue in the order queued.  This is not a global across-entity queue
/// order; the two differ only when one tick queues updates naming the very
/// same constraint under two entities, and the registered set then follows
/// this order.  The ordering is diagnostic — satisfiability does not
/// depend on it.
pub open spec fn all_pending(m: Seq<Option<ConsView>>) -> Seq<ConstraintUpdate>
    decreases m.len(),
{
    if m.len() == 0 {
        Seq::empty()
    } else {
        all_pending(m.drop_last()) + pending_of(m.last())
    }
}

/// Whether `kept` is `full` with some `Add` updates left out — how a
/// tick's update batch relates to what the solver accepted, since only
/// unsatisfiable adds are skipped, each one individually.
pub open spec fn omits_only_adds(full: Seq<ConstraintUpdate>, kept: Seq<ConstraintUpdate>) -> bool
    decreases full.len(),
{
    if full.len() == 0 {
        kept.len() == 0
    } else {
        ||| (kept.len() > 0 && kept.last() == full.last() && omits_only_adds(
            full.drop_last(),
            kept.drop_last(),
        ))
        ||| (full.last() is Add && omits_only_adds(full.drop_last(), kept))
    }
}

/// The updates queued before slot `i`, and slot `i`'s own, are all part of
/// the batch.
proof fn lemma_all_pending_take_len(m: Seq<Option<ConsView>>, i: int)
    requires
        0 <= i < m.len(),
    ensures
        all_pending(m).len() >= all_pending(m.take(i)).len() + pending_of(m[i]).len(),
    decreases m.len(),
{
    if i == m.len() - 1 {
        assert(m.take(i) =~= m.drop_last());
    } else {
        lemma_all_pending_take_len(m.drop_last(), i);
        assert(m.drop_last().take(i) =~= m.take(i));
    }
}

/// The layout engine.  It exclusively owns one incremental solver, the
/// variable-change accumulator and its two reader cursors; the two window
/// edit variables are registered at construction and never change.
pub struct LayoutSystem {
    solver: cassowary::Solver,
    changes: Changes,
    dims_rx: ReaderId,
    vis_rx: ReaderId,
    width: cassowary::Variable,
    height: cassowary::Variable,
}

/// Whether two engine states agree on everything but the solver.
spec fn self_fields_but_solver_equal(a: LayoutSystem, b: LayoutSystem) -> bool {
    &&& a.changes == b.changes
    &&& a.dims_rx == b.dims_rx
    &&& a.vis_rx == b.vis_rx
    &&& a.width == b.width
    &&& a.height == b.height
}

impl LayoutSystem {
    /// The solver's current abstract state.
    pub closed spec fn solver_state(&self) -> cassowary::Solver {
        self.solver
    }

    /// The edit variable bound to the window width.
    pub closed spec fn width_var(&self) -> cassowary::Variable {
        self.width
    }

    /// The edit variable bound to the window height.
    pub closed spec fn height_var(&self) -> cassowary::Variable {
        self.height
    }

    /// The cursor into the resize event log.
    pub closed spec fn dims_pos(&self) -> int {
        self.dims_rx.position()
    }

    /// The cursor into the visibility event log.
    pub closed spec fn vis_pos(&self) -> int {
        self.vis_rx.position()
    }

    /// The variable-change accumulator.
    pub closed spec fn changes_acc(&self) -> Map<cassowary::Variable, int> {
        self.changes@
    }

    /// The engine's invariant between ticks: the two window edit variables
    /// are distinct and registered, and the accumulator has been flushed.
    pub open spec fn wf(&self) -> bool {
        &&& solver_edits(self.solver_state()).contains(self.width_var())
        &&& solver_edits(self.solver_state()).contains(self.height_var())
        &&& self.width_var() != self.height_var()
        &&& self.changes_acc() == Map::<cassowary::Variable, int>::empty()
    }

    /// Builds the engine: a fresh solver with a constant variable pinned to
    /// zero at required strength and two edit variables for the window
    /// edges, the root's position pinned to those variables, the reader
    /// cursors registered at the current ends of the two logs, and the
    /// current window size suggested.  `Err` means the solver failed during
    /// setup, which the caller treats as fatal.
    pub fn add(
        dims: &ScreenDimensions,
        dims_tx: &EventChannel<ScreenDimensions>,
        vis_tx: &EventChannel<VisibilityEvent>,
        root: Entity,
        poss: &mut Storage<Position>,
    ) -> (r: Result<LayoutSystem, FatalError>)
        ensures
            match r {
                Ok(sys) => {
                    &&& sys.wf()
                    &&& sys.dims_pos() == dims_tx@.len()
                    &&& sys.vis_pos() == vis_tx@.len()
                    &&& solver_sugs(sys.solver_state())[sys.width_var()] == dims.width as int
                    &&& solver_sugs(sys.solver_state())[sys.height_var()] == dims.height as int
                    &&& match final(poss).spec_get(root) {
                        Some(p) => {
                            &&& p.left_var == p.top_var
                            &&& p.left_var != sys.width_var()
                            &&& p.left_var != sys.height_var()
                            &&& p.right_var == sys.width_var()
                            &&& p.bottom_var == sys.height_var()
                            &&& p.left == 0 && p.top == 0 && p.right == 0 && p.bottom == 0
                            &&& (exists|zc: cassowary::Constraint|
                                #[trigger] solver_cons(sys.solver_state()).contains(zc)
                                    && con_terms(zc) == seq![(p.left_var, 1 as int)]
                                    && con_constant(zc) == 0 && con_op(zc) == Rel::Equal
                                    && con_strength(zc) == STRENGTH_REQUIRED as int)
                        },
                        None => false,
                    }
                    &&& (exists|wc: cassowary::Constraint|
                        #[trigger] solver_cons(sys.solver_state()).contains(wc) && con_terms(wc)
                            == seq![(sys.width_var(), 1 as int)] && con_constant(wc) == 0
                            && con_op(wc) == Rel::Equal && con_strength(wc) == STRENGTH_EDIT
                            as int)
                    &&& (exists|hc: cassowary::Constraint|
                        #[trigger] solver_cons(sys.solver_state()).contains(hc) && con_terms(hc)
                            == seq![(sys.height_var(), 1 as int)] && con_constant(hc) == 0
                            && con_op(hc) == Rel::Equal && con_strength(hc) == STRENGTH_EDIT
                            as int)
                    &&& forall|e2: Entity|
                        e2 != root ==> final(poss).spec_get(e2) == old(poss).spec_get(e2)
                },
                Err(_) => final(poss)@ == old(poss)@,
            },
    {
        let mut solver = solver_new();

        let vars = new_vars(3);
        let zero = vars[0];
        let mut zero_terms: Vec<(cassowary::Variable, i32)> = Vec::new();
        zero_terms.push((zero, 1));
        let zero_c = make_constraint(&zero_terms, 0, Rel::Equal, Strength::Required);
        proof {
            assert(con_terms(zero_c) =~= seq![(zero, 1 as int)]);
        }
        match solver_add(&mut solver, &zero_c) {
            AddOutcome::Added => (),
            _ => {
                return Err(FatalError::SolverFault);
            },
        }

        let width = vars[1];
        let ghost sv1 = solver;
        match solver_add_edit(&mut solver, width) {
            EditOutcome::Registered => (),
            _ => {
                return Err(FatalError::SolverFault);
            },
        }
        let ghost ec_w = choose|ec: cassowary::Constraint|
            !solver_cons(sv1).contains(ec) && solver_cons(solver) == solver_cons(sv1).insert(ec)
                && #[trigger] con_terms(ec) == seq![(width, 1 as int)] && con_constant(ec) == 0
                && con_op(ec) == Rel::Equal && con_strength(ec) == STRENGTH_EDIT as int;
        let height = vars[2];
        let ghost sv2 = solver;
        match solver_add_edit(&mut solver, height) {
            EditOutcome::Registered => (),
            _ => {
                return Err(FatalError::SolverFault);
            },
        }
        let ghost ec_h = choose|ec: cassowary::Constraint|
            !solver_cons(sv2).contains(ec) && solver_cons(solver) == solver_cons(sv2).insert(ec)
                && #[trigger] con_terms(ec) == seq![(height, 1 as int)] && con_constant(ec) == 0
                && con_op(ec) == Rel::Equal && con_strength(ec) == STRENGTH_EDIT as int;
        proof {
            assert(solver_cons(solver).contains(zero_c));
            assert(solver_cons(solver).contains(ec_w));
            assert(solver_cons(solver).contains(ec_h));
        }

        let mut sys = LayoutSystem {
            solver,
            changes: Changes::new(),
            dims_rx: dims_tx.register_reader(),
            vis_rx: vis_tx.register_reader(),
            width,
            height,
        };

        let w = sys.width;
        if let Err(e) = sys.resize(w, dims.width) {
            return Err(e);
        }
        let h = sys.height;
        if let Err(e) = sys.resize(h, dims.height) {
            return Err(e);
        }

        poss.insert(root, Position::root(zero, width, height));
        proof {
            assert(solver_cons(sys.solver_state()).contains(zero_c));
            assert(solver_cons(sys.solver_state()).contains(ec_w));
            assert(solver_cons(sys.solver_state()).contains(ec_h));
        }
        Ok(sys)
    }

    /// Suggests a new value for one of the window edit variables.  The
    /// variable is registered by `wf`, so the solver's unknown-variable
    /// outcome — which would mean a variable-bookkeeping bug with no safe
    /// recovery — is proven unreachable; only an internal solver fault
    /// remains.
    fn resize(&mut self, var: cassowary::Variable, val: u32) -> (r: Result<(), FatalError>)
        requires
            solver_edits(old(self).solver_state()).contains(var),
        ensures
            final(self).width_var() == old(self).width_var(),
            final(self).height_var() == old(self).height_var(),
            final(self).dims_pos() == old(self).dims_pos(),
            final(self).vis_pos() == old(self).vis_pos(),
            final(self).changes_acc() == old(self).changes_acc(),
            match r {
                Ok(()) => {
                    &&& solver_cons(final(self).solver_state()) == solver_cons(
                        old(self).solver_state(),
                    )
                    &&& solver_edits(final(self).solver_state()) == solver_edits(
                        old(self).solver_state(),
                    )
                    &&& solver_sugs(final(self).solver_state()) == solver_sugs(
                        old(self).solver_state(),
                    ).insert(var, val as int)
                },
                Err(_) => true,
            },
    {
        match solver_suggest(&mut self.solver, var, val) {
            SuggestOutcome::Suggested => Ok(()),
            SuggestOutcome::UnknownVariable => {
                proof {
                    assert(false);
                }
                Err(FatalError::SolverFault)
            },
            SuggestOutcome::Fault => Err(FatalError::SolverFault),
        }
    }

    /// Adds one constraint to the solver.  A duplicate or an unsatisfiable
    /// constraint is a structural error: the solver is left as it was and
    /// the tick goes on; the caller reports the outcome.
    fn add_constraint(&mut self, con: &cassowary::Constraint) -> (r: AddOutcome)
        ensures
            self_fields_but_solver_equal(*final(self), *old(self)),
            match r {
                AddOutcome::Added => !solver_cons(old(self).solver_state()).contains(*con)
                    && solver_cons(final(self).solver_state()) == solver_cons(
                    old(self).solver_state(),
                ).insert(*con) && solver_edits(final(self).solver_state()) == solver_edits(
                    old(self).solver_state(),
                ) && solver_sugs(final(self).solver_state()) == solver_sugs(
                    old(self).solver_state(),
                ),
                AddOutcome::Duplicate => solver_cons(old(self).solver_state()).contains(*con)
                    && solver_cons(final(self).solver_state()) == solver_cons(
                    old(self).solver_state(),
                ) && solver_edits(final(self).solver_state()) == solver_edits(
                    old(self).solver_state(),
                ) && solver_sugs(final(self).solver_state()) == solver_sugs(
                    old(self).solver_state(),
                ) && solver_pending(final(self).solver_state()) == solver_pending(
                    old(self).solver_state(),
                ),
                AddOutcome::Unsatisfiable => !solver_cons(old(self).solver_state()).contains(
                    *con,
                ) && solver_cons(final(self).solver_state()) == solver_cons(
                    old(self).solver_state(),
                ) && solver_edits(final(self).solver_state()) == solver_edits(
                    old(self).solver_state(),
                ) && solver_sugs(final(self).solver_state()) == solver_sugs(
                    old(self).solver_state(),
                ),
                AddOutcome::Fault => true,
            },
    {
        solver_add(&mut self.solver, con)
    }

    /// Removes one constraint from the solver.  Removing an absent
    /// constraint is a structural error: the solver is left as it was and
    /// the tick goes on; the caller reports the outcome.
    fn remove_constraint(&mut self, con: &cassowary::Constraint) -> (r: RemoveOutcome)
        ensures
            self_fields_but_solver_equal(*final(self), *old(self)),
            match r {
                RemoveOutcome::Removed => solver_cons(old(self).solver_state()).contains(*con)
                    && solver_cons(final(self).solver_state()) == solver_cons(
                    old(self).solver_state(),
                ).remove(*con) && solver_edits(final(self).solver_state()) == solver_edits(
                    old(self).solver_state(),
                ) && solver_sugs(final(self).solver_state()) == solver_sugs(
                    old(self).solver_state(),
                ),
                RemoveOutcome::Unknown => !solver_cons(old(self).solver_state()).contains(*con)
                    && solver_cons(final(self).solver_state()) == solver_cons(
                    old(self).solver_state(),
                ) && solver_edits(final(self).solver_state()) == solver_edits(
                    old(self).solver_state(),
                ) && solver_sugs(final(self).solver_state()) == solver_sugs(
                    old(self).solver_state(),
                ) && solver_pending(final(self).solver_state()) == solver_pending(
                    old(self).solver_state(),
                ),
                RemoveOutcome::Fault => true,
            },
    {
        solver_remove(&mut self.solver, con)
    }

    /// One tick: resize (last unread event wins), visibility (every unread
    /// event, losslessly), constraint sync (all pending updates, in entity
    /// order, each entity's queue in the order queued), then fetch the
    /// coalesced variable deltas and refresh every position.  Structural errors never abort the batch: the solver
    /// ends up with every queued update applied except the individually
    /// rejected unsatisfiable adds, and the report bounds the number of
    /// warnings by the batch.  A tick with nothing to suggest and nothing
    /// to apply makes no fallible call, so it cannot end fatally.  The
    /// solved values themselves come from the solver and are not pinned
    /// here; `r.applied` names the delta map this tick wrote, and an idle
    /// tick — nothing unread, nothing pending — leaves every position byte
    /// for byte unchanged.
    pub fn run(
        &mut self,
        dims_tx: &EventChannel<ScreenDimensions>,
        vis_tx: &EventChannel<VisibilityEvent>,
        cons: &mut Storage<Constraints>,
        poss: &mut Storage<Position>,
    ) -> (r: TickReport)
        requires
            old(self).wf(),
            old(self).dims_pos() <= dims_tx@.len(),
            old(self).vis_pos() <= vis_tx@.len(),
        ensures
            (old(self).dims_pos() == dims_tx@.len() && all_pending(
                vis_fold(
                    cons_views(old(cons)@),
                    vis_tx@.subrange(old(self).vis_pos(), vis_tx@.len() as int),
                ),
            ).len() == 0) ==> r.fatal is None,
            r.fatal is Some ==> final(poss)@ == old(poss)@ && r.applied@ == Map::<
                cassowary::Variable,
                int,
            >::empty(),
            r.fatal is None ==> {
                let evs = vis_tx@.subrange(old(self).vis_pos(), vis_tx@.len() as int);
                let mid = vis_fold(cons_views(old(cons)@), evs);
                &&& final(self).wf()
                &&& final(self).width_var() == old(self).width_var()
                &&& final(self).height_var() == old(self).height_var()
                &&& final(self).dims_pos() == dims_tx@.len()
                &&& final(self).vis_pos() == vis_tx@.len()
                &&& solver_edits(final(self).solver_state()) == solver_edits(
                    old(self).solver_state(),
                )
                &&& solver_sugs(final(self).solver_state()) == (if old(self).dims_pos()
                    < dims_tx@.len() {
                    solver_sugs(old(self).solver_state()).insert(
                        old(self).width_var(),
                        dims_tx@.last().width as int,
                    ).insert(old(self).height_var(), dims_tx@.last().height as int)
                } else {
                    solver_sugs(old(self).solver_state())
                })
                &&& cons_views(final(cons)@) == drain_all(mid)
                &&& (r.unsatisfiable == 0 ==> solver_cons(final(self).solver_state())
                    == apply_updates(solver_cons(old(self).solver_state()), all_pending(mid)))
                &&& exists|kept: Seq<ConstraintUpdate>|
                    #[trigger] omits_only_adds(all_pending(mid), kept) && solver_cons(
                        final(self).solver_state(),
                    ) == apply_updates(solver_cons(old(self).solver_state()), kept)
                &&& r.duplicate_adds + r.unsatisfiable + r.unknown_removals <= all_pending(
                    mid,
                ).len()
                &&& no_pending(final(self).solver_state())
                &&& final(poss)@.len() == old(poss)@.len()
                &&& forall|j: int|
                    0 <= j < old(poss)@.len() ==> #[trigger] final(poss)@[j] == (match old(
                        poss,
                    )@[j] {
                        Some(p) => Some(spec_updated(p, r.applied@)),
                        None => None::<Position>,
                    })
                &&& forall|v: cassowary::Variable|
                    #[trigger] r.applied@.contains_key(v) ==> r.applied@[v] == var_value(
                        final(self).solver_state(),
                        v,
                    )
            },
            (r.fatal is None && old(self).dims_pos() == dims_tx@.len() && all_pending(
                vis_fold(
                    cons_views(old(cons)@),
                    vis_tx@.subrange(old(self).vis_pos(), vis_tx@.len() as int),
                ),
            ).len() == 0) ==> {
                &&& forall|v: cassowary::Variable|
                    #[trigger] solver_pending(old(self).solver_state()).contains(v) && var_value(
                        old(self).solver_state(),
                        v,
                    ) != var_reported(old(self).solver_state(), v) ==> r.applied@.contains_key(v)
                &&& forall|v: cassowary::Variable|
                    #[trigger] solver_pending(old(self).solver_state()).contains(v)
                        ==> var_reported(final(self).solver_state(), v) == var_value(
                        final(self).solver_state(),
                        v,
                    )
                &&& forall|v: cassowary::Variable|
                    #[trigger] var_value(final(self).solver_state(), v) == var_value(
                        old(self).solver_state(),
                        v,
                    )
            },
            (r.fatal is None && old(self).dims_pos() == dims_tx@.len() && all_pending(
                vis_fold(
                    cons_views(old(cons)@),
                    vis_tx@.subrange(old(self).vis_pos(), vis_tx@.len() as int),
                ),
            ).len() == 0 && no_pending(old(self).solver_state())) ==> {
                &&& final(poss)@ == old(poss)@
                &&& r.applied@ == Map::<cassowary::Variable, int>::empty()
                &&& r.duplicate_adds == 0
                &&& r.unsatisfiable == 0
                &&& r.unknown_removals == 0
            },
    {
        let ghost s0 = *old(self);
        let ghost cons0 = cons@;
        let ghost evs = vis_tx@.subrange(old(self).vis_pos(), vis_tx@.len() as int);
        let ghost mid = vis_fold(cons_views(cons0), evs);

        // Resize: only the most recent unread screen-dimension event is
        // applied; older queued ones are superseded.
        let resize = dims_tx.read_last(&mut self.dims_rx);
        if let Some(d) = resize {
            let w = self.width;
            if let Err(_) = self.resize(w, d.width) {
                return TickReport {
                    duplicate_adds: 0,
                    unsatisfiable: 0,
                    unknown_removals: 0,
                    fatal: Some(FatalError::SolverFault),
                    applied: Ghost(Map::empty()),
                };
            }
            let h = self.height;
            if let Err(_) = self.resize(h, d.height) {
                return TickReport {
                    duplicate_adds: 0,
                    unsatisfiable: 0,
                    unknown_removals: 0,
                    fatal: Some(FatalError::SolverFault),
                    applied: Ghost(Map::empty()),
                };
            }
        }
        // Visibility: drain every unread event; entering Collapsed
        // collapses the entity's constraints, leaving it expands them.
        let evs_v = vis_tx.read_all(&mut self.vis_rx);
        proof {
            assert(evs_v@ == evs);
        }
        let ghost self1 = *self;
        let mut k: usize = 0;
        proof {
            assert(evs.take(0) =~= Seq::<VisibilityEvent>::empty());
        }
        while k < evs_v.len()
            invariant
                k <= evs_v@.len(),
                evs_v@ == evs,
                cons_views(cons@) == vis_fold(cons_views(cons0), evs.take(k as int)),
                cons@.len() == cons0.len(),
                *self == self1,
                *poss == *old(poss),
            decreases evs_v@.len() - k,
        {
            let ghost cpre = cons@;
            let ev = evs_v[k];
            if let Some(restore) = ev.needs_layout_changed() {
                match cons.take(ev.entity) {
                    Some(mut cc) => {
                        if restore {
                            cc.expand();
                        } else {
                            cc.collapse();
                        }
                        cons.insert(ev.entity, cc);
                        proof {
                            let i = ev.entity.index as int;
                            assert(cons@ =~= cpre.update(i, cons@[i]));
                            assert(cons_views(cons@) =~= vis_step(cons_views(cpre), ev));
                        }
                    },
                    None => {
                        proof {
                            assert(cons_views(cons@) =~= vis_step(cons_views(cpre), ev));
                        }
                    },
                }
            }
            proof {
                assert(evs.take(k + 1 as int).drop_last() =~= evs.take(k as int));
                assert(evs.take(k + 1 as int).last() == ev);
                assert(cons_views(cons@) == vis_fold(cons_views(cons0), evs.take(k + 1 as int)));
            }
            k = k + 1;
        }
        proof {
            assert(evs.take(evs.len() as int) =~= evs);
            assert(cons_views(cons@) == mid);
        }

        // Constraint sync: drain every entity's pending updates, in entity
        // order, applying each to the solver in the order queued.
        // Structural errors are counted and skipped.
        let ghost solver2 = self.solver;
        let ghost mut kept: Seq<ConstraintUpdate> = Seq::empty();
        let mut dup: usize = 0;
        let mut unsat: usize = 0;
        let mut unknown: usize = 0;
        let n = cons.len();
        let mut i: usize = 0;
        proof {
            assert(mid.take(0) =~= Seq::<Option<ConsView>>::empty());
        }
        while i < n
            invariant
                i <= n,
                n == cons@.len(),
                mid.len() == n,
                mid == vis_fold(
                    cons_views(old(cons)@),
                    vis_tx@.subrange(old(self).vis_pos(), vis_tx@.len() as int),
                ),
                forall|j2: int| 0 <= j2 < i ==> cons_views(cons@)[j2] == drain_all(mid)[j2],
                forall|j2: int| i <= j2 < n ==> cons_views(cons@)[j2] == mid[j2],
                unsat == 0 ==> solver_cons(self.solver) == apply_updates(
                    solver_cons(solver2),
                    all_pending(mid.take(i as int)),
                ),
                omits_only_adds(all_pending(mid.take(i as int)), kept),
                solver_cons(self.solver) == apply_updates(solver_cons(solver2), kept),
                solver_edits(self.solver) == solver_edits(solver2),
                solver_sugs(self.solver) == solver_sugs(solver2),
                all_pending(mid.take(i as int)).len() == 0 ==> self.solver == solver2,
                dup + unsat + unknown <= all_pending(mid.take(i as int)).len(),
                self.changes == self1.changes,
                self.dims_rx == self1.dims_rx,
                self.vis_rx == self1.vis_rx,
                self.width == self1.width,
                self.height == self1.height,
                *poss == *old(poss),
            decreases n - i,
        {
            let ghost cpre = cons@;
            match cons.take_at(i) {
                Some(mut cc) => {
                    proof {
                        assert(cons_views(cpre)[i as int] == mid[i as int]);
                    }
                    let ops = cc.drain();
                    cons.put_at(i, cc);
                    proof {
                        assert(ops@ == pending_of(mid[i as int]));
                        assert forall|j2: int| 0 <= j2 < n implies #[trigger] cons_views(
                            cons@,
                        )[j2] == (if j2 <= i {
                            drain_all(mid)[j2]
                        } else {
                            mid[j2]
                        }) by {
                            assert(cons_views(cpre)[j2] == (if j2 < i {
                                drain_all(mid)[j2]
                            } else {
                                mid[j2]
                            }));
                        }
                    }
                    let ghost base = all_pending(mid.take(i as int));
                    let mut j: usize = 0;
                    proof {
                        assert(ops@.take(0) =~= Seq::<ConstraintUpdate>::empty());
                        assert(base + ops@.take(0) =~= base);
                    }
                    while j < ops.len()
                        invariant
                            j <= ops@.len(),
                            ops@ == pending_of(mid[i as int]),
                            0 <= i < n,
                            n == cons@.len(),
                            mid.len() == n,
                            mid == vis_fold(
                                cons_views(old(cons)@),
                                vis_tx@.subrange(old(self).vis_pos(), vis_tx@.len() as int),
                            ),
                            base == all_pending(mid.take(i as int)),
                            forall|j2: int|
                                0 <= j2 <= i ==> cons_views(cons@)[j2] == drain_all(mid)[j2],
                            forall|j2: int| i < j2 < n ==> cons_views(cons@)[j2] == mid[j2],
                            unsat == 0 ==> solver_cons(self.solver) == apply_updates(
                                solver_cons(solver2),
                                base + ops@.take(j as int),
                            ),
                            omits_only_adds(base + ops@.take(j as int), kept),
                            solver_cons(self.solver) == apply_updates(solver_cons(solver2), kept),
                            solver_edits(self.solver) == solver_edits(solver2),
                            solver_sugs(self.solver) == solver_sugs(solver2),
                            base.len() + j == 0 ==> self.solver == solver2,
                            dup + unsat + unknown <= base.len() + j,
                            self.changes == self1.changes,
                            self.dims_rx == self1.dims_rx,
                            self.vis_rx == self1.vis_rx,
                            self.width == self1.width,
                            self.height == self1.height,
                            *poss == *old(poss),
                        decreases ops@.len() - j,
                    {
                        let ghost scur = solver_cons(self.solver);
                        let ghost kept0 = kept;
                        let op = &ops[j];
                        proof {
                            assert((base + ops@.take(j + 1 as int)).drop_last() =~= base
                                + ops@.take(j as int));
                            assert((base + ops@.take(j + 1 as int)).last() == ops@[j as int]);
                            assert(*op == ops@[j as int]);
                        }
                        match op {
                            ConstraintUpdate::Add(c) => {
                                match self.add_constraint(c) {
                                    AddOutcome::Added => {
                                        proof {
                                            kept = kept0.push(ops@[j as int]);
                                            assert(kept.drop_last() =~= kept0);
                                        }
                                    },
                                    AddOutcome::Duplicate => {
                                        if dup < usize::MAX {
                                            dup = dup + 1;
                                        }
                                        proof {
                                            assert(scur.insert(*c) =~= scur);
                                            kept = kept0.push(ops@[j as int]);
                                            assert(kept.drop_last() =~= kept0);
                                        }
                                    },
                                    AddOutcome::Unsatisfiable => {
                                        if unsat < usize::MAX {
                                            unsat = unsat + 1;
                                        }
                                        proof {
                                            assert(ops@[j as int] is Add);
                                        }
                                    },
                                    AddOutcome::Fault => {
                                        proof {
                                            lemma_all_pending_take_len(mid, i as int);
                                        }
                                        return TickReport {
                                            duplicate_adds: dup,
                                            unsatisfiable: unsat,
                                            unknown_removals: unknown,
                                            fatal: Some(FatalError::SolverFault),
                                            applied: Ghost(Map::empty()),
                                        };
                                    },
                                }
                            },
                            ConstraintUpdate::Remove(c) => {
                                match self.remove_constraint(c) {
                                    RemoveOutcome::Removed => {
                                        proof {
                                            kept = kept0.push(ops@[j as int]);
                                            assert(kept.drop_last() =~= kept0);
                                        }
                                    },
                                    RemoveOutcome::Unknown => {
                                        if unknown < usize::MAX {
                                            unknown = unknown + 1;
                                        }
                                        proof {
                                            assert(scur.remove(*c) =~= scur);
                                            kept = kept0.push(ops@[j as int]);
                                            assert(kept.drop_last() =~= kept0);
                                        }
                                    },
                                    RemoveOutcome::Fault => {
                                        proof {
                                            lemma_all_pending_take_len(mid, i as int);
                                        }
                                        return TickReport {
                                            duplicate_adds: dup,
                                            unsatisfiable: unsat,
                                            unknown_removals: unknown,
                                            fatal: Some(FatalError::SolverFault),
                                            applied: Ghost(Map::empty()),
                                        };
                                    },
                                }
                            },
                        }
                        proof {
                            assert(omits_only_adds(base + ops@.take(j + 1 as int), kept));
                            if unsat == 0 {
                                assert(solver_cons(self.solver) == crate::cons::step_update(
                                    scur,
                                    ops@[j as int],
                                ));
                            }
                        }
                        j = j + 1;
                    }
                    proof {
                        assert(ops@.take(ops@.len() as int) =~= ops@);
                        assert(mid.take(i + 1 as int).drop_last() =~= mid.take(i as int));
                        assert(mid.take(i + 1 as int).last() == mid[i as int]);
                        assert(all_pending(mid.take(i + 1 as int)) == base + ops@);
                    }
                },
                None => {
                    proof {
                        assert(cons_views(cpre)[i as int] == mid[i as int]);
                        assert(mid[i as int] is None);
                        assert forall|j2: int| 0 <= j2 < n implies #[trigger] cons_views(
                            cons@,
                        )[j2] == (if j2 <= i {
                            drain_all(mid)[j2]
                        } else {
                            mid[j2]
                        }) by {
                            assert(cons_views(cpre)[j2] == (if j2 < i {
                                drain_all(mid)[j2]
                            } else {
                                mid[j2]
                            }));
                        }
                        assert(mid.take(i + 1 as int).drop_last() =~= mid.take(i as int));
                        assert(mid.take(i + 1 as int).last() == mid[i as int]);
                        assert(all_pending(mid.take(i + 1 as int)) =~= all_pending(
                            mid.take(i as int),
                        ));
                    }
                },
            }
            i = i + 1;
        }
        proof {
            assert(mid.take(n as int) =~= mid);
            assert(cons_views(cons@) =~= drain_all(mid));
            assert(omits_only_adds(all_pending(mid), kept));
        }

        // Solve/apply: fetch the coalesced deltas since the last fetch and,
        // when any exist, refresh every position; the accumulator is
        // cleared either way so idle ticks do not grow it.
        let ghost sv_sync = self.solver;
        let fetched = solver_fetch(&mut self.solver);
        self.changes.absorb(&fetched);
        proof {
            assert(self.changes@ =~= map_of(fetched@));
        }
        let ghost applied = self.changes@;
        proof {
            crate::pos::lemma_map_of_entries(fetched@);
            crate::pos::lemma_map_of_covers(fetched@);
            assert forall|v: cassowary::Variable| #[trigger] applied.contains_key(v) implies
                applied[v] == var_value(self.solver, v) by {
                let i = choose|i: int|
                    0 <= i < fetched@.len() && fetched@[i].0 == v && fetched@[i].1 as int
                        == map_of(fetched@)[v];
                assert(fetched@[i].1 as int == var_value(self.solver, fetched@[i].0));
            }
            if old(self).dims_pos() == dims_tx@.len() && all_pending(mid).len() == 0 {
                assert(resize is None);
                assert(sv_sync == old(self).solver_state());
                assert forall|v: cassowary::Variable|
                    #[trigger] solver_pending(old(self).solver_state()).contains(v) && var_value(
                        old(self).solver_state(),
                        v,
                    ) != var_reported(old(self).solver_state(), v) implies applied.contains_key(
                    v,
                ) by {
                    let i = choose|i: int| 0 <= i < fetched@.len() && fetched@[i].0 == v;
                    assert(map_of(fetched@).contains_key(fetched@[i].0));
                }
            }
        }
        let ghost self3 = *self;
        if !self.changes.is_empty() {
            let pn = poss.len();
            let mut pi: usize = 0;
            while pi < pn
                invariant
                    pi <= pn,
                    pn == poss@.len(),
                    forall|j2: int|
                        0 <= j2 < pi ==> #[trigger] poss@[j2] == (match old(poss)@[j2] {
                            Some(p) => Some(spec_updated(p, applied)),
                            None => None::<Position>,
                        }),
                    forall|j2: int| pi <= j2 < pn ==> poss@[j2] == old(poss)@[j2],
                    *self == self3,
                    self.changes@ == applied,
                decreases pn - pi,
            {
                match poss.take_at(pi) {
                    Some(mut p) => {
                        p.update(&self.changes);
                        poss.put_at(pi, p);
                    },
                    None => (),
                }
                pi = pi + 1;
            }
            self.changes.clear();
        }
        TickReport {
            duplicate_adds: dup,
            unsatisfiable: unsat,
            unknown_removals: unknown,
            fatal: None,
            applied: Ghost(applied),
        }
    }
}

/// Law: a backlog of layout-neutral visibility events — Hidden and Visible
/// swaps, which never cross Collapsed — leaves every entity's constraints,
/// and with them the pending queues, untouched.
pub proof fn lemma_vis_fold_neutral(m: Seq<Option<ConsView>>, evs: Seq<VisibilityEvent>)
    requires
        forall|i: int| 0 <= i < evs.len() ==> evs[i].spec_needs_layout_changed() is None,
    ensures
        vis_fold(m, evs) == m,
    decreases evs.len(),
{
    if evs.len() > 0 {
        lemma_vis_fold_neutral(m, evs.drop_last());
    }
}

/// Where no entity has a pending update, the tick's constraint sync has
/// nothing to apply.
pub proof fn lemma_all_pending_empty(m: Seq<Option<ConsView>>)
    requires
        forall|i: int| 0 <= i < m.len() ==> pending_of(#[trigger] m[i]).len() == 0,
    ensures
        all_pending(m).len() == 0,
    decreases m.len(),
{
    if m.len() > 0 {
        assert(pending_of(m[m.len() - 1]).len() == 0);
        lemma_all_pending_empty(m.drop_last());
    }
}

/// After a tick every queue is drained: the state the idle-tick clause of
/// `run` asks for on the next tick.
pub proof fn lemma_drain_all_has_nothing_pending(m: Seq<Option<ConsView>>)
    ensures
        forall|i: int|
            0 <= i < drain_all(m).len() ==> pending_of(#[trigger] drain_all(m)[i]).len() == 0,
{
}

/// Law: a backlog made only of layout-neutral visibility events, over
/// entities with nothing pending, queues no constraint update at all.
/// With the idle and success clauses of `run`, such a tick — a
/// Hidden/Visible swap in a settled scene — cannot end fatally, triggers
/// no recompute and leaves every position byte for byte unchanged.
pub proof fn lemma_neutral_backlog_is_idle(m: Seq<Option<ConsView>>, evs: Seq<VisibilityEvent>)
    requires
        forall|i: int| 0 <= i < evs.len() ==> evs[i].spec_needs_layout_changed() is None,
        forall|i: int| 0 <= i < m.len() ==> pending_of(#[trigger] m[i]).len() == 0,
    ensures
        all_pending(vis_fold(m, evs)).len() == 0,
{
    lemma_vis_fold_neutral(m, evs);
    lemma_all_pending_empty(m);
}

} // verus!
