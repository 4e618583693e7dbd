//! The trusted surface over the `cassowary` linear constraint solver.
//!
//! The solver's contents are named by four uninterpreted views: the set of
//! registered constraints, the set of edit variables, the last suggested
//! value of each edit variable, and the set of variables whose resolved
//! value changed since the last fetch.  Every wrapper states how the call
//! moves these views, exactly as far as the crate's source shows it; the
//! solved values themselves are floating-point results that no contract
//! here pins down.

use vstd::prelude::*;

verus! {

#[verifier::external_type_specification]
#[verifier::external_body]
pub struct ExSolver(cassowary::Solver);

#[verifier::external_type_specification]
#[verifier::external_body]
pub struct ExVariable(cassowary::Variable);

#[verifier::external_type_specification]
#[verifier::external_body]
pub struct ExConstraint(cassowary::Constraint);

/// The constraints registered in the solver, the internal constraints that
/// the solver creates for its edit variables included.
pub uninterp spec fn solver_cons(s: cassowary::Solver) -> Set<cassowary::Constraint>;

/// The edit variables registered in the solver.
pub uninterp spec fn solver_edits(s: cassowary::Solver) -> Set<cassowary::Variable>;

/// The value most recently suggested for each edit variable (zero on
/// registration).
pub uninterp spec fn solver_sugs(s: cassowary::Solver) -> Map<cassowary::Variable, int>;

/// The variables whose resolved value changed since the last fetch and that
/// the next fetch may therefore report.
pub uninterp spec fn solver_pending(s: cassowary::Solver) -> Set<cassowary::Variable>;

/// The term list of a constraint whose coefficients are all integral, as
/// variable/coefficient pairs in order; unspecified for any other
/// constraint.  Every constraint this library builds has integral
/// coefficients.
pub uninterp spec fn con_terms(c: cassowary::Constraint) -> Seq<(cassowary::Variable, int)>;

/// The constant of a constraint whose constant is integral; unspecified
/// otherwise.
pub uninterp spec fn con_constant(c: cassowary::Constraint) -> int;

/// The relational operator of a constraint.
pub uninterp spec fn con_op(c: cassowary::Constraint) -> Rel;

/// The strength of a constraint whose strength is integral, as an integer;
/// unspecified otherwise.
pub uninterp spec fn con_strength(c: cassowary::Constraint) -> int;

/// The resolved value of a variable, rounded toward zero; zero for a
/// variable the solver does not hold.
pub uninterp spec fn var_value(s: cassowary::Solver, v: cassowary::Variable) -> int;

/// The value last reported for a variable by a fetch, rounded toward zero;
/// zero for a variable never reported or not held.
pub uninterp spec fn var_reported(s: cassowary::Solver, v: cassowary::Variable) -> int;

/// The strength of a required constraint, as the solver's scale has it.
pub const STRENGTH_REQUIRED: u64 = 1_001_001_000;

/// The strength of a strong constraint.
pub const STRENGTH_STRONG: u64 = 1_000_000;

/// One step below required: the strength at which the window edit
/// variables are registered.
pub const STRENGTH_EDIT: u64 = 1_001_000_999;

/// Relational operator of a linear constraint.
#[derive(Clone, Copy, PartialEq, Eq, Structural, Debug)]
pub enum Rel {
    LessOrEqual,
    Equal,
    GreaterOrEqual,
}

/// Priority of a constraint: `Required` must hold, `Strong` yields to
/// required constraints when not all can be satisfied.
#[derive(Clone, Copy, PartialEq, Eq, Structural, Debug)]
pub enum Strength {
    Required,
    Strong,
}

/// The integer strength a `Strength` stands for.
pub open spec fn strength_value(s: Strength) -> int {
    match s {
        Strength::Required => STRENGTH_REQUIRED as int,
        Strength::Strong => STRENGTH_STRONG as int,
    }
}

/// Outcome of adding a constraint.
#[derive(Clone, Copy, PartialEq, Eq, Structural, Debug)]
pub enum AddOutcome {
    /// The constraint was registered.
    Added,
    /// The very same constraint is already registered; the solver is unchanged.
    Duplicate,
    /// The constraint cannot hold together with the registered required
    /// constraints; the solver keeps its previous, satisfiable state.
    Unsatisfiable,
    /// The solver reported an internal fault; nothing is known of its state.
    Fault,
}

/// Outcome of removing a constraint.
#[derive(Clone, Copy, PartialEq, Eq, Structural, Debug)]
pub enum RemoveOutcome {
    Removed,
    /// The constraint is not registered; the solver is unchanged.
    Unknown,
    Fault,
}

/// Outcome of registering an edit variable.
#[derive(Clone, Copy, PartialEq, Eq, Structural, Debug)]
pub enum EditOutcome {
    Registered,
    /// The variable is already an edit variable; the solver is unchanged.
    DuplicateVariable,
    Fault,
}

/// Outcome of suggesting a value for an edit variable.
#[derive(Clone, Copy, PartialEq, Eq, Structural, Debug)]
pub enum SuggestOutcome {
    Suggested,
    /// The variable is not an edit variable; the solver is unchanged.
    UnknownVariable,
    Fault,
}

/// Whether the solver holds no variables with unfetched value changes.
pub open spec fn no_pending(s: cassowary::Solver) -> bool {
    solver_pending(s) == Set::<cassowary::Variable>::empty()
}

/// Whether the solver is in its starting state: no constraints, no edit
/// variables, no suggestions, no unfetched changes.
pub open spec fn solver_fresh(s: cassowary::Solver) -> bool {
    &&& solver_cons(s) == Set::<cassowary::Constraint>::empty()
    &&& solver_edits(s) == Set::<cassowary::Variable>::empty()
    &&& solver_sugs(s) == Map::<cassowary::Variable, int>::empty()
    &&& solver_pending(s) == Set::<cassowary::Variable>::empty()
}

/// Relies on `cassowary::Solver::new`: a fresh solver holds no constraints,
/// no edit variables, no suggestions and no pending changes.
#[verifier::external_body]
pub(crate) fn solver_new() -> (r: cassowary::Solver)
    ensures
        solver_fresh(r),
{
    cassowary::Solver::new()
}

/// Relies on `cassowary::Variable::new`: each key is drawn from a
/// process-wide counter, so the keys of one batch are pairwise distinct.
#[verifier::external_body]
pub(crate) fn new_vars(n: usize) -> (r: Vec<cassowary::Variable>)
    ensures
        r@.len() == n,
        forall|i: int, j: int| 0 <= i < j < n ==> r@[i] != r@[j],
{
    let mut r = Vec::new();
    while r.len() < n {
        r.push(cassowary::Variable::new());
    }
    r
}

/// Relies on `cassowary::Constraint::new` and `cassowary::Expression::new`:
/// builds the constraint `sum(coefficient * variable) + constant  op  0`
/// with the given strength, which the crate stores exactly as handed over.
/// Constraints compare by identity, so the result is a fresh constraint,
/// equal only to its own clones.
#[verifier::external_body]
pub(crate) fn make_constraint(
    terms: &Vec<(cassowary::Variable, i32)>,
    constant: i32,
    op: Rel,
    strength: Strength,
) -> (c: cassowary::Constraint)
    ensures
        con_terms(c) == terms@.map_values(|t: (cassowary::Variable, i32)| (t.0, t.1 as int)),
        con_constant(c) == constant as int,
        con_op(c) == op,
        con_strength(c) == strength_value(strength),
{
    let ts: Vec<cassowary::Term> = terms
        .iter()
        .map(|t| cassowary::Term { variable: t.0, coefficient: t.1.into() })
        .collect();
    let op = match op {
        Rel::LessOrEqual => cassowary::RelationalOperator::LessOrEqual,
        Rel::Equal => cassowary::RelationalOperator::Equal,
        Rel::GreaterOrEqual => cassowary::RelationalOperator::GreaterOrEqual,
    };
    let st = match strength {
        Strength::Required => cassowary::strength::REQUIRED,
        Strength::Strong => cassowary::strength::STRONG,
    };
    cassowary::Constraint::new(cassowary::Expression::new(ts, constant.into()), op, st)
}

/// Relies on `cassowary::Solver::add_constraint`: a duplicate and an
/// unsatisfiable constraint are rejected before the constraint is
/// registered; otherwise the constraint is registered.  Edit variables and
/// suggestions are not touched.
#[verifier::external_body]
pub(crate) fn solver_add(s: &mut cassowary::Solver, c: &cassowary::Constraint) -> (r: AddOutcome)
    ensures
        match r {
            AddOutcome::Added => !solver_cons(*old(s)).contains(*c)
                && solver_cons(*final(s)) == solver_cons(*old(s)).insert(*c)
                && solver_edits(*final(s)) == solver_edits(*old(s))
                && solver_sugs(*final(s)) == solver_sugs(*old(s)),
            AddOutcome::Duplicate => solver_cons(*old(s)).contains(*c)
                && solver_cons(*final(s)) == solver_cons(*old(s))
                && solver_edits(*final(s)) == solver_edits(*old(s))
                && solver_sugs(*final(s)) == solver_sugs(*old(s))
                && solver_pending(*final(s)) == solver_pending(*old(s)),
            AddOutcome::Unsatisfiable => !solver_cons(*old(s)).contains(*c)
                && solver_cons(*final(s)) == solver_cons(*old(s))
                && solver_edits(*final(s)) == solver_edits(*old(s))
                && solver_sugs(*final(s)) == solver_sugs(*old(s)),
            AddOutcome::Fault => true,
        },
{
    match s.add_constraint(c.clone()) {
        Ok(()) => AddOutcome::Added,
        Err(cassowary::AddConstraintError::DuplicateConstraint) => AddOutcome::Duplicate,
        Err(cassowary::AddConstraintError::UnsatisfiableConstraint) => AddOutcome::Unsatisfiable,
        Err(cassowary::AddConstraintError::InternalSolverError(_)) => AddOutcome::Fault,
    }
}

/// Relies on `cassowary::Solver::remove_constraint`: an unknown constraint
/// is rejected before anything changes; otherwise the constraint is
/// unregistered.  Edit variables and suggestions are not touched.
#[verifier::external_body]
pub(crate) fn solver_remove(s: &mut cassowary::Solver, c: &cassowary::Constraint) -> (r: RemoveOutcome)
    ensures
        match r {
            RemoveOutcome::Removed => solver_cons(*old(s)).contains(*c)
                && solver_cons(*final(s)) == solver_cons(*old(s)).remove(*c)
                && solver_edits(*final(s)) == solver_edits(*old(s))
                && solver_sugs(*final(s)) == solver_sugs(*old(s)),
            RemoveOutcome::Unknown => !solver_cons(*old(s)).contains(*c)
                && solver_cons(*final(s)) == solver_cons(*old(s))
                && solver_edits(*final(s)) == solver_edits(*old(s))
                && solver_sugs(*final(s)) == solver_sugs(*old(s))
                && solver_pending(*final(s)) == solver_pending(*old(s)),
            RemoveOutcome::Fault => true,
        },
{
    match s.remove_constraint(c) {
        Ok(()) => RemoveOutcome::Removed,
        Err(cassowary::RemoveConstraintError::UnknownConstraint) => RemoveOutcome::Unknown,
        Err(cassowary::RemoveConstraintError::InternalSolverError(_)) => RemoveOutcome::Fault,
    }
}

/// Relies on `cassowary::Solver::add_edit_variable`: a variable already
/// registered is rejected without change; otherwise it is registered with
/// an initial suggestion of zero, at a strength one step below required —
/// the difference of the crate's own strength constants — so it stays
/// adjustable under conflicting required constraints while outranking
/// everything weaker (the solver also registers an internal constraint for
/// it: the registered set grows by exactly that one fresh constraint,
/// `v == 0` at the edit strength, and keeps everything it held).  Panics
/// only on the solver's internal-fault path, which this engine treats as
/// fatal anyway.
#[verifier::external_body]
pub(crate) fn solver_add_edit(s: &mut cassowary::Solver, v: cassowary::Variable) -> (r: EditOutcome)
    ensures
        match r {
            EditOutcome::Registered => !solver_edits(*old(s)).contains(v)
                && solver_edits(*final(s)) == solver_edits(*old(s)).insert(v)
                && solver_sugs(*final(s)) == solver_sugs(*old(s)).insert(v, 0)
                && (exists|ec: cassowary::Constraint|
                    !solver_cons(*old(s)).contains(ec) && solver_cons(*final(s)) == solver_cons(
                        *old(s),
                    ).insert(ec) && #[trigger] con_terms(ec) == seq![(v, 1 as int)]
                        && con_constant(ec) == 0 && con_op(ec) == Rel::Equal && con_strength(ec)
                        == STRENGTH_EDIT as int),
            EditOutcome::DuplicateVariable => solver_edits(*old(s)).contains(v)
                && solver_cons(*final(s)) == solver_cons(*old(s))
                && solver_edits(*final(s)) == solver_edits(*old(s))
                && solver_sugs(*final(s)) == solver_sugs(*old(s))
                && solver_pending(*final(s)) == solver_pending(*old(s)),
            EditOutcome::Fault => true,
        },
{
    match s.add_edit_variable(v, cassowary::strength::REQUIRED - cassowary::strength::WEAK) {
        Ok(()) => EditOutcome::Registered,
        Err(cassowary::AddEditVariableError::DuplicateEditVariable) => EditOutcome::DuplicateVariable,
        Err(cassowary::AddEditVariableError::BadRequiredStrength) => EditOutcome::Fault,
    }
}

/// Relies on `cassowary::Solver::suggest_value`: a variable that is no edit
/// variable is rejected before anything changes; otherwise the suggestion
/// is recorded and the solution adjusted.
#[verifier::external_body]
pub(crate) fn solver_suggest(s: &mut cassowary::Solver, v: cassowary::Variable, val: u32) -> (r: SuggestOutcome)
    ensures
        match r {
            SuggestOutcome::Suggested => solver_edits(*old(s)).contains(v)
                && solver_cons(*final(s)) == solver_cons(*old(s))
                && solver_edits(*final(s)) == solver_edits(*old(s))
                && solver_sugs(*final(s)) == solver_sugs(*old(s)).insert(v, val as int),
            SuggestOutcome::UnknownVariable => !solver_edits(*old(s)).contains(v)
                && solver_cons(*final(s)) == solver_cons(*old(s))
                && solver_edits(*final(s)) == solver_edits(*old(s))
                && solver_sugs(*final(s)) == solver_sugs(*old(s))
                && solver_pending(*final(s)) == solver_pending(*old(s)),
            SuggestOutcome::Fault => true,
        },
{
    match s.suggest_value(v, val.into()) {
        Ok(()) => SuggestOutcome::Suggested,
        Err(cassowary::SuggestValueError::UnknownEditVariable) => SuggestOutcome::UnknownVariable,
        Err(cassowary::SuggestValueError::InternalSolverError(_)) => SuggestOutcome::Fault,
    }
}

/// Relies on `cassowary::Solver::fetch_changes`: reports each variable
/// whose resolved value changed since the last fetch, once, with its new
/// resolved value rounded toward zero, and clears the pending set.  Every
/// pending variable whose rounded value differs from the last reported one
/// is in the report, and after the call every pending variable counts as
/// reported at its current value; resolved values themselves do not move.
/// The order of the report is not specified.
#[verifier::external_body]
pub(crate) fn solver_fetch(s: &mut cassowary::Solver) -> (r: Vec<(cassowary::Variable, i64)>)
    ensures
        solver_cons(*final(s)) == solver_cons(*old(s)),
        solver_edits(*final(s)) == solver_edits(*old(s)),
        solver_sugs(*final(s)) == solver_sugs(*old(s)),
        no_pending(*final(s)),
        no_pending(*old(s)) ==> r@.len() == 0,
        forall|i: int, j: int| 0 <= i < j < r@.len() ==> r@[i].0 != r@[j].0,
        forall|i: int| 0 <= i < r@.len() ==> solver_pending(*old(s)).contains(r@[i].0),
        forall|i: int| 0 <= i < r@.len() ==> r@[i].1 as int == var_value(*final(s), #[trigger] r@[i].0),
        forall|v: cassowary::Variable|
            #[trigger] solver_pending(*old(s)).contains(v) && var_value(*old(s), v)
                != var_reported(*old(s), v) ==> exists|i: int|
                0 <= i < r@.len() && r@[i].0 == v,
        forall|v: cassowary::Variable|
            #[trigger] solver_pending(*old(s)).contains(v) ==> var_reported(*final(s), v)
                == var_value(*final(s), v),
        forall|v: cassowary::Variable|
            !(#[trigger] solver_pending(*old(s)).contains(v)) ==> var_reported(*final(s), v)
                == var_reported(*old(s), v),
        forall|v: cassowary::Variable| #[trigger] var_value(*final(s), v) == var_value(*old(s), v),
{
    s.fetch_changes().iter().map(|p| (p.0, p.1 as i64)).collect()
}

/// Relies on the derived `PartialEq` of `cassowary::Variable`: variables
/// compare by their unique key.
pub assume_specification[ <cassowary::Variable as PartialEq<cassowary::Variable>>::eq ](
    x: &cassowary::Variable,
    y: &cassowary::Variable,
) -> (r: bool)
    ensures
        r == (x == y),
;

/// Relies on `PartialEq` of `cassowary::Constraint`: constraints compare by
/// identity, clones of one constraint being identical.
pub assume_specification[ <cassowary::Constraint as PartialEq<cassowary::Constraint>>::eq ](
    x: &cassowary::Constraint,
    y: &cassowary::Constraint,
) -> (r: bool)
    ensures
        r == (x == y),
;

/// Relies on the derived `Clone` of `cassowary::Constraint`: a clone shares
/// the original's identity.
pub assume_specification[ <cassowary::Constraint as Clone>::clone ](
    c: &cassowary::Constraint,
) -> (r: cassowary::Constraint)
    ensures
        r == *c,
;

} // verus!
