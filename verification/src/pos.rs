//! Resolved geometry: solver variables and the rectangles derived from them.
//!
//! A `Position` holds the four solver variables for an entity's edges and
//! the last resolved value of each.  A `Changes` accumulator collects the
//! variable-value deltas fetched from the solver, coalescing repeated
//! changes to one variable to its latest value, and is used to refresh
//! every position once per tick.

use crate::solver::new_vars;
use vstd::prelude::*;

verus! {

/// The map described by a list of variable-value entries, a later entry for
/// the same variable superseding an earlier one.
pub open spec fn map_of(entries: Seq<(cassowary::Variable, i64)>) -> Map<
    cassowary::Variable,
    int,
>
    decreases entries.len(),
{
    if entries.len() == 0 {
        Map::empty()
    } else {
        map_of(entries.drop_last()).insert(entries.last().0, entries.last().1 as int)
    }
}

/// Every entry of the map described by a batch comes from the batch.
pub proof fn lemma_map_of_entries(b: Seq<(cassowary::Variable, i64)>)
    ensures
        forall|v: cassowary::Variable| #[trigger] map_of(b).contains_key(v) ==> exists|i: int|
            0 <= i < b.len() && b[i].0 == v && b[i].1 as int == map_of(b)[v],
    decreases b.len(),
{
    if b.len() > 0 {
        lemma_map_of_entries(b.drop_last());
        assert forall|v: cassowary::Variable| #[trigger] map_of(b).contains_key(v) implies exists|
            i: int,
        |
            0 <= i < b.len() && b[i].0 == v && b[i].1 as int == map_of(b)[v] by {
            if v == b.last().0 {
                assert(b[b.len() - 1].0 == v && b[b.len() - 1].1 as int == map_of(b)[v]);
            } else {
                assert(map_of(b.drop_last()).contains_key(v));
                let i = choose|i: int|
                    0 <= i < b.drop_last().len() && b.drop_last()[i].0 == v && b.drop_last()[i].1
                        as int == map_of(b.drop_last())[v];
                assert(b[i].0 == v && b[i].1 as int == map_of(b)[v]);
            }
        }
    }
}

/// The map described by a batch covers every variable in the batch.
pub proof fn lemma_map_of_covers(b: Seq<(cassowary::Variable, i64)>)
    ensures
        forall|i: int| 0 <= i < b.len() ==> map_of(b).contains_key(#[trigger] b[i].0),
    decreases b.len(),
{
    if b.len() > 0 {
        lemma_map_of_covers(b.drop_last());
        assert forall|i: int| 0 <= i < b.len() implies map_of(b).contains_key(
            #[trigger] b[i].0,
        ) by {
            if i < b.len() - 1 {
                assert(b.drop_last()[i].0 == b[i].0);
                assert(map_of(b.drop_last()).contains_key(b[i].0));
            }
        }
    }
}

/// An accumulator of variable-value deltas; repeated changes to one
/// variable collapse to the latest value.
pub struct Changes {
    entries: Vec<(cassowary::Variable, i64)>,
}

impl View for Changes {
    type V = Map<cassowary::Variable, int>;

    closed spec fn view(&self) -> Map<cassowary::Variable, int> {
        map_of(self.entries@)
    }
}

impl Changes {
    /// An empty accumulator.
    pub fn new() -> (c: Self)
        ensures
            c@ == Map::<cassowary::Variable, int>::empty(),
    {
        Changes { entries: Vec::new() }
    }

    /// Whether no delta is recorded.
    pub fn is_empty(&self) -> (r: bool)
        ensures
            r == (self@ == Map::<cassowary::Variable, int>::empty()),
    {
        proof {
            if self.entries@.len() == 0 {
            } else {
                assert(self@.contains_key(self.entries@.last().0));
                assert(!Map::<cassowary::Variable, int>::empty().contains_key(
                    self.entries@.last().0,
                ));
            }
        }
        self.entries.len() == 0
    }

    /// The recorded delta for `v`, if any.
    pub fn get(&self, v: &cassowary::Variable) -> (r: Option<i64>)
        ensures
            match r {
                Some(x) => self@.contains_key(*v) && self@[*v] == x as int,
                None => !self@.contains_key(*v),
            },
    {
        let mut i: usize = self.entries.len();
        proof {
            assert(self.entries@.take(i as int) =~= self.entries@);
        }
        while i > 0
            invariant
                i <= self.entries@.len(),
                map_of(self.entries@.take(i as int)).contains_key(*v) == self@.contains_key(
                    *v,
                ),
                self@.contains_key(*v) ==> map_of(self.entries@.take(i as int))[*v] == self@[*v],
            decreases i,
        {
            i = i - 1;
            proof {
                assert(self.entries@.take(i + 1 as int).drop_last() =~= self.entries@.take(
                    i as int,
                ));
                assert(self.entries@.take(i + 1 as int).last() == self.entries@[i as int]);
            }
            if self.entries[i].0 == *v {
                return Some(self.entries[i].1);
            }
        }
        proof {
            assert(self.entries@.take(0) =~= Seq::<(cassowary::Variable, i64)>::empty());
        }
        None
    }

    /// Folds a batch of deltas in, a batch entry superseding any recorded
    /// delta for the same variable.
    pub fn absorb(&mut self, batch: &Vec<(cassowary::Variable, i64)>)
        ensures
            final(self)@ == old(self)@.union_prefer_right(map_of(batch@)),
    {
        let mut i: usize = 0;
        proof {
            assert(batch@.take(0) =~= Seq::<(cassowary::Variable, i64)>::empty());
            assert(self@ =~= self@.union_prefer_right(map_of(batch@.take(0))));
        }
        while i < batch.len()
            invariant
                i <= batch@.len(),
                self@ == old(self)@.union_prefer_right(map_of(batch@.take(i as int))),
            decreases batch@.len() - i,
        {
            let ghost prev = self.entries@;
            self.entries.push(batch[i]);
            proof {
                assert(self.entries@.drop_last() =~= prev);
                assert(batch@.take(i + 1 as int).drop_last() =~= batch@.take(i as int));
                assert(old(self)@.union_prefer_right(map_of(batch@.take(i as int))).insert(
                    batch@[i as int].0,
                    batch@[i as int].1 as int,
                ) =~= old(self)@.union_prefer_right(
                    map_of(batch@.take(i as int)).insert(
                        batch@[i as int].0,
                        batch@[i as int].1 as int,
                    ),
                ));
            }
            i = i + 1;
        }
        proof {
            assert(batch@.take(batch@.len() as int) =~= batch@);
        }
    }

    /// Forgets every recorded delta.
    pub fn clear(&mut self)
        ensures
            final(self)@ == Map::<cassowary::Variable, int>::empty(),
    {
        self.entries.clear();
    }
}

/// The resolved rectangle of one entity, together with the solver variables
/// its edges are bound to.  Coordinates are parent-relative; `left`, `top`,
/// `right` and `bottom` hold the last value resolved for the matching
/// variable.
#[derive(Clone, Copy, Debug)]
pub struct Position {
    pub left_var: cassowary::Variable,
    pub top_var: cassowary::Variable,
    pub right_var: cassowary::Variable,
    pub bottom_var: cassowary::Variable,
    pub left: i64,
    pub top: i64,
    pub right: i64,
    pub bottom: i64,
}

/// `p` with each edge refreshed from `m` where `m` has a delta for its
/// variable, and kept where it has none.
pub open spec fn spec_updated(p: Position, m: Map<cassowary::Variable, int>) -> Position {
    Position {
        left: if m.contains_key(p.left_var) {
            m[p.left_var] as i64
        } else {
            p.left
        },
        top: if m.contains_key(p.top_var) {
            m[p.top_var] as i64
        } else {
            p.top
        },
        right: if m.contains_key(p.right_var) {
            m[p.right_var] as i64
        } else {
            p.right
        },
        bottom: if m.contains_key(p.bottom_var) {
            m[p.bottom_var] as i64
        } else {
            p.bottom
        },
        ..p
    }
}

impl Position {
    /// A position bound to the four given edge variables, with every edge
    /// resolved to zero until the solver reports otherwise.
    pub fn new(
        left_var: cassowary::Variable,
        top_var: cassowary::Variable,
        right_var: cassowary::Variable,
        bottom_var: cassowary::Variable,
    ) -> (p: Position)
        ensures
            p.left_var == left_var,
            p.top_var == top_var,
            p.right_var == right_var,
            p.bottom_var == bottom_var,
            p.left == 0 && p.top == 0 && p.right == 0 && p.bottom == 0,
    {
        Position {
            left_var,
            top_var,
            right_var,
            bottom_var,
            left: 0,
            top: 0,
            right: 0,
            bottom: 0,
        }
    }

    /// The root's position: left and top edges pinned to the constant-zero
    /// variable, right and bottom to the window's edit variables.
    pub fn root(
        zero: cassowary::Variable,
        width: cassowary::Variable,
        height: cassowary::Variable,
    ) -> (p: Position)
        ensures
            p.left_var == zero,
            p.top_var == zero,
            p.right_var == width,
            p.bottom_var == height,
            p.left == 0 && p.top == 0 && p.right == 0 && p.bottom == 0,
    {
        Position::new(zero, zero, width, height)
    }

    /// Refreshes each edge whose variable has a recorded delta.
    pub fn update(&mut self, changes: &Changes)
        ensures
            *final(self) == spec_updated(*old(self), changes@),
    {
        if let Some(x) = changes.get(&self.left_var) {
            self.left = x;
        }
        if let Some(x) = changes.get(&self.top_var) {
            self.top = x;
        }
        if let Some(x) = changes.get(&self.right_var) {
            self.right = x;
        }
        if let Some(x) = changes.get(&self.bottom_var) {
            self.bottom = x;
        }
    }

    /// A position bound to four freshly allocated, pairwise distinct
    /// solver variables, for an ordinary entity whose edges the constraint
    /// set will pin.
    pub fn fresh() -> (p: Position)
        ensures
            p.left == 0 && p.top == 0 && p.right == 0 && p.bottom == 0,
            p.left_var != p.top_var,
            p.left_var != p.right_var,
            p.left_var != p.bottom_var,
            p.top_var != p.right_var,
            p.top_var != p.bottom_var,
            p.right_var != p.bottom_var,
    {
        let vars = new_vars(4);
        Position::new(vars[0], vars[1], vars[2], vars[3])
    }

    /// The rectangle `(left, top, width, height)`, or `None` where a width
    /// or height would be negative or not fit an `i64`.
    pub fn rect(&self) -> (r: Option<(i64, i64, i64, i64)>)
        ensures
            r == (if 0 <= self.right - self.left <= i64::MAX && 0 <= self.bottom - self.top
                <= i64::MAX {
                Some(
                    (
                        self.left,
                        self.top,
                        (self.right - self.left) as i64,
                        (self.bottom - self.top) as i64,
                    ),
                )
            } else {
                None::<(i64, i64, i64, i64)>
            }),
    {
        let w: i128 = self.right as i128 - self.left as i128;
        let h: i128 = self.bottom as i128 - self.top as i128;
        if 0 <= w && w <= i64::MAX as i128 && 0 <= h && h <= i64::MAX as i128 {
            Some((self.left, self.top, w as i64, h as i64))
        } else {
            None
        }
    }
}

/// Law: the root's rectangle follows the window suggestions exactly.  A
/// delta report carrying the root's right edge to `w` and its bottom edge
/// to `h` — the two window edit variables — applied to a root position
/// whose left and top are pinned at zero under a third variable, yields
/// the rectangle `(0, 0, w, h)`.
pub proof fn lemma_root_rect_from_deltas(p: Position, w: i64, h: i64)
    requires
        p.left_var == p.top_var,
        p.left_var != p.right_var,
        p.left_var != p.bottom_var,
        p.right_var != p.bottom_var,
        p.left == 0,
        p.top == 0,
    ensures
        ({
            let m = Map::<cassowary::Variable, int>::empty().insert(p.right_var, w as int).insert(
                p.bottom_var,
                h as int,
            );
            spec_updated(p, m) == (Position { right: w, bottom: h, ..p })
        }),
{
}

} // verus!
