//! Evaluating the guards of a compiled script against the cells.

use crate::ast::{Condition, Conjunction, Trigger};
use crate::cells::{CellStore, DatedData};
use crate::context::{CompiledConditionState, CompiledCtx};
use crate::env::DevEnv;
use crate::values::{RangeView, ValueView};
use vstd::prelude::*;

verus! {

/// The outcome of evaluating a guard: what it was when it was last
/// evaluated, and what it is now.
#[derive(Debug, Clone, Copy, PartialEq, Eq)]
pub struct IsMet {
    pub previous: bool,
    pub current: bool,
}

impl IsMet {
    /// The guard was false and is now true.
    pub open spec fn rising(self) -> bool {
        self.current && !self.previous
    }

    /// Whether the guard went from false to true. Nothing else makes a
    /// trigger fire: not staying true, not becoming false, not staying false.
    pub fn is_rising(&self) -> (rising: bool)
        ensures
            rising == self.rising(),
    {
        self.current && !self.previous
    }
}

/// The cell has received a value, and the value is in the range.
pub open spec fn cell_in_range(cells: Map<u64, DatedData>, cell: u64, range: RangeView) -> bool {
    cells.contains_key(cell) && range.accepts(cells[cell].data@)
}

impl<Env: DevEnv> Condition<CompiledCtx<Env>, Env> {
    /// One of the condition's inputs holds a value in the condition's range.
    pub open spec fn holds(&self, cells: Map<u64, DatedData>) -> bool {
        exists|k: int|
            #![trigger self.input@[k]]
            0 <= k < self.input@.len() && cell_in_range(cells, self.input@[k].cell, self.range@)
    }

    /// The condition once it has been evaluated against `cells`: its flag
    /// says whether it holds, and nothing else has changed.
    pub open spec fn evaluated(self, cells: Map<u64, DatedData>) -> Self {
        Condition { state: CompiledConditionState { is_met: self.holds(cells) }, ..self }
    }

    /// Evaluates the condition against the cells and records the outcome in
    /// its flag.
    pub fn is_met(&mut self, cells: &CellStore) -> (met: IsMet)
        ensures
            met.previous == old(self).state.is_met,
            met.current == old(self).holds(cells@),
            *final(self) == old(self).evaluated(cells@),
    {
        let previous = self.state.is_met;
        let mut current = false;
        let mut k: usize = 0;
        while k < self.input.len() && !current
            invariant
                *self == *old(self),
                k <= self.input@.len(),
                current ==> self.holds(cells@),
                !current ==> forall|j: int|
                    #![trigger self.input@[j]]
                    0 <= j < k ==> !cell_in_range(cells@, self.input@[j].cell, self.range@),
            decreases self.input@.len() - k + (if current { 0int } else { 1int }),
        {
            let in_range = match cells.read(self.input[k].cell) {
                // No measurement has been received yet.
                None => false,
                Some(dated) => self.range.accepts(&dated.data),
            };
            if in_range {
                current = true;
            } else {
                k += 1;
            }
        }
        self.state.is_met = current;
        IsMet { previous, current }
    }
}

impl<Env: DevEnv> Conjunction<CompiledCtx<Env>, Env> {
    /// Every condition of the conjunction holds.
    pub open spec fn holds(&self, cells: Map<u64, DatedData>) -> bool {
        forall|i: int| 0 <= i < self.all@.len() ==> (#[trigger] self.all@[i]).holds(cells)
    }

    /// `after` is this conjunction once it has been evaluated against
    /// `cells`: each condition has been evaluated, none was skipped, and the
    /// conjunction's own flag says whether all of them hold.
    pub open spec fn evaluated_to(&self, after: &Self, cells: Map<u64, DatedData>) -> bool {
        &&& after.all@.len() == self.all@.len()
        &&& forall|i: int|
            0 <= i < self.all@.len() ==> #[trigger] after.all@[i] == self.all@[i].evaluated(cells)
        &&& after.state.is_met == self.holds(cells)
    }

    /// The conjunction's flag is the "and" of the flags of its conditions.
    pub open spec fn consistent(&self) -> bool {
        self.state.is_met == (forall|i: int|
            0 <= i < self.all@.len() ==> (#[trigger] self.all@[i]).state.is_met)
    }

    /// Evaluates every condition against the cells, records each outcome,
    /// and records whether all of them hold.
    ///
    /// Every condition is evaluated, also after one was found false: each
    /// condition's flag is brought up to date whatever the conjunction's
    /// outcome.
    pub fn is_met(&mut self, cells: &CellStore) -> (met: IsMet)
        ensures
            met.previous == old(self).state.is_met,
            met.current == old(self).holds(cells@),
            old(self).evaluated_to(final(self), cells@),
            final(self).consistent(),
    {
        let previous = self.state.is_met;
        let mut current = true;
        let n = self.all.len();
        let mut i: usize = 0;
        while i < n
            invariant
                i <= n,
                n == old(self).all@.len(),
                self.all@.len() == n,
                self.state == old(self).state,
                forall|j: int| 0 <= j < i ==> #[trigger] self.all@[j] == old(self).all@[j].evaluated(cells@),
                forall|j: int| i <= j < n ==> #[trigger] self.all@[j] == old(self).all@[j],
                current == (forall|j: int| 0 <= j < i ==> (#[trigger] old(self).all@[j]).holds(cells@)),
            decreases n - i,
        {
            let single = self.all[i].is_met(cells);
            if !single.current {
                current = false;
            }
            i += 1;
        }
        proof {
            if current {
                assert forall|j: int| 0 <= j < n implies (#[trigger] self.all@[j]).state.is_met by {
                    assert(old(self).all@[j].holds(cells@));
                }
            } else {
                let j = choose|j: int| 0 <= j < n && !(#[trigger] old(self).all@[j]).holds(cells@);
                assert(!self.all@[j].state.is_met);
            }
        }
        self.state.is_met = current;
        IsMet { previous, current }
    }
}

impl<Env: DevEnv> Trigger<CompiledCtx<Env>, Env> {
    /// The trigger's guard holds.
    pub open spec fn holds(&self, cells: Map<u64, DatedData>) -> bool {
        self.condition.holds(cells)
    }

    /// `after` is this trigger once its guard has been evaluated against
    /// `cells`; its statements are untouched.
    pub open spec fn evaluated_to(&self, after: &Self, cells: Map<u64, DatedData>) -> bool {
        &&& self.condition.evaluated_to(&after.condition, cells)
        &&& after.execute == self.execute
    }

    /// Evaluating against `cells` makes the trigger fire: its guard holds,
    /// and did not when it was last evaluated.
    pub open spec fn fires(&self, cells: Map<u64, DatedData>) -> bool {
        self.holds(cells) && !self.condition.state.is_met
    }

    /// Evaluates the trigger's guard.
    pub fn is_met(&mut self, cells: &CellStore) -> (met: IsMet)
        ensures
            met.previous == old(self).condition.state.is_met,
            met.current == old(self).holds(cells@),
            met.rising() == old(self).fires(cells@),
            old(self).evaluated_to(final(self), cells@),
            final(self).condition.consistent(),
    {
        self.condition.is_met(cells)
    }
}

/// The matching rule, row by row. `Any` takes every value; a vector, a
/// document or a blob is in no other range; a boolean is in no other range
/// but the `EqBool` of that boolean; a string in no other but the
/// `EqString` of that string; a number in no other but the numeric ranges
/// whose bounds admit it.
pub proof fn lemma_matching_rule(range: RangeView, value: ValueView)
    ensures
        range is Any ==> range.accepts(value),
        (value is Vec || value is Json || value is Blob) ==> (range.accepts(value) <==> range is Any),
        value matches ValueView::Bool(b) ==> (range.accepts(value) <==> range is Any
            || range == RangeView::EqBool(b)),
        value matches ValueView::String(s) ==> (range.accepts(value) <==> range is Any
            || range == RangeView::EqString(s)),
        value matches ValueView::Num(x) ==> (range.accepts(value) <==> {
            ||| range is Any
            ||| range matches RangeView::Leq(max) && x <= max
            ||| range matches RangeView::Geq(min) && min <= x
            ||| range matches RangeView::BetweenEq { min, max } && min <= x <= max
            ||| range matches RangeView::OutOfStrict { min, max } && (x < min || max < x)
        }),
{
}

/// A condition with a single input is met exactly when that input's cell
/// has received a value and the matching rule puts the value in the
/// condition's range.
pub proof fn lemma_single_input_condition<Env: DevEnv>(
    condition: Condition<CompiledCtx<Env>, Env>,
    cells: Map<u64, DatedData>,
)
    requires
        condition.input@.len() == 1,
    ensures
        condition.holds(cells) == cell_in_range(cells, condition.input@[0].cell, condition.range@),
{
    if cell_in_range(cells, condition.input@[0].cell, condition.range@) {
        assert(condition.input@[0].cell == condition.input@[0].cell);
    }
}

/// A condition whose cells have received no value is not met, whatever its
/// range: `Any` included.
pub proof fn lemma_no_measurement_no_match<Env: DevEnv>(
    condition: Condition<CompiledCtx<Env>, Env>,
    cells: Map<u64, DatedData>,
)
    requires
        forall|k: int|
            0 <= k < condition.input@.len() ==> !cells.contains_key(
                (#[trigger] condition.input@[k]).cell,
            ),
    ensures
        !condition.holds(cells),
{
}

/// A conjunction of two conditions holds exactly when both do. Once it has
/// been evaluated, the flag of each of the two says whether that one
/// holds, whatever the other does, and the conjunction's flag says whether
/// both do.
pub proof fn lemma_pair_conjunction<Env: DevEnv>(
    conjunction: Conjunction<CompiledCtx<Env>, Env>,
    after: Conjunction<CompiledCtx<Env>, Env>,
    cells: Map<u64, DatedData>,
)
    requires
        conjunction.all@.len() == 2,
        conjunction.evaluated_to(&after, cells),
    ensures
        conjunction.holds(cells) == (conjunction.all@[0].holds(cells) && conjunction.all@[1].holds(
            cells,
        )),
        after.all@[0].state.is_met == conjunction.all@[0].holds(cells),
        after.all@[1].state.is_met == conjunction.all@[1].holds(cells),
        after.state.is_met == (after.all@[0].state.is_met && after.all@[1].state.is_met),
{
    assert(after.all@[0] == conjunction.all@[0].evaluated(cells));
    assert(after.all@[1] == conjunction.all@[1].evaluated(cells));
}

/// Whether a trigger's guard holds against given cells is not changed by
/// evaluating it: an evaluation changes flags only.
pub proof fn lemma_evaluation_keeps_guard<Env: DevEnv>(
    before: Trigger<CompiledCtx<Env>, Env>,
    after: Trigger<CompiledCtx<Env>, Env>,
    seen: Map<u64, DatedData>,
    cells: Map<u64, DatedData>,
)
    requires
        before.evaluated_to(&after, seen),
    ensures
        after.holds(cells) == before.holds(cells),
{
    assert forall|i: int| 0 <= i < before.condition.all@.len() implies (
    #[trigger] after.condition.all@[i]).holds(cells) == before.condition.all@[i].holds(cells) by {
        let b = before.condition.all@[i];
        let a = after.condition.all@[i];
        assert(a == b.evaluated(seen));
        assert(a.input == b.input && a.range == b.range);
    }
    if before.holds(cells) {
        assert forall|i: int| 0 <= i < after.condition.all@.len() implies (
        #[trigger] after.condition.all@[i]).holds(cells) by {
            assert(before.condition.all@[i].holds(cells));
        }
    }
    if after.holds(cells) {
        assert forall|i: int| 0 <= i < before.condition.all@.len() implies (
        #[trigger] before.condition.all@[i]).holds(cells) by {
            assert(after.condition.all@[i].holds(cells));
        }
    }
}

/// Edge detection. A trigger that has been evaluated against `earlier`
/// fires at its next evaluation, against `later`, exactly when its guard
/// holds against `later` and did not hold against `earlier`: on the change
/// from false to true, and neither while it stays true, nor when it
/// becomes false, nor while it stays false.
pub proof fn lemma_fires_on_rising_edge<Env: DevEnv>(
    before: Trigger<CompiledCtx<Env>, Env>,
    between: Trigger<CompiledCtx<Env>, Env>,
    earlier: Map<u64, DatedData>,
    later: Map<u64, DatedData>,
)
    requires
        before.evaluated_to(&between, earlier),
    ensures
        between.fires(later) == (before.holds(later) && !before.holds(earlier)),
{
    lemma_evaluation_keeps_guard(before, between, earlier, later);
}

/// However often a trigger has been evaluated, and against whatever cells,
/// its guard holds against given cells exactly when it did at the start.
///
/// `states` are the trigger's successive states: each but the first is the
/// one before it, evaluated against the cells at the same position of
/// `seen`.
pub proof fn lemma_run_keeps_guard<Env: DevEnv>(
    states: Seq<Trigger<CompiledCtx<Env>, Env>>,
    seen: Seq<Map<u64, DatedData>>,
    k: int,
    cells: Map<u64, DatedData>,
)
    requires
        states.len() == seen.len() + 1,
        forall|i: int|
            0 <= i < seen.len() ==> (#[trigger] states[i]).evaluated_to(&states[i + 1], seen[i]),
        0 <= k < states.len(),
    ensures
        states[k].holds(cells) == states[0].holds(cells),
    decreases k,
{
    if k > 0 {
        lemma_run_keeps_guard(states, seen, k - 1, cells);
        assert(states[k - 1].evaluated_to(&states[k - 1 + 1], seen[k - 1]));
        lemma_evaluation_keeps_guard(states[k - 1], states[k], seen[k - 1], cells);
    }
}

/// Edge detection over a run of evaluations. At every evaluation but the
/// first, the trigger fires exactly when its guard holds against the cells
/// of this evaluation and did not hold against those of the one before.
/// At the first, it fires exactly when its guard holds and its flag said
/// that it did not.
pub proof fn lemma_fires_exactly_on_rising_edges<Env: DevEnv>(
    states: Seq<Trigger<CompiledCtx<Env>, Env>>,
    seen: Seq<Map<u64, DatedData>>,
    k: int,
)
    requires
        states.len() == seen.len() + 1,
        forall|i: int|
            0 <= i < seen.len() ==> (#[trigger] states[i]).evaluated_to(&states[i + 1], seen[i]),
        0 <= k < seen.len(),
    ensures
        k == 0 ==> states[k].fires(seen[k]) == (states[0].holds(seen[0])
            && !states[0].condition.state.is_met),
        k > 0 ==> states[k].fires(seen[k]) == (states[0].holds(seen[k]) && !states[0].holds(
            seen[k - 1],
        )),
{
    lemma_run_keeps_guard(states, seen, k, seen[k]);
    if k > 0 {
        lemma_run_keeps_guard(states, seen, k - 1, seen[k - 1]);
        assert(states[k - 1].evaluated_to(&states[k - 1 + 1], seen[k - 1]));
    }
}

} // verus!
