//! One running script: its cells, the inputs it watches, and what it does
//! with each message.

use crate::ast::{Condition, Script, Trigger};
use crate::cells::{CellStore, DatedData};
use crate::clock::{utc_now, Timestamp};
use crate::context::CompiledCtx;
use crate::env::DevEnv;
use crate::error::{CompileError, Error};
use crate::statements::Dispatch;
use crate::values::{Range, Value};
use vstd::prelude::*;

verus! {

/// Where a watched input stands in the script, and the cell it feeds.
#[derive(Debug, Clone, Copy, PartialEq, Eq)]
pub struct WatchedInput {
    /// The position of the rule among the script's rules.
    pub rule: usize,
    /// The position of the condition in the rule's conjunction.
    pub condition: usize,
    /// The position of the input in the condition's input set.
    pub input: usize,
    /// The cell that holds the input's last known value.
    pub cell: u64,
}

/// What to tell the watcher of one watched input: whenever this capability
/// of this device changes to a value in this range, send an update.
pub struct Watch<'a, Env: DevEnv> {
    pub device: &'a Env::Device,
    pub capability: &'a Env::InputCapability,
    pub range: &'a Range,
}

/// A message to a task.
#[derive(Debug, PartialEq, Eq)]
pub enum ExecutionOp {
    /// A watched input has a new value. `index` is the position of the
    /// input in the task's list of watched inputs.
    Update { index: usize, updated: Timestamp, value: Value },
    /// Time to stop.
    Stop,
}

/// What came of one statement of a trigger that fired.
pub struct Effect<Env: DevEnv> {
    /// The position of the trigger among the script's rules.
    pub rule: usize,
    /// The position of the statement in the trigger's list.
    pub statement: usize,
    /// The requests to make of the devices, or why there are none.
    pub outcome: Result<Vec<Dispatch<Env>>, Error>,
}

/// What a task did with a message.
pub enum Step<Env: DevEnv> {
    /// The task has stopped: tell whoever asked, and deliver no more
    /// messages.
    Stopped,
    /// A cell was written at `updated` and the rules were evaluated:
    /// `effects` are to be carried out, in order.
    Updated { updated: Timestamp, effects: Vec<Effect<Env>> },
    /// The task had stopped before: the message was dropped.
    Ignored,
}

/// The watched input stands in the rules where it says, and feeds the cell
/// it says.
pub open spec fn locates<Env: DevEnv>(
    rules: Seq<Trigger<CompiledCtx<Env>, Env>>,
    watched: WatchedInput,
) -> bool {
    &&& watched.rule < rules.len()
    &&& watched.condition < rules[watched.rule as int].condition.all@.len()
    &&& watched.input < rules[watched.rule as int].condition.all@[watched.condition as int].input@.len()
    &&& watched.cell == rules[watched.rule as int].condition.all@[watched.condition as int].input@[watched.input as int].cell
}

/// The statements of the triggers that fire when the rules are evaluated
/// against `cells`, each as the position of its rule and its own position:
/// rule by rule, and statement by statement within a rule.
pub open spec fn fired_statements<Env: DevEnv>(
    rules: Seq<Trigger<CompiledCtx<Env>, Env>>,
    cells: Map<u64, DatedData>,
) -> Seq<(int, int)>
    decreases rules.len(),
{
    if rules.len() == 0 {
        Seq::empty()
    } else {
        fired_statements(rules.drop_last(), cells) + (if rules.last().fires(cells) {
            Seq::new(rules.last().execute@.len(), |s: int| (rules.len() - 1, s))
        } else {
            Seq::empty()
        })
    }
}

/// `a` comes before `b`: in an earlier rule, or earlier in the same rule.
pub open spec fn precedes(a: (int, int), b: (int, int)) -> bool {
    a.0 < b.0 || (a.0 == b.0 && a.1 < b.1)
}

/// The statements that are evaluated are those of the triggers that fire,
/// all of them and no others, each once, rule by rule in the order of the
/// rules and statement by statement in the order of the trigger's list.
pub proof fn lemma_fired_statements<Env: DevEnv>(
    rules: Seq<Trigger<CompiledCtx<Env>, Env>>,
    cells: Map<u64, DatedData>,
)
    ensures
        forall|r: int, s: int|
            #[trigger] fired_statements(rules, cells).contains((r, s)) <==> {
                &&& 0 <= r < rules.len()
                &&& rules[r].fires(cells)
                &&& 0 <= s < rules[r].execute@.len()
            },
        forall|i: int, j: int|
            0 <= i < j < fired_statements(rules, cells).len() ==> precedes(
                #[trigger] fired_statements(rules, cells)[i],
                #[trigger] fired_statements(rules, cells)[j],
            ),
    decreases rules.len(),
{
    let fired = fired_statements(rules, cells);
    if rules.len() > 0 {
        let n = rules.len() as int;
        let front = fired_statements(rules.drop_last(), cells);
        let back = if rules.last().fires(cells) {
            Seq::new(rules.last().execute@.len(), |s: int| (n - 1, s))
        } else {
            Seq::empty()
        };
        lemma_fired_statements(rules.drop_last(), cells);
        assert(fired == front + back);
        assert forall|r: int, s: int| #[trigger] fired.contains((r, s)) <==> {
            &&& 0 <= r < rules.len()
            &&& rules[r].fires(cells)
            &&& 0 <= s < rules[r].execute@.len()
        } by {
            if fired.contains((r, s)) {
                let i = choose|i: int| 0 <= i < fired.len() && fired[i] == (r, s);
                if i < front.len() {
                    assert(front[i] == (r, s));
                    assert(front.contains((r, s)));
                    assert(rules.drop_last()[r] == rules[r]);
                } else {
                    assert(back[i - front.len()] == (r, s));
                }
            }
            if 0 <= r < rules.len() && rules[r].fires(cells) && 0 <= s < rules[r].execute@.len() {
                if r < n - 1 {
                    assert(rules.drop_last()[r] == rules[r]);
                    assert(front.contains((r, s)));
                    let i = choose|i: int| 0 <= i < front.len() && front[i] == (r, s);
                    assert(fired[i] == (r, s));
                } else {
                    assert(back[s] == (r, s));
                    assert(fired[front.len() + s] == (r, s));
                }
            }
        }
        assert forall|i: int, j: int| 0 <= i < j < fired.len() implies precedes(
            #[trigger] fired[i],
            #[trigger] fired[j],
        ) by {
            if j < front.len() {
                assert(precedes(front[i], front[j]));
            } else if i < front.len() {
                assert(front.contains((front[i].0, front[i].1)));
                assert(fired[j] == (n - 1, j - front.len()));
            } else {
                assert(fired[i] == (n - 1, i - front.len()));
                assert(fired[j] == (n - 1, j - front.len()));
            }
        }
    }
}

/// `effect` is what came of the statement at `at`.
pub open spec fn effect_of<Env: DevEnv>(
    effect: Effect<Env>,
    at: (int, int),
    rules: Seq<Trigger<CompiledCtx<Env>, Env>>,
) -> bool {
    &&& effect.rule == at.0
    &&& effect.statement == at.1
    &&& 0 <= at.0 < rules.len()
    &&& 0 <= at.1 < rules[at.0].execute@.len()
    &&& rules[at.0].execute@[at.1].evaluates_to(effect.outcome)
}

/// `effects` are what came of the statements at `plan`, one for one.
pub open spec fn carries_out<Env: DevEnv>(
    effects: Seq<Effect<Env>>,
    plan: Seq<(int, int)>,
    rules: Seq<Trigger<CompiledCtx<Env>, Env>>,
) -> bool {
    &&& effects.len() == plan.len()
    &&& forall|i: int| 0 <= i < effects.len() ==> effect_of(#[trigger] effects[i], plan[i], rules)
}

/// The inputs of one condition, in order.
pub open spec fn condition_watches<Env: DevEnv>(
    condition: Condition<CompiledCtx<Env>, Env>,
    rule: int,
    position: int,
) -> Seq<WatchedInput> {
    Seq::new(
        condition.input@.len(),
        |k: int|
            WatchedInput {
                rule: rule as usize,
                condition: position as usize,
                input: k as usize,
                cell: condition.input@[k].cell,
            },
    )
}

/// The inputs of the conditions of one conjunction: those of its first
/// condition, then those of its second, and so on.
pub open spec fn conjunction_watches<Env: DevEnv>(
    all: Seq<Condition<CompiledCtx<Env>, Env>>,
    rule: int,
) -> Seq<WatchedInput>
    decreases all.len(),
{
    if all.len() == 0 {
        Seq::empty()
    } else {
        conjunction_watches(all.drop_last(), rule) + condition_watches(
            all.last(),
            rule,
            all.len() - 1,
        )
    }
}

/// The inputs that a script watches: for every rule in order, every
/// condition of its guard in order, every input of that condition in
/// order. An input that occurs twice in the script occurs twice here.
pub open spec fn script_watches<Env: DevEnv>(
    rules: Seq<Trigger<CompiledCtx<Env>, Env>>,
) -> Seq<WatchedInput>
    decreases rules.len(),
{
    if rules.len() == 0 {
        Seq::empty()
    } else {
        script_watches(rules.drop_last()) + conjunction_watches(
            rules.last().condition.all@,
            rules.len() - 1,
        )
    }
}

/// `a` comes before `b` in the script: in an earlier rule, or in the same
/// rule and an earlier condition, or in the same condition and earlier
/// among its inputs.
pub open spec fn earlier(a: WatchedInput, b: WatchedInput) -> bool {
    ||| a.rule < b.rule
    ||| a.rule == b.rule && a.condition < b.condition
    ||| a.rule == b.rule && a.condition == b.condition && a.input < b.input
}

/// The list of a conjunction holds the inputs of its conditions, all of
/// them and nothing else, each once and in the order of the conjunction.
proof fn lemma_conjunction_watches<Env: DevEnv>(
    all: Seq<Condition<CompiledCtx<Env>, Env>>,
    rule: int,
)
    requires
        0 <= rule <= usize::MAX,
        all.len() <= usize::MAX,
    ensures
        forall|w: WatchedInput| #[trigger]
            conjunction_watches(all, rule).contains(w) <==> {
                &&& w.rule == rule
                &&& w.condition < all.len()
                &&& w.input < all[w.condition as int].input@.len()
                &&& w.cell == all[w.condition as int].input@[w.input as int].cell
            },
        forall|i: int, j: int|
            0 <= i < j < conjunction_watches(all, rule).len() ==> earlier(
                #[trigger] conjunction_watches(all, rule)[i],
                #[trigger] conjunction_watches(all, rule)[j],
            ),
    decreases all.len(),
{
    let list = conjunction_watches(all, rule);
    if all.len() > 0 {
        let n = all.len() as int;
        let front = conjunction_watches(all.drop_last(), rule);
        let back = condition_watches(all.last(), rule, n - 1);
        lemma_conjunction_watches(all.drop_last(), rule);
        assert(list == front + back);
        assert(all.last().input.len() == all.last().input@.len());
        assert forall|w: WatchedInput| #[trigger] list.contains(w) <==> {
            &&& w.rule == rule
            &&& w.condition < all.len()
            &&& w.input < all[w.condition as int].input@.len()
            &&& w.cell == all[w.condition as int].input@[w.input as int].cell
        } by {
            if list.contains(w) {
                let i = choose|i: int| 0 <= i < list.len() && list[i] == w;
                if i < front.len() {
                    assert(front[i] == w);
                    assert(front.contains(w));
                    assert(all.drop_last()[w.condition as int] == all[w.condition as int]);
                } else {
                    assert(back[i - front.len()] == w);
                }
            }
            if w.rule == rule && w.condition < all.len() && w.input < all[w.condition as int].input@.len()
                && w.cell == all[w.condition as int].input@[w.input as int].cell {
                if w.condition < n - 1 {
                    assert(all.drop_last()[w.condition as int] == all[w.condition as int]);
                    assert(front.contains(w));
                    let i = choose|i: int| 0 <= i < front.len() && front[i] == w;
                    assert(list[i] == w);
                } else {
                    assert(back[w.input as int] == w);
                    assert(list[front.len() + w.input] == w);
                }
            }
        }
        assert forall|i: int, j: int| 0 <= i < j < list.len() implies earlier(
            #[trigger] list[i],
            #[trigger] list[j],
        ) by {
            if j < front.len() {
                assert(earlier(front[i], front[j]));
            } else if i < front.len() {
                assert(front.contains(front[i]));
                assert(list[j] == back[j - front.len()]);
            } else {
                assert(list[i] == back[i - front.len()]);
                assert(list[j] == back[j - front.len()]);
            }
        }
    }
}

/// The list of watched inputs holds the inputs of the conditions of the
/// rules, all of them and nothing else, each once and in the order of the
/// script. Two inputs that name one cell are two entries.
pub proof fn lemma_script_watches<Env: DevEnv>(rules: Seq<Trigger<CompiledCtx<Env>, Env>>)
    requires
        rules.len() <= usize::MAX,
    ensures
        forall|w: WatchedInput| #[trigger]
            script_watches(rules).contains(w) <==> locates(rules, w),
        forall|i: int, j: int|
            0 <= i < j < script_watches(rules).len() ==> earlier(
                #[trigger] script_watches(rules)[i],
                #[trigger] script_watches(rules)[j],
            ),
    decreases rules.len(),
{
    let list = script_watches(rules);
    if rules.len() > 0 {
        let n = rules.len() as int;
        let front = script_watches(rules.drop_last());
        let back = conjunction_watches(rules.last().condition.all@, n - 1);
        lemma_script_watches(rules.drop_last());
        assert(rules.last().condition.all.len() == rules.last().condition.all@.len());
        lemma_conjunction_watches(rules.last().condition.all@, n - 1);
        assert(list == front + back);
        assert forall|w: WatchedInput| #[trigger] list.contains(w) <==> locates(rules, w) by {
            if list.contains(w) {
                let i = choose|i: int| 0 <= i < list.len() && list[i] == w;
                if i < front.len() {
                    assert(front[i] == w);
                    assert(front.contains(w));
                    assert(rules.drop_last()[w.rule as int] == rules[w.rule as int]);
                } else {
                    assert(back[i - front.len()] == w);
                    assert(back.contains(w));
                }
            }
            if locates(rules, w) {
                if w.rule < n - 1 {
                    assert(rules.drop_last()[w.rule as int] == rules[w.rule as int]);
                    assert(locates(rules.drop_last(), w));
                    assert(front.contains(w));
                    let i = choose|i: int| 0 <= i < front.len() && front[i] == w;
                    assert(list[i] == w);
                } else {
                    assert(back.contains(w));
                    let i = choose|i: int| 0 <= i < back.len() && back[i] == w;
                    assert(list[front.len() + i] == w);
                }
            }
        }
        assert forall|i: int, j: int| 0 <= i < j < list.len() implies earlier(
            #[trigger] list[i],
            #[trigger] list[j],
        ) by {
            if j < front.len() {
                assert(earlier(front[i], front[j]));
            } else if i < front.len() {
                assert(front.contains(front[i]));
                assert(list[j] == back[j - front.len()]);
                assert(back.contains(back[j - front.len()]));
            } else {
                assert(list[i] == back[i - front.len()]);
                assert(list[j] == back[j - front.len()]);
                assert(earlier(back[i - front.len()], back[j - front.len()]));
            }
        }
    }
}

/// Every input in the list of a script stands in the script where it says.
pub proof fn lemma_watches_locate<Env: DevEnv>(rules: Seq<Trigger<CompiledCtx<Env>, Env>>, i: int)
    requires
        rules.len() <= usize::MAX,
        0 <= i < script_watches(rules).len(),
    ensures
        locates(rules, script_watches(rules)[i]),
{
    lemma_script_watches(rules);
    assert(script_watches(rules).contains(script_watches(rules)[i]));
}

/// Evaluating the conditions of a conjunction leaves its inputs as they
/// were.
proof fn lemma_conjunction_watches_kept<Env: DevEnv>(
    before: Seq<Condition<CompiledCtx<Env>, Env>>,
    after: Seq<Condition<CompiledCtx<Env>, Env>>,
    rule: int,
    cells: Map<u64, DatedData>,
)
    requires
        after.len() == before.len(),
        forall|i: int| 0 <= i < before.len() ==> #[trigger] after[i] == before[i].evaluated(cells),
    ensures
        conjunction_watches(after, rule) == conjunction_watches(before, rule),
    decreases before.len(),
{
    if before.len() > 0 {
        lemma_conjunction_watches_kept(before.drop_last(), after.drop_last(), rule, cells);
        assert(after.last() == before.last().evaluated(cells));
        assert(condition_watches(after.last(), rule, after.len() - 1) =~= condition_watches(
            before.last(),
            rule,
            before.len() - 1,
        ));
    }
}

/// Evaluating the guards of a script leaves its list of watched inputs as
/// it was.
pub proof fn lemma_evaluation_keeps_watches<Env: DevEnv>(
    before: Seq<Trigger<CompiledCtx<Env>, Env>>,
    after: Seq<Trigger<CompiledCtx<Env>, Env>>,
    cells: Map<u64, DatedData>,
)
    requires
        after.len() == before.len(),
        forall|r: int| 0 <= r < before.len() ==> before[r].evaluated_to(&#[trigger] after[r], cells),
    ensures
        script_watches(after) == script_watches(before),
    decreases before.len(),
{
    if before.len() > 0 {
        lemma_evaluation_keeps_watches(before.drop_last(), after.drop_last(), cells);
        assert(before.last().evaluated_to(&after.last(), cells));
        lemma_conjunction_watches_kept(
            before.last().condition.all@,
            after.last().condition.all@,
            before.len() - 1,
            cells,
        );
    }
}

/// Evaluates the guard of every rule, in order, against the cells, and the
/// statements of every trigger that fires.
fn evaluate<Env: DevEnv>(rules: &mut Vec<Trigger<CompiledCtx<Env>, Env>>, cells: &CellStore) -> (effects:
    Vec<Effect<Env>>)
    ensures
        final(rules)@.len() == old(rules)@.len(),
        forall|r: int|
            0 <= r < old(rules)@.len() ==> old(rules)@[r].evaluated_to(
                &#[trigger] final(rules)@[r],
                cells@,
            ),
        carries_out(effects@, fired_statements(old(rules)@, cells@), old(rules)@),
{
    let ghost before = rules@;
    let mut effects: Vec<Effect<Env>> = Vec::new();
    let n = rules.len();
    let mut r: usize = 0;
    while r < n
        invariant
            r <= n,
            n == before.len(),
            rules@.len() == n,
            forall|j: int| 0 <= j < r ==> before[j].evaluated_to(&#[trigger] rules@[j], cells@),
            forall|j: int| r <= j < n ==> #[trigger] rules@[j] == before[j],
            carries_out(effects@, fired_statements(before.take(r as int), cells@), before),
        decreases n - r,
    {
        let ghost plan = fired_statements(before.take(r as int), cells@);
        let met = rules[r].is_met(cells);
        proof {
            assert(before.take(r + 1).drop_last() =~= before.take(r as int));
            assert(before.take(r + 1).last() == before[r as int]);
        }
        if met.is_rising() {
            let m = rules[r].execute.len();
            let mut s: usize = 0;
            while s < m
                invariant
                    r < n,
                    n == before.len(),
                    rules@.len() == n,
                    rules@[r as int].execute == before[r as int].execute,
                    m == before[r as int].execute@.len(),
                    s <= m,
                    carries_out(
                        effects@,
                        plan + Seq::new(s as nat, |t: int| (r as int, t)),
                        before,
                    ),
                decreases m - s,
            {
                let outcome = rules[r].execute[s].eval();
                let ghost reported = effects@;
                effects.push(Effect { rule: r, statement: s, outcome });
                proof {
                    let longer = plan + Seq::new((s + 1) as nat, |t: int| (r as int, t));
                    assert(longer =~= (plan + Seq::new(s as nat, |t: int| (r as int, t))).push(
                        (r as int, s as int),
                    ));
                    assert forall|i: int| 0 <= i < effects@.len() implies effect_of(
                        #[trigger] effects@[i],
                        longer[i],
                        before,
                    ) by {
                        if i < reported.len() {
                            assert(effects@[i] == reported[i]);
                        }
                    }
                }
                s += 1;
            }
        }
        r += 1;
    }
    assert(before.take(r as int) =~= before);
    effects
}

/// A script bound to its devices, with the state of its execution.
///
/// The task makes no call to the outside but to read the clock. It is told
/// of each message and answers with what is to be done.
pub struct ExecutionTask<Env: DevEnv> {
    /// The script, with the flags of its guards.
    state: Script<CompiledCtx<Env>, Env>,
    /// The last known value of each cell.
    cells: CellStore,
    /// The watched inputs. A message names an input by its position in
    /// this list, which never changes once the task is made.
    watched: Vec<WatchedInput>,
    /// A stop request has been processed.
    stopped: bool,
}

impl<Env: DevEnv> ExecutionTask<Env> {
    /// The script, with the flags of its guards.
    pub closed spec fn script(&self) -> Script<CompiledCtx<Env>, Env> {
        self.state
    }

    /// The last known value of each cell that has received one.
    pub closed spec fn cells(&self) -> Map<u64, DatedData> {
        self.cells@
    }

    /// The watched inputs, each at the position by which messages name it.
    pub closed spec fn watched(&self) -> Seq<WatchedInput> {
        self.watched@
    }

    /// A stop request has been processed.
    pub closed spec fn stopped(&self) -> bool {
        self.stopped
    }

    /// The list of watched inputs is the one that the script gives.
    #[verifier::type_invariant]
    spec fn well_formed(&self) -> bool {
        self.watched@ == script_watches(self.state.rules@)
    }

    /// Makes a task of what the binder returned.
    ///
    /// A script that could not be bound makes no task: the binder's error
    /// is handed on. Otherwise no cell has a value yet, and the inputs to
    /// watch are numbered.
    pub fn new(bound: Result<Script<CompiledCtx<Env>, Env>, CompileError>) -> (result: Result<
        Self,
        Error,
    >)
        ensures
            match bound {
                Ok(script) => {
                    &&& result matches Ok(task)
                    &&& task.watched() == script_watches(script.rules@)
                    &&& task.script() == script
                    &&& task.cells() == Map::<u64, DatedData>::empty()
                    &&& !task.stopped()
                },
                Err(error) => result matches Err(e) && e == Error::CompileError(error),
            },
    {
        let script = match bound {
            Ok(script) => script,
            Err(error) => {
                return Err(Error::CompileError(error));
            },
        };
        let mut watched: Vec<WatchedInput> = Vec::new();
        let mut r: usize = 0;
        while r < script.rules.len()
            invariant
                r <= script.rules@.len(),
                watched@ == script_watches(script.rules@.take(r as int)),
            decreases script.rules@.len() - r,
        {
            let ghost before_rule = watched@;
            let all = &script.rules[r].condition.all;
            let mut c: usize = 0;
            while c < all.len()
                invariant
                    r < script.rules@.len(),
                    *all == script.rules@[r as int].condition.all,
                    c <= all@.len(),
                    watched@ == before_rule + conjunction_watches(all@.take(c as int), r as int),
                decreases all@.len() - c,
            {
                let ghost before_condition = watched@;
                let input = &all[c].input;
                let mut k: usize = 0;
                while k < input.len()
                    invariant
                        c < all@.len(),
                        *input == all@[c as int].input,
                        k <= input@.len(),
                        watched@ == before_condition + condition_watches(
                            all@[c as int],
                            r as int,
                            c as int,
                        ).take(k as int),
                    decreases input@.len() - k,
                {
                    watched.push(
                        WatchedInput { rule: r, condition: c, input: k, cell: input[k].cell },
                    );
                    k += 1;
                }
                proof {
                    let whole = condition_watches(all@[c as int], r as int, c as int);
                    assert(whole.take(k as int) =~= whole);
                    assert(all@.take(c + 1).drop_last() =~= all@.take(c as int));
                    assert(watched@ =~= before_rule + conjunction_watches(
                        all@.take(c + 1),
                        r as int,
                    ));
                }
                c += 1;
            }
            proof {
                assert(all@.take(c as int) =~= all@);
                assert(script.rules@.take(r + 1).drop_last() =~= script.rules@.take(r as int));
            }
            r += 1;
        }
        assert(script.rules@.take(r as int) =~= script.rules@);
        Ok(ExecutionTask { state: script, cells: CellStore::new(), watched, stopped: false })
    }

    /// `self` is `before` after the input at `index` received `value` at
    /// `updated`: the input's cell holds the value, dated; every guard has
    /// been evaluated against the cells as they now are; nothing else has
    /// changed.
    pub open spec fn updated_from(
        &self,
        before: &Self,
        index: int,
        updated: Timestamp,
        value: Value,
    ) -> bool {
        &&& self.watched() == before.watched()
        &&& self.stopped() == before.stopped()
        &&& self.cells() == before.cells().insert(
            before.watched()[index].cell,
            DatedData { updated, data: value },
        )
        &&& self.script().metadata == before.script().metadata
        &&& self.script().requirements == before.script().requirements
        &&& self.script().allocations == before.script().allocations
        &&& self.script().rules@.len() == before.script().rules@.len()
        &&& forall|r: int|
            0 <= r < before.script().rules@.len() ==> before.script().rules@[r].evaluated_to(
                &#[trigger] self.script().rules@[r],
                self.cells(),
            )
    }

    /// `self` is `before` after a stop: stopped, and otherwise as it was.
    pub open spec fn stopped_from(&self, before: &Self) -> bool {
        &&& self.stopped()
        &&& self.watched() == before.watched()
        &&& self.cells() == before.cells()
        &&& self.script() == before.script()
    }

    /// `self` and `step` are what dealing with `op` makes of `before`.
    ///
    /// A task that has stopped stays as it is, whatever the message. A
    /// running task stops on a stop request. On an update it records the
    /// value at the time that `step` names and evaluates its rules, and
    /// `step` holds what came of the statements of the triggers that
    /// fired.
    pub open spec fn handled_from(&self, before: &Self, op: ExecutionOp, step: Step<Env>) -> bool {
        if before.stopped() {
            step is Ignored && *self == *before
        } else {
            match op {
                ExecutionOp::Stop => step is Stopped && self.stopped_from(before),
                ExecutionOp::Update { index, value, .. } => {
                    &&& step matches Step::Updated { updated, effects }
                    &&& self.updated_from(before, index as int, updated, value)
                    &&& carries_out(
                        effects@,
                        fired_statements(before.script().rules@, self.cells()),
                        before.script().rules@,
                    )
                },
            }
        }
    }

    /// Once a task has dealt with a stop request, a further message changes
    /// nothing and has no effect: no value is recorded, and no guard and no
    /// statement is evaluated.
    pub proof fn lemma_nothing_after_stop(
        running: Self,
        halted: Self,
        stop: Step<Env>,
        op: ExecutionOp,
        after: Self,
        step: Step<Env>,
    )
        requires
            !running.stopped(),
            halted.handled_from(&running, ExecutionOp::Stop, stop),
            after.handled_from(&halted, op, step),
        ensures
            stop is Stopped,
            step is Ignored,
            after == halted,
    {
    }

    /// Whatever the message, the list of watched inputs stays as it was
    /// made: a position names the same input for as long as the task lives.
    pub proof fn lemma_watched_inputs_are_fixed(
        before: Self,
        op: ExecutionOp,
        after: Self,
        step: Step<Env>,
    )
        requires
            after.handled_from(&before, op, step),
        ensures
            after.watched() == before.watched(),
    {
    }

    /// Whatever the message, a well-formed script stays well formed.
    pub proof fn lemma_script_stays_well_formed(
        before: Self,
        op: ExecutionOp,
        after: Self,
        step: Step<Env>,
    )
        requires
            before.script().well_formed(),
            after.handled_from(&before, op, step),
        ensures
            after.script().well_formed(),
    {
        assert forall|r: int| 0 <= r < after.script().rules@.len() implies (
        #[trigger] after.script().rules@[r]).well_formed() by {
            assert(before.script().rules@[r].well_formed());
        }
    }

    /// The script, with the flags of its guards as they now stand.
    pub fn state(&self) -> (script: &Script<CompiledCtx<Env>, Env>)
        ensures
            *script == self.script(),
    {
        &self.state
    }

    /// The last value written to `cell`, if any.
    pub fn cell(&self, cell: u64) -> (found: Option<&DatedData>)
        ensures
            found == (if self.cells().contains_key(cell) {
                Some(&self.cells()[cell])
            } else {
                None
            }),
    {
        self.cells.read(cell)
    }

    /// The number of watched inputs: messages name them by the positions
    /// below this number.
    pub fn watch_count(&self) -> (count: usize)
        ensures
            count == self.watched().len(),
            self.watched() == script_watches(self.script().rules@),
    {
        proof {
            use_type_invariant(self);
        }
        self.watched.len()
    }

    /// Whether a stop request has been processed.
    pub fn is_stopped(&self) -> (stopped: bool)
        ensures
            stopped == self.stopped(),
    {
        self.stopped
    }

    /// Where the watched input at `index` stands in the script.
    pub fn watched_input(&self, index: usize) -> (watched: WatchedInput)
        requires
            index < self.watched().len(),
        ensures
            watched == self.watched()[index as int],
            locates(self.script().rules@, watched),
    {
        proof {
            use_type_invariant(self);
            assert(self.state.rules.len() == self.state.rules@.len());
            lemma_watches_locate(self.state.rules@, index as int);
        }
        self.watched[index]
    }

    /// What to watch for the input at `index`: the input's device, and the
    /// capability and the range of the condition that reads it.
    pub fn watch(&self, index: usize) -> (watch: Watch<'_, Env>)
        requires
            index < self.watched().len(),
        ensures
            ({
                let at = self.watched()[index as int];
                let condition = self.script().rules@[at.rule as int].condition.all@[at.condition as int];
                &&& locates(self.script().rules@, at)
                &&& *watch.device == condition.input@[at.input as int].device
                &&& *watch.capability == condition.capability
                &&& *watch.range == condition.range
            }),
    {
        proof {
            use_type_invariant(self);
            assert(self.state.rules.len() == self.state.rules@.len());
            lemma_watches_locate(self.state.rules@, index as int);
        }
        let at = self.watched[index];
        let condition = &self.state.rules[at.rule].condition.all[at.condition];
        Watch {
            device: &condition.input[at.input].device,
            capability: &condition.capability,
            range: &condition.range,
        }
    }

    /// The task of a script without rules.
    fn idle() -> (task: Self)
        ensures
            task.watched@.len() == 0,
    {
        ExecutionTask {
            state: Script {
                metadata: (),
                requirements: Vec::new(),
                allocations: Vec::new(),
                rules: Vec::new(),
            },
            cells: CellStore::new(),
            watched: Vec::new(),
            stopped: false,
        }
    }

    /// Records a new value of the input at `index`, dated `updated`, then
    /// evaluates the guard of every rule, in order, against the cells.
    ///
    /// A trigger fires where its guard is now true and was false when it
    /// was last evaluated, and in no other case. Each statement of a
    /// trigger that fires is evaluated, in order, and what came of it is
    /// reported. A statement that fails is reported as failed, and the
    /// statements and rules after it are dealt with as if it had not.
    pub fn update(&mut self, index: usize, updated: Timestamp, value: Value) -> (effects: Vec<
        Effect<Env>,
    >)
        requires
            !old(self).stopped(),
            index < old(self).watched().len(),
        ensures
            final(self).updated_from(old(self), index as int, updated, value),
            carries_out(
                effects@,
                fired_statements(old(self).script().rules@, final(self).cells()),
                old(self).script().rules@,
            ),
    {
        proof {
            use_type_invariant(&*self);
        }
        // The parts of a task cannot be changed in place: the task is taken
        // apart, and put together again once its rules have been evaluated.
        let mut task = Self::idle();
        core::mem::swap(self, &mut task);
        let ExecutionTask { mut state, mut cells, watched, stopped } = task;
        let ghost before = state.rules@;
        let cell = watched[index].cell;
        cells.write(cell, DatedData { updated, data: value });
        let effects = evaluate(&mut state.rules, &cells);
        proof {
            lemma_evaluation_keeps_watches(before, state.rules@, cells@);
        }
        *self = ExecutionTask { state, cells, watched, stopped };
        effects
    }

    /// Deals with one message.
    ///
    /// A stop request stops the task. An update is recorded at the time at
    /// which it is dealt with, not the time at which it was sent, and the
    /// rules are evaluated. A task that has stopped drops every message:
    /// nothing is recorded, and no guard and no statement is evaluated.
    pub fn handle(&mut self, op: ExecutionOp) -> (step: Step<Env>)
        requires
            !old(self).stopped() ==> (op matches ExecutionOp::Update { index, .. } ==> index < old(
                self,
            ).watched().len()),
        ensures
            final(self).handled_from(old(self), op, step),
    {
        if self.stopped {
            return Step::Ignored;
        }
        match op {
            ExecutionOp::Stop => {
                proof {
                    use_type_invariant(&*self);
                }
                self.stopped = true;
                Step::Stopped
            },
            ExecutionOp::Update { index, updated: _, value } => {
                let updated = utc_now();
                let effects = self.update(index, updated, value);
                Step::Updated { updated, effects }
            },
        }
    }
}

impl ExecutionOp {
    /// The message that tells a task of a new value of the input at
    /// `index`, stamped with the current time.
    pub fn update(index: usize, value: Value) -> (op: ExecutionOp)
        ensures
            op matches ExecutionOp::Update { index: i, value: v, .. } && i == index && v == value,
    {
        ExecutionOp::Update { index, updated: utc_now(), value }
    }
}

} // verus!
