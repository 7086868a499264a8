use rule_engine::{
    CellStore, CompiledConditionState, CompiledCtx, CompiledInput, Condition, Conjunction,
    DatedData, DevEnv, IsMet, Range, Timestamp, Trigger, Value,
};

struct Home;

impl DevEnv for Home {
    type Device = String;
    type DeviceKind = String;
    type InputCapability = String;
    type OutputCapability = String;
}

fn input(device: &str, cell: u64) -> CompiledInput<Home> {
    CompiledInput { device: device.to_string(), cell }
}

fn condition(inputs: Vec<CompiledInput<Home>>, range: Range) -> Condition<CompiledCtx<Home>, Home> {
    Condition {
        input: inputs,
        capability: "temperature".to_string(),
        range,
        state: CompiledConditionState { is_met: false },
    }
}

fn conjunction(all: Vec<Condition<CompiledCtx<Home>, Home>>) -> Conjunction<CompiledCtx<Home>, Home> {
    Conjunction { all, state: CompiledConditionState { is_met: false } }
}

fn reading(value: Value) -> DatedData {
    DatedData { updated: Timestamp { secs: 1, nanos: 2 }, data: value }
}

fn store(cells: Vec<(u64, Value)>) -> CellStore {
    let mut store = CellStore::new();
    for (cell, value) in cells {
        store.write(cell, reading(value));
    }
    store
}

fn single(range: Range, value: Value) -> bool {
    let mut c = condition(vec![input("sensor", 7)], range);
    let met = c.is_met(&store(vec![(7, value)]));
    assert_eq!(c.state.is_met, met.current);
    met.current
}

#[test]
fn a_store_remembers_the_last_value_of_each_cell() {
    let mut cells = CellStore::new();
    assert!(cells.read(3).is_none());
    cells.write(3, reading(Value::Num(1)));
    cells.write(4, reading(Value::Bool(true)));
    assert_eq!(cells.read(3), Some(&reading(Value::Num(1))));
    assert_eq!(cells.read(4), Some(&reading(Value::Bool(true))));
    cells.write(3, DatedData { updated: Timestamp { secs: 9, nanos: 0 }, data: Value::Num(2) });
    assert_eq!(
        cells.read(3),
        Some(&DatedData { updated: Timestamp { secs: 9, nanos: 0 }, data: Value::Num(2) })
    );
    assert_eq!(cells.read(4), Some(&reading(Value::Bool(true))));
    assert!(cells.read(5).is_none());
}

#[test]
fn a_single_cell_condition_follows_the_matching_rule() {
    assert!(single(Range::Any, Value::Num(0)));
    assert!(single(Range::Any, Value::Vec(vec![])));
    assert!(single(Range::EqBool(true), Value::Bool(true)));
    assert!(!single(Range::EqBool(true), Value::Bool(false)));
    assert!(single(Range::EqString("on".to_string()), Value::String("on".to_string())));
    assert!(!single(Range::EqString("on".to_string()), Value::String("off".to_string())));
    assert!(single(Range::Leq(20), Value::Num(20)));
    assert!(!single(Range::Leq(20), Value::Num(21)));
    assert!(single(Range::Geq(20), Value::Num(20)));
    assert!(!single(Range::Geq(20), Value::Num(19)));
    assert!(single(Range::BetweenEq { min: 1, max: 2 }, Value::Num(1)));
    assert!(single(Range::BetweenEq { min: 1, max: 2 }, Value::Num(2)));
    assert!(!single(Range::BetweenEq { min: 1, max: 2 }, Value::Num(3)));
    assert!(single(Range::OutOfStrict { min: 1, max: 2 }, Value::Num(0)));
    assert!(single(Range::OutOfStrict { min: 1, max: 2 }, Value::Num(3)));
    assert!(!single(Range::OutOfStrict { min: 1, max: 2 }, Value::Num(1)));
    assert!(!single(Range::OutOfStrict { min: 1, max: 2 }, Value::Num(2)));
}

#[test]
fn a_single_cell_condition_rejects_a_mismatch_of_kinds() {
    assert!(!single(Range::EqBool(true), Value::Num(1)));
    assert!(!single(Range::EqBool(true), Value::String("true".to_string())));
    assert!(!single(Range::EqString("1".to_string()), Value::Num(1)));
    assert!(!single(Range::Leq(5), Value::Bool(false)));
    assert!(!single(Range::Geq(5), Value::String("9".to_string())));
    assert!(!single(Range::Leq(5), Value::Vec(vec![Value::Num(1)])));
    assert!(!single(Range::Geq(0), Value::Json("1".to_string())));
    assert!(!single(
        Range::BetweenEq { min: 0, max: 9 },
        Value::Blob { data: vec![5], mime_type: "n".to_string() }
    ));
}

#[test]
fn a_cell_without_a_value_satisfies_no_condition() {
    let ranges = vec![
        Range::Any,
        Range::Leq(i64::MAX),
        Range::Geq(i64::MIN),
        Range::BetweenEq { min: i64::MIN, max: i64::MAX },
        Range::OutOfStrict { min: 0, max: 0 },
        Range::EqString(String::new()),
        Range::EqBool(false),
    ];
    let cells = store(vec![(8, Value::Num(0))]);
    for range in ranges {
        let mut c = condition(vec![input("sensor", 7)], range);
        c.state.is_met = true;
        let met = c.is_met(&cells);
        assert_eq!(met, IsMet { previous: true, current: false });
        assert!(!c.state.is_met);
    }
}

#[test]
fn a_condition_without_inputs_is_not_met() {
    let mut c = condition(vec![], Range::Any);
    let met = c.is_met(&store(vec![(1, Value::Num(1))]));
    assert_eq!(met, IsMet { previous: false, current: false });
}

#[test]
fn a_condition_is_met_when_any_of_its_inputs_is_in_range() {
    let inputs = || vec![input("kitchen", 1), input("hall", 2), input("attic", 3)];
    let mut c = condition(inputs(), Range::Geq(30));
    assert!(!c.is_met(&store(vec![(1, Value::Num(10)), (2, Value::Num(29))])).current);
    assert!(c.is_met(&store(vec![(1, Value::Num(10)), (3, Value::Num(30))])).current);
    assert!(c.is_met(&store(vec![(1, Value::Num(31))])).current);
    assert!(c.is_met(&store(vec![(2, Value::Num(31)), (3, Value::Bool(true))])).current);
    assert!(!c.is_met(&store(vec![(4, Value::Num(31))])).current);
}

#[test]
fn a_condition_reports_what_it_was_and_what_it_is() {
    let mut c = condition(vec![input("sensor", 1)], Range::EqBool(true));
    let on = store(vec![(1, Value::Bool(true))]);
    let off = store(vec![(1, Value::Bool(false))]);
    assert_eq!(c.is_met(&off), IsMet { previous: false, current: false });
    assert_eq!(c.is_met(&on), IsMet { previous: false, current: true });
    assert_eq!(c.is_met(&on), IsMet { previous: true, current: true });
    assert_eq!(c.is_met(&off), IsMet { previous: true, current: false });
    assert!(!c.state.is_met);
}

#[test]
fn evaluating_a_condition_changes_its_flag_only() {
    let mut c = condition(vec![input("a", 1), input("b", 2)], Range::Leq(4));
    c.is_met(&store(vec![(2, Value::Num(4))]));
    assert!(c.state.is_met);
    assert_eq!(c.input.len(), 2);
    assert_eq!(c.input[0].device, "a");
    assert_eq!(c.input[0].cell, 1);
    assert_eq!(c.input[1].device, "b");
    assert_eq!(c.input[1].cell, 2);
    assert_eq!(c.capability, "temperature");
    assert_eq!(c.range, Range::Leq(4));
}

#[test]
fn a_conjunction_of_two_is_met_when_both_are() {
    let pair = || {
        conjunction(vec![
            condition(vec![input("door", 1)], Range::EqBool(true)),
            condition(vec![input("lamp", 2)], Range::EqString("off".to_string())),
        ])
    };
    let cells = |door: bool, lamp: &str| {
        store(vec![(1, Value::Bool(door)), (2, Value::String(lamp.to_string()))])
    };
    let mut both = pair();
    assert!(both.is_met(&cells(true, "off")).current);
    assert!(both.state.is_met);
    assert!(both.all[0].state.is_met);
    assert!(both.all[1].state.is_met);

    // Flipping either to false, while the other stays true, makes it false.
    assert_eq!(both.is_met(&cells(false, "off")), IsMet { previous: true, current: false });
    assert!(!both.state.is_met);
    assert!(!both.all[0].state.is_met);
    assert!(both.all[1].state.is_met);

    assert_eq!(both.is_met(&cells(true, "on")), IsMet { previous: false, current: false });
    assert!(both.all[0].state.is_met);
    assert!(!both.all[1].state.is_met);

    let mut neither = pair();
    assert!(!neither.is_met(&cells(false, "on")).current);
    assert!(!neither.all[0].state.is_met);
    assert!(!neither.all[1].state.is_met);
}

#[test]
fn a_conjunction_evaluates_every_condition_after_a_false_one() {
    let mut all = conjunction(vec![
        condition(vec![input("a", 1)], Range::Geq(10)),
        condition(vec![input("b", 2)], Range::Geq(10)),
        condition(vec![input("c", 3)], Range::Geq(10)),
    ]);
    // Stale flags, each the opposite of what the cells say.
    all.all[0].state.is_met = true;
    all.all[1].state.is_met = false;
    all.all[2].state.is_met = false;
    all.state.is_met = true;
    let cells = store(vec![(1, Value::Num(0)), (2, Value::Num(10)), (3, Value::Num(11))]);
    let met = all.is_met(&cells);
    assert_eq!(met, IsMet { previous: true, current: false });
    assert!(!all.all[0].state.is_met);
    assert!(all.all[1].state.is_met);
    assert!(all.all[2].state.is_met);
    assert!(!all.state.is_met);
}

#[test]
fn an_empty_conjunction_is_met() {
    let mut none = conjunction(vec![]);
    assert_eq!(none.is_met(&CellStore::new()), IsMet { previous: false, current: true });
    assert_eq!(none.is_met(&CellStore::new()), IsMet { previous: true, current: true });
}

#[test]
fn conditions_that_name_one_cell_see_one_value() {
    let mut both = conjunction(vec![
        condition(vec![input("thermometer", 5)], Range::Geq(20)),
        condition(vec![input("thermometer", 5)], Range::Leq(25)),
    ]);
    let mut cells = CellStore::new();
    assert!(!both.is_met(&cells).current);
    cells.write(5, reading(Value::Num(22)));
    assert!(both.is_met(&cells).current);
    cells.write(5, reading(Value::Num(26)));
    assert!(!both.is_met(&cells).current);
    assert!(both.all[0].state.is_met);
    assert!(!both.all[1].state.is_met);
}

#[test]
fn a_trigger_is_met_as_its_guard_is() {
    let mut trigger: Trigger<CompiledCtx<Home>, Home> = Trigger {
        condition: conjunction(vec![condition(vec![input("a", 1)], Range::Any)]),
        execute: vec![],
    };
    let empty = CellStore::new();
    let full = store(vec![(1, Value::Num(0))]);
    let met = trigger.is_met(&empty);
    assert_eq!(met, IsMet { previous: false, current: false });
    assert!(!met.is_rising());
    let met = trigger.is_met(&full);
    assert_eq!(met, IsMet { previous: false, current: true });
    assert!(met.is_rising());
    let met = trigger.is_met(&full);
    assert_eq!(met, IsMet { previous: true, current: true });
    assert!(!met.is_rising());
    let met = trigger.is_met(&empty);
    assert_eq!(met, IsMet { previous: true, current: false });
    assert!(!met.is_rising());
    assert!(!trigger.condition.state.is_met);
    assert!(!trigger.condition.all[0].state.is_met);
}
