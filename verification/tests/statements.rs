use rule_engine::{
    CompiledConditionState, CompiledCtx, CompiledOutput, Condition, DevEnv, Error, EvalError,
    Expression, InputSet, Range, Statement, Value,
};

struct Home;

impl DevEnv for Home {
    type Device = String;
    type DeviceKind = String;
    type InputCapability = String;
    type OutputCapability = String;
}

type Expr = Expression<CompiledCtx<Home>, Home>;

fn constant(value: Value) -> Expr {
    Expression::Value(value)
}

fn read_input() -> Expr {
    Expression::Input(InputSet {
        condition: Condition {
            input: vec![],
            capability: "temperature".to_string(),
            range: Range::Any,
            state: CompiledConditionState { is_met: false },
        },
        capability: "temperature".to_string(),
    })
}

fn statement(devices: &[&str], arguments: Vec<(&str, Expr)>) -> Statement<CompiledCtx<Home>, Home> {
    Statement {
        destination: devices.iter().map(|d| CompiledOutput { device: d.to_string() }).collect(),
        action: "set-luminosity".to_string(),
        arguments: arguments.into_iter().map(|(name, e)| (name.to_string(), e)).collect(),
    }
}

fn refused() -> Error {
    Error::EvalError(EvalError::InputNotSupported)
}

#[test]
fn a_constant_evaluates_to_itself() {
    let values = vec![
        Value::Num(-4),
        Value::Bool(true),
        Value::String("red".to_string()),
        Value::Json("[]".to_string()),
        Value::Blob { data: vec![9, 8], mime_type: "audio/ogg".to_string() },
        Value::Vec(vec![Value::Num(1), Value::Vec(vec![])]),
    ];
    for value in values {
        assert_eq!(constant(value.clone()).eval(), Ok(value));
    }
}

#[test]
fn a_vector_of_constants_evaluates_to_the_vector_of_their_values() {
    let vector: Expr = Expression::Vec(vec![
        constant(Value::Num(3)),
        constant(Value::String("a".to_string())),
        constant(Value::Num(1)),
        constant(Value::Bool(false)),
    ]);
    assert_eq!(
        vector.eval(),
        Ok(Value::Vec(vec![
            Value::Num(3),
            Value::String("a".to_string()),
            Value::Num(1),
            Value::Bool(false),
        ]))
    );
}

#[test]
fn an_empty_vector_evaluates_to_an_empty_vector() {
    let vector: Expr = Expression::Vec(vec![]);
    assert_eq!(vector.eval(), Ok(Value::Vec(vec![])));
}

#[test]
fn nested_vectors_keep_their_shape() {
    let vector: Expr = Expression::Vec(vec![
        Expression::Vec(vec![constant(Value::Num(1)), constant(Value::Num(2))]),
        Expression::Vec(vec![]),
        constant(Value::Num(3)),
    ]);
    assert_eq!(
        vector.eval(),
        Ok(Value::Vec(vec![
            Value::Vec(vec![Value::Num(1), Value::Num(2)]),
            Value::Vec(vec![]),
            Value::Num(3),
        ]))
    );
}

#[test]
fn reading_an_input_is_refused() {
    assert_eq!(read_input().eval(), Err(refused()));
}

#[test]
fn a_vector_that_reads_an_input_is_refused() {
    let first: Expr = Expression::Vec(vec![read_input(), constant(Value::Num(1))]);
    assert_eq!(first.eval(), Err(refused()));
    let last: Expr = Expression::Vec(vec![constant(Value::Num(1)), read_input()]);
    assert_eq!(last.eval(), Err(refused()));
    let deep: Expr = Expression::Vec(vec![
        constant(Value::Num(1)),
        Expression::Vec(vec![Expression::Vec(vec![read_input()])]),
    ]);
    assert_eq!(deep.eval(), Err(refused()));
}

#[test]
fn arguments_are_evaluated_by_name_in_order() {
    let st = statement(
        &["lamp"],
        vec![
            ("level", constant(Value::Num(80))),
            ("colour", Expression::Vec(vec![constant(Value::Num(255)), constant(Value::Num(0))])),
            ("fade", constant(Value::Bool(true))),
        ],
    );
    assert_eq!(
        st.evaluate_arguments(),
        Ok(vec![
            ("level".to_string(), Value::Num(80)),
            ("colour".to_string(), Value::Vec(vec![Value::Num(255), Value::Num(0)])),
            ("fade".to_string(), Value::Bool(true)),
        ])
    );
}

#[test]
fn a_statement_makes_one_request_of_each_device_in_order() {
    let st = statement(
        &["lamp-1", "lamp-2", "lamp-3"],
        vec![("level", constant(Value::Num(80))), ("fade", constant(Value::Bool(true)))],
    );
    let dispatches = st.eval().ok().expect("every argument is a constant");
    assert_eq!(dispatches.len(), 3);
    let expected = vec![("level".to_string(), Value::Num(80)), ("fade".to_string(), Value::Bool(true))];
    for (k, device) in ["lamp-1", "lamp-2", "lamp-3"].iter().enumerate() {
        assert_eq!(dispatches[k].device, *device);
        assert_eq!(dispatches[k].action, "set-luminosity");
        assert_eq!(dispatches[k].arguments, expected);
    }
}

#[test]
fn a_statement_without_arguments_sends_none() {
    let st = statement(&["bell"], vec![]);
    let dispatches = st.eval().ok().expect("there is nothing to evaluate");
    assert_eq!(dispatches.len(), 1);
    assert_eq!(dispatches[0].device, "bell");
    assert!(dispatches[0].arguments.is_empty());
}

#[test]
fn a_statement_without_devices_makes_no_request() {
    let st = statement(&[], vec![("level", constant(Value::Num(1)))]);
    let dispatches = st.eval().ok().expect("every argument is a constant");
    assert!(dispatches.is_empty());
}

#[test]
fn a_statement_with_an_input_argument_makes_no_request() {
    let st = statement(
        &["lamp-1", "lamp-2"],
        vec![("level", constant(Value::Num(80))), ("colour", read_input())],
    );
    assert_eq!(st.evaluate_arguments(), Err(refused()));
    match st.eval() {
        Ok(_) => panic!("an argument reads an input"),
        Err(e) => assert_eq!(e, refused()),
    }
    // Also where there is no device to send to.
    let nowhere = statement(&[], vec![("colour", read_input())]);
    assert!(nowhere.eval().is_err());
}
