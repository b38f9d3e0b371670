use pyqir::emit::{plan, try_plan, EmitErrorKind, Plan, Step};
use pyqir::model::{
    Call, CallArg, ClassicalRegister, If, Instruction, Measured, QuantumRegister, Rotated,
    SemanticModel, Single,
};

fn x(q: &str) -> Instruction {
    Instruction::X(Single::new(q.to_string()))
}

fn y(q: &str) -> Instruction {
    Instruction::Y(Single::new(q.to_string()))
}

fn h(q: &str) -> Instruction {
    Instruction::H(Single::new(q.to_string()))
}

fn m(q: &str, r: &str) -> Instruction {
    Instruction::M(Measured::new(q.to_string(), r.to_string()))
}

fn if_(cond: &str, then_insts: Vec<Instruction>, else_insts: Vec<Instruction>) -> Instruction {
    Instruction::If(If {
        condition: cond.to_string(),
        then_insts,
        else_insts,
    })
}

fn model(name: &str, results: u64, instructions: Vec<Instruction>) -> SemanticModel {
    SemanticModel {
        name: name.to_string(),
        registers: vec![ClassicalRegister::new("r".to_string(), results)],
        qubits: vec![QuantumRegister::new("q".to_string(), 0)],
        instructions,
        static_alloc: true,
    }
}

fn steps(p: &Plan) -> Vec<String> {
    p.steps.iter().map(|s| format!("{:?}", s)).collect()
}

fn blocks(p: &Plan) -> Vec<String> {
    p.blocks.clone()
}

const HEAD: [&str; 3] = [
    "PositionAt { block: 0 }",
    "StaticQubit { value: 0, id: 0, name: \"q0\" }",
    "Call { callee: M, args: [Value(0)], value: Some(1), name: \"r0\" }",
];

fn expect(p: &Plan, tail: &[&str]) {
    let mut want: Vec<String> = HEAD.iter().map(|s| s.to_string()).collect();
    want.extend(tail.iter().map(|s| s.to_string()));
    assert_eq!(steps(p), want);
    assert_eq!(p.entry_point, "QuantumApplication__Run");
    assert_eq!(p.required_qubits, Some("1".to_string()));
}

const COMPARE_R0: [&str; 2] = [
    "Call { callee: ResultGetOne, args: [], value: Some(2), name: \"one\" }",
    "Call { callee: ResultEqual, args: [Value(1), Value(2)], value: Some(3), name: \"equal\" }",
];

#[test]
fn test_if_then() {
    let p = try_plan(&model("test_if_then", 1, vec![m("q0", "r0"), if_("r0", vec![x("q0")], vec![])])).unwrap();
    let mut tail: Vec<&str> = COMPARE_R0.to_vec();
    tail.extend([
        "CondBr { cond: 3, then_block: 1, else_block: 2 }",
        "PositionAt { block: 1 }",
        "Call { callee: X, args: [Value(0)], value: None, name: \"\" }",
        "Br { block: 3 }",
        "PositionAt { block: 2 }",
        "Br { block: 3 }",
        "PositionAt { block: 3 }",
        "Ret",
    ]);
    expect(&p, &tail);
    assert_eq!(blocks(&p), vec!["entry", "then", "else", "continue"]);
}

#[test]
fn test_if_else() {
    let p = try_plan(&model("test_if_else", 1, vec![m("q0", "r0"), if_("r0", vec![], vec![x("q0")])])).unwrap();
    let mut tail: Vec<&str> = COMPARE_R0.to_vec();
    tail.extend([
        "CondBr { cond: 3, then_block: 1, else_block: 2 }",
        "PositionAt { block: 1 }",
        "Br { block: 3 }",
        "PositionAt { block: 2 }",
        "Call { callee: X, args: [Value(0)], value: None, name: \"\" }",
        "Br { block: 3 }",
        "PositionAt { block: 3 }",
        "Ret",
    ]);
    expect(&p, &tail);
    assert_eq!(blocks(&p), vec!["entry", "then", "else", "continue"]);
}

#[test]
fn test_if_then_continue() {
    let p = try_plan(&model(
        "test_if_then_continue",
        1,
        vec![m("q0", "r0"), if_("r0", vec![x("q0")], vec![]), h("q0")],
    ))
    .unwrap();
    let mut tail: Vec<&str> = COMPARE_R0.to_vec();
    tail.extend([
        "CondBr { cond: 3, then_block: 1, else_block: 2 }",
        "PositionAt { block: 1 }",
        "Call { callee: X, args: [Value(0)], value: None, name: \"\" }",
        "Br { block: 3 }",
        "PositionAt { block: 2 }",
        "Br { block: 3 }",
        "PositionAt { block: 3 }",
        "Call { callee: H, args: [Value(0)], value: None, name: \"\" }",
        "Ret",
    ]);
    expect(&p, &tail);
}

#[test]
fn test_if_else_continue() {
    let p = try_plan(&model(
        "test_if_else_continue",
        1,
        vec![m("q0", "r0"), if_("r0", vec![], vec![x("q0")]), h("q0")],
    ))
    .unwrap();
    let mut tail: Vec<&str> = COMPARE_R0.to_vec();
    tail.extend([
        "CondBr { cond: 3, then_block: 1, else_block: 2 }",
        "PositionAt { block: 1 }",
        "Br { block: 3 }",
        "PositionAt { block: 2 }",
        "Call { callee: X, args: [Value(0)], value: None, name: \"\" }",
        "Br { block: 3 }",
        "PositionAt { block: 3 }",
        "Call { callee: H, args: [Value(0)], value: None, name: \"\" }",
        "Ret",
    ]);
    expect(&p, &tail);
}

#[test]
fn test_if_then_else_continue() {
    let p = try_plan(&model(
        "test_if_then_else_continue",
        1,
        vec![m("q0", "r0"), if_("r0", vec![x("q0")], vec![y("q0")]), h("q0")],
    ))
    .unwrap();
    let mut tail: Vec<&str> = COMPARE_R0.to_vec();
    tail.extend([
        "CondBr { cond: 3, then_block: 1, else_block: 2 }",
        "PositionAt { block: 1 }",
        "Call { callee: X, args: [Value(0)], value: None, name: \"\" }",
        "Br { block: 3 }",
        "PositionAt { block: 2 }",
        "Call { callee: Y, args: [Value(0)], value: None, name: \"\" }",
        "Br { block: 3 }",
        "PositionAt { block: 3 }",
        "Call { callee: H, args: [Value(0)], value: None, name: \"\" }",
        "Ret",
    ]);
    expect(&p, &tail);
}

const TWO_MEASUREMENTS: [&str; 3] = [
    "Call { callee: M, args: [Value(0)], value: Some(2), name: \"r1\" }",
    "Call { callee: ResultGetOne, args: [], value: Some(3), name: \"one\" }",
    "Call { callee: ResultEqual, args: [Value(1), Value(3)], value: Some(4), name: \"equal\" }",
];

const INNER_COMPARE: [&str; 2] = [
    "Call { callee: ResultGetOne, args: [], value: Some(5), name: \"one\" }",
    "Call { callee: ResultEqual, args: [Value(2), Value(5)], value: Some(6), name: \"equal\" }",
];

#[test]
fn test_if_then_then() {
    let p = try_plan(&model(
        "test_if_then_then",
        2,
        vec![
            m("q0", "r0"),
            m("q0", "r1"),
            if_("r0", vec![if_("r1", vec![x("q0")], vec![])], vec![]),
        ],
    ))
    .unwrap();
    let mut tail: Vec<&str> = TWO_MEASUREMENTS.to_vec();
    tail.extend(["CondBr { cond: 4, then_block: 1, else_block: 2 }", "PositionAt { block: 1 }"]);
    tail.extend(INNER_COMPARE);
    tail.extend([
        "CondBr { cond: 6, then_block: 4, else_block: 5 }",
        "PositionAt { block: 4 }",
        "Call { callee: X, args: [Value(0)], value: None, name: \"\" }",
        "Br { block: 6 }",
        "PositionAt { block: 5 }",
        "Br { block: 6 }",
        "PositionAt { block: 6 }",
        "Br { block: 3 }",
        "PositionAt { block: 2 }",
        "Br { block: 3 }",
        "PositionAt { block: 3 }",
        "Ret",
    ]);
    expect(&p, &tail);
    assert_eq!(
        blocks(&p),
        vec!["entry", "then", "else", "continue", "then", "else", "continue"]
    );
}

#[test]
fn test_if_else_else() {
    let p = try_plan(&model(
        "test_if_else_else",
        2,
        vec![
            m("q0", "r0"),
            m("q0", "r1"),
            if_("r0", vec![], vec![if_("r1", vec![], vec![x("q0")])]),
        ],
    ))
    .unwrap();
    let mut tail: Vec<&str> = TWO_MEASUREMENTS.to_vec();
    tail.extend([
        "CondBr { cond: 4, then_block: 1, else_block: 2 }",
        "PositionAt { block: 1 }",
        "Br { block: 3 }",
        "PositionAt { block: 2 }",
    ]);
    tail.extend(INNER_COMPARE);
    tail.extend([
        "CondBr { cond: 6, then_block: 4, else_block: 5 }",
        "PositionAt { block: 4 }",
        "Br { block: 6 }",
        "PositionAt { block: 5 }",
        "Call { callee: X, args: [Value(0)], value: None, name: \"\" }",
        "Br { block: 6 }",
        "PositionAt { block: 6 }",
        "Br { block: 3 }",
        "PositionAt { block: 3 }",
        "Ret",
    ]);
    expect(&p, &tail);
}

#[test]
fn test_if_then_else() {
    let p = try_plan(&model(
        "test_if_then_else",
        2,
        vec![
            m("q0", "r0"),
            m("q0", "r1"),
            if_("r0", vec![if_("r1", vec![], vec![x("q0")])], vec![]),
        ],
    ))
    .unwrap();
    let mut tail: Vec<&str> = TWO_MEASUREMENTS.to_vec();
    tail.extend(["CondBr { cond: 4, then_block: 1, else_block: 2 }", "PositionAt { block: 1 }"]);
    tail.extend(INNER_COMPARE);
    tail.extend([
        "CondBr { cond: 6, then_block: 4, else_block: 5 }",
        "PositionAt { block: 4 }",
        "Br { block: 6 }",
        "PositionAt { block: 5 }",
        "Call { callee: X, args: [Value(0)], value: None, name: \"\" }",
        "Br { block: 6 }",
        "PositionAt { block: 6 }",
        "Br { block: 3 }",
        "PositionAt { block: 2 }",
        "Br { block: 3 }",
        "PositionAt { block: 3 }",
        "Ret",
    ]);
    expect(&p, &tail);
}

#[test]
fn test_if_else_then() {
    let p = try_plan(&model(
        "test_if_else_then",
        2,
        vec![
            m("q0", "r0"),
            m("q0", "r1"),
            if_("r0", vec![], vec![if_("r1", vec![x("q0")], vec![])]),
        ],
    ))
    .unwrap();
    let mut tail: Vec<&str> = TWO_MEASUREMENTS.to_vec();
    tail.extend([
        "CondBr { cond: 4, then_block: 1, else_block: 2 }",
        "PositionAt { block: 1 }",
        "Br { block: 3 }",
        "PositionAt { block: 2 }",
    ]);
    tail.extend(INNER_COMPARE);
    tail.extend([
        "CondBr { cond: 6, then_block: 4, else_block: 5 }",
        "PositionAt { block: 4 }",
        "Call { callee: X, args: [Value(0)], value: None, name: \"\" }",
        "Br { block: 6 }",
        "PositionAt { block: 5 }",
        "Br { block: 6 }",
        "PositionAt { block: 6 }",
        "Br { block: 3 }",
        "PositionAt { block: 3 }",
        "Ret",
    ]);
    expect(&p, &tail);
}

#[test]
fn test_results_default_to_zero_if_not_measured() {
    let p = try_plan(&model(
        "test_results_default_to_zero_if_not_measured",
        1,
        vec![if_("r0", vec![x("q0")], vec![h("q0")])],
    ))
    .unwrap();
    assert_eq!(
        steps(&p),
        vec![
            "PositionAt { block: 0 }",
            "StaticQubit { value: 0, id: 0, name: \"q0\" }",
            "Call { callee: ResultGetZero, args: [], value: Some(1), name: \"zero\" }",
            "Call { callee: ResultGetOne, args: [], value: Some(2), name: \"one\" }",
            "Call { callee: ResultEqual, args: [Value(1), Value(2)], value: Some(3), name: \"equal\" }",
            "CondBr { cond: 3, then_block: 1, else_block: 2 }",
            "PositionAt { block: 1 }",
            "Call { callee: X, args: [Value(0)], value: None, name: \"\" }",
            "Br { block: 3 }",
            "PositionAt { block: 2 }",
            "Call { callee: H, args: [Value(0)], value: None, name: \"\" }",
            "Br { block: 3 }",
            "PositionAt { block: 3 }",
            "Ret",
        ]
    );
}

#[test]
fn entrypoint_function_has_correct_signature_and_default_attribute() {
    let empty = SemanticModel {
        name: "test".to_string(),
        registers: vec![],
        qubits: vec![],
        instructions: vec![],
        static_alloc: false,
    };
    let p = try_plan(&empty).unwrap();
    assert_eq!(p.entry_point, "QuantumApplication__Run");
    assert_eq!(p.required_qubits, None);
    assert_eq!(blocks(&p), vec!["entry"]);
    assert_eq!(steps(&p), vec!["PositionAt { block: 0 }", "Ret"]);
}

#[test]
fn dynamic_qubits_are_allocated_and_released() {
    let mdl = SemanticModel {
        name: "dynamic".to_string(),
        registers: vec![],
        qubits: vec![
            QuantumRegister::new("q".to_string(), 0),
            QuantumRegister::new("q".to_string(), 1),
        ],
        instructions: vec![Instruction::Cx(pyqir::model::Controlled::new(
            "q0".to_string(),
            "q1".to_string(),
        ))],
        static_alloc: false,
    };
    let p = try_plan(&mdl).unwrap();
    assert_eq!(p.required_qubits, None);
    assert_eq!(
        steps(&p),
        vec![
            "PositionAt { block: 0 }",
            "Call { callee: QubitAllocate, args: [], value: Some(0), name: \"q0\" }",
            "Call { callee: QubitAllocate, args: [], value: Some(1), name: \"q1\" }",
            "Call { callee: Cnot, args: [Value(0), Value(1)], value: None, name: \"\" }",
            "Call { callee: QubitRelease, args: [Value(0)], value: None, name: \"\" }",
            "Call { callee: QubitRelease, args: [Value(1)], value: None, name: \"\" }",
            "Ret",
        ]
    );
}

#[test]
fn a_qubit_named_twice_is_released_once() {
    let mdl = SemanticModel {
        name: "twice".to_string(),
        registers: vec![],
        qubits: vec![
            QuantumRegister::new("q".to_string(), 0),
            QuantumRegister::new("q".to_string(), 0),
        ],
        instructions: vec![x("q0")],
        static_alloc: false,
    };
    let p = try_plan(&mdl).unwrap();
    assert_eq!(
        steps(&p),
        vec![
            "PositionAt { block: 0 }",
            "Call { callee: QubitAllocate, args: [], value: Some(0), name: \"q0\" }",
            "Call { callee: QubitAllocate, args: [], value: Some(1), name: \"q0\" }",
            "Call { callee: X, args: [Value(1)], value: None, name: \"\" }",
            "Call { callee: QubitRelease, args: [Value(1)], value: None, name: \"\" }",
            "Ret",
        ]
    );
}

#[test]
fn rotations_pass_the_angle_bits() {
    let theta = 0.5f64.to_bits();
    let p = try_plan(&model(
        "rotations",
        0,
        vec![Instruction::Rx(Rotated::new(theta, "q0".to_string()))],
    ))
    .unwrap();
    assert_eq!(
        steps(&p)[2],
        format!("Call {{ callee: Rx, args: [Double({}), Value(0)], value: None, name: \"\" }}", theta)
    );
}

fn call(name: &str, args: &[(&str, &str)]) -> Instruction {
    Instruction::Call(Call {
        name: name.to_string(),
        args: args
            .iter()
            .map(|(t, v)| CallArg {
                arg_type: t.to_string(),
                value: v.to_string(),
            })
            .collect(),
    })
}

#[test]
fn external_calls_are_declared_once() {
    let p = try_plan(&model(
        "calls",
        1,
        vec![
            m("q0", "r0"),
            call(
                "record",
                &[("Qubit", "q0"), ("Result", "r0"), ("f64", "1.5"), ("i64", "-42"), ("i8", "true")],
            ),
            call(
                "record",
                &[("Qubit", "q0"), ("Result", "r0"), ("f64", "2"), ("i64", "+7"), ("i8", "false")],
            ),
        ],
    ))
    .unwrap();
    assert_eq!(
        steps(&p)[3..].to_vec(),
        vec![
            "DeclareExtern { name: \"record\", params: [Qubit, Result, Double, Int64, Bool] }",
            "CallExtern { name: \"record\", args: [Value(0), Value(1), DoubleText(\"1.5\"), Int(-42), Bool(true)] }",
            "CallExtern { name: \"record\", args: [Value(0), Value(1), DoubleText(\"2\"), Int(7), Bool(false)] }",
            "Ret",
        ]
    );
}

fn error_of(instructions: Vec<Instruction>) -> (EmitErrorKind, String) {
    let e = try_plan(&model("errors", 1, instructions)).unwrap_err();
    (e.kind, e.name)
}

#[test]
fn unknown_qubit_is_an_error() {
    assert_eq!(error_of(vec![x("q7")]), (EmitErrorKind::QubitNotFound, "q7".to_string()));
}

#[test]
fn unknown_condition_is_an_error() {
    assert_eq!(
        error_of(vec![if_("r9", vec![], vec![])]),
        (EmitErrorKind::ResultNotFound, "r9".to_string())
    );
}

#[test]
fn unknown_result_argument_is_an_error() {
    assert_eq!(
        error_of(vec![call("f", &[("Result", "r9")])]),
        (EmitErrorKind::RegisterNotFound, "r9".to_string())
    );
}

#[test]
fn unmeasured_result_argument_is_an_error() {
    assert_eq!(
        error_of(vec![call("f", &[("Result", "r0")])]),
        (EmitErrorKind::RegisterNotMeasured, "r0".to_string())
    );
}

#[test]
fn unknown_parameter_type_is_an_error() {
    assert_eq!(
        error_of(vec![call("f", &[("i64", "1"), ("i32", "1")])]),
        (EmitErrorKind::UnknownParameterType, "i32".to_string())
    );
}

#[test]
fn invalid_integer_is_an_error() {
    assert_eq!(
        error_of(vec![call("f", &[("i64", "9223372036854775808")])]),
        (EmitErrorKind::InvalidInteger, "9223372036854775808".to_string())
    );
    assert_eq!(
        error_of(vec![call("f", &[("i64", "12a")])]),
        (EmitErrorKind::InvalidInteger, "12a".to_string())
    );
}

#[test]
fn smallest_integer_is_accepted() {
    let p = try_plan(&model("min", 1, vec![call("f", &[("i64", "-9223372036854775808")])])).unwrap();
    assert_eq!(steps(&p)[3], "CallExtern { name: \"f\", args: [Int(-9223372036854775808)] }");
}

#[test]
fn invalid_bool_is_an_error() {
    assert_eq!(
        error_of(vec![call("f", &[("i8", "True")])]),
        (EmitErrorKind::InvalidBool, "True".to_string())
    );
}

#[test]
fn machine_dump_is_unsupported() {
    assert_eq!(error_of(vec![Instruction::DumpMachine]), (EmitErrorKind::Unsupported, String::new()));
}

#[test]
fn every_block_is_entered_once_and_ends_with_its_only_terminator() {
    let p = try_plan(&model(
        "nested",
        2,
        vec![
            m("q0", "r0"),
            if_("r0", vec![if_("r1", vec![x("q0")], vec![y("q0")])], vec![h("q0")]),
            h("q0"),
        ],
    ))
    .unwrap();
    let is_terminator = |s: &Step| matches!(s, Step::CondBr { .. } | Step::Br { .. } | Step::Ret);
    let mut entered = vec![0; p.blocks.len()];
    for (i, s) in p.steps.iter().enumerate() {
        if let Step::PositionAt { block } = s {
            entered[*block as usize] += 1;
            assert!(i == 0 || is_terminator(&p.steps[i - 1]));
        }
        if is_terminator(s) && i + 1 < p.steps.len() {
            assert!(matches!(p.steps[i + 1], Step::PositionAt { .. }));
        }
        match s {
            Step::CondBr { then_block, else_block, .. } => {
                assert!((*then_block as usize) < p.blocks.len());
                assert!((*else_block as usize) < p.blocks.len());
            }
            Step::Br { block } => assert!((*block as usize) < p.blocks.len()),
            _ => {}
        }
    }
    assert!(entered.iter().all(|&n| n == 1));
    assert!(matches!(p.steps[0], Step::PositionAt { block: 0 }));
    assert!(matches!(p.steps.last(), Some(Step::Ret)));
    assert_eq!(p.blocks.len(), 7);
}

#[test]
fn planning_a_model_that_generates_gives_the_checked_plan() {
    let mdl = model("m", 1, vec![h("q0"), m("q0", "r0")]);
    let checked = try_plan(&mdl).unwrap();
    let p = plan(&mdl);
    assert_eq!(steps(&p), steps(&checked));
    assert_eq!(blocks(&p), blocks(&checked));
    assert_eq!(p.entry_point, checked.entry_point);
}

#[test]
fn a_gate_adds_one_call_and_nothing_else() {
    let before = try_plan(&model("m", 1, vec![x("q0")])).unwrap();
    let after = try_plan(&model("m", 1, vec![x("q0"), y("q0")])).unwrap();
    let (a, b) = (steps(&before), steps(&after));
    assert_eq!(b.len(), a.len() + 1);
    assert_eq!(blocks(&before), blocks(&after));
}
