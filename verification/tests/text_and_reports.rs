use pyqir::dispatch::{callback_for, callbacks, report, report_all, CallbackArg, NamedInstruction};
use pyqir::model::{Controlled, Instruction, Measured, Rotated, SemanticModel, Single};
use pyqir::text::{concat3, push_decimal, to_decimal, with_decimal_suffix};

#[test]
fn decimals_are_written_without_leading_zeros() {
    assert_eq!(to_decimal(0), "0");
    assert_eq!(to_decimal(7), "7");
    assert_eq!(to_decimal(10), "10");
    assert_eq!(to_decimal(1234567890), "1234567890");
    assert_eq!(to_decimal(u64::MAX), u64::MAX.to_string());
    let mut s = String::from("x");
    push_decimal(&mut s, 42);
    assert_eq!(s, "x42");
    assert_eq!(with_decimal_suffix("qubit", 3), "qubit3");
    assert_eq!(concat3("a", "bc", ""), "abc");
}

fn named(name: &str, args: &[&str]) -> NamedInstruction {
    NamedInstruction {
        name: name.to_string(),
        args: args.iter().map(|a| a.to_string()).collect(),
    }
}

#[test]
fn one_argument_measurements_get_the_next_register() {
    let mut register = 0u64;
    assert_eq!(report(named("M", &["q0"]), &mut register), ("m".to_string(), vec!["q0".to_string(), "0".to_string()]));
    assert_eq!(register, 1);
    assert_eq!(report(named("m", &["q1"]), &mut register), ("m".to_string(), vec!["q1".to_string(), "1".to_string()]));
    assert_eq!(register, 2);
}

#[test]
fn two_argument_measurements_become_mz() {
    let mut register = 5u64;
    assert_eq!(
        report(named("m", &["q0", "r3", "extra"]), &mut register),
        ("mz".to_string(), vec!["q0".to_string(), "r3".to_string()])
    );
    assert_eq!(register, 5);
}

#[test]
fn other_instructions_are_reported_as_they_are() {
    let mut register = 0u64;
    assert_eq!(
        report(named("Cx", &["q0", "q1"]), &mut register),
        ("Cx".to_string(), vec!["q0".to_string(), "q1".to_string()])
    );
    assert_eq!(register, 0);
}

#[test]
fn registers_are_numbered_in_measurement_order() {
    let out = report_all(vec![
        named("h", &["q0"]),
        named("m", &["q0"]),
        named("m", &["q1", "r9"]),
        named("M", &["q1"]),
    ]);
    assert_eq!(
        out,
        vec![
            ("h".to_string(), vec!["q0".to_string()]),
            ("m".to_string(), vec!["q0".to_string(), "0".to_string()]),
            ("mz".to_string(), vec!["q1".to_string(), "r9".to_string()]),
            ("m".to_string(), vec!["q1".to_string(), "1".to_string()]),
        ]
    );
}

fn texts(args: &[CallbackArg]) -> Vec<String> {
    args.iter()
        .map(|a| match a {
            CallbackArg::Text(t) => t.clone(),
            CallbackArg::Angle(bits) => format!("angle {}", f64::from_bits(*bits)),
        })
        .collect()
}

#[test]
fn each_gate_calls_the_method_of_its_name() {
    let cb = callback_for(&Instruction::Cx(Controlled::new("q0".to_string(), "q1".to_string())));
    assert_eq!(cb.method, "cx");
    assert_eq!(texts(&cb.args), vec!["q0", "q1"]);
    let cb = callback_for(&Instruction::M(Measured::new("q0".to_string(), "r0".to_string())));
    assert_eq!(cb.method, "m");
    assert_eq!(texts(&cb.args), vec!["q0", "r0"]);
    let cb = callback_for(&Instruction::Ry(Rotated::new(1.5f64.to_bits(), "q2".to_string())));
    assert_eq!(cb.method, "ry");
    assert_eq!(texts(&cb.args), vec!["angle 1.5", "q2"]);
    let cb = callback_for(&Instruction::SAdj(Single::new("q3".to_string())));
    assert_eq!(cb.method, "s_adj");
    assert_eq!(texts(&cb.args), vec!["q3"]);
}

#[test]
fn a_run_calls_back_once_per_instruction() {
    let model = SemanticModel {
        name: "run".to_string(),
        registers: vec![],
        qubits: vec![],
        instructions: vec![
            Instruction::H(Single::new("0".to_string())),
            Instruction::TAdj(Single::new("1".to_string())),
            Instruction::Z(Single::new("0".to_string())),
        ],
        static_alloc: true,
    };
    let cbs = callbacks(&model);
    let methods: Vec<String> = cbs.iter().map(|c| c.method.clone()).collect();
    assert_eq!(methods, vec!["h", "t_adj", "z"]);
}
