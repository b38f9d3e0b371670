use pyqir::emit::ParamType;
use pyqir::intrinsics::{
    pauli_rotation, Gate, GateEvent, GateRecorder, Intrinsic, PauliRotation, ReturnType, Simulator,
};
use pyqir::model::Instruction;

fn event(gate: Gate, qubit: u64, control: u64) -> GateEvent {
    GateEvent {
        gate,
        qubit,
        control,
        theta: 0,
    }
}

#[test]
fn an_x_on_qubit_zero_is_reported() {
    let mut rec = GateRecorder::new();
    rec.record(event(Gate::X, 0, 0));
    let model = Simulator::get_model(&mut rec);
    assert_eq!(model.name, "QIR");
    assert!(model.static_alloc);
    assert!(model.registers.is_empty());
    assert_eq!(model.instructions.len(), 1);
    match &model.instructions[0] {
        Instruction::X(s) => assert_eq!(s.qubit, "0"),
        other => panic!("unexpected {:?}", other),
    }
    assert_eq!(model.qubits.len(), 1);
    assert_eq!(model.qubits[0].name, "qubit");
    assert_eq!(model.qubits[0].index, 0);
}

#[test]
fn qubits_are_listed_once_in_order_of_first_use() {
    let mut rec = GateRecorder::new();
    rec.record(event(Gate::H, 5, 0));
    rec.record(event(Gate::Cx, 2, 5));
    rec.record(event(Gate::DumpMachine, 0, 0));
    rec.record(event(Gate::Rz, 2, 0));
    rec.record(event(Gate::Cz, 9, 2));
    let model = Simulator::get_model(&mut rec);
    let indices: Vec<u64> = model.qubits.iter().map(|q| q.index).collect();
    assert_eq!(indices, vec![5, 2, 9]);
    assert_eq!(model.instructions.len(), 5);
    match &model.instructions[1] {
        Instruction::Cx(c) => {
            assert_eq!(c.control, "5");
            assert_eq!(c.target, "2");
        }
        other => panic!("unexpected {:?}", other),
    }
    assert_eq!(model.instructions[2], Instruction::DumpMachine);
}

#[test]
fn rotations_keep_their_angle() {
    let mut rec = GateRecorder::new();
    rec.record(GateEvent {
        gate: Gate::Rx,
        qubit: 1,
        control: 0,
        theta: 0.25f64.to_bits(),
    });
    let model = Simulator::get_model(&mut rec);
    match &model.instructions[0] {
        Instruction::Rx(r) => {
            assert_eq!(f64::from_bits(r.theta), 0.25);
            assert_eq!(r.qubit, "1");
        }
        other => panic!("unexpected {:?}", other),
    }
}

#[test]
fn pauli_axes_are_numbered_by_the_runtime() {
    assert_eq!(pauli_rotation(0), PauliRotation::Identity);
    assert_eq!(pauli_rotation(1), PauliRotation::Rx);
    assert_eq!(pauli_rotation(2), PauliRotation::Rz);
    assert_eq!(pauli_rotation(3), PauliRotation::Ry);
}

#[test]
fn intrinsics_have_their_qir_symbols() {
    assert_eq!(Intrinsic::Cnot.symbol(), "__quantum__qis__cnot__body");
    assert_eq!(Intrinsic::SAdj.symbol(), "__quantum__qis__s__adj");
    assert_eq!(Intrinsic::ResultGetOne.symbol(), "__quantum__rt__result_get_one");
    assert_eq!(Intrinsic::QubitRelease.symbol(), "__quantum__rt__qubit_release");
    assert_eq!(Intrinsic::M.symbol(), "__quantum__qis__m__body");
}

#[test]
fn the_z_body_records_a_y_gate() {
    assert_eq!(Intrinsic::Z.gate(), Some(Gate::Y));
    assert_eq!(Intrinsic::X.gate(), Some(Gate::X));
    assert_eq!(Intrinsic::ResultEqual.gate(), None);
}

#[test]
fn intrinsic_signatures_match_their_declarations() {
    assert_eq!(Intrinsic::Cnot.signature(), (ReturnType::Void, vec![ParamType::Qubit, ParamType::Qubit]));
    assert_eq!(Intrinsic::M.signature(), (ReturnType::Result, vec![ParamType::Qubit]));
    assert_eq!(Intrinsic::Rz.signature(), (ReturnType::Void, vec![ParamType::Double, ParamType::Qubit]));
    assert_eq!(Intrinsic::ResultGetOne.signature(), (ReturnType::Result, vec![]));
    assert_eq!(Intrinsic::ResultEqual.signature(), (ReturnType::Bool, vec![ParamType::Result, ParamType::Result]));
    assert_eq!(Intrinsic::QubitAllocate.signature(), (ReturnType::Qubit, vec![]));
    assert_eq!(Intrinsic::H.signature(), (ReturnType::Void, vec![ParamType::Qubit]));
}
