//! Code generation for a semantic model: the entry function of a QIR program,
//! as a plan of steps that an LLVM builder carries out in order.

use vstd::prelude::*;
use crate::flow::{blocks_ok, lemma_plan_blocks};
use crate::intrinsics::Intrinsic;
use crate::model::{Call, CallArg, ClassicalRegister, Instruction, QuantumRegister, SemanticModel};
use crate::text::{concat3, decimal, str_eq, to_decimal, with_decimal_suffix};

verus! {

/// The LLVM type of a parameter of an externally declared function.
#[derive(Clone, Copy, Debug, PartialEq, Eq, Structural)]
pub enum ParamType {
    /// `%Qubit*`
    Qubit,
    /// `%Result*`
    Result,
    /// `double`
    Double,
    /// `i64`
    Int64,
    /// `i1`
    Bool,
}

/// An argument of a call.
#[derive(Debug)]
pub enum Operand {
    /// A value made by an earlier step, by its number.
    Value(u64),
    /// A double constant, by its IEEE 754 bits.
    Double(u64),
    /// A double constant, by its decimal text.
    DoubleText(String),
    /// An `i64` constant.
    Int(i64),
    /// An `i1` constant.
    Bool(bool),
}

/// What an operand denotes.
pub enum OperandView {
    Value(u64),
    Double(u64),
    DoubleText(Seq<char>),
    Int(i64),
    Bool(bool),
}

/// What an operand denotes.
pub open spec fn operand_view(o: Operand) -> OperandView {
    match o {
        Operand::Value(v) => OperandView::Value(v),
        Operand::Double(b) => OperandView::Double(b),
        Operand::DoubleText(t) => OperandView::DoubleText(t@),
        Operand::Int(i) => OperandView::Int(i),
        Operand::Bool(b) => OperandView::Bool(b),
    }
}

/// What some operands denote.
pub open spec fn operands_view(s: Seq<Operand>) -> Seq<OperandView> {
    s.map_values(|o: Operand| operand_view(o))
}

/// One step of building the entry function. Values are numbered in the order
/// in which steps make them; blocks are numbered in the order in which they
/// are appended to the function.
#[derive(Debug)]
pub enum Step {
    /// Turns the static qubit number `id` into a qubit pointer named `name`.
    StaticQubit { value: u64, id: u64, name: String },
    /// Calls an intrinsic; the call makes the value `value` named `name`
    /// when the intrinsic returns one.
    Call { callee: Intrinsic, args: Vec<Operand>, value: Option<u64>, name: String },
    /// Declares an external function that returns nothing, unless the module
    /// has a function of that name already.
    DeclareExtern { name: String, params: Vec<ParamType> },
    /// Calls an external function.
    CallExtern { name: String, args: Vec<Operand> },
    /// Branches on the value `cond`.
    CondBr { cond: u64, then_block: u64, else_block: u64 },
    /// Branches to a block.
    Br { block: u64 },
    /// Inserts the following instructions at the end of a block.
    PositionAt { block: u64 },
    /// Returns from the entry function.
    Ret,
}

/// What a step does.
pub enum StepView {
    StaticQubit { value: u64, id: u64, name: Seq<char> },
    Call { callee: Intrinsic, args: Seq<OperandView>, value: Option<u64>, name: Seq<char> },
    DeclareExtern { name: Seq<char>, params: Seq<ParamType> },
    CallExtern { name: Seq<char>, args: Seq<OperandView> },
    CondBr { cond: u64, then_block: u64, else_block: u64 },
    Br { block: u64 },
    PositionAt { block: u64 },
    Ret,
}

/// What a step does.
pub open spec fn step_view(s: Step) -> StepView {
    match s {
        Step::StaticQubit { value, id, name } => StepView::StaticQubit { value, id, name: name@ },
        Step::Call { callee, args, value, name } => StepView::Call {
            callee,
            args: operands_view(args@),
            value,
            name: name@,
        },
        Step::DeclareExtern { name, params } => StepView::DeclareExtern { name: name@, params: params@ },
        Step::CallExtern { name, args } => StepView::CallExtern { name: name@, args: operands_view(args@) },
        Step::CondBr { cond, then_block, else_block } => StepView::CondBr { cond, then_block, else_block },
        Step::Br { block } => StepView::Br { block },
        Step::PositionAt { block } => StepView::PositionAt { block },
        Step::Ret => StepView::Ret,
    }
}

/// What some steps do.
pub open spec fn steps_view(s: Seq<Step>) -> Seq<StepView> {
    s.map_values(|st: Step| step_view(st))
}

/// Why a model could not be turned into code.
#[derive(Clone, Copy, Debug, PartialEq, Eq, Structural)]
pub enum EmitErrorKind {
    /// An instruction names a qubit that the model does not have.
    QubitNotFound,
    /// A branch names a result that is neither a register nor measured.
    ResultNotFound,
    /// A call passes a result that is neither a register nor measured.
    RegisterNotFound,
    /// A call passes a result before it was measured.
    RegisterNotMeasured,
    /// A call argument has a type that external declarations do not take.
    UnknownParameterType,
    /// An `i64` argument is not a decimal integer in range.
    InvalidInteger,
    /// An `i8` argument is neither `true` nor `false`.
    InvalidBool,
    /// The instruction has no code generation (a machine dump).
    Unsupported,
}

/// An error of code generation and the name it concerns.
#[derive(Debug)]
pub struct EmitError {
    pub kind: EmitErrorKind,
    pub name: String,
}

/// What an error reports.
pub struct EmitErrorView {
    pub kind: EmitErrorKind,
    pub name: Seq<char>,
}

/// What an error reports.
pub open spec fn error_view(e: EmitError) -> EmitErrorView {
    EmitErrorView { kind: e.kind, name: e.name@ }
}

/// The error of the given kind about `name`.
pub open spec fn err(kind: EmitErrorKind, name: Seq<char>) -> EmitErrorView {
    EmitErrorView { kind, name }
}

/// The message with which code generation gives up on an error.
pub open spec fn error_message(e: EmitErrorView) -> Seq<char> {
    match e.kind {
        EmitErrorKind::QubitNotFound => "Qubit "@ + e.name + " not found."@,
        EmitErrorKind::ResultNotFound => "Result "@ + e.name + " not found."@,
        EmitErrorKind::RegisterNotFound => "key not found"@,
        EmitErrorKind::RegisterNotMeasured => "Register "@ + e.name + " must be measured prior to use."@,
        EmitErrorKind::UnknownParameterType => "Unknown parameter type for extern declaration "@ + e.name,
        EmitErrorKind::InvalidInteger => "Invalid integer "@ + e.name,
        EmitErrorKind::InvalidBool => "Invalid bool "@ + e.name,
        EmitErrorKind::Unsupported => "Not Implemented"@,
    }
}

impl EmitError {
    /// The message with which code generation gives up on this error.
    pub fn message(&self) -> (r: String)
        ensures
            r@ == error_message(error_view(*self)),
    {
        let n = self.name.as_str();
        proof {
            reveal_strlit("");
        }
        assert(n@ + ""@ =~= n@);
        match self.kind {
            EmitErrorKind::QubitNotFound => concat3("Qubit ", n, " not found."),
            EmitErrorKind::ResultNotFound => concat3("Result ", n, " not found."),
            EmitErrorKind::RegisterNotFound => String::from_str("key not found"),
            EmitErrorKind::RegisterNotMeasured => concat3("Register ", n, " must be measured prior to use."),
            EmitErrorKind::UnknownParameterType => {
                let r = concat3("Unknown parameter type for extern declaration ", n, "");
                assert(r@ =~= "Unknown parameter type for extern declaration "@ + n@);
                r
            },
            EmitErrorKind::InvalidInteger => {
                let r = concat3("Invalid integer ", n, "");
                assert(r@ =~= "Invalid integer "@ + n@);
                r
            },
            EmitErrorKind::InvalidBool => {
                let r = concat3("Invalid bool ", n, "");
                assert(r@ =~= "Invalid bool "@ + n@);
                r
            },
            EmitErrorKind::Unsupported => String::from_str("Not Implemented"),
        }
    }
}

/// The state of code generation: the steps so far, the blocks appended so
/// far, the number of the next value, the qubit values by name, the result
/// values of the registers by name (`None` while unmeasured), and the
/// external functions declared so far. In the name lists a later entry
/// hides an earlier one of the same name.
#[verifier::ext_equal]
pub struct EmitState {
    pub steps: Seq<StepView>,
    pub blocks: Seq<Seq<char>>,
    pub next_value: nat,
    pub qubits: Seq<(Seq<char>, u64)>,
    pub registers: Seq<(Seq<char>, Option<u64>)>,
    pub declared: Seq<Seq<char>>,
}

/// The entry of the last pair named `name`, if any.
pub open spec fn lookup<V>(s: Seq<(Seq<char>, V)>, name: Seq<char>) -> Option<V>
    decreases s.len(),
{
    if s.len() == 0 {
        None
    } else if s.last().0 == name {
        Some(s.last().1)
    } else {
        lookup(s.drop_last(), name)
    }
}

/// The parameter type that a call argument's type name stands for.
pub open spec fn param_type_of(t: Seq<char>) -> Option<ParamType> {
    if t == "Qubit"@ {
        Some(ParamType::Qubit)
    } else if t == "Result"@ {
        Some(ParamType::Result)
    } else if t == "f64"@ {
        Some(ParamType::Double)
    } else if t == "i64"@ {
        Some(ParamType::Int64)
    } else if t == "i8"@ {
        Some(ParamType::Bool)
    } else {
        None
    }
}

/// Whether a character is an ASCII decimal digit.
pub open spec fn is_digit(c: char) -> bool {
    48 <= (c as u32) && (c as u32) <= 57
}

/// The value of a sequence of decimal digits.
pub open spec fn digits_value(s: Seq<char>) -> int
    decreases s.len(),
{
    if s.len() == 0 {
        0
    } else {
        digits_value(s.drop_last()) * 10 + ((s.last() as u32) - 48)
    }
}

/// What `str::parse::<i64>` accepts: an optional `+` or `-` followed by at
/// least one decimal digit, denoting a number in the range of `i64`.
pub open spec fn parsed_i64(s: Seq<char>) -> Option<i64> {
    let neg = s.len() > 0 && s[0] == '-';
    let body = if s.len() > 0 && (s[0] == '-' || s[0] == '+') { s.drop_first() } else { s };
    if body.len() > 0 && (forall|i: int| 0 <= i < body.len() ==> is_digit(#[trigger] body[i])) {
        let v = if neg { -digits_value(body) } else { digits_value(body) };
        if i64::MIN <= v <= i64::MAX { Some(v as i64) } else { None }
    } else {
        None
    }
}

/// What `str::parse::<bool>` accepts: `true` and `false`.
pub open spec fn parsed_bool(s: Seq<char>) -> Option<bool> {
    if s == "true"@ {
        Some(true)
    } else if s == "false"@ {
        Some(false)
    } else {
        None
    }
}

/// `str::parse::<i64>`: the decimal number that the text spells, as
/// documented for `i64::from_str`.
#[verifier::external_body]
pub(crate) fn parse_i64(s: &str) -> (r: Option<i64>)
    ensures
        r == parsed_i64(s@),
{
    s.parse::<i64>().ok()
}

/// The state after one more step.
pub open spec fn add_step(st: EmitState, s: StepView) -> EmitState {
    EmitState { steps: st.steps.push(s), ..st }
}

/// The state after a call that makes a new value, named `name`.
pub open spec fn add_value(st: EmitState, callee: Intrinsic, args: Seq<OperandView>, name: Seq<char>) -> EmitState {
    EmitState {
        steps: st.steps.push(StepView::Call { callee, args, value: Some(st.next_value as u64), name }),
        next_value: st.next_value + 1,
        ..st
    }
}

/// The state after a call that makes no value.
pub open spec fn add_gate(st: EmitState, callee: Intrinsic, args: Seq<OperandView>) -> EmitState {
    add_step(st, StepView::Call { callee, args, value: None, name: Seq::empty() })
}

/// The value of the qubit named `name`.
pub open spec fn qubit_value(st: EmitState, name: Seq<char>) -> Result<u64, EmitErrorView> {
    match lookup(st.qubits, name) {
        Some(v) => Ok(v),
        None => Err(err(EmitErrorKind::QubitNotFound, name)),
    }
}

/// A gate on one qubit.
pub open spec fn single_spec(st: EmitState, callee: Intrinsic, q: Seq<char>) -> Result<EmitState, EmitErrorView> {
    match qubit_value(st, q) {
        Ok(v) => Ok(add_gate(st, callee, seq![OperandView::Value(v)])),
        Err(e) => Err(e),
    }
}

/// A gate on a control and a target qubit.
pub open spec fn controlled_spec(st: EmitState, callee: Intrinsic, c: Seq<char>, t: Seq<char>) -> Result<EmitState, EmitErrorView> {
    match qubit_value(st, c) {
        Err(e) => Err(e),
        Ok(vc) => match qubit_value(st, t) {
            Err(e) => Err(e),
            Ok(vt) => Ok(add_gate(st, callee, seq![OperandView::Value(vc), OperandView::Value(vt)])),
        },
    }
}

/// A rotation of one qubit by a constant angle.
pub open spec fn rotated_spec(st: EmitState, callee: Intrinsic, theta: u64, q: Seq<char>) -> Result<EmitState, EmitErrorView> {
    match qubit_value(st, q) {
        Ok(v) => Ok(add_gate(st, callee, seq![OperandView::Double(theta), OperandView::Value(v)])),
        Err(e) => Err(e),
    }
}

/// A measurement of a qubit into the result named `target`, which from then
/// on holds the measured value.
pub open spec fn measure_spec(st: EmitState, q: Seq<char>, target: Seq<char>) -> Result<EmitState, EmitErrorView> {
    match qubit_value(st, q) {
        Ok(v) => {
            let st1 = add_value(st, Intrinsic::M, seq![OperandView::Value(v)], target);
            Ok(EmitState { registers: st1.registers.push((target, Some(st.next_value as u64))), ..st1 })
        },
        Err(e) => Err(e),
    }
}

/// The comparison of the result named `cond` with one: the result is read
/// (zero when the register was never measured), compared with one, and the
/// number of the comparison's value comes back.
pub open spec fn condition_spec(st: EmitState, cond: Seq<char>) -> Result<(EmitState, u64), EmitErrorView> {
    match lookup(st.registers, cond) {
        None => Err(err(EmitErrorKind::ResultNotFound, cond)),
        Some(r) => {
            let st1 = match r {
                Some(_) => st,
                None => add_value(st, Intrinsic::ResultGetZero, Seq::empty(), "zero"@),
            };
            let res: u64 = match r {
                Some(v) => v,
                None => st.next_value as u64,
            };
            let one = st1.next_value as u64;
            let st2 = add_value(st1, Intrinsic::ResultGetOne, Seq::empty(), "one"@);
            let eq = st2.next_value as u64;
            let st3 = add_value(st2, Intrinsic::ResultEqual, seq![OperandView::Value(res), OperandView::Value(one)], "equal"@);
            Ok((st3, eq))
        },
    }
}

/// The parameter types of a call's arguments; fails on the first argument
/// whose type name is unknown.
pub open spec fn param_types_spec(args: Seq<CallArg>) -> Result<Seq<ParamType>, EmitErrorView>
    decreases args.len(),
{
    if args.len() == 0 {
        Ok(Seq::empty())
    } else {
        match param_types_spec(args.drop_last()) {
            Err(e) => Err(e),
            Ok(ts) => match param_type_of(args.last().arg_type@) {
                Some(t) => Ok(ts.push(t)),
                None => Err(err(EmitErrorKind::UnknownParameterType, args.last().arg_type@)),
            },
        }
    }
}

/// The operand that a call argument of a known type passes.
pub open spec fn arg_operand_spec(st: EmitState, a: CallArg) -> Result<OperandView, EmitErrorView> {
    let t = a.arg_type@;
    let v = a.value@;
    if t == "Qubit"@ {
        match qubit_value(st, v) {
            Ok(q) => Ok(OperandView::Value(q)),
            Err(e) => Err(e),
        }
    } else if t == "Result"@ {
        match lookup(st.registers, v) {
            None => Err(err(EmitErrorKind::RegisterNotFound, v)),
            Some(None) => Err(err(EmitErrorKind::RegisterNotMeasured, v)),
            Some(Some(r)) => Ok(OperandView::Value(r)),
        }
    } else if t == "f64"@ {
        Ok(OperandView::DoubleText(v))
    } else if t == "i64"@ {
        match parsed_i64(v) {
            Some(i) => Ok(OperandView::Int(i)),
            None => Err(err(EmitErrorKind::InvalidInteger, v)),
        }
    } else {
        match parsed_bool(v) {
            Some(b) => Ok(OperandView::Bool(b)),
            None => Err(err(EmitErrorKind::InvalidBool, v)),
        }
    }
}

/// The operands of a call's arguments; fails on the first argument that
/// cannot be passed.
pub open spec fn arg_operands_spec(st: EmitState, args: Seq<CallArg>) -> Result<Seq<OperandView>, EmitErrorView>
    decreases args.len(),
{
    if args.len() == 0 {
        Ok(Seq::empty())
    } else {
        match arg_operands_spec(st, args.drop_last()) {
            Err(e) => Err(e),
            Ok(ops) => match arg_operand_spec(st, args.last()) {
                Ok(o) => Ok(ops.push(o)),
                Err(e) => Err(e),
            },
        }
    }
}

/// A call of an external function: its parameter types come from the
/// arguments' type names, it is declared before its first call, then called.
pub open spec fn call_spec(st: EmitState, c: Call) -> Result<EmitState, EmitErrorView> {
    match param_types_spec(c.args@) {
        Err(e) => Err(e),
        Ok(ts) => match arg_operands_spec(st, c.args@) {
            Err(e) => Err(e),
            Ok(ops) => {
                let st1 = if st.declared.contains(c.name@) {
                    st
                } else {
                    EmitState {
                        steps: st.steps.push(StepView::DeclareExtern { name: c.name@, params: ts }),
                        declared: st.declared.push(c.name@),
                        ..st
                    }
                };
                Ok(add_step(st1, StepView::CallExtern { name: c.name@, args: ops }))
            },
        },
    }
}

/// The code of one instruction.
pub open spec fn emit_one_spec(st: EmitState, inst: Instruction) -> Result<EmitState, EmitErrorView>
    decreases inst,
{
    match inst {
        Instruction::Cx(c) => controlled_spec(st, Intrinsic::Cnot, c.control@, c.target@),
        Instruction::Cz(c) => controlled_spec(st, Intrinsic::Cz, c.control@, c.target@),
        Instruction::H(s) => single_spec(st, Intrinsic::H, s.qubit@),
        Instruction::M(m) => measure_spec(st, m.qubit@, m.target@),
        Instruction::Reset(s) => single_spec(st, Intrinsic::Reset, s.qubit@),
        Instruction::Rx(r) => rotated_spec(st, Intrinsic::Rx, r.theta, r.qubit@),
        Instruction::Ry(r) => rotated_spec(st, Intrinsic::Ry, r.theta, r.qubit@),
        Instruction::Rz(r) => rotated_spec(st, Intrinsic::Rz, r.theta, r.qubit@),
        Instruction::S(s) => single_spec(st, Intrinsic::S, s.qubit@),
        Instruction::SAdj(s) => single_spec(st, Intrinsic::SAdj, s.qubit@),
        Instruction::T(s) => single_spec(st, Intrinsic::T, s.qubit@),
        Instruction::TAdj(s) => single_spec(st, Intrinsic::TAdj, s.qubit@),
        Instruction::X(s) => single_spec(st, Intrinsic::X, s.qubit@),
        Instruction::Y(s) => single_spec(st, Intrinsic::Y, s.qubit@),
        Instruction::Z(s) => single_spec(st, Intrinsic::Z, s.qubit@),
        Instruction::If(i) => match condition_spec(st, i.condition@) {
            Err(e) => Err(e),
            Ok((st3, eq)) => {
                let tb = st3.blocks.len() as u64;
                let eb = (st3.blocks.len() + 1) as u64;
                let cb = (st3.blocks.len() + 2) as u64;
                let st4 = EmitState {
                    blocks: st3.blocks.push("then"@).push("else"@).push("continue"@),
                    steps: st3.steps.push(StepView::CondBr { cond: eq, then_block: tb, else_block: eb }).push(
                        StepView::PositionAt { block: tb },
                    ),
                    ..st3
                };
                match emit_list_spec(st4, i.then_insts@) {
                    Err(e) => Err(e),
                    Ok(st5) => {
                        let st6 = add_step(add_step(st5, StepView::Br { block: cb }), StepView::PositionAt { block: eb });
                        match emit_list_spec(st6, i.else_insts@) {
                            Err(e) => Err(e),
                            Ok(st7) => Ok(add_step(add_step(st7, StepView::Br { block: cb }), StepView::PositionAt { block: cb })),
                        }
                    },
                }
            },
        },
        Instruction::Call(c) => call_spec(st, c),
        Instruction::DumpMachine => Err(err(EmitErrorKind::Unsupported, Seq::empty())),
    }
}

/// The code of a list of instructions, in order; fails on the first
/// instruction that fails.
pub open spec fn emit_list_spec(st: EmitState, insts: Seq<Instruction>) -> Result<EmitState, EmitErrorView>
    decreases insts,
{
    if insts.len() == 0 {
        Ok(st)
    } else {
        match emit_one_spec(st, insts[0]) {
            Err(e) => Err(e),
            Ok(st1) => emit_list_spec(st1, insts.subrange(1, insts.len() as int)),
        }
    }
}

/// The name under which a register entry or qubit is known: the register's
/// name followed by the decimal index.
pub open spec fn indexed_name(name: Seq<char>, index: u64) -> Seq<char> {
    name + decimal(index as nat)
}

/// The state when the entry block has just been appended.
pub open spec fn initial_state() -> EmitState {
    EmitState {
        steps: seq![StepView::PositionAt { block: 0 }],
        blocks: seq!["entry"@],
        next_value: 0,
        qubits: Seq::empty(),
        registers: Seq::empty(),
        declared: Seq::empty(),
    }
}

/// The qubit values of the model's qubits, in order: with static allocation
/// the qubit number is its position in the list, otherwise each qubit is
/// allocated by the runtime.
pub open spec fn qubits_spec(st: EmitState, qs: Seq<QuantumRegister>, static_alloc: bool) -> EmitState
    decreases qs.len(),
{
    if qs.len() == 0 {
        st
    } else {
        let st1 = qubits_spec(st, qs.drop_last(), static_alloc);
        let name = indexed_name(qs.last().name@, qs.last().index);
        let v = st1.next_value as u64;
        let st2 = if static_alloc {
            EmitState {
                steps: st1.steps.push(StepView::StaticQubit { value: v, id: (qs.len() - 1) as u64, name }),
                next_value: st1.next_value + 1,
                ..st1
            }
        } else {
            add_value(st1, Intrinsic::QubitAllocate, Seq::empty(), name)
        };
        EmitState { qubits: st2.qubits.push((name, v)), ..st2 }
    }
}

/// The unmeasured entries `r0`, `r1`, ... of the first `k` indices of a register.
pub open spec fn register_entries(name: Seq<char>, k: nat) -> Seq<(Seq<char>, Option<u64>)>
    decreases k,
{
    if k == 0 {
        Seq::empty()
    } else {
        register_entries(name, (k - 1) as nat).push((indexed_name(name, (k - 1) as u64), None))
    }
}

/// The unmeasured entries of all registers, register by register.
pub open spec fn registers_spec(regs: Seq<ClassicalRegister>) -> Seq<(Seq<char>, Option<u64>)>
    decreases regs.len(),
{
    if regs.len() == 0 {
        Seq::empty()
    } else {
        registers_spec(regs.drop_last()) + register_entries(regs.last().name@, regs.last().size as nat)
    }
}

/// The releases of the qubits among the first `k` entries of the qubit list
/// that no later entry of the same name hides.
pub open spec fn releases_spec(st: EmitState, k: int) -> EmitState
    decreases k,
{
    if k <= 0 {
        st
    } else {
        let st1 = releases_spec(st, k - 1);
        let (name, v) = st.qubits[k - 1];
        if lookup(st.qubits, name) == Some(v) {
            add_gate(st1, Intrinsic::QubitRelease, seq![OperandView::Value(v)])
        } else {
            st1
        }
    }
}

/// The plan of an entry function.
#[derive(Debug)]
pub struct Plan {
    /// The name of the entry function.
    pub entry_point: String,
    /// The value of the `requiredQubits` attribute, when qubits are static.
    pub required_qubits: Option<String>,
    /// The names of the blocks, in the order in which they are appended.
    pub blocks: Vec<String>,
    /// The steps, in order.
    pub steps: Vec<Step>,
}

/// What a plan holds.
#[verifier::ext_equal]
pub struct PlanView {
    pub entry_point: Seq<char>,
    pub required_qubits: Option<Seq<char>>,
    pub blocks: Seq<Seq<char>>,
    pub steps: Seq<StepView>,
}

/// What a plan holds.
pub open spec fn plan_view(p: Plan) -> PlanView {
    PlanView {
        entry_point: p.entry_point@,
        required_qubits: match p.required_qubits {
            Some(s) => Some(s@),
            None => None,
        },
        blocks: names_view(p.blocks@),
        steps: steps_view(p.steps@),
    }
}

/// The plan of the entry function of a model: the entry block; the qubits;
/// the result registers, all unmeasured; the code of the instructions; the
/// release of dynamically allocated qubits; the return.
pub open spec fn plan_spec(model: SemanticModel) -> Result<PlanView, EmitErrorView> {
    let st1 = qubits_spec(initial_state(), model.qubits@, model.static_alloc);
    let st2 = EmitState { registers: registers_spec(model.registers@), ..st1 };
    match emit_list_spec(st2, model.instructions@) {
        Err(e) => Err(e),
        Ok(st3) => {
            let st4 = if model.static_alloc { st3 } else { releases_spec(st3, st3.qubits.len() as int) };
            let st5 = add_step(st4, StepView::Ret);
            Ok(PlanView {
                entry_point: "QuantumApplication__Run"@,
                required_qubits: if model.static_alloc { Some(decimal(model.qubits.len() as nat)) } else { None },
                blocks: st5.blocks,
                steps: st5.steps,
            })
        },
    }
}

/// Errors that a prefix of the parameter types meets stay errors.
proof fn lemma_param_types_error_persists(args: Seq<CallArg>, k: int)
    requires
        0 <= k <= args.len(),
        param_types_spec(args.take(k)) is Err,
    ensures
        param_types_spec(args) == param_types_spec(args.take(k)),
    decreases args.len() - k,
{
    if k < args.len() {
        assert(args.take(k + 1).drop_last() =~= args.take(k));
        lemma_param_types_error_persists(args, k + 1);
    } else {
        assert(args.take(k) =~= args);
    }
}

/// Errors that a prefix of the operands meets stay errors.
proof fn lemma_arg_operands_error_persists(st: EmitState, args: Seq<CallArg>, k: int)
    requires
        0 <= k <= args.len(),
        arg_operands_spec(st, args.take(k)) is Err,
    ensures
        arg_operands_spec(st, args) == arg_operands_spec(st, args.take(k)),
    decreases args.len() - k,
{
    if k < args.len() {
        assert(args.take(k + 1).drop_last() =~= args.take(k));
        lemma_arg_operands_error_persists(st, args, k + 1);
    } else {
        assert(args.take(k) =~= args);
    }
}

/// The view of a list of named entries.
pub open spec fn entries_view<V>(s: Seq<(String, V)>) -> Seq<(Seq<char>, V)> {
    s.map_values(|p: (String, V)| (p.0@, p.1))
}

/// The views of a list of texts.
pub open spec fn names_view(s: Seq<String>) -> Seq<Seq<char>> {
    s.map_values(|n: String| n@)
}

/// The entry of the last pair named `name`.
fn find<V: Copy>(v: &Vec<(String, V)>, name: &str) -> (r: Option<V>)
    ensures
        r == lookup(entries_view(v@), name@),
{
    let ghost all = entries_view(v@);
    let mut i = v.len();
    assert(all.take(i as int) =~= all);
    while i > 0
        invariant
            0 <= i <= v.len(),
            all == entries_view(v@),
            lookup(all, name@) == lookup(all.take(i as int), name@),
        decreases i,
    {
        assert(all.take(i as int).last() == all[i - 1]);
        if str_eq(v[i - 1].0.as_str(), name) {
            return Some(v[i - 1].1);
        }
        assert(all.take(i as int).drop_last() =~= all.take(i - 1));
        i = i - 1;
    }
    assert(all.take(0) =~= Seq::<(Seq<char>, V)>::empty());
    None
}

/// The parameter type that a type name stands for.
fn param_type(t: &str) -> (r: Option<ParamType>)
    ensures
        r == param_type_of(t@),
{
    if str_eq(t, "Qubit") {
        Some(ParamType::Qubit)
    } else if str_eq(t, "Result") {
        Some(ParamType::Result)
    } else if str_eq(t, "f64") {
        Some(ParamType::Double)
    } else if str_eq(t, "i64") {
        Some(ParamType::Int64)
    } else if str_eq(t, "i8") {
        Some(ParamType::Bool)
    } else {
        None
    }
}

/// `true` or `false`, as `str::parse::<bool>` reads them.
fn parse_bool(s: &str) -> (r: Option<bool>)
    ensures
        r == parsed_bool(s@),
{
    if str_eq(s, "true") {
        Some(true)
    } else if str_eq(s, "false") {
        Some(false)
    } else {
        None
    }
}

/// The error of the given kind about `name`.
fn error(kind: EmitErrorKind, name: &String) -> (e: EmitError)
    ensures
        error_view(e) == err(kind, name@),
{
    EmitError { kind, name: name.clone() }
}

/// The parameter types of a call's arguments.
fn param_types(args: &Vec<CallArg>) -> (r: Result<Vec<ParamType>, EmitError>)
    ensures
        match param_types_spec(args@) {
            Ok(ts) => (r matches Ok(v) && v@ == ts),
            Err(e) => (r matches Err(x) && error_view(x) == e),
        },
{
    let mut out: Vec<ParamType> = Vec::new();
    let mut k: usize = 0;
    while k < args.len()
        invariant
            0 <= k <= args.len(),
            param_types_spec(args@.take(k as int)) == Ok::<Seq<ParamType>, EmitErrorView>(out@),
        decreases args.len() - k,
    {
        assert(args@.take(k + 1).drop_last() =~= args@.take(k as int));
        assert(args@.take(k + 1).last() == args@[k as int]);
        match param_type(args[k].arg_type.as_str()) {
            Some(t) => {
                out.push(t);
            },
            None => {
                proof {
                    lemma_param_types_error_persists(args@, k + 1);
                }
                return Err(error(EmitErrorKind::UnknownParameterType, &args[k].arg_type));
            },
        }
        k = k + 1;
    }
    assert(args@.take(args.len() as int) =~= args@);
    Ok(out)
}

/// An emitter of the steps of an entry function.
struct Emitter {
    steps: Vec<Step>,
    blocks: Vec<String>,
    next_value: u64,
    qubits: Vec<(String, u64)>,
    registers: Vec<(String, Option<u64>)>,
    declared: Vec<String>,
}

impl Emitter {
    /// The state of code generation that the emitter holds.
    spec fn view(&self) -> EmitState {
        EmitState {
            steps: steps_view(self.steps@),
            blocks: names_view(self.blocks@),
            next_value: self.next_value as nat,
            qubits: entries_view(self.qubits@),
            registers: entries_view(self.registers@),
            declared: names_view(self.declared@),
        }
    }

    /// Every value has been made by a step.
    spec fn inv(&self) -> bool {
        self.next_value <= self.steps.len()
    }

    /// Appends a step.
    fn push(&mut self, s: Step)
        requires
            old(self).inv(),
        ensures
            final(self).inv(),
            final(self).view() == add_step(old(self).view(), step_view(s)),
    {
        let ghost old_steps = self.steps@;
        self.steps.push(s);
        assert(steps_view(self.steps@) =~= steps_view(old_steps).push(step_view(s)));
    }

    /// A call that makes a new value; the number of the value comes back.
    fn make_value(&mut self, callee: Intrinsic, args: Vec<Operand>, name: String) -> (v: u64)
        requires
            old(self).inv(),
        ensures
            final(self).inv(),
            v == old(self).view().next_value,
            final(self).view() == add_value(old(self).view(), callee, operands_view(args@), name@),
    {
        let v = self.next_value;
        let ghost old_steps = self.steps@;
        self.steps.push(Step::Call { callee, args, value: Some(v), name });
        assert(steps_view(self.steps@) =~= steps_view(old_steps).push(step_view(self.steps@.last())));
        assert(v < self.steps.len());
        assert(self.steps.len() <= usize::MAX);
        self.next_value = v + 1;
        v
    }

    /// A call that makes no value.
    fn gate(&mut self, callee: Intrinsic, args: Vec<Operand>)
        requires
            old(self).inv(),
        ensures
            final(self).inv(),
            final(self).view() == add_gate(old(self).view(), callee, operands_view(args@)),
    {
        let name = String::new();
        self.push(Step::Call { callee, args, value: None, name });
    }

    /// The value of the qubit named `name`.
    fn qubit(&self, name: &String) -> (r: Result<u64, EmitError>)
        ensures
            match qubit_value(self.view(), name@) {
                Ok(v) => r == Ok::<u64, EmitError>(v),
                Err(e) => (r matches Err(x) && error_view(x) == e),
            },
    {
        match find(&self.qubits, name.as_str()) {
            Some(v) => Ok(v),
            None => Err(error(EmitErrorKind::QubitNotFound, name)),
        }
    }

    /// A gate on one qubit.
    fn single(&mut self, callee: Intrinsic, q: &String) -> (r: Result<(), EmitError>)
        requires
            old(self).inv(),
        ensures
            final(self).inv(),
            match single_spec(old(self).view(), callee, q@) {
                Ok(st) => r is Ok && final(self).view() == st,
                Err(e) => (r matches Err(x) && error_view(x) == e),
            },
    {
        let v = self.qubit(q)?;
        let mut args: Vec<Operand> = Vec::new();
        args.push(Operand::Value(v));
        assert(operands_view(args@) =~= seq![OperandView::Value(v)]);
        self.gate(callee, args);
        Ok(())
    }

    /// A gate on a control and a target qubit.
    fn controlled(&mut self, callee: Intrinsic, c: &String, t: &String) -> (r: Result<(), EmitError>)
        requires
            old(self).inv(),
        ensures
            final(self).inv(),
            match controlled_spec(old(self).view(), callee, c@, t@) {
                Ok(st) => r is Ok && final(self).view() == st,
                Err(e) => (r matches Err(x) && error_view(x) == e),
            },
    {
        let vc = self.qubit(c)?;
        let vt = self.qubit(t)?;
        let mut args: Vec<Operand> = Vec::new();
        args.push(Operand::Value(vc));
        args.push(Operand::Value(vt));
        assert(operands_view(args@) =~= seq![OperandView::Value(vc), OperandView::Value(vt)]);
        self.gate(callee, args);
        Ok(())
    }

    /// A rotation of one qubit by a constant angle.
    fn rotated(&mut self, callee: Intrinsic, theta: u64, q: &String) -> (r: Result<(), EmitError>)
        requires
            old(self).inv(),
        ensures
            final(self).inv(),
            match rotated_spec(old(self).view(), callee, theta, q@) {
                Ok(st) => r is Ok && final(self).view() == st,
                Err(e) => (r matches Err(x) && error_view(x) == e),
            },
    {
        let v = self.qubit(q)?;
        let mut args: Vec<Operand> = Vec::new();
        args.push(Operand::Double(theta));
        args.push(Operand::Value(v));
        assert(operands_view(args@) =~= seq![OperandView::Double(theta), OperandView::Value(v)]);
        self.gate(callee, args);
        Ok(())
    }

    /// A measurement of a qubit into the result named `target`.
    fn measure(&mut self, q: &String, target: &String) -> (r: Result<(), EmitError>)
        requires
            old(self).inv(),
        ensures
            final(self).inv(),
            match measure_spec(old(self).view(), q@, target@) {
                Ok(st) => r is Ok && final(self).view() == st,
                Err(e) => (r matches Err(x) && error_view(x) == e),
            },
    {
        let v = self.qubit(q)?;
        let mut args: Vec<Operand> = Vec::new();
        args.push(Operand::Value(v));
        assert(operands_view(args@) =~= seq![OperandView::Value(v)]);
        let m = self.make_value(Intrinsic::M, args, target.clone());
        let ghost old_regs = self.registers@;
        self.registers.push((target.clone(), Some(m)));
        assert(entries_view(self.registers@) =~= entries_view(old_regs).push((target@, Some(m))));
        Ok(())
    }

    /// A qubit given by its static number; the number of its value comes back.
    fn static_qubit(&mut self, id: u64, name: String) -> (v: u64)
        requires
            old(self).inv(),
        ensures
            final(self).inv(),
            v == old(self).view().next_value,
            final(self).view() == (EmitState {
                steps: old(self).view().steps.push(StepView::StaticQubit { value: v, id, name: name@ }),
                next_value: old(self).view().next_value + 1,
                ..old(self).view()
            }),
    {
        let v = self.next_value;
        let ghost old_steps = self.steps@;
        self.steps.push(Step::StaticQubit { value: v, id, name });
        assert(steps_view(self.steps@) =~= steps_view(old_steps).push(step_view(self.steps@.last())));
        assert(v < self.steps.len());
        assert(self.steps.len() <= usize::MAX);
        self.next_value = v + 1;
        v
    }

    /// Records the value of the qubit named `name`.
    fn add_qubit(&mut self, name: String, v: u64)
        ensures
            final(self).inv() == old(self).inv(),
            final(self).view() == (EmitState { qubits: old(self).view().qubits.push((name@, v)), ..old(self).view() }),
    {
        let ghost old_q = self.qubits@;
        self.qubits.push((name, v));
        assert(entries_view(self.qubits@) =~= entries_view(old_q).push((name@, v)));
    }

    /// Records an unmeasured register entry.
    fn add_register(&mut self, name: String)
        ensures
            final(self).inv() == old(self).inv(),
            final(self).view() == (EmitState {
                registers: old(self).view().registers.push((name@, None)),
                ..old(self).view()
            }),
    {
        let ghost old_r = self.registers@;
        self.registers.push((name, None));
        assert(entries_view(self.registers@) =~= entries_view(old_r).push((name@, None)));
    }

    /// Reads the result named `cond` (zero when never measured) and compares
    /// it with one; the number of the comparison's value comes back.
    fn condition(&mut self, cond: &String) -> (r: Result<u64, EmitError>)
        requires
            old(self).inv(),
        ensures
            final(self).inv(),
            match condition_spec(old(self).view(), cond@) {
                Ok((st, eq)) => r == Ok::<u64, EmitError>(eq) && final(self).view() == st,
                Err(e) => (r matches Err(x) && error_view(x) == e),
            },
    {
        let res = match find(&self.registers, cond.as_str()) {
            None => {
                return Err(error(EmitErrorKind::ResultNotFound, cond));
            },
            Some(Some(v)) => v,
            Some(None) => {
                let args: Vec<Operand> = Vec::new();
                assert(operands_view(args@) =~= Seq::<OperandView>::empty());
                self.make_value(Intrinsic::ResultGetZero, args, String::from_str("zero"))
            },
        };
        let args: Vec<Operand> = Vec::new();
        assert(operands_view(args@) =~= Seq::<OperandView>::empty());
        let one = self.make_value(Intrinsic::ResultGetOne, args, String::from_str("one"));
        let mut args: Vec<Operand> = Vec::new();
        args.push(Operand::Value(res));
        args.push(Operand::Value(one));
        assert(operands_view(args@) =~= seq![OperandView::Value(res), OperandView::Value(one)]);
        let eq = self.make_value(Intrinsic::ResultEqual, args, String::from_str("equal"));
        Ok(eq)
    }

    /// The operand that a call argument of a known type passes.
    fn arg_operand(&self, a: &CallArg) -> (r: Result<Operand, EmitError>)
        requires
            param_type_of(a.arg_type@) is Some,
        ensures
            match arg_operand_spec(self.view(), *a) {
                Ok(o) => (r matches Ok(x) && operand_view(x) == o),
                Err(e) => (r matches Err(x) && error_view(x) == e),
            },
    {
        let t = a.arg_type.as_str();
        if str_eq(t, "Qubit") {
            let q = self.qubit(&a.value)?;
            Ok(Operand::Value(q))
        } else if str_eq(t, "Result") {
            match find(&self.registers, a.value.as_str()) {
                None => Err(error(EmitErrorKind::RegisterNotFound, &a.value)),
                Some(None) => Err(error(EmitErrorKind::RegisterNotMeasured, &a.value)),
                Some(Some(v)) => Ok(Operand::Value(v)),
            }
        } else if str_eq(t, "f64") {
            Ok(Operand::DoubleText(a.value.clone()))
        } else if str_eq(t, "i64") {
            match parse_i64(a.value.as_str()) {
                Some(i) => Ok(Operand::Int(i)),
                None => Err(error(EmitErrorKind::InvalidInteger, &a.value)),
            }
        } else {
            match parse_bool(a.value.as_str()) {
                Some(b) => Ok(Operand::Bool(b)),
                None => Err(error(EmitErrorKind::InvalidBool, &a.value)),
            }
        }
    }

    /// The operands of a call's arguments, all of known types.
    fn arg_operands(&self, args: &Vec<CallArg>) -> (r: Result<Vec<Operand>, EmitError>)
        requires
            param_types_spec(args@) is Ok,
        ensures
            match arg_operands_spec(self.view(), args@) {
                Ok(ops) => (r matches Ok(v) && operands_view(v@) == ops),
                Err(e) => (r matches Err(x) && error_view(x) == e),
            },
    {
        let mut out: Vec<Operand> = Vec::new();
        let mut k: usize = 0;
        assert(args@.take(0) =~= Seq::<CallArg>::empty());
        assert(operands_view(out@) =~= Seq::<OperandView>::empty());
        while k < args.len()
            invariant
                0 <= k <= args.len(),
                param_types_spec(args@) is Ok,
                arg_operands_spec(self.view(), args@.take(k as int)) == Ok::<Seq<OperandView>, EmitErrorView>(
                    operands_view(out@),
                ),
            decreases args.len() - k,
        {
            assert(args@.take(k + 1).drop_last() =~= args@.take(k as int));
            assert(args@.take(k + 1).last() == args@[k as int]);
            proof {
                lemma_param_types_known(args@, k as int);
            }
            match self.arg_operand(&args[k]) {
                Ok(o) => {
                    let ghost old_out = out@;
                    out.push(o);
                    assert(operands_view(out@) =~= operands_view(old_out).push(operand_view(o)));
                },
                Err(e) => {
                    proof {
                        lemma_arg_operands_error_persists(self.view(), args@, k + 1);
                    }
                    return Err(e);
                },
            }
            k = k + 1;
        }
        assert(args@.take(args.len() as int) =~= args@);
        Ok(out)
    }

    /// Whether an external function of that name was declared.
    fn is_declared(&self, name: &String) -> (r: bool)
        ensures
            r == self.view().declared.contains(name@),
    {
        let ghost d = names_view(self.declared@);
        let mut i: usize = 0;
        while i < self.declared.len()
            invariant
                0 <= i <= self.declared.len(),
                d == names_view(self.declared@),
                forall|j: int| 0 <= j < i ==> d[j] != name@,
            decreases self.declared.len() - i,
        {
            if str_eq(self.declared[i].as_str(), name.as_str()) {
                assert(d[i as int] == name@);
                return true;
            }
            i = i + 1;
        }
        false
    }

    /// A call of an external function.
    fn call(&mut self, c: &Call) -> (r: Result<(), EmitError>)
        requires
            old(self).inv(),
        ensures
            final(self).inv(),
            match call_spec(old(self).view(), *c) {
                Ok(st) => r is Ok && final(self).view() == st,
                Err(e) => (r matches Err(x) && error_view(x) == e),
            },
    {
        let ts = param_types(&c.args)?;
        let ops = self.arg_operands(&c.args)?;
        if !self.is_declared(&c.name) {
            let ghost old_d = self.declared@;
            self.push(Step::DeclareExtern { name: c.name.clone(), params: ts });
            self.declared.push(c.name.clone());
            assert(names_view(self.declared@) =~= names_view(old_d).push(c.name@));
        }
        self.push(Step::CallExtern { name: c.name.clone(), args: ops });
        Ok(())
    }

    /// The code of one instruction.
    fn emit_one(&mut self, inst: &Instruction) -> (r: Result<(), EmitError>)
        requires
            old(self).inv(),
        ensures
            final(self).inv(),
            match emit_one_spec(old(self).view(), *inst) {
                Ok(st) => r is Ok && final(self).view() == st,
                Err(e) => (r matches Err(x) && error_view(x) == e),
            },
        decreases inst,
    {
        match inst {
            Instruction::Cx(c) => self.controlled(Intrinsic::Cnot, &c.control, &c.target),
            Instruction::Cz(c) => self.controlled(Intrinsic::Cz, &c.control, &c.target),
            Instruction::H(s) => self.single(Intrinsic::H, &s.qubit),
            Instruction::M(m) => self.measure(&m.qubit, &m.target),
            Instruction::Reset(s) => self.single(Intrinsic::Reset, &s.qubit),
            Instruction::Rx(r) => self.rotated(Intrinsic::Rx, r.theta, &r.qubit),
            Instruction::Ry(r) => self.rotated(Intrinsic::Ry, r.theta, &r.qubit),
            Instruction::Rz(r) => self.rotated(Intrinsic::Rz, r.theta, &r.qubit),
            Instruction::S(s) => self.single(Intrinsic::S, &s.qubit),
            Instruction::SAdj(s) => self.single(Intrinsic::SAdj, &s.qubit),
            Instruction::T(s) => self.single(Intrinsic::T, &s.qubit),
            Instruction::TAdj(s) => self.single(Intrinsic::TAdj, &s.qubit),
            Instruction::X(s) => self.single(Intrinsic::X, &s.qubit),
            Instruction::Y(s) => self.single(Intrinsic::Y, &s.qubit),
            Instruction::Z(s) => self.single(Intrinsic::Z, &s.qubit),
            Instruction::If(i) => {
                let eq = self.condition(&i.condition)?;
                let tb = self.blocks.len() as u64;
                let ghost b0 = self.blocks@;
                self.blocks.push(String::from_str("then"));
                let ghost b1 = self.blocks@;
                self.blocks.push(String::from_str("else"));
                let ghost b2 = self.blocks@;
                self.blocks.push(String::from_str("continue"));
                assert(names_view(b1) =~= names_view(b0).push("then"@));
                assert(names_view(b2) =~= names_view(b1).push("else"@));
                assert(names_view(self.blocks@) =~= names_view(b2).push("continue"@));
                assert(self.blocks.len() == tb + 3);
                let eb = tb + 1;
                let cb = tb + 2;
                self.push(Step::CondBr { cond: eq, then_block: tb, else_block: eb });
                self.push(Step::PositionAt { block: tb });
                self.emit_list(&i.then_insts)?;
                self.push(Step::Br { block: cb });
                self.push(Step::PositionAt { block: eb });
                self.emit_list(&i.else_insts)?;
                self.push(Step::Br { block: cb });
                self.push(Step::PositionAt { block: cb });
                Ok(())
            },
            Instruction::Call(c) => self.call(c),
            Instruction::DumpMachine => Err(EmitError { kind: EmitErrorKind::Unsupported, name: String::new() }),
        }
    }

    /// The code of a list of instructions, in order.
    fn emit_list(&mut self, insts: &Vec<Instruction>) -> (r: Result<(), EmitError>)
        requires
            old(self).inv(),
        ensures
            final(self).inv(),
            match emit_list_spec(old(self).view(), insts@) {
                Ok(st) => r is Ok && final(self).view() == st,
                Err(e) => (r matches Err(x) && error_view(x) == e),
            },
        decreases insts,
    {
        let ghost start = self.view();
        let mut k: usize = 0;
        assert(insts@.subrange(0, insts@.len() as int) =~= insts@);
        while k < insts.len()
            invariant
                0 <= k <= insts.len(),
                self.inv(),
                start == old(self).view(),
                emit_list_spec(start, insts@) == emit_list_spec(self.view(), insts@.subrange(k as int, insts@.len() as int)),
            decreases insts.len() - k,
        {
            let ghost rest = insts@.subrange(k as int, insts@.len() as int);
            assert(rest[0] == insts@[k as int]);
            assert(rest.subrange(1, rest.len() as int) =~= insts@.subrange(k + 1, insts@.len() as int));
            let ghost before = self.view();
            assert(emit_list_spec(before, rest) == match emit_one_spec(before, rest[0]) {
                Err(e) => Err(e),
                Ok(st1) => emit_list_spec(st1, rest.subrange(1, rest.len() as int)),
            });
            match self.emit_one(&insts[k]) {
                Ok(()) => {},
                Err(e) => {
                    return Err(e);
                },
            }
            k = k + 1;
        }
        assert(insts@.subrange(k as int, insts@.len() as int) =~= Seq::<Instruction>::empty());
        Ok(())
    }
}

/// When all parameter types are known, so is each one.
proof fn lemma_param_types_known(args: Seq<CallArg>, k: int)
    requires
        0 <= k < args.len(),
        param_types_spec(args) is Ok,
    ensures
        param_type_of(args[k].arg_type@) is Some,
    decreases args.len(),
{
    if k < args.len() - 1 {
        assert(args.drop_last()[k] == args[k]);
        lemma_param_types_known(args.drop_last(), k);
    }
}

/// The intrinsic that a gate instruction calls; `None` for the instructions
/// that are no gates (measurements, conditionals, calls and dumps).
pub open spec fn gate_callee(inst: Instruction) -> Option<Intrinsic> {
    match inst {
        Instruction::Cx(_) => Some(Intrinsic::Cnot),
        Instruction::Cz(_) => Some(Intrinsic::Cz),
        Instruction::H(_) => Some(Intrinsic::H),
        Instruction::Reset(_) => Some(Intrinsic::Reset),
        Instruction::Rx(_) => Some(Intrinsic::Rx),
        Instruction::Ry(_) => Some(Intrinsic::Ry),
        Instruction::Rz(_) => Some(Intrinsic::Rz),
        Instruction::S(_) => Some(Intrinsic::S),
        Instruction::SAdj(_) => Some(Intrinsic::SAdj),
        Instruction::T(_) => Some(Intrinsic::T),
        Instruction::TAdj(_) => Some(Intrinsic::TAdj),
        Instruction::X(_) => Some(Intrinsic::X),
        Instruction::Y(_) => Some(Intrinsic::Y),
        Instruction::Z(_) => Some(Intrinsic::Z),
        _ => None,
    }
}

/// The qubits that a gate instruction names, control first.
pub open spec fn gate_qubits(inst: Instruction) -> Seq<Seq<char>> {
    match inst {
        Instruction::Cx(c) => seq![c.control@, c.target@],
        Instruction::Cz(c) => seq![c.control@, c.target@],
        Instruction::H(q) => seq![q.qubit@],
        Instruction::Reset(q) => seq![q.qubit@],
        Instruction::Rx(r) => seq![r.qubit@],
        Instruction::Ry(r) => seq![r.qubit@],
        Instruction::Rz(r) => seq![r.qubit@],
        Instruction::S(q) => seq![q.qubit@],
        Instruction::SAdj(q) => seq![q.qubit@],
        Instruction::T(q) => seq![q.qubit@],
        Instruction::TAdj(q) => seq![q.qubit@],
        Instruction::X(q) => seq![q.qubit@],
        Instruction::Y(q) => seq![q.qubit@],
        Instruction::Z(q) => seq![q.qubit@],
        _ => seq![],
    }
}

/// The value of a qubit that the state knows.
pub open spec fn known_qubit(st: EmitState, q: Seq<char>) -> u64 {
    match lookup(st.qubits, q) {
        Some(v) => v,
        None => 0,
    }
}

/// The arguments of the call that a gate instruction makes: the rotation
/// angle as a double constant first, then the values of its qubits.
pub open spec fn gate_operands(st: EmitState, inst: Instruction) -> Seq<OperandView> {
    let qs = gate_qubits(inst).map_values(|q: Seq<char>| OperandView::Value(known_qubit(st, q)));
    match inst {
        Instruction::Rx(r) => seq![OperandView::Double(r.theta)] + qs,
        Instruction::Ry(r) => seq![OperandView::Double(r.theta)] + qs,
        Instruction::Rz(r) => seq![OperandView::Double(r.theta)] + qs,
        _ => qs,
    }
}

/// A gate instruction whose qubits are all known adds exactly one call, to
/// its own intrinsic, that makes no value; the registers, the qubits, the
/// blocks, the value numbering and the declarations stay as they were.
pub proof fn lemma_gate_emits_one_call(st: EmitState, inst: Instruction)
    requires
        gate_callee(inst) is Some,
        forall|k: int| 0 <= k < gate_qubits(inst).len() ==> lookup(st.qubits, #[trigger] gate_qubits(inst)[k]) is Some,
    ensures
        emit_one_spec(st, inst) == Ok::<EmitState, EmitErrorView>(EmitState {
            steps: st.steps.push(StepView::Call {
                callee: gate_callee(inst)->Some_0,
                args: gate_operands(st, inst),
                value: None,
                name: Seq::empty(),
            }),
            ..st
        }),
{
    let qs = gate_qubits(inst);
    assert(lookup(st.qubits, qs[0]) is Some);
    if qs.len() == 2 {
        assert(lookup(st.qubits, qs[1]) is Some);
    }
    let ops = gate_operands(st, inst);
    match inst {
        Instruction::Cx(_) | Instruction::Cz(_) => {
            assert(ops =~= seq![OperandView::Value(known_qubit(st, qs[0])), OperandView::Value(known_qubit(st, qs[1]))]);
        },
        Instruction::Rx(r) | Instruction::Ry(r) | Instruction::Rz(r) => {
            assert(ops =~= seq![OperandView::Double(r.theta), OperandView::Value(known_qubit(st, qs[0]))]);
        },
        _ => {
            assert(ops =~= seq![OperandView::Value(known_qubit(st, qs[0]))]);
        },
    }
}

/// A gate instruction that names a qubit the state does not know fails with
/// `QubitNotFound` for the first such qubit, and adds nothing.
pub proof fn lemma_gate_unknown_qubit(st: EmitState, inst: Instruction, k: int)
    requires
        gate_callee(inst) is Some,
        0 <= k < gate_qubits(inst).len(),
        lookup(st.qubits, gate_qubits(inst)[k]) is None,
        forall|j: int| 0 <= j < k ==> lookup(st.qubits, #[trigger] gate_qubits(inst)[j]) is Some,
    ensures
        emit_one_spec(st, inst) == Err::<EmitState, EmitErrorView>(err(EmitErrorKind::QubitNotFound, gate_qubits(inst)[k])),
{
    let qs = gate_qubits(inst);
    if k == 1 {
        assert(lookup(st.qubits, qs[0]) is Some);
    }
}

/// Whether the steps `a` begin the steps `b`.
pub open spec fn steps_prefix(a: Seq<StepView>, b: Seq<StepView>) -> bool {
    a.len() <= b.len() && forall|i: int| 0 <= i < a.len() ==> #[trigger] b[i] == a[i]
}

/// The code of one instruction only adds steps after those already planned.
proof fn lemma_one_keeps_steps(st: EmitState, inst: Instruction)
    ensures
        emit_one_spec(st, inst) matches Ok(st2) ==> steps_prefix(st.steps, st2.steps),
    decreases inst,
{
    match inst {
        Instruction::If(i) => {
            match condition_spec(st, i.condition@) {
                Err(_) => {},
                Ok((st3, eq)) => {
                    let tb = st3.blocks.len() as u64;
                    let eb = (st3.blocks.len() + 1) as u64;
                    let cb = (st3.blocks.len() + 2) as u64;
                    let st4 = EmitState {
                        blocks: st3.blocks.push("then"@).push("else"@).push("continue"@),
                        steps: st3.steps.push(StepView::CondBr { cond: eq, then_block: tb, else_block: eb }).push(
                            StepView::PositionAt { block: tb },
                        ),
                        ..st3
                    };
                    lemma_list_keeps_steps(st4, i.then_insts@);
                    match emit_list_spec(st4, i.then_insts@) {
                        Err(_) => {},
                        Ok(st5) => {
                            let st6 = add_step(add_step(st5, StepView::Br { block: cb }), StepView::PositionAt { block: eb });
                            lemma_list_keeps_steps(st6, i.else_insts@);
                            match emit_list_spec(st6, i.else_insts@) {
                                Err(_) => {},
                                Ok(st7) => {
                                    let st8 = add_step(add_step(st7, StepView::Br { block: cb }), StepView::PositionAt { block: cb });
                                    assert(steps_prefix(st.steps, st3.steps));
                                    assert(steps_prefix(st.steps, st4.steps));
                                    assert(steps_prefix(st.steps, st5.steps));
                                    assert(steps_prefix(st.steps, st6.steps));
                                    assert(steps_prefix(st.steps, st7.steps));
                                    assert(steps_prefix(st.steps, st8.steps));
                                },
                            }
                        },
                    }
                },
            }
        },
        _ => {},
    }
}

/// The code of a list of instructions only adds steps after those already
/// planned.
proof fn lemma_list_keeps_steps(st: EmitState, insts: Seq<Instruction>)
    ensures
        emit_list_spec(st, insts) matches Ok(st2) ==> steps_prefix(st.steps, st2.steps),
    decreases insts,
{
    if insts.len() > 0 {
        lemma_one_keeps_steps(st, insts[0]);
        match emit_one_spec(st, insts[0]) {
            Err(_) => {},
            Ok(st1) => {
                lemma_list_keeps_steps(st1, insts.subrange(1, insts.len() as int));
            },
        }
    }
}

/// Releasing qubits only adds steps.
proof fn lemma_releases_keep_steps(st: EmitState, k: int)
    ensures
        steps_prefix(st.steps, releases_spec(st, k).steps),
    decreases k,
{
    if k > 0 {
        lemma_releases_keep_steps(st, k - 1);
    }
}

/// With static allocation the k-th qubit gets one step that gives it the
/// static id k and the next value.
proof fn lemma_static_qubit_steps(st: EmitState, qs: Seq<QuantumRegister>)
    ensures
        qubits_spec(st, qs, true).steps.len() == st.steps.len() + qs.len(),
        qubits_spec(st, qs, true).next_value == st.next_value + qs.len(),
        steps_prefix(st.steps, qubits_spec(st, qs, true).steps),
        forall|k: int|
            0 <= k < qs.len() ==> qubits_spec(st, qs, true).steps[st.steps.len() + k] == (StepView::StaticQubit {
                value: (st.next_value + k) as u64,
                id: k as u64,
                name: indexed_name((#[trigger] qs[k]).name@, qs[k].index),
            }),
    decreases qs.len(),
{
    if qs.len() > 0 {
        let pre = qs.drop_last();
        lemma_static_qubit_steps(st, pre);
        let st1 = qubits_spec(st, pre, true);
        let st2 = qubits_spec(st, qs, true);
        let n = st.steps.len() as int;
        assert(st2.steps == st1.steps.push(StepView::StaticQubit {
            value: st1.next_value as u64,
            id: (qs.len() - 1) as u64,
            name: indexed_name(qs.last().name@, qs.last().index),
        }));
        assert forall|k: int| 0 <= k < qs.len() implies st2.steps[n + k] == (StepView::StaticQubit {
            value: (st.next_value + k) as u64,
            id: k as u64,
            name: indexed_name((#[trigger] qs[k]).name@, qs[k].index),
        }) by {
            if k < pre.len() {
                assert(pre[k] == qs[k]);
                assert(st2.steps[n + k] == st1.steps[n + k]);
            }
        }
    }
}

/// With static allocation, the plan gives the k-th qubit of the model, right
/// after entering the entry block, the static id k (its position among the
/// model's qubits) and the value k; so distinct qubits get distinct ids.
pub proof fn lemma_static_qubit_ids(model: SemanticModel)
    requires
        model.static_alloc,
    ensures
        plan_spec(model) matches Ok(p) ==> forall|k: int|
            0 <= k < model.qubits.len() ==> p.steps[k + 1] == (StepView::StaticQubit {
                value: k as u64,
                id: k as u64,
                name: indexed_name((#[trigger] model.qubits@[k]).name@, model.qubits@[k].index),
            }),
        plan_spec(model) matches Ok(p) ==> forall|j: int, k: int|
            0 <= j < k < model.qubits.len() ==> (#[trigger] p.steps[j + 1])->StaticQubit_id != (#[trigger] p.steps[k
                + 1])->StaticQubit_id,
{
    let st0 = initial_state();
    let st1 = qubits_spec(st0, model.qubits@, true);
    lemma_static_qubit_steps(st0, model.qubits@);
    let st2 = EmitState { registers: registers_spec(model.registers@), ..st1 };
    lemma_list_keeps_steps(st2, model.instructions@);
    match emit_list_spec(st2, model.instructions@) {
        Err(_) => {},
        Ok(st3) => {
            let p = plan_spec(model)->Ok_0;
            assert(p.steps == st3.steps.push(StepView::Ret));
            assert forall|k: int| 0 <= k < model.qubits.len() implies p.steps[k + 1] == (StepView::StaticQubit {
                value: k as u64,
                id: k as u64,
                name: indexed_name((#[trigger] model.qubits@[k]).name@, model.qubits@[k].index),
            }) by {
                assert(st1.steps[1 + k] == p.steps[k + 1]);
            }
            assert forall|j: int, k: int| 0 <= j < k < model.qubits.len() implies (#[trigger] p.steps[j + 1])->StaticQubit_id
                != (#[trigger] p.steps[k + 1])->StaticQubit_id by {
                assert(st1.steps[1 + k] == p.steps[k + 1]);
                assert(st1.steps[1 + j] == p.steps[j + 1]);
                assert(st1.steps[1 + k] == (StepView::StaticQubit {
                    value: k as u64,
                    id: k as u64,
                    name: indexed_name(model.qubits@[k].name@, model.qubits@[k].index),
                }));
                assert(st1.steps[1 + j] == (StepView::StaticQubit {
                    value: j as u64,
                    id: j as u64,
                    name: indexed_name(model.qubits@[j].name@, model.qubits@[j].index),
                }));
                assert(k <= usize::MAX);
                assert(j as u64 != k as u64);
            }
        },
    }
}

/// Allocating qubits leaves the blocks, the registers and the declarations alone.
proof fn lemma_qubits_keep_others(st: EmitState, qs: Seq<QuantumRegister>, static_alloc: bool)
    ensures
        qubits_spec(st, qs, static_alloc).blocks == st.blocks,
        qubits_spec(st, qs, static_alloc).registers == st.registers,
        qubits_spec(st, qs, static_alloc).declared == st.declared,
    decreases qs.len(),
{
    if qs.len() > 0 {
        lemma_qubits_keep_others(st, qs.drop_last(), static_alloc);
    }
}

/// Plans the entry function of a model, or reports why code generation
/// gives up on it: the errors are those of the instructions (see
/// `EmitErrorKind`), each of which stops code generation with its message.
pub fn try_plan(model: &SemanticModel) -> (r: Result<Plan, EmitError>)
    ensures
        match plan_spec(*model) {
            Ok(p) => (r matches Ok(x) && plan_view(x) == p),
            Err(e) => (r matches Err(x) && error_view(x) == e),
        },
        r matches Ok(x) ==> blocks_ok(plan_view(x).steps, plan_view(x).blocks.len() as int),
{
    proof {
        lemma_plan_blocks(*model);
    }
    let mut steps: Vec<Step> = Vec::new();
    steps.push(Step::PositionAt { block: 0 });
    let mut blocks: Vec<String> = Vec::new();
    blocks.push(String::from_str("entry"));
    let mut e = Emitter {
        steps,
        blocks,
        next_value: 0,
        qubits: Vec::new(),
        registers: Vec::new(),
        declared: Vec::new(),
    };
    assert(steps_view(e.steps@) =~= seq![StepView::PositionAt { block: 0 }]);
    assert(names_view(e.blocks@) =~= seq!["entry"@]);
    assert(entries_view(e.qubits@) =~= Seq::<(Seq<char>, u64)>::empty());
    assert(entries_view(e.registers@) =~= Seq::<(Seq<char>, Option<u64>)>::empty());
    assert(names_view(e.declared@) =~= Seq::<Seq<char>>::empty());
    assert(e.view() == initial_state());
    let mut k: usize = 0;
    assert(model.qubits@.take(0) =~= Seq::<QuantumRegister>::empty());
    while k < model.qubits.len()
        invariant
            0 <= k <= model.qubits.len(),
            e.inv(),
            e.view() == qubits_spec(initial_state(), model.qubits@.take(k as int), model.static_alloc),
        decreases model.qubits.len() - k,
    {
        assert(model.qubits@.take(k + 1).drop_last() =~= model.qubits@.take(k as int));
        assert(model.qubits@.take(k + 1).last() == model.qubits@[k as int]);
        let q = &model.qubits[k];
        let name = with_decimal_suffix(q.name.as_str(), q.index);
        let v = if model.static_alloc {
            e.static_qubit(k as u64, name.clone())
        } else {
            let args: Vec<Operand> = Vec::new();
            assert(operands_view(args@) =~= Seq::<OperandView>::empty());
            e.make_value(Intrinsic::QubitAllocate, args, name.clone())
        };
        e.add_qubit(name, v);
        k = k + 1;
    }
    assert(model.qubits@.take(model.qubits.len() as int) =~= model.qubits@);
    let ghost st1 = e.view();
    let mut i: usize = 0;
    assert(model.registers@.take(0) =~= Seq::<ClassicalRegister>::empty());
    proof {
        lemma_qubits_keep_others(initial_state(), model.qubits@, model.static_alloc);
    }
    assert(registers_spec(model.registers@.take(0)) =~= Seq::<(Seq<char>, Option<u64>)>::empty());
    assert(e.view() =~= (EmitState { registers: registers_spec(model.registers@.take(0)), ..st1 }));
    while i < model.registers.len()
        invariant
            0 <= i <= model.registers.len(),
            e.inv(),
            e.view() == (EmitState { registers: registers_spec(model.registers@.take(i as int)), ..st1 }),
        decreases model.registers.len() - i,
    {
        assert(model.registers@.take(i + 1).drop_last() =~= model.registers@.take(i as int));
        assert(model.registers@.take(i + 1).last() == model.registers@[i as int]);
        let reg = &model.registers[i];
        let ghost before = registers_spec(model.registers@.take(i as int));
        let mut j: u64 = 0;
        assert(before + register_entries(reg.name@, 0) =~= before);
        while j < reg.size
            invariant
                0 <= j <= reg.size,
                e.inv(),
                e.view() == (EmitState { registers: before + register_entries(reg.name@, j as nat), ..st1 }),
            decreases reg.size - j,
        {
            e.add_register(with_decimal_suffix(reg.name.as_str(), j));
            assert(before + register_entries(reg.name@, (j + 1) as nat) =~= (before + register_entries(
                reg.name@,
                j as nat,
            )).push((indexed_name(reg.name@, j), None)));
            j = j + 1;
        }
        i = i + 1;
    }
    assert(model.registers@.take(model.registers.len() as int) =~= model.registers@);
    match e.emit_list(&model.instructions) {
        Ok(()) => {},
        Err(err) => {
            return Err(err);
        },
    }
    if !model.static_alloc {
        let ghost st3 = e.view();
        let n = e.qubits.len();
        let mut k: usize = 0;
        while k < n
            invariant
                0 <= k <= n,
                n == e.qubits.len(),
                n == st3.qubits.len(),
                e.inv(),
                e.view() == releases_spec(st3, k as int),
                entries_view(e.qubits@) == st3.qubits,
            decreases n - k,
        {
            let name = e.qubits[k].0.clone();
            let v = e.qubits[k].1;
            assert(st3.qubits[k as int] == (name@, v));
            match find(&e.qubits, name.as_str()) {
                Some(w) => {
                    if w == v {
                        let mut args: Vec<Operand> = Vec::new();
                        args.push(Operand::Value(v));
                        assert(operands_view(args@) =~= seq![OperandView::Value(v)]);
                        e.gate(Intrinsic::QubitRelease, args);
                    }
                },
                None => {},
            }
            k = k + 1;
        }
    }
    e.push(Step::Ret);
    let required_qubits = if model.static_alloc {
        Some(to_decimal(model.qubits.len() as u64))
    } else {
        None
    };
    let r = Plan {
        entry_point: String::from_str("QuantumApplication__Run"),
        required_qubits,
        blocks: e.blocks,
        steps: e.steps,
    };
    assert(plan_view(r).blocks.len() == r.blocks.len());
    assert(r.blocks.len() <= u64::MAX);
    Ok(r)
}

/// Plans the entry function of a model on which code generation does not
/// give up (see `try_plan`, which tells those models apart).
pub fn plan(model: &SemanticModel) -> (r: Plan)
    requires
        plan_spec(*model) is Ok,
    ensures
        plan_spec(*model) == Ok::<PlanView, EmitErrorView>(plan_view(r)),
        blocks_ok(plan_view(r).steps, plan_view(r).blocks.len() as int),
{
    match try_plan(model) {
        Ok(p) => p,
        Err(_) => {
            proof {
                assert(false);
            }
            Plan { entry_point: String::new(), required_qubits: None, blocks: Vec::new(), steps: Vec::new() }
        },
    }
}

} // verus!
