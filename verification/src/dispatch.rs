//! Handing the instructions of a run to a Python object: which method is
//! called, with which arguments.

use vstd::prelude::*;
use crate::model::{Instruction, SemanticModel};
use crate::text::{decimal, str_eq, to_decimal, to_lowercase, unicode_lowercase};

verus! {

/// An argument of a callback: a qubit or result name, or an angle given by
/// the IEEE 754 bits of a double.
pub enum CallbackArg {
    Text(String),
    Angle(u64),
}

/// A method call on the Python object that observes a run.
pub struct Callback {
    pub method: String,
    pub args: Vec<CallbackArg>,
}

/// Whether the observer can be told of an instruction: every instruction of a
/// run but resets, machine dumps, branches and calls.
pub open spec fn is_dispatchable(inst: Instruction) -> bool {
    match inst {
        Instruction::Reset(_) | Instruction::DumpMachine | Instruction::If(_) | Instruction::Call(_) => false,
        _ => true,
    }
}

/// The argument is the text `t`.
pub open spec fn is_text(a: CallbackArg, t: Seq<char>) -> bool {
    a matches CallbackArg::Text(s) && s@ == t
}

/// The callback has method `m` and the texts `ts` as arguments.
pub open spec fn texts_call(cb: Callback, m: Seq<char>, ts: Seq<Seq<char>>) -> bool {
    &&& cb.method@ == m
    &&& cb.args.len() == ts.len()
    &&& forall|i: int| 0 <= i < ts.len() ==> is_text(#[trigger] cb.args@[i], ts[i])
}

/// The callback has method `m` and the arguments `theta` and `q`.
pub open spec fn rotation_call(cb: Callback, m: Seq<char>, theta: u64, q: Seq<char>) -> bool {
    &&& cb.method@ == m
    &&& cb.args.len() == 2
    &&& cb.args@[0] == CallbackArg::Angle(theta)
    &&& is_text(cb.args@[1], q)
}

/// The callback that tells the observer of an instruction: the method named
/// after the operation, with the qubits (control first), the measured qubit and
/// its result, or the angle and the qubit.
pub open spec fn callback_for_spec(cb: Callback, inst: Instruction) -> bool {
    match inst {
        Instruction::Cx(c) => texts_call(cb, "cx"@, seq![c.control@, c.target@]),
        Instruction::Cz(c) => texts_call(cb, "cz"@, seq![c.control@, c.target@]),
        Instruction::H(s) => texts_call(cb, "h"@, seq![s.qubit@]),
        Instruction::M(m) => texts_call(cb, "m"@, seq![m.qubit@, m.target@]),
        Instruction::Rx(r) => rotation_call(cb, "rx"@, r.theta, r.qubit@),
        Instruction::Ry(r) => rotation_call(cb, "ry"@, r.theta, r.qubit@),
        Instruction::Rz(r) => rotation_call(cb, "rz"@, r.theta, r.qubit@),
        Instruction::S(s) => texts_call(cb, "s"@, seq![s.qubit@]),
        Instruction::SAdj(s) => texts_call(cb, "s_adj"@, seq![s.qubit@]),
        Instruction::T(s) => texts_call(cb, "t"@, seq![s.qubit@]),
        Instruction::TAdj(s) => texts_call(cb, "t_adj"@, seq![s.qubit@]),
        Instruction::X(s) => texts_call(cb, "x"@, seq![s.qubit@]),
        Instruction::Y(s) => texts_call(cb, "y"@, seq![s.qubit@]),
        Instruction::Z(s) => texts_call(cb, "z"@, seq![s.qubit@]),
        _ => false,
    }
}

/// A callback with one text argument.
fn text_call(method: &str, a: &String) -> (r: Callback)
    ensures
        texts_call(r, method@, seq![a@]),
{
    let mut args: Vec<CallbackArg> = Vec::new();
    args.push(CallbackArg::Text(a.clone()));
    Callback { method: String::from_str(method), args }
}

/// A callback with two text arguments.
fn text_call2(method: &str, a: &String, b: &String) -> (r: Callback)
    ensures
        texts_call(r, method@, seq![a@, b@]),
{
    let mut args: Vec<CallbackArg> = Vec::new();
    args.push(CallbackArg::Text(a.clone()));
    args.push(CallbackArg::Text(b.clone()));
    Callback { method: String::from_str(method), args }
}

/// A callback with an angle and a qubit.
fn angle_call(method: &str, theta: u64, q: &String) -> (r: Callback)
    ensures
        rotation_call(r, method@, theta, q@),
{
    let mut args: Vec<CallbackArg> = Vec::new();
    args.push(CallbackArg::Angle(theta));
    args.push(CallbackArg::Text(q.clone()));
    Callback { method: String::from_str(method), args }
}

/// The callback that tells the observer of one instruction.
pub fn callback_for(inst: &Instruction) -> (r: Callback)
    requires
        is_dispatchable(*inst),
    ensures
        callback_for_spec(r, *inst),
{
    match inst {
        Instruction::Cx(c) => text_call2("cx", &c.control, &c.target),
        Instruction::Cz(c) => text_call2("cz", &c.control, &c.target),
        Instruction::H(s) => text_call("h", &s.qubit),
        Instruction::M(m) => text_call2("m", &m.qubit, &m.target),
        Instruction::Rx(r) => angle_call("rx", r.theta, &r.qubit),
        Instruction::Ry(r) => angle_call("ry", r.theta, &r.qubit),
        Instruction::Rz(r) => angle_call("rz", r.theta, &r.qubit),
        Instruction::S(s) => text_call("s", &s.qubit),
        Instruction::SAdj(s) => text_call("s_adj", &s.qubit),
        Instruction::T(s) => text_call("t", &s.qubit),
        Instruction::TAdj(s) => text_call("t_adj", &s.qubit),
        Instruction::X(s) => text_call("x", &s.qubit),
        Instruction::Y(s) => text_call("y", &s.qubit),
        Instruction::Z(s) => text_call("z", &s.qubit),
        _ => {
            assert(false);
            text_call("", &String::new())
        },
    }
}

/// The callbacks that tell the observer of a run, one per instruction, in
/// order.
pub fn callbacks(model: &SemanticModel) -> (r: Vec<Callback>)
    requires
        forall|i: int| 0 <= i < model.instructions.len() ==> is_dispatchable(#[trigger] model.instructions@[i]),
    ensures
        r.len() == model.instructions.len(),
        forall|i: int| 0 <= i < r.len() ==> callback_for_spec(#[trigger] r@[i], model.instructions@[i]),
{
    let mut r: Vec<Callback> = Vec::new();
    let mut i: usize = 0;
    while i < model.instructions.len()
        invariant
            0 <= i <= model.instructions.len(),
            r.len() == i,
            forall|k: int| 0 <= k < model.instructions.len() ==> is_dispatchable(#[trigger] model.instructions@[k]),
            forall|k: int| 0 <= k < i ==> callback_for_spec(#[trigger] r@[k], model.instructions@[k]),
        decreases model.instructions.len() - i,
    {
        r.push(callback_for(&model.instructions[i]));
        i = i + 1;
    }
    r
}

/// An instruction of a run as the evaluator reports it: a gate name and its
/// arguments as text.
pub struct NamedInstruction {
    pub name: String,
    pub args: Vec<String>,
}

/// The views of a list of texts.
pub open spec fn texts(v: Seq<String>) -> Seq<Seq<char>> {
    v.map_values(|s: String| s@)
}

/// Whether an instruction is a measurement into the next implicit result
/// register: its name lower-cases to `m` and it has one argument.
pub open spec fn is_implicit_measurement(inst: NamedInstruction) -> bool {
    unicode_lowercase(inst.name@) == "m"@ && inst.args.len() == 1
}

/// Whether the evaluator can report an instruction: a measurement has at
/// least one argument, and two unless it has exactly one.
pub open spec fn is_reportable(inst: NamedInstruction) -> bool {
    unicode_lowercase(inst.name@) == "m"@ ==> inst.args.len() >= 1
}

/// The method and arguments that report an instruction, given the number of
/// the next implicit result register: a one-argument measurement becomes `m`
/// with that number appended, any other measurement `mz` with its first two
/// arguments, every other instruction itself.
pub open spec fn report_spec(inst: NamedInstruction, register: nat) -> (Seq<char>, Seq<Seq<char>>) {
    if unicode_lowercase(inst.name@) == "m"@ {
        if inst.args.len() == 1 {
            ("m"@, seq![inst.args@[0]@, decimal(register)])
        } else {
            ("mz"@, seq![inst.args@[0]@, inst.args@[1]@])
        }
    } else {
        (inst.name@, texts(inst.args@))
    }
}

/// Reports one instruction: the method to call and its arguments. Advances
/// the implicit result register on a one-argument measurement.
pub fn report(inst: NamedInstruction, register: &mut u64) -> (r: (String, Vec<String>))
    requires
        *old(register) < u64::MAX,
        is_reportable(inst),
    ensures
        (r.0@, texts(r.1@)) == report_spec(inst, *old(register) as nat),
        *final(register) == if is_implicit_measurement(inst) { *old(register) + 1 } else { *old(register) as int },
{
    let lower = to_lowercase(inst.name.as_str());
    if str_eq(lower.as_str(), "m") {
        if inst.args.len() == 1 {
            let v = to_decimal(*register);
            *register = *register + 1;
            let mut args: Vec<String> = Vec::new();
            args.push(inst.args[0].clone());
            args.push(v);
            proof {
                assert(texts(args@) =~= seq![inst.args@[0]@, decimal(*old(register) as nat)]);
            }
            (String::from_str("m"), args)
        } else {
            let mut args: Vec<String> = Vec::new();
            args.push(inst.args[0].clone());
            args.push(inst.args[1].clone());
            proof {
                assert(texts(args@) =~= seq![inst.args@[0]@, inst.args@[1]@]);
            }
            (String::from_str("mz"), args)
        }
    } else {
        (inst.name, inst.args)
    }
}

/// The number of implicit measurements among the first `k` instructions.
pub open spec fn implicit_measurements(insts: Seq<NamedInstruction>, k: int) -> nat
    decreases k,
{
    if k <= 0 {
        0
    } else {
        implicit_measurements(insts, k - 1) + if is_implicit_measurement(insts[k - 1]) { 1nat } else { 0nat }
    }
}

/// Reports every instruction of a run, in order. The implicit result
/// registers are numbered from zero in the order of the measurements.
pub fn report_all(insts: Vec<NamedInstruction>) -> (r: Vec<(String, Vec<String>)>)
    requires
        insts.len() < u64::MAX,
        forall|i: int| 0 <= i < insts.len() ==> is_reportable(#[trigger] insts@[i]),
    ensures
        r.len() == insts.len(),
        forall|i: int|
            0 <= i < r.len() ==> ((#[trigger] r@[i]).0@, texts(r@[i].1@)) == report_spec(
                insts@[i],
                implicit_measurements(insts@, i),
            ),
{
    let ghost all = insts@;
    let mut insts = insts;
    let mut r: Vec<(String, Vec<String>)> = Vec::new();
    let mut register: u64 = 0;
    let n = insts.len();
    while insts.len() > 0
        invariant
            n == all.len(),
            n < u64::MAX,
            insts.len() + r.len() == n,
            insts@ == all.subrange(r.len() as int, n as int),
            register as nat == implicit_measurements(all, r.len() as int),
            register <= r.len(),
            forall|i: int| 0 <= i < n ==> is_reportable(#[trigger] all[i]),
            forall|i: int|
                0 <= i < r.len() ==> ((#[trigger] r@[i]).0@, texts(r@[i].1@)) == report_spec(
                    all[i],
                    implicit_measurements(all, i),
                ),
        decreases insts.len(),
    {
        let ghost k = r.len() as int;
        let inst = insts.remove(0);
        assert(inst == all[k]);
        assert(insts@ =~= all.subrange(k + 1, n as int));
        let item = report(inst, &mut register);
        r.push(item);
    }
    r
}

} // verus!
