//! The semantic model of a quantum program: its registers, qubits and the
//! instructions that act on them. Code generation reads it and the JIT
//! produces it.

use vstd::prelude::*;

verus! {

/// A qubit, named by a register name and an index in that register.
#[derive(Clone, Debug, PartialEq)]
pub struct QuantumRegister {
    pub name: String,
    pub index: u64,
}

impl QuantumRegister {
    /// The qubit `index` of the register `name`.
    pub fn new(name: String, index: u64) -> (r: QuantumRegister)
        ensures
            r.name == name,
            r.index == index,
    {
        QuantumRegister { name, index }
    }
}

/// A register of `size` measurement results.
#[derive(Clone, Debug, PartialEq)]
pub struct ClassicalRegister {
    pub name: String,
    pub size: u64,
}

impl ClassicalRegister {
    /// A register named `name` of `size` results.
    pub fn new(name: String, size: u64) -> (r: ClassicalRegister)
        ensures
            r.name == name,
            r.size == size,
    {
        ClassicalRegister { name, size }
    }
}

/// A two-qubit gate: a control qubit and a target qubit.
#[derive(Clone, Debug, PartialEq)]
pub struct Controlled {
    pub control: String,
    pub target: String,
}

impl Controlled {
    /// A gate controlled by `control` acting on `target`.
    pub fn new(control: String, target: String) -> (r: Controlled)
        ensures
            r.control == control,
            r.target == target,
    {
        Controlled { control, target }
    }
}

/// A single-qubit gate.
#[derive(Clone, Debug, PartialEq)]
pub struct Single {
    pub qubit: String,
}

impl Single {
    /// A gate on `qubit`.
    pub fn new(qubit: String) -> (r: Single)
        ensures
            r.qubit == qubit,
    {
        Single { qubit }
    }
}

/// A measurement of `qubit` into the result named `target`.
#[derive(Clone, Debug, PartialEq)]
pub struct Measured {
    pub qubit: String,
    pub target: String,
}

impl Measured {
    /// A measurement of `qubit` into `target`.
    pub fn new(qubit: String, target: String) -> (r: Measured)
        ensures
            r.qubit == qubit,
            r.target == target,
    {
        Measured { qubit, target }
    }
}

/// A rotation of `qubit` by an angle, given by the IEEE 754 bits of the
/// double-precision angle.
#[derive(Clone, Debug, PartialEq)]
pub struct Rotated {
    pub theta: u64,
    pub qubit: String,
}

impl Rotated {
    /// A rotation of `qubit` by the angle with the bits `theta`.
    pub fn new(theta: u64, qubit: String) -> (r: Rotated)
        ensures
            r.theta == theta,
            r.qubit == qubit,
    {
        Rotated { theta, qubit }
    }
}

/// A branch on a measurement result: the `then` instructions run when the
/// result is one, the `else` instructions when it is zero.
#[derive(Debug, PartialEq)]
pub struct If {
    pub condition: String,
    pub then_insts: Vec<Instruction>,
    pub else_insts: Vec<Instruction>,
}

/// An argument of a call to an external function: its type (`Qubit`,
/// `Result`, `f64`, `i64` or `i8`) and its value as text.
#[derive(Clone, Debug, PartialEq)]
pub struct CallArg {
    pub arg_type: String,
    pub value: String,
}

/// A call to an externally declared function that returns nothing.
#[derive(Clone, Debug, PartialEq)]
pub struct Call {
    pub name: String,
    pub args: Vec<CallArg>,
}

/// An instruction of the model.
#[derive(Debug, PartialEq)]
pub enum Instruction {
    Cx(Controlled),
    Cz(Controlled),
    H(Single),
    M(Measured),
    Reset(Single),
    Rx(Rotated),
    Ry(Rotated),
    Rz(Rotated),
    S(Single),
    SAdj(Single),
    T(Single),
    TAdj(Single),
    X(Single),
    Y(Single),
    Z(Single),
    If(If),
    Call(Call),
    DumpMachine,
}

/// A quantum program: its name, its classical registers, its qubits, its
/// instructions, and whether its qubits are allocated statically.
#[derive(Debug, PartialEq)]
pub struct SemanticModel {
    pub name: String,
    pub registers: Vec<ClassicalRegister>,
    pub qubits: Vec<QuantumRegister>,
    pub instructions: Vec<Instruction>,
    pub static_alloc: bool,
}

} // verus!
