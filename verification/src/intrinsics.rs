//! The runtime functions that a QIR program calls, the symbols under which
//! the JIT looks them up, and the recording of the gates that a run applies.

use vstd::prelude::*;
use vstd::utf8::is_ascii_chars;
use inkwell::execution_engine::ExecutionEngine;
use inkwell::module::Module;
use inkwell::values::FunctionValue;
use crate::emit::ParamType;
use crate::model::{Controlled, Instruction, QuantumRegister, Rotated, SemanticModel, Single};
use crate::text::{ascii_lower, ascii_lower_char, concat3, decimal, to_decimal, to_lowercase, unicode_lowercase};

verus! {

/// The argument tuple of a controlled rotation as a program passes it to
/// the runtime: an opaque record that only the runtime looks into.
#[allow(dead_code)]
pub struct QirRTuple {
    private: [u8; 0],
}

#[verifier::external_type_specification]
#[verifier::external_body]
pub struct ExExecutionEngine<'ctx>(ExecutionEngine<'ctx>);

/// The functions that a module declares or defines, by symbol: what the
/// module's symbol table holds, as far as this library reads it. No function
/// of this library adds to a module or renames its functions, so the table
/// stays that of the module while it is read.
pub uninterp spec fn module_functions_by_name(module: Module<'_>) -> Map<Seq<char>, FunctionValue<'_>>;

/// The symbols under which a module holds a function.
pub open spec fn module_function_names(module: Module<'_>) -> Set<Seq<char>> {
    module_functions_by_name(module).dom()
}

/// The function that a table of functions holds under a symbol, if any.
pub open spec fn declared_function<'ctx>(fns: Map<Seq<char>, FunctionValue<'ctx>>, symbol: Seq<char>) -> Option<FunctionValue<'ctx>> {
    if fns.dom().contains(symbol) {
        Some(fns[symbol])
    } else {
        None
    }
}

/// `Module::get_function`: the function of the module with the given name.
/// For a name without a NUL character, the result is the function that the
/// module's symbol table holds under that name, and `None` when it holds
/// none; the contract leaves names with a NUL character open, since the
/// lookup then uses the text before the NUL.
#[verifier::external_body]
pub(crate) fn get_function<'ctx>(module: &Module<'ctx>, name: &str) -> (r: Option<FunctionValue<'ctx>>)
    ensures
        !name@.contains('\0') ==> r == declared_function(module_functions_by_name(*module), name@),
{
    module.get_function(name)
}

/// A record of one global mapping that was made: calls to `function` go to
/// the native code at `address`.
#[derive(Clone, Copy)]
pub struct GlobalMapping<'ctx> {
    pub function: FunctionValue<'ctx>,
    pub address: usize,
}

/// `ExecutionEngine::add_global_mapping`: makes calls to the function go to
/// the native code at `addr`, and hands back a record of the function and
/// address that it passed on. Nothing is stated of the engine's state.
#[verifier::external_body]
pub(crate) fn add_global_mapping<'ctx>(ee: &ExecutionEngine<'ctx>, f: &FunctionValue<'ctx>, addr: usize) -> (r: GlobalMapping<'ctx>)
    ensures
        r.function == *f,
        r.address == addr,
{
    ee.add_global_mapping(f, addr);
    GlobalMapping { function: *f, address: addr }
}

/// The symbol of the body of a quantum instruction.
pub open spec fn qis_body_symbol(op: Seq<char>) -> Seq<char> {
    "__quantum__qis__"@ + op + "__body"@
}

/// The symbol of the adjoint of a quantum instruction.
pub open spec fn qis_adj_symbol(op: Seq<char>) -> Seq<char> {
    "__quantum__qis__"@ + op + "__adj"@
}

/// The symbol of a runtime function.
pub open spec fn rt_symbol(op: Seq<char>) -> Seq<char> {
    "__quantum__rt__"@ + op
}

/// The symbol of the body of the quantum instruction `name` (lower-cased).
pub fn qis_body_name(name: &str) -> (r: String)
    ensures
        r@ == qis_body_symbol(unicode_lowercase(name@)),
        is_ascii_chars(name@) ==> r@ == qis_body_symbol(ascii_lower(name@)),
{
    let lower = to_lowercase(name);
    concat3("__quantum__qis__", lower.as_str(), "__body")
}

/// The symbol of the adjoint of the quantum instruction `name` (lower-cased).
pub fn qis_adj_name(name: &str) -> (r: String)
    ensures
        r@ == qis_adj_symbol(unicode_lowercase(name@)),
        is_ascii_chars(name@) ==> r@ == qis_adj_symbol(ascii_lower(name@)),
{
    let lower = to_lowercase(name);
    concat3("__quantum__qis__", lower.as_str(), "__adj")
}

/// The symbol of the runtime function `name` (lower-cased).
pub fn rt_name(name: &str) -> (r: String)
    ensures
        r@ == rt_symbol(unicode_lowercase(name@)),
        is_ascii_chars(name@) ==> r@ == rt_symbol(ascii_lower(name@)),
{
    let lower = to_lowercase(name);
    let mut r = String::from_str("__quantum__rt__");
    r.append(lower.as_str());
    r
}

/// Lower-casing keeps a text free of NUL characters.
proof fn lemma_ascii_lower_no_nul(s: Seq<char>)
    requires
        !s.contains('\0'),
    ensures
        !ascii_lower(s).contains('\0'),
{
    if ascii_lower(s).contains('\0') {
        let i = choose|i: int| 0 <= i < ascii_lower(s).len() && ascii_lower(s)[i] == '\0';
        assert(ascii_lower_char(s[i]) == '\0');
        assert(s[i] == '\0');
    }
}

/// The fixed parts of the symbols hold no NUL character.
proof fn lemma_symbol_parts_no_nul(op: Seq<char>)
    requires
        !op.contains('\0'),
    ensures
        !qis_body_symbol(op).contains('\0'),
        !qis_adj_symbol(op).contains('\0'),
        !rt_symbol(op).contains('\0'),
{
    reveal_strlit("__quantum__qis__");
    reveal_strlit("__quantum__rt__");
    reveal_strlit("__body");
    reveal_strlit("__adj");
    let a = "__quantum__qis__"@;
    let b = "__quantum__rt__"@;
    let c = "__body"@;
    let d = "__adj"@;
    assert(!a.contains('\0'));
    assert(!b.contains('\0'));
    assert(!c.contains('\0'));
    assert(!d.contains('\0'));
    lemma_concat_no_nul(a, op);
    lemma_concat_no_nul(a + op, c);
    lemma_concat_no_nul(a + op, d);
    lemma_concat_no_nul(b, op);
}

/// Joining two texts free of NUL characters gives a text free of them.
proof fn lemma_concat_no_nul(x: Seq<char>, y: Seq<char>)
    requires
        !x.contains('\0'),
        !y.contains('\0'),
    ensures
        !(x + y).contains('\0'),
{
    if (x + y).contains('\0') {
        let i = choose|i: int| 0 <= i < (x + y).len() && (x + y)[i] == '\0';
        if i < x.len() {
            assert(x[i] == '\0');
        } else {
            assert(y[i - x.len()] == '\0');
        }
    }
}

/// A runtime function or quantum instruction that a program can call and
/// that the JIT binds to native code.
#[derive(Clone, Copy, Debug, PartialEq, Eq, Structural)]
pub enum Intrinsic {
    Cnot,
    Cz,
    M,
    Rx,
    Ry,
    Rz,
    Reset,
    H,
    X,
    Y,
    Z,
    S,
    SAdj,
    T,
    TAdj,
    ResultGetOne,
    ResultGetZero,
    ResultEqual,
    QubitAllocate,
    QubitRelease,
}

/// The symbol under which a program declares the intrinsic.
pub open spec fn intrinsic_symbol(i: Intrinsic) -> Seq<char> {
    match i {
        Intrinsic::Cnot => qis_body_symbol("cnot"@),
        Intrinsic::Cz => qis_body_symbol("cz"@),
        Intrinsic::M => qis_body_symbol("m"@),
        Intrinsic::Rx => qis_body_symbol("rx"@),
        Intrinsic::Ry => qis_body_symbol("ry"@),
        Intrinsic::Rz => qis_body_symbol("rz"@),
        Intrinsic::Reset => qis_body_symbol("reset"@),
        Intrinsic::H => qis_body_symbol("h"@),
        Intrinsic::X => qis_body_symbol("x"@),
        Intrinsic::Y => qis_body_symbol("y"@),
        Intrinsic::Z => qis_body_symbol("z"@),
        Intrinsic::S => qis_body_symbol("s"@),
        Intrinsic::SAdj => qis_adj_symbol("s"@),
        Intrinsic::T => qis_body_symbol("t"@),
        Intrinsic::TAdj => qis_adj_symbol("t"@),
        Intrinsic::ResultGetOne => rt_symbol("result_get_one"@),
        Intrinsic::ResultGetZero => rt_symbol("result_get_zero"@),
        Intrinsic::ResultEqual => rt_symbol("result_equal"@),
        Intrinsic::QubitAllocate => rt_symbol("qubit_allocate"@),
        Intrinsic::QubitRelease => rt_symbol("qubit_release"@),
    }
}

/// The position of the intrinsic in a table of native handlers.
pub open spec fn intrinsic_index(i: Intrinsic) -> nat {
    match i {
        Intrinsic::Cnot => 0,
        Intrinsic::Cz => 1,
        Intrinsic::M => 2,
        Intrinsic::Rx => 3,
        Intrinsic::Ry => 4,
        Intrinsic::Rz => 5,
        Intrinsic::Reset => 6,
        Intrinsic::H => 7,
        Intrinsic::X => 8,
        Intrinsic::Y => 9,
        Intrinsic::Z => 10,
        Intrinsic::S => 11,
        Intrinsic::SAdj => 12,
        Intrinsic::T => 13,
        Intrinsic::TAdj => 14,
        Intrinsic::ResultGetOne => 15,
        Intrinsic::ResultGetZero => 16,
        Intrinsic::ResultEqual => 17,
        Intrinsic::QubitAllocate => 18,
        Intrinsic::QubitRelease => 19,
    }
}

/// The number of intrinsics.
pub const NUM_INTRINSICS: usize = 20;

/// The order in which the JIT binds the intrinsics.
pub open spec fn bind_order() -> Seq<Intrinsic> {
    seq![Intrinsic::Cnot, Intrinsic::Cz, Intrinsic::H, Intrinsic::S, Intrinsic::SAdj, Intrinsic::T, Intrinsic::TAdj, Intrinsic::X, Intrinsic::Y, Intrinsic::Z, Intrinsic::Rx, Intrinsic::Ry, Intrinsic::Rz, Intrinsic::Reset, Intrinsic::M, Intrinsic::ResultGetOne, Intrinsic::ResultGetZero, Intrinsic::ResultEqual, Intrinsic::QubitAllocate, Intrinsic::QubitRelease]
}

impl Intrinsic {
    /// The position of the intrinsic in a table of native handlers.
    pub fn index(self) -> (r: usize)
        ensures
            r == intrinsic_index(self),
            r < NUM_INTRINSICS,
    {
        match self {
            Intrinsic::Cnot => 0,
            Intrinsic::Cz => 1,
            Intrinsic::M => 2,
            Intrinsic::Rx => 3,
            Intrinsic::Ry => 4,
            Intrinsic::Rz => 5,
            Intrinsic::Reset => 6,
            Intrinsic::H => 7,
            Intrinsic::X => 8,
            Intrinsic::Y => 9,
            Intrinsic::Z => 10,
            Intrinsic::S => 11,
            Intrinsic::SAdj => 12,
            Intrinsic::T => 13,
            Intrinsic::TAdj => 14,
            Intrinsic::ResultGetOne => 15,
            Intrinsic::ResultGetZero => 16,
            Intrinsic::ResultEqual => 17,
            Intrinsic::QubitAllocate => 18,
            Intrinsic::QubitRelease => 19,
        }
    }

    /// The symbol under which a program declares the intrinsic.
    pub fn symbol(self) -> (r: String)
        ensures
            r@ == intrinsic_symbol(self),
    {
        match self {
            Intrinsic::Cnot => {
                let r = qis_body_name("cnot");
                proof {
                    reveal_strlit("cnot");
                    reveal_strlit("cnot");
                    assert(ascii_lower("cnot"@) =~= "cnot"@);
                }
                r
            },
            Intrinsic::Cz => {
                let r = qis_body_name("Cz");
                proof {
                    reveal_strlit("Cz");
                    reveal_strlit("cz");
                    assert(ascii_lower("Cz"@) =~= "cz"@);
                }
                r
            },
            Intrinsic::M => {
                let r = qis_body_name("M");
                proof {
                    reveal_strlit("M");
                    reveal_strlit("m");
                    assert(ascii_lower("M"@) =~= "m"@);
                }
                r
            },
            Intrinsic::Rx => {
                let r = qis_body_name("Rx");
                proof {
                    reveal_strlit("Rx");
                    reveal_strlit("rx");
                    assert(ascii_lower("Rx"@) =~= "rx"@);
                }
                r
            },
            Intrinsic::Ry => {
                let r = qis_body_name("Ry");
                proof {
                    reveal_strlit("Ry");
                    reveal_strlit("ry");
                    assert(ascii_lower("Ry"@) =~= "ry"@);
                }
                r
            },
            Intrinsic::Rz => {
                let r = qis_body_name("Rz");
                proof {
                    reveal_strlit("Rz");
                    reveal_strlit("rz");
                    assert(ascii_lower("Rz"@) =~= "rz"@);
                }
                r
            },
            Intrinsic::Reset => {
                let r = qis_body_name("Reset");
                proof {
                    reveal_strlit("Reset");
                    reveal_strlit("reset");
                    assert(ascii_lower("Reset"@) =~= "reset"@);
                }
                r
            },
            Intrinsic::H => {
                let r = qis_body_name("H");
                proof {
                    reveal_strlit("H");
                    reveal_strlit("h");
                    assert(ascii_lower("H"@) =~= "h"@);
                }
                r
            },
            Intrinsic::X => {
                let r = qis_body_name("X");
                proof {
                    reveal_strlit("X");
                    reveal_strlit("x");
                    assert(ascii_lower("X"@) =~= "x"@);
                }
                r
            },
            Intrinsic::Y => {
                let r = qis_body_name("Y");
                proof {
                    reveal_strlit("Y");
                    reveal_strlit("y");
                    assert(ascii_lower("Y"@) =~= "y"@);
                }
                r
            },
            Intrinsic::Z => {
                let r = qis_body_name("Z");
                proof {
                    reveal_strlit("Z");
                    reveal_strlit("z");
                    assert(ascii_lower("Z"@) =~= "z"@);
                }
                r
            },
            Intrinsic::S => {
                let r = qis_body_name("S");
                proof {
                    reveal_strlit("S");
                    reveal_strlit("s");
                    assert(ascii_lower("S"@) =~= "s"@);
                }
                r
            },
            Intrinsic::SAdj => {
                let r = qis_adj_name("S");
                proof {
                    reveal_strlit("S");
                    reveal_strlit("s");
                    assert(ascii_lower("S"@) =~= "s"@);
                }
                r
            },
            Intrinsic::T => {
                let r = qis_body_name("T");
                proof {
                    reveal_strlit("T");
                    reveal_strlit("t");
                    assert(ascii_lower("T"@) =~= "t"@);
                }
                r
            },
            Intrinsic::TAdj => {
                let r = qis_adj_name("T");
                proof {
                    reveal_strlit("T");
                    reveal_strlit("t");
                    assert(ascii_lower("T"@) =~= "t"@);
                }
                r
            },
            Intrinsic::ResultGetOne => {
                let r = rt_name("result_get_one");
                proof {
                    reveal_strlit("result_get_one");
                    assert(ascii_lower("result_get_one"@) =~= "result_get_one"@);
                }
                r
            },
            Intrinsic::ResultGetZero => {
                let r = rt_name("result_get_zero");
                proof {
                    reveal_strlit("result_get_zero");
                    assert(ascii_lower("result_get_zero"@) =~= "result_get_zero"@);
                }
                r
            },
            Intrinsic::ResultEqual => {
                let r = rt_name("result_equal");
                proof {
                    reveal_strlit("result_equal");
                    assert(ascii_lower("result_equal"@) =~= "result_equal"@);
                }
                r
            },
            Intrinsic::QubitAllocate => {
                let r = rt_name("qubit_allocate");
                proof {
                    reveal_strlit("qubit_allocate");
                    assert(ascii_lower("qubit_allocate"@) =~= "qubit_allocate"@);
                }
                r
            },
            Intrinsic::QubitRelease => {
                let r = rt_name("qubit_release");
                proof {
                    reveal_strlit("qubit_release");
                    assert(ascii_lower("qubit_release"@) =~= "qubit_release"@);
                }
                r
            },
        }
    }

    /// What a call of the intrinsic records, if anything. The body of `Z`
    /// records a `Y` gate, as the runtime always has.
    pub fn gate(self) -> (r: Option<Gate>)
        ensures
            r == intrinsic_gate(self),
    {
        match self {
            Intrinsic::Cnot => Some(Gate::Cx),
            Intrinsic::Cz => Some(Gate::Cz),
            Intrinsic::M => None,
            Intrinsic::Rx => Some(Gate::Rx),
            Intrinsic::Ry => Some(Gate::Ry),
            Intrinsic::Rz => Some(Gate::Rz),
            Intrinsic::Reset => Some(Gate::Reset),
            Intrinsic::H => Some(Gate::H),
            Intrinsic::X => Some(Gate::X),
            Intrinsic::Y => Some(Gate::Y),
            Intrinsic::Z => Some(Gate::Y),
            Intrinsic::S => Some(Gate::S),
            Intrinsic::SAdj => Some(Gate::SAdj),
            Intrinsic::T => Some(Gate::T),
            Intrinsic::TAdj => Some(Gate::TAdj),
            Intrinsic::ResultGetOne => None,
            Intrinsic::ResultGetZero => None,
            Intrinsic::ResultEqual => None,
            Intrinsic::QubitAllocate => None,
            Intrinsic::QubitRelease => None,
        }
    }
}

/// What a call of the intrinsic records, if anything.
pub open spec fn intrinsic_gate(i: Intrinsic) -> Option<Gate> {
    match i {
        Intrinsic::Cnot => Some(Gate::Cx),
        Intrinsic::Cz => Some(Gate::Cz),
        Intrinsic::M => None,
        Intrinsic::Rx => Some(Gate::Rx),
        Intrinsic::Ry => Some(Gate::Ry),
        Intrinsic::Rz => Some(Gate::Rz),
        Intrinsic::Reset => Some(Gate::Reset),
        Intrinsic::H => Some(Gate::H),
        Intrinsic::X => Some(Gate::X),
        Intrinsic::Y => Some(Gate::Y),
        Intrinsic::Z => Some(Gate::Y),
        Intrinsic::S => Some(Gate::S),
        Intrinsic::SAdj => Some(Gate::SAdj),
        Intrinsic::T => Some(Gate::T),
        Intrinsic::TAdj => Some(Gate::TAdj),
        Intrinsic::ResultGetOne => None,
        Intrinsic::ResultGetZero => None,
        Intrinsic::ResultEqual => None,
        Intrinsic::QubitAllocate => None,
        Intrinsic::QubitRelease => None,
    }
}

/// What an intrinsic returns.
#[derive(Clone, Copy, Debug, PartialEq, Eq, Structural)]
pub enum ReturnType {
    Void,
    /// `%Qubit*`
    Qubit,
    /// `%Result*`
    Result,
    /// `i1`
    Bool,
}

/// The signature under which a program declares an intrinsic: gates take
/// their qubits (rotations the angle first) and return nothing; a measurement
/// returns its result; the runtime makes and compares results and allocates
/// and releases qubits.
pub open spec fn intrinsic_signature(i: Intrinsic) -> (ReturnType, Seq<ParamType>) {
    match i {
        Intrinsic::Cnot | Intrinsic::Cz => (ReturnType::Void, seq![ParamType::Qubit, ParamType::Qubit]),
        Intrinsic::M => (ReturnType::Result, seq![ParamType::Qubit]),
        Intrinsic::Rx | Intrinsic::Ry | Intrinsic::Rz => (ReturnType::Void, seq![ParamType::Double, ParamType::Qubit]),
        Intrinsic::ResultGetOne | Intrinsic::ResultGetZero => (ReturnType::Result, seq![]),
        Intrinsic::ResultEqual => (ReturnType::Bool, seq![ParamType::Result, ParamType::Result]),
        Intrinsic::QubitAllocate => (ReturnType::Qubit, seq![]),
        _ => (ReturnType::Void, seq![ParamType::Qubit]),
    }
}

impl Intrinsic {
    /// The signature under which a program declares the intrinsic.
    pub fn signature(self) -> (r: (ReturnType, Vec<ParamType>))
        ensures
            (r.0, r.1@) == intrinsic_signature(self),
    {
        let mut params: Vec<ParamType> = Vec::new();
        let ret = match self {
            Intrinsic::Cnot | Intrinsic::Cz => {
                params.push(ParamType::Qubit);
                params.push(ParamType::Qubit);
                ReturnType::Void
            },
            Intrinsic::M => {
                params.push(ParamType::Qubit);
                ReturnType::Result
            },
            Intrinsic::Rx | Intrinsic::Ry | Intrinsic::Rz => {
                params.push(ParamType::Double);
                params.push(ParamType::Qubit);
                ReturnType::Void
            },
            Intrinsic::ResultGetOne | Intrinsic::ResultGetZero => ReturnType::Result,
            Intrinsic::ResultEqual => {
                params.push(ParamType::Result);
                params.push(ParamType::Result);
                ReturnType::Bool
            },
            Intrinsic::QubitAllocate => ReturnType::Qubit,
            _ => {
                params.push(ParamType::Qubit);
                ReturnType::Void
            },
        };
        proof {
            assert(params@ =~= intrinsic_signature(self).1);
        }
        (ret, params)
    }
}

/// The intrinsics in the order in which the JIT binds them.
pub fn bind_order_vec() -> (r: Vec<Intrinsic>)
    ensures
        r@ == bind_order(),
{
    let mut r: Vec<Intrinsic> = Vec::new();
    r.push(Intrinsic::Cnot);
    r.push(Intrinsic::Cz);
    r.push(Intrinsic::H);
    r.push(Intrinsic::S);
    r.push(Intrinsic::SAdj);
    r.push(Intrinsic::T);
    r.push(Intrinsic::TAdj);
    r.push(Intrinsic::X);
    r.push(Intrinsic::Y);
    r.push(Intrinsic::Z);
    r.push(Intrinsic::Rx);
    r.push(Intrinsic::Ry);
    r.push(Intrinsic::Rz);
    r.push(Intrinsic::Reset);
    r.push(Intrinsic::M);
    r.push(Intrinsic::ResultGetOne);
    r.push(Intrinsic::ResultGetZero);
    r.push(Intrinsic::ResultEqual);
    r.push(Intrinsic::QubitAllocate);
    r.push(Intrinsic::QubitRelease);
    assert(r@ =~= bind_order());
    r
}

/// The quantum instruction functions that a module declares.
pub struct Intrinsics<'ctx> {
    pub cnot: Option<FunctionValue<'ctx>>,
    pub cz: Option<FunctionValue<'ctx>>,
    pub m: Option<FunctionValue<'ctx>>,
    pub r_x: Option<FunctionValue<'ctx>>,
    pub r_y: Option<FunctionValue<'ctx>>,
    pub r_z: Option<FunctionValue<'ctx>>,
    pub reset: Option<FunctionValue<'ctx>>,
    pub h: Option<FunctionValue<'ctx>>,
    pub x: Option<FunctionValue<'ctx>>,
    pub y: Option<FunctionValue<'ctx>>,
    pub z: Option<FunctionValue<'ctx>>,
    pub s: Option<FunctionValue<'ctx>>,
    pub s_adj: Option<FunctionValue<'ctx>>,
    pub t: Option<FunctionValue<'ctx>>,
    pub t_adj: Option<FunctionValue<'ctx>>,
}

/// Each field of `r` holds the function that the module declares under the
/// symbol of that instruction, and `None` when it declares none.
pub open spec fn intrinsics_found<'ctx>(r: Intrinsics<'ctx>, fns: Map<Seq<char>, FunctionValue<'ctx>>) -> bool {
    &&& r.cnot == declared_function(fns, intrinsic_symbol(Intrinsic::Cnot))
    &&& r.cz == declared_function(fns, intrinsic_symbol(Intrinsic::Cz))
    &&& r.m == declared_function(fns, intrinsic_symbol(Intrinsic::M))
    &&& r.r_x == declared_function(fns, intrinsic_symbol(Intrinsic::Rx))
    &&& r.r_y == declared_function(fns, intrinsic_symbol(Intrinsic::Ry))
    &&& r.r_z == declared_function(fns, intrinsic_symbol(Intrinsic::Rz))
    &&& r.reset == declared_function(fns, intrinsic_symbol(Intrinsic::Reset))
    &&& r.h == declared_function(fns, intrinsic_symbol(Intrinsic::H))
    &&& r.x == declared_function(fns, intrinsic_symbol(Intrinsic::X))
    &&& r.y == declared_function(fns, intrinsic_symbol(Intrinsic::Y))
    &&& r.z == declared_function(fns, intrinsic_symbol(Intrinsic::Z))
    &&& r.s == declared_function(fns, intrinsic_symbol(Intrinsic::S))
    &&& r.s_adj == declared_function(fns, intrinsic_symbol(Intrinsic::SAdj))
    &&& r.t == declared_function(fns, intrinsic_symbol(Intrinsic::T))
    &&& r.t_adj == declared_function(fns, intrinsic_symbol(Intrinsic::TAdj))
}

impl<'ctx> Intrinsics<'ctx> {
    /// Looks up the quantum instruction functions of a module.
    pub fn new(module: &Module<'ctx>) -> (r: Intrinsics<'ctx>)
        ensures
            intrinsics_found(r, module_functions_by_name(*module)),
    {
        proof {
            reveal_strlit("cnot");
            reveal_strlit("cnot");
            assert(ascii_lower("cnot"@) =~= "cnot"@);
        }
        let cnot = Self::get_qis_intrinsic_function_body(module, "cnot");
        proof {
            reveal_strlit("Cz");
            reveal_strlit("cz");
            assert(ascii_lower("Cz"@) =~= "cz"@);
        }
        let cz = Self::get_qis_intrinsic_function_body(module, "Cz");
        proof {
            reveal_strlit("M");
            reveal_strlit("m");
            assert(ascii_lower("M"@) =~= "m"@);
        }
        let m = Self::get_qis_intrinsic_function_body(module, "M");
        proof {
            reveal_strlit("Rx");
            reveal_strlit("rx");
            assert(ascii_lower("Rx"@) =~= "rx"@);
        }
        let r_x = Self::get_qis_intrinsic_function_body(module, "Rx");
        proof {
            reveal_strlit("Ry");
            reveal_strlit("ry");
            assert(ascii_lower("Ry"@) =~= "ry"@);
        }
        let r_y = Self::get_qis_intrinsic_function_body(module, "Ry");
        proof {
            reveal_strlit("Rz");
            reveal_strlit("rz");
            assert(ascii_lower("Rz"@) =~= "rz"@);
        }
        let r_z = Self::get_qis_intrinsic_function_body(module, "Rz");
        proof {
            reveal_strlit("Reset");
            reveal_strlit("reset");
            assert(ascii_lower("Reset"@) =~= "reset"@);
        }
        let reset = Self::get_qis_intrinsic_function_body(module, "Reset");
        proof {
            reveal_strlit("H");
            reveal_strlit("h");
            assert(ascii_lower("H"@) =~= "h"@);
        }
        let h = Self::get_qis_intrinsic_function_body(module, "H");
        proof {
            reveal_strlit("X");
            reveal_strlit("x");
            assert(ascii_lower("X"@) =~= "x"@);
        }
        let x = Self::get_qis_intrinsic_function_body(module, "X");
        proof {
            reveal_strlit("Y");
            reveal_strlit("y");
            assert(ascii_lower("Y"@) =~= "y"@);
        }
        let y = Self::get_qis_intrinsic_function_body(module, "Y");
        proof {
            reveal_strlit("Z");
            reveal_strlit("z");
            assert(ascii_lower("Z"@) =~= "z"@);
        }
        let z = Self::get_qis_intrinsic_function_body(module, "Z");
        proof {
            reveal_strlit("S");
            reveal_strlit("s");
            assert(ascii_lower("S"@) =~= "s"@);
        }
        let s = Self::get_qis_intrinsic_function_body(module, "S");
        proof {
            reveal_strlit("S");
            reveal_strlit("s");
            assert(ascii_lower("S"@) =~= "s"@);
        }
        let s_adj = Self::get_qis_intrinsic_function_adj(module, "S");
        proof {
            reveal_strlit("T");
            reveal_strlit("t");
            assert(ascii_lower("T"@) =~= "t"@);
        }
        let t = Self::get_qis_intrinsic_function_body(module, "T");
        proof {
            reveal_strlit("T");
            reveal_strlit("t");
            assert(ascii_lower("T"@) =~= "t"@);
        }
        let t_adj = Self::get_qis_intrinsic_function_adj(module, "T");
        Intrinsics { cnot, cz, m, r_x, r_y, r_z, reset, h, x, y, z, s, s_adj, t, t_adj }
    }

    /// The function of the module that is the body of the instruction `name`.
    fn get_qis_intrinsic_function_body(module: &Module<'ctx>, name: &str) -> (r: Option<FunctionValue<'ctx>>)
        requires
            is_ascii_chars(name@),
            !name@.contains('\0'),
        ensures
            r == declared_function(module_functions_by_name(*module), qis_body_symbol(ascii_lower(name@))),
    {
        let function_name = qis_body_name(name);
        proof {
            lemma_ascii_lower_no_nul(name@);
            lemma_symbol_parts_no_nul(ascii_lower(name@));
        }
        get_function(module, function_name.as_str())
    }

    /// The function of the module that is the adjoint of the instruction `name`.
    fn get_qis_intrinsic_function_adj(module: &Module<'ctx>, name: &str) -> (r: Option<FunctionValue<'ctx>>)
        requires
            is_ascii_chars(name@),
            !name@.contains('\0'),
        ensures
            r == declared_function(module_functions_by_name(*module), qis_adj_symbol(ascii_lower(name@))),
    {
        let function_name = qis_adj_name(name);
        proof {
            lemma_ascii_lower_no_nul(name@);
            lemma_symbol_parts_no_nul(ascii_lower(name@));
        }
        get_function(module, function_name.as_str())
    }
}

/// The runtime functions that a module declares.
pub struct Runtime<'ctx> {
    pub result_get_one: Option<FunctionValue<'ctx>>,
    pub result_get_zero: Option<FunctionValue<'ctx>>,
    pub result_equal: Option<FunctionValue<'ctx>>,
    pub qubit_allocate: Option<FunctionValue<'ctx>>,
    pub qubit_release: Option<FunctionValue<'ctx>>,
}

/// Each field of `r` holds the function that the module declares under the
/// symbol of that runtime function, and `None` when it declares none.
pub open spec fn runtime_found<'ctx>(r: Runtime<'ctx>, fns: Map<Seq<char>, FunctionValue<'ctx>>) -> bool {
    &&& r.result_get_one == declared_function(fns, intrinsic_symbol(Intrinsic::ResultGetOne))
    &&& r.result_get_zero == declared_function(fns, intrinsic_symbol(Intrinsic::ResultGetZero))
    &&& r.result_equal == declared_function(fns, intrinsic_symbol(Intrinsic::ResultEqual))
    &&& r.qubit_allocate == declared_function(fns, intrinsic_symbol(Intrinsic::QubitAllocate))
    &&& r.qubit_release == declared_function(fns, intrinsic_symbol(Intrinsic::QubitRelease))
}

impl<'ctx> Runtime<'ctx> {
    /// Looks up the runtime functions of a module.
    pub fn new(module: &Module<'ctx>) -> (r: Runtime<'ctx>)
        ensures
            runtime_found(r, module_functions_by_name(*module)),
    {
        proof {
            reveal_strlit("result_get_one");
            assert(ascii_lower("result_get_one"@) =~= "result_get_one"@);
        }
        let result_get_one = Self::get_rt_intrinsic_function_body(module, "result_get_one");
        proof {
            reveal_strlit("result_get_zero");
            assert(ascii_lower("result_get_zero"@) =~= "result_get_zero"@);
        }
        let result_get_zero = Self::get_rt_intrinsic_function_body(module, "result_get_zero");
        proof {
            reveal_strlit("result_equal");
            assert(ascii_lower("result_equal"@) =~= "result_equal"@);
        }
        let result_equal = Self::get_rt_intrinsic_function_body(module, "result_equal");
        proof {
            reveal_strlit("qubit_allocate");
            assert(ascii_lower("qubit_allocate"@) =~= "qubit_allocate"@);
        }
        let qubit_allocate = Self::get_rt_intrinsic_function_body(module, "qubit_allocate");
        proof {
            reveal_strlit("qubit_release");
            assert(ascii_lower("qubit_release"@) =~= "qubit_release"@);
        }
        let qubit_release = Self::get_rt_intrinsic_function_body(module, "qubit_release");
        Runtime { result_get_one, result_get_zero, result_equal, qubit_allocate, qubit_release }
    }

    /// The function of the module that is the runtime function `name`.
    fn get_rt_intrinsic_function_body(module: &Module<'ctx>, name: &str) -> (r: Option<FunctionValue<'ctx>>)
        requires
            is_ascii_chars(name@),
            !name@.contains('\0'),
        ensures
            r == declared_function(module_functions_by_name(*module), rt_symbol(ascii_lower(name@))),
    {
        let function_name = rt_name(name);
        proof {
            lemma_ascii_lower_no_nul(name@);
            lemma_symbol_parts_no_nul(ascii_lower(name@));
        }
        get_function(module, function_name.as_str())
    }
}

/// The function that the lookups found for an intrinsic.
fn found_function<'ctx>(ins: &Intrinsics<'ctx>, rt: &Runtime<'ctx>, i: Intrinsic) -> (r: Option<FunctionValue<'ctx>>)
    ensures
        r == match i {
            Intrinsic::Cnot => ins.cnot,
            Intrinsic::Cz => ins.cz,
            Intrinsic::M => ins.m,
            Intrinsic::Rx => ins.r_x,
            Intrinsic::Ry => ins.r_y,
            Intrinsic::Rz => ins.r_z,
            Intrinsic::Reset => ins.reset,
            Intrinsic::H => ins.h,
            Intrinsic::X => ins.x,
            Intrinsic::Y => ins.y,
            Intrinsic::Z => ins.z,
            Intrinsic::S => ins.s,
            Intrinsic::SAdj => ins.s_adj,
            Intrinsic::T => ins.t,
            Intrinsic::TAdj => ins.t_adj,
            Intrinsic::ResultGetOne => rt.result_get_one,
            Intrinsic::ResultGetZero => rt.result_get_zero,
            Intrinsic::ResultEqual => rt.result_equal,
            Intrinsic::QubitAllocate => rt.qubit_allocate,
            Intrinsic::QubitRelease => rt.qubit_release,
        },
{
    match i {
        Intrinsic::Cnot => ins.cnot,
        Intrinsic::Cz => ins.cz,
        Intrinsic::M => ins.m,
        Intrinsic::Rx => ins.r_x,
        Intrinsic::Ry => ins.r_y,
        Intrinsic::Rz => ins.r_z,
        Intrinsic::Reset => ins.reset,
        Intrinsic::H => ins.h,
        Intrinsic::X => ins.x,
        Intrinsic::Y => ins.y,
        Intrinsic::Z => ins.z,
        Intrinsic::S => ins.s,
        Intrinsic::SAdj => ins.s_adj,
        Intrinsic::T => ins.t,
        Intrinsic::TAdj => ins.t_adj,
        Intrinsic::ResultGetOne => rt.result_get_one,
        Intrinsic::ResultGetZero => rt.result_get_zero,
        Intrinsic::ResultEqual => rt.result_equal,
        Intrinsic::QubitAllocate => rt.qubit_allocate,
        Intrinsic::QubitRelease => rt.qubit_release,
    }
}

/// The intrinsics among the first `k` of the binding order whose symbols the
/// module declares, in binding order.
pub open spec fn bound_prefix(names: Set<Seq<char>>, k: int) -> Seq<Intrinsic>
    decreases k,
{
    if k <= 0 {
        seq![]
    } else {
        let p = bound_prefix(names, k - 1);
        let i = bind_order()[k - 1];
        if names.contains(intrinsic_symbol(i)) { p.push(i) } else { p }
    }
}

/// The intrinsics that the module declares, in binding order.
pub open spec fn bound_intrinsics(names: Set<Seq<char>>) -> Seq<Intrinsic> {
    bound_prefix(names, bind_order().len() as int)
}

/// Whether `maps` records, for each intrinsic of `bound` in turn, a mapping
/// of the function that the module declares under its symbol to the handler
/// at the intrinsic's index.
pub open spec fn maps_to_handlers<'ctx>(
    maps: Seq<GlobalMapping<'ctx>>,
    bound: Seq<Intrinsic>,
    fns: Map<Seq<char>, FunctionValue<'ctx>>,
    handlers: Seq<usize>,
) -> bool {
    &&& maps.len() == bound.len()
    &&& forall|k: int| 0 <= k < maps.len() ==> {
        &&& declared_function(fns, intrinsic_symbol(bound[k])) == Some(#[trigger] maps[k].function)
        &&& maps[k].address == handlers[intrinsic_index(bound[k]) as int]
    }
}

/// The JIT's view of the simulator: which intrinsics it bound to native code,
/// and the mappings it made for them, in the same order.
pub struct Simulator<'ctx> {
    pub bound: Vec<Intrinsic>,
    pub mappings: Vec<GlobalMapping<'ctx>>,
}

impl<'ctx> Simulator<'ctx> {
    /// Binds every intrinsic that the module declares to its native handler
    /// (`handlers` is indexed by `Intrinsic::index`) and reports which
    /// intrinsics were bound, in binding order, with the mapping made for each.
    pub fn new(module: &Module<'ctx>, ee: &ExecutionEngine<'ctx>, handlers: &Vec<usize>) -> (r: Simulator<'ctx>)
        requires
            handlers.len() == NUM_INTRINSICS,
        ensures
            r.bound@ == bound_intrinsics(module_function_names(*module)),
            maps_to_handlers(r.mappings@, r.bound@, module_functions_by_name(*module), handlers@),
    {
        let (bound, mappings) = Self::bind(module, ee, handlers);
        Simulator { bound, mappings }
    }

    /// Binds the declared intrinsics, in binding order.
    fn bind(module: &Module<'ctx>, ee: &ExecutionEngine<'ctx>, handlers: &Vec<usize>) -> (r: (Vec<Intrinsic>, Vec<GlobalMapping<'ctx>>))
        requires
            handlers.len() == NUM_INTRINSICS,
        ensures
            r.0@ == bound_intrinsics(module_function_names(*module)),
            maps_to_handlers(r.1@, r.0@, module_functions_by_name(*module), handlers@),
    {
        let ghost fns = module_functions_by_name(*module);
        let ghost names = module_function_names(*module);
        let intrinsics = Intrinsics::new(module);
        let runtime = Runtime::new(module);
        let order = bind_order_vec();
        let mut bound: Vec<Intrinsic> = Vec::new();
        let mut mappings: Vec<GlobalMapping<'ctx>> = Vec::new();
        let mut k: usize = 0;
        while k < order.len()
            invariant
                0 <= k <= order.len(),
                order@ == bind_order(),
                handlers.len() == NUM_INTRINSICS,
                fns == module_functions_by_name(*module),
                names == fns.dom(),
                intrinsics_found(intrinsics, fns),
                runtime_found(runtime, fns),
                bound@ == bound_prefix(names, k as int),
                maps_to_handlers(mappings@, bound@, fns, handlers@),
            decreases order.len() - k,
        {
            let i = order[k];
            match found_function(&intrinsics, &runtime, i) {
                Some(f) => {
                    let m = add_global_mapping(ee, &f, handlers[i.index()]);
                    bound.push(i);
                    mappings.push(m);
                },
                None => {},
            }
            k = k + 1;
        }
        (bound, mappings)
    }

    /// The model of the gates that the run applied: the recorder works out
    /// which qubits were used, then reports what it recorded.
    pub fn get_model(gates: &mut GateRecorder) -> (r: SemanticModel)
        requires
            old(gates).wf(),
        ensures
            final(gates).wf(),
            final(gates).events() == old(gates).events(),
            r.instructions.len() == old(gates).events().len(),
            forall|i: int|
                0 <= i < r.instructions.len() ==> describes(#[trigger] r.instructions@[i], old(gates).events()[i]),
            r.qubits.len() == qubits_used(old(gates).events()).len(),
            forall|i: int|
                0 <= i < r.qubits.len() ==> #[trigger] r.qubits@[i].index == qubits_used(old(gates).events())[i],
            forall|i: int| 0 <= i < r.qubits.len() ==> (#[trigger] r.qubits@[i]).name@ == "qubit"@,
            r.registers.len() == 0,
            r.name@ == "QIR"@,
            r.static_alloc,
    {
        gates.infer_allocations();
        gates.get_model()
    }
}

/// What a rotation about a Pauli axis does, by the runtime's Pauli numbering.
#[derive(Clone, Copy, Debug, PartialEq, Eq, Structural)]
pub enum PauliRotation {
    Identity,
    Rx,
    Ry,
    Rz,
}

/// The rotation for the Pauli axis `pauli` (0: identity, 1: X, 2: Z, 3: Y).
/// The runtime knows no other Pauli values.
pub fn pauli_rotation(pauli: i8) -> (r: PauliRotation)
    requires
        0 <= pauli <= 3,
    ensures
        pauli == 0 ==> r == PauliRotation::Identity,
        pauli == 1 ==> r == PauliRotation::Rx,
        pauli == 2 ==> r == PauliRotation::Rz,
        pauli == 3 ==> r == PauliRotation::Ry,
{
    if pauli == 0 {
        PauliRotation::Identity
    } else if pauli == 1 {
        PauliRotation::Rx
    } else if pauli == 3 {
        PauliRotation::Ry
    } else {
        PauliRotation::Rz
    }
}

/// A gate that a run records.
#[derive(Clone, Copy, Debug, PartialEq, Eq, Structural)]
pub enum Gate {
    Cx,
    Cz,
    H,
    Reset,
    Rx,
    Ry,
    Rz,
    S,
    SAdj,
    T,
    TAdj,
    X,
    Y,
    Z,
    DumpMachine,
}

/// One application of a gate: which one, its target qubit, its control qubit (for
/// `Cx` and `Cz`) and its angle as IEEE 754 bits (for rotations).
#[derive(Clone, Copy, Debug, PartialEq, Eq, Structural)]
pub struct GateEvent {
    pub gate: Gate,
    pub qubit: u64,
    pub control: u64,
    pub theta: u64,
}

/// The qubits that one gate application uses, control first.
pub open spec fn event_qubits(e: GateEvent) -> Seq<u64> {
    match e.gate {
        Gate::Cx | Gate::Cz => seq![e.control, e.qubit],
        Gate::DumpMachine => seq![],
        _ => seq![e.qubit],
    }
}

/// Appends the qubits of `new` that `seen` does not hold yet, in order.
pub open spec fn add_new(seen: Seq<u64>, new: Seq<u64>) -> Seq<u64>
    decreases new.len(),
{
    if new.len() == 0 {
        seen
    } else {
        let s = if seen.contains(new[0]) { seen } else { seen.push(new[0]) };
        add_new(s, new.drop_first())
    }
}

/// The distinct qubits that a run used, in order of first use.
pub open spec fn qubits_used(events: Seq<GateEvent>) -> Seq<u64>
    decreases events.len(),
{
    if events.len() == 0 {
        seq![]
    } else {
        add_new(qubits_used(events.drop_last()), event_qubits(events.last()))
    }
}

/// Adding new qubits keeps a list free of repeats, and the result holds a
/// qubit exactly when the list or the new qubits hold it.
proof fn lemma_add_new(seen: Seq<u64>, new: Seq<u64>)
    requires
        seen.no_duplicates(),
    ensures
        add_new(seen, new).no_duplicates(),
        forall|q: u64| #[trigger] add_new(seen, new).contains(q) <==> (seen.contains(q) || new.contains(q)),
    decreases new.len(),
{
    if new.len() > 0 {
        let x = new[0];
        let s = if seen.contains(x) { seen } else { seen.push(x) };
        if !seen.contains(x) {
            assert forall|i: int, j: int| 0 <= i < s.len() && 0 <= j < s.len() && i != j implies s[i] != s[j] by {
                if i < seen.len() && j < seen.len() {
                } else if i == seen.len() {
                    assert(seen.contains(s[j]));
                } else {
                    assert(seen.contains(s[i]));
                }
            }
        }
        assert(s.no_duplicates());
        lemma_add_new(s, new.drop_first());
        assert forall|q: u64| #[trigger] add_new(seen, new).contains(q) <==> (seen.contains(q) || new.contains(q)) by {
            if new.contains(q) && q != x {
                let k = choose|k: int| 0 <= k < new.len() && new[k] == q;
                assert(new.drop_first()[k - 1] == q);
            }
            if new.drop_first().contains(q) {
                let k = choose|k: int| 0 <= k < new.len() - 1 && new.drop_first()[k] == q;
                assert(new[k + 1] == q);
            }
            if !seen.contains(x) && q == x {
                assert(s[seen.len() as int] == x);
            }
            if s.contains(q) && !seen.contains(q) {
                let k = choose|k: int| 0 <= k < s.len() && s[k] == q;
                if k < seen.len() {
                    assert(seen.contains(q));
                }
                assert(new[0] == q);
            }
            if seen.contains(q) {
                let k = choose|k: int| 0 <= k < seen.len() && seen[k] == q;
                assert(s[k] == q);
            }
        }
    }
}

/// The qubits of a run's model: each qubit that some gate application used
/// appears in the list, nothing else does, and no qubit appears twice.
pub proof fn lemma_qubits_used(events: Seq<GateEvent>)
    ensures
        qubits_used(events).no_duplicates(),
        forall|q: u64|
            #[trigger] qubits_used(events).contains(q) <==> exists|i: int|
                0 <= i < events.len() && #[trigger] event_qubits(events[i]).contains(q),
    decreases events.len(),
{
    if events.len() > 0 {
        let prev = events.drop_last();
        lemma_qubits_used(prev);
        lemma_add_new(qubits_used(prev), event_qubits(events.last()));
        assert forall|q: u64|
            #[trigger] qubits_used(events).contains(q) <==> exists|i: int|
                0 <= i < events.len() && #[trigger] event_qubits(events[i]).contains(q) by {
            if qubits_used(prev).contains(q) {
                let i = choose|i: int| 0 <= i < prev.len() && #[trigger] event_qubits(prev[i]).contains(q);
                assert(events[i] == prev[i]);
            }
            if event_qubits(events.last()).contains(q) {
                assert(event_qubits(events[events.len() - 1]).contains(q));
            }
            if exists|i: int| 0 <= i < events.len() && #[trigger] event_qubits(events[i]).contains(q) {
                let i = choose|i: int| 0 <= i < events.len() && #[trigger] event_qubits(events[i]).contains(q);
                if i < events.len() - 1 {
                    assert(prev[i] == events[i]);
                    assert(event_qubits(prev[i]).contains(q));
                }
            }
        }
    } else {
        assert(qubits_used(events) =~= Seq::<u64>::empty());
    }
}

/// The model instruction `inst` states the application `e`, naming
/// qubits by their decimal number.
pub open spec fn describes(inst: Instruction, e: GateEvent) -> bool {
    match inst {
        Instruction::Cx(c) => e.gate == Gate::Cx && c.control@ == decimal(e.control as nat) && c.target@ == decimal(e.qubit as nat),
        Instruction::Cz(c) => e.gate == Gate::Cz && c.control@ == decimal(e.control as nat) && c.target@ == decimal(e.qubit as nat),
        Instruction::H(s) => e.gate == Gate::H && s.qubit@ == decimal(e.qubit as nat),
        Instruction::Reset(s) => e.gate == Gate::Reset && s.qubit@ == decimal(e.qubit as nat),
        Instruction::Rx(r) => e.gate == Gate::Rx && r.qubit@ == decimal(e.qubit as nat) && r.theta == e.theta,
        Instruction::Ry(r) => e.gate == Gate::Ry && r.qubit@ == decimal(e.qubit as nat) && r.theta == e.theta,
        Instruction::Rz(r) => e.gate == Gate::Rz && r.qubit@ == decimal(e.qubit as nat) && r.theta == e.theta,
        Instruction::S(s) => e.gate == Gate::S && s.qubit@ == decimal(e.qubit as nat),
        Instruction::SAdj(s) => e.gate == Gate::SAdj && s.qubit@ == decimal(e.qubit as nat),
        Instruction::T(s) => e.gate == Gate::T && s.qubit@ == decimal(e.qubit as nat),
        Instruction::TAdj(s) => e.gate == Gate::TAdj && s.qubit@ == decimal(e.qubit as nat),
        Instruction::X(s) => e.gate == Gate::X && s.qubit@ == decimal(e.qubit as nat),
        Instruction::Y(s) => e.gate == Gate::Y && s.qubit@ == decimal(e.qubit as nat),
        Instruction::Z(s) => e.gate == Gate::Z && s.qubit@ == decimal(e.qubit as nat),
        Instruction::DumpMachine => e.gate == Gate::DumpMachine,
        _ => false,
    }
}

/// Records the gates that a run applies and the qubits that they use.
pub struct GateRecorder {
    events: Vec<GateEvent>,
    qubits: Vec<u64>,
}

impl GateRecorder {
    /// The applications recorded so far, in order.
    pub closed spec fn events(&self) -> Seq<GateEvent> {
        self.events@
    }

    /// The recorder's qubit list is the distinct qubits of its events.
    pub closed spec fn wf(&self) -> bool {
        self.qubits@ == qubits_used(self.events@)
    }

    /// A recorder that has recorded nothing.
    pub fn new() -> (r: GateRecorder)
        ensures
            r.wf(),
            r.events() == Seq::<GateEvent>::empty(),
    {
        GateRecorder { events: Vec::new(), qubits: Vec::new() }
    }

    /// Records one gate application.
    pub fn record(&mut self, e: GateEvent)
        requires
            old(self).wf(),
        ensures
            final(self).wf(),
            final(self).events() == old(self).events().push(e),
    {
        let ghost old_events = self.events@;
        let ghost seen = self.qubits@;
        let ghost eq = event_qubits(e);
        if e.gate == Gate::Cx || e.gate == Gate::Cz {
            self.note_qubit(e.control);
            let ghost mid = self.qubits@;
            self.note_qubit(e.qubit);
            proof {
                assert(eq =~= seq![e.control, e.qubit]);
                assert(eq.drop_first() =~= seq![e.qubit]);
                assert(seq![e.qubit].drop_first() =~= Seq::<u64>::empty());
                assert(add_new(mid, seq![e.qubit]) == add_new(self.qubits@, Seq::<u64>::empty()));
                assert(add_new(seen, eq) == add_new(mid, seq![e.qubit]));
            }
        } else if e.gate != Gate::DumpMachine {
            self.note_qubit(e.qubit);
            proof {
                assert(eq =~= seq![e.qubit]);
                assert(eq.drop_first() =~= Seq::<u64>::empty());
                assert(add_new(seen, eq) == add_new(self.qubits@, Seq::<u64>::empty()));
            }
        } else {
            proof {
                assert(eq =~= Seq::<u64>::empty());
            }
        }
        self.events.push(e);
        proof {
            assert(self.events@.drop_last() =~= old_events);
            assert(self.events@.last() == e);
        }
    }

    /// Adds a qubit to the qubit list unless it is there already.
    fn note_qubit(&mut self, q: u64)
        ensures
            final(self).events == old(self).events,
            final(self).qubits@ == (if old(self).qubits@.contains(q) { old(self).qubits@ } else { old(self).qubits@.push(q) }),
    {
        let mut i: usize = 0;
        while i < self.qubits.len()
            invariant
                0 <= i <= self.qubits.len(),
                forall|j: int| 0 <= j < i ==> self.qubits@[j] != q,
            decreases self.qubits.len() - i,
        {
            if self.qubits[i] == q {
                return;
            }
            i = i + 1;
        }
        self.qubits.push(q);
    }

    /// Works out the qubits of the run (they are kept current while recording).
    pub fn infer_allocations(&mut self)
        requires
            old(self).wf(),
        ensures
            final(self).wf(),
            final(self).events() == old(self).events(),
    {
    }

    /// The model of what was recorded: one instruction per gate application,
    /// with qubits named by their decimal number, and one qubit register
    /// `qubit<n>` per qubit used, in order of first use.
    pub fn get_model(&self) -> (r: SemanticModel)
        requires
            self.wf(),
        ensures
            r.instructions.len() == self.events().len(),
            forall|i: int|
                0 <= i < r.instructions.len() ==> describes(#[trigger] r.instructions@[i], self.events()[i]),
            r.qubits.len() == qubits_used(self.events()).len(),
            forall|i: int|
                0 <= i < r.qubits.len() ==> #[trigger] r.qubits@[i].index == qubits_used(self.events())[i],
            r.registers.len() == 0,
            r.name@ == "QIR"@,
            r.static_alloc,
            forall|i: int| 0 <= i < r.qubits.len() ==> (#[trigger] r.qubits@[i]).name@ == "qubit"@,
    {
        let mut instructions: Vec<Instruction> = Vec::new();
        let mut i: usize = 0;
        while i < self.events.len()
            invariant
                0 <= i <= self.events.len(),
                instructions.len() == i,
                forall|j: int| 0 <= j < i ==> describes(#[trigger] instructions@[j], self.events@[j]),
            decreases self.events.len() - i,
        {
            instructions.push(instruction_of(self.events[i]));
            i = i + 1;
        }
        let mut qubits: Vec<QuantumRegister> = Vec::new();
        let mut k: usize = 0;
        while k < self.qubits.len()
            invariant
                0 <= k <= self.qubits.len(),
                qubits.len() == k,
                forall|j: int| 0 <= j < k ==> #[trigger] qubits@[j].index == self.qubits@[j],
                forall|j: int| 0 <= j < k ==> (#[trigger] qubits@[j]).name@ == "qubit"@,
            decreases self.qubits.len() - k,
        {
            qubits.push(QuantumRegister::new(String::from_str("qubit"), self.qubits[k]));
            k = k + 1;
        }
        SemanticModel {
            name: String::from_str("QIR"),
            registers: Vec::new(),
            qubits,
            instructions,
            static_alloc: true,
        }
    }
}

/// The model instruction of one gate application.
fn instruction_of(e: GateEvent) -> (r: Instruction)
    ensures
        describes(r, e),
{
    let q = to_decimal(e.qubit);
    match e.gate {
        Gate::Cx => Instruction::Cx(Controlled::new(to_decimal(e.control), q)),
        Gate::Cz => Instruction::Cz(Controlled::new(to_decimal(e.control), q)),
        Gate::H => Instruction::H(Single::new(q)),
        Gate::Reset => Instruction::Reset(Single::new(q)),
        Gate::Rx => Instruction::Rx(Rotated::new(e.theta, q)),
        Gate::Ry => Instruction::Ry(Rotated::new(e.theta, q)),
        Gate::Rz => Instruction::Rz(Rotated::new(e.theta, q)),
        Gate::S => Instruction::S(Single::new(q)),
        Gate::SAdj => Instruction::SAdj(Single::new(q)),
        Gate::T => Instruction::T(Single::new(q)),
        Gate::TAdj => Instruction::TAdj(Single::new(q)),
        Gate::X => Instruction::X(Single::new(q)),
        Gate::Y => Instruction::Y(Single::new(q)),
        Gate::Z => Instruction::Z(Single::new(q)),
        Gate::DumpMachine => Instruction::DumpMachine,
    }
}


/// Every gate intrinsic records a gate of its own: two intrinsics that record
/// the same gate are the same intrinsic, leaving out the body of `Z`, which
/// records a `Y` gate as the runtime always has.
pub proof fn lemma_gates_distinct(i: Intrinsic, j: Intrinsic)
    requires
        i != Intrinsic::Z,
        j != Intrinsic::Z,
        intrinsic_gate(i) is Some,
        intrinsic_gate(i) == intrinsic_gate(j),
    ensures
        i == j,
{
}

/// The adjoint intrinsics, those declared under an `__adj` symbol, record the
/// adjoint gates, and only they do.
pub proof fn lemma_adjoint_gates(i: Intrinsic)
    ensures
        (intrinsic_gate(i) == Some(Gate::SAdj) || intrinsic_gate(i) == Some(Gate::TAdj)) <==> (i == Intrinsic::SAdj
            || i == Intrinsic::TAdj),
        i == Intrinsic::SAdj ==> intrinsic_symbol(i) == qis_adj_symbol("s"@) && intrinsic_gate(i) == Some(Gate::SAdj),
        i == Intrinsic::TAdj ==> intrinsic_symbol(i) == qis_adj_symbol("t"@) && intrinsic_gate(i) == Some(Gate::TAdj),
{
}


/// Every intrinsic has a handler slot of its own in a table of
/// `NUM_INTRINSICS` handlers.
pub proof fn lemma_intrinsic_slots(i: Intrinsic, j: Intrinsic)
    ensures
        intrinsic_index(i) < NUM_INTRINSICS,
        intrinsic_index(i) == intrinsic_index(j) ==> i == j,
{
}

} // verus!
