//! The checks and choices of the instruction builder: how the arguments of a
//! call are passed, where a new block goes, where the builder inserts, and
//! the indices and flags that functions and modules are given.

use vstd::prelude::*;
use crate::owner::{lemma_merge_keeps_context, merge_all, owner_context, Owner};
use crate::shape::TypeKind;
use crate::text::{concat3, decimal, to_decimal};

verus! {

/// A Python literal passed where a value is expected.
#[derive(Clone, Copy, Debug, PartialEq, Eq, Structural)]
pub enum Literal {
    Bool(bool),
    /// A Python `int`: its value when it lies in the range of `u64`, `None`
    /// when it does not.
    Int(Option<u64>),
    /// A Python `float`, by its IEEE 754 bits.
    Float(u64),
}

/// An argument of a call: a value (by its handle) with its owner, or a literal.
#[derive(Clone, Copy, Debug, PartialEq, Eq, Structural)]
pub enum Argument {
    Value { value: u64, owner: Owner },
    Literal(Literal),
}

/// How an argument is passed to the parameter at its position.
#[derive(Clone, Copy, Debug, PartialEq, Eq, Structural)]
pub enum CallOperand {
    /// The value with this handle.
    Value(u64),
    /// An integer constant of the parameter's type (not sign extended).
    Int(u64),
    /// A floating-point constant of the parameter's type, by its bits.
    Real(u64),
}

/// Why a call could not be built.
#[derive(Clone, Copy, Debug, PartialEq, Eq, Structural)]
pub enum CallError {
    /// The builder, the callee and the value arguments disagree on their owner.
    Owners,
    /// The callee is neither a function nor a pointer to one.
    NotCallable,
    /// The number of arguments differs from the number of parameters.
    ArgumentCount { expected: u64, got: u64 },
    /// A literal does not fit the type of its parameter.
    LiteralType,
    /// The integer literal at this position does not fit in `u64`.
    IntOutOfRange { index: u64 },
}

/// Where the function type of a callee is found.
#[derive(Clone, Copy, Debug, PartialEq, Eq, Structural)]
pub enum FnTypeSite {
    /// The callee's own type is a function type.
    Own,
    /// The callee is a pointer and its pointee type is a function type.
    Pointee,
}

/// The owners of the value arguments, in order.
pub open spec fn argument_owners(args: Seq<Argument>) -> Seq<Owner>
    decreases args.len(),
{
    if args.len() == 0 {
        Seq::empty()
    } else {
        let rest = argument_owners(args.drop_last());
        match args.last() {
            Argument::Value { value: _, owner } => rest.push(owner),
            Argument::Literal(_) => rest,
        }
    }
}

/// How a literal is passed to a parameter of the given type kind.
pub open spec fn literal_operand(l: Literal, t: TypeKind, index: int) -> Result<CallOperand, CallError> {
    match (t, l) {
        (TypeKind::Integer, Literal::Bool(b)) => Ok(CallOperand::Int(if b { 1 } else { 0 })),
        (TypeKind::Integer, Literal::Int(Some(v))) => Ok(CallOperand::Int(v)),
        (TypeKind::Integer, Literal::Int(None)) => Err(CallError::IntOutOfRange { index: index as u64 }),
        (TypeKind::Double, Literal::Float(bits)) => Ok(CallOperand::Real(bits)),
        _ => Err(CallError::LiteralType),
    }
}

/// How an argument is passed to a parameter of the given type kind.
pub open spec fn argument_operand(a: Argument, t: TypeKind, index: int) -> Result<CallOperand, CallError> {
    match a {
        Argument::Value { value, owner: _ } => Ok(CallOperand::Value(value)),
        Argument::Literal(l) => literal_operand(l, t, index),
    }
}

/// The operands of the first `k` arguments; the first argument that cannot
/// be passed decides the error.
pub open spec fn operands_spec(args: Seq<Argument>, params: Seq<TypeKind>, k: int) -> Result<Seq<CallOperand>, CallError>
    decreases k,
{
    if k <= 0 {
        Ok(Seq::empty())
    } else {
        match operands_spec(args, params, k - 1) {
            Err(e) => Err(e),
            Ok(ops) => match argument_operand(args[k - 1], params[k - 1], k - 1) {
                Ok(o) => Ok(ops.push(o)),
                Err(e) => Err(e),
            },
        }
    }
}

/// A call: the owners of the value arguments, the builder and the callee
/// must merge; the callee must have a function type, whose parameter kinds
/// are `params`; there must be one argument per parameter; then each
/// argument is passed in order. The merged owner owns the call.
pub open spec fn call_spec(
    builder: Owner,
    callee: Owner,
    args: Seq<Argument>,
    params: Option<Seq<TypeKind>>,
) -> Result<(Owner, Seq<CallOperand>), CallError> {
    match merge_all(argument_owners(args) + seq![builder, callee]) {
        Err(_) => Err(CallError::Owners),
        Ok(o) => match params {
            None => Err(CallError::NotCallable),
            Some(ps) => if ps.len() != args.len() {
                Err(CallError::ArgumentCount { expected: ps.len() as u64, got: args.len() as u64 })
            } else {
                match operands_spec(args, ps, args.len() as int) {
                    Err(e) => Err(e),
                    Ok(ops) => Ok((o.unwrap(), ops)),
                }
            },
        },
    }
}

impl CallError {
    /// The message shown to Python callers. For an integer out of range the
    /// message is that of the failed conversion of that integer.
    pub fn message(&self) -> (r: String)
        ensures
            (*self is Owners) ==> r@ == "Some values are from different contexts or modules."@,
            (*self is NotCallable) ==> r@ == "Callee is not callable."@,
            (*self is LiteralType) ==> r@ == "Can't convert Python value into this type."@,
            (*self is IntOutOfRange) ==> r@ == "Integer out of range."@,
            *self matches CallError::ArgumentCount { expected, got } ==> r@ == "Expected "@ + decimal(
                expected as nat,
            ) + " arguments, got "@ + decimal(got as nat) + "."@,
    {
        match self {
            CallError::Owners => String::from_str("Some values are from different contexts or modules."),
            CallError::NotCallable => String::from_str("Callee is not callable."),
            CallError::LiteralType => String::from_str("Can't convert Python value into this type."),
            CallError::IntOutOfRange { index: _ } => String::from_str("Integer out of range."),
            CallError::ArgumentCount { expected, got } => {
                let e = to_decimal(*expected);
                let g = to_decimal(*got);
                let head = concat3("Expected ", e.as_str(), " arguments, got ");
                concat3(head.as_str(), g.as_str(), ".")
            },
        }
    }
}

/// Where the function type of a value of type kind `ty` is, if it is
/// callable; `pointee` is the kind of the pointee type of a pointer.
pub fn callable_fn_type(ty: TypeKind, pointee: Option<TypeKind>) -> (r: Option<FnTypeSite>)
    requires
        ty is Pointer ==> pointee is Some,
    ensures
        ty is Function ==> r == Some(FnTypeSite::Own),
        ty is Pointer ==> r == (if pointee == Some(TypeKind::Function) {
            Some(FnTypeSite::Pointee)
        } else {
            None::<FnTypeSite>
        }),
        !(ty is Function) && !(ty is Pointer) ==> r is None,
{
    match ty {
        TypeKind::Function => Some(FnTypeSite::Own),
        TypeKind::Pointer => match pointee {
            Some(TypeKind::Function) => Some(FnTypeSite::Pointee),
            _ => None,
        },
        _ => None,
    }
}

/// How a literal is passed to a parameter of type kind `t`.
fn literal_to_operand(l: Literal, t: TypeKind, index: u64) -> (r: Result<CallOperand, CallError>)
    ensures
        r == literal_operand(l, t, index as int),
{
    match (t, l) {
        (TypeKind::Integer, Literal::Bool(b)) => Ok(CallOperand::Int(if b { 1 } else { 0 })),
        (TypeKind::Integer, Literal::Int(Some(v))) => Ok(CallOperand::Int(v)),
        (TypeKind::Integer, Literal::Int(None)) => Err(CallError::IntOutOfRange { index }),
        (TypeKind::Double, Literal::Float(bits)) => Ok(CallOperand::Real(bits)),
        _ => Err(CallError::LiteralType),
    }
}

/// A constant of a type of kind `t` made from a Python literal, as the
/// argument at position zero would be passed.
pub fn literal_value(l: Literal, t: TypeKind) -> (r: Result<CallOperand, CallError>)
    ensures
        r == literal_operand(l, t, 0),
{
    literal_to_operand(l, t, 0)
}

/// Once an argument fails, the operands of every longer prefix fail the same way.
proof fn lemma_operands_error_persists(args: Seq<Argument>, params: Seq<TypeKind>, k: int, n: int)
    requires
        0 <= k <= n,
        operands_spec(args, params, k) is Err,
    ensures
        operands_spec(args, params, n) == operands_spec(args, params, k),
    decreases n - k,
{
    if k < n {
        lemma_operands_error_persists(args, params, k, n - 1);
    }
}

/// The operands of a call: see `call_spec`. `params` holds the parameter
/// kinds of the callee's function type, `None` when the callee is not
/// callable.
pub fn call_operands(
    builder: Owner,
    callee: Owner,
    args: &Vec<Argument>,
    params: Option<&Vec<TypeKind>>,
) -> (r: Result<(Owner, Vec<CallOperand>), CallError>)
    requires
        args.len() < u64::MAX,
    ensures
        match call_spec(builder, callee, args@, match params { Some(p) => Some(p@), None => None }) {
            Ok((o, ops)) => (r matches Ok((o2, v)) && o2 == o && v@ == ops),
            Err(e) => r == Err::<(Owner, Vec<CallOperand>), CallError>(e),
        },
{
    let mut owners: Vec<Owner> = Vec::new();
    let mut i: usize = 0;
    while i < args.len()
        invariant
            0 <= i <= args.len(),
            owners@ == argument_owners(args@.take(i as int)),
        decreases args.len() - i,
    {
        assert(args@.take(i + 1).drop_last() =~= args@.take(i as int));
        match args[i] {
            Argument::Value { value: _, owner } => owners.push(owner),
            Argument::Literal(_) => {},
        }
        i = i + 1;
    }
    assert(args@.take(args.len() as int) =~= args@);
    let ghost arg_owners = owners@;
    owners.push(builder);
    owners.push(callee);
    assert(owners@ =~= arg_owners + seq![builder, callee]);
    let owner = match Owner::merge(&owners) {
        Ok(o) => o,
        Err(_) => {
            return Err(CallError::Owners);
        },
    };
    let ps = match params {
        Some(p) => p,
        None => {
            return Err(CallError::NotCallable);
        },
    };
    if ps.len() != args.len() {
        return Err(CallError::ArgumentCount { expected: ps.len() as u64, got: args.len() as u64 });
    }
    assert(merge_all(argument_owners(args@) + seq![builder, callee]) matches Ok(Some(o)) && o == owner);
    let mut ops: Vec<CallOperand> = Vec::new();
    let mut k: usize = 0;
    while k < args.len()
        invariant
            0 <= k <= args.len(),
            ps.len() == args.len(),
            args.len() < u64::MAX,
            params == Some(ps),
            operands_spec(args@, ps@, k as int) == Ok::<Seq<CallOperand>, CallError>(ops@),
            merge_all(argument_owners(args@) + seq![builder, callee]) matches Ok(Some(o)) && o == owner,
        decreases args.len() - k,
    {
        let op = match args[k] {
            Argument::Value { value, owner: _ } => Ok(CallOperand::Value(value)),
            Argument::Literal(l) => literal_to_operand(l, ps[k], k as u64),
        };
        assert(op == argument_operand(args@[k as int], ps@[k as int], k as int));
        match op {
            Ok(o) => {
                ops.push(o);
            },
            Err(e) => {
                assert(operands_spec(args@, ps@, k + 1) == Err::<Seq<CallOperand>, CallError>(e));
                proof {
                    lemma_operands_error_persists(args@, ps@, k + 1, args.len() as int);
                }
                return Err(e);
            },
        }
        k = k + 1;
    }
    Ok((owner, ops))
}

/// A function that a new block may be appended to: its handle and owner.
#[derive(Clone, Copy, Debug, PartialEq, Eq, Structural)]
pub struct FunctionRef {
    pub function: u64,
    pub owner: Owner,
}

/// A block that a new block may be inserted before: the handle of the
/// function that holds it (none when it is detached) and its owner.
#[derive(Clone, Copy, Debug, PartialEq, Eq, Structural)]
pub struct BlockRef {
    pub parent: Option<u64>,
    pub owner: Owner,
}

/// Where a new block goes.
#[derive(Clone, Copy, Debug, PartialEq, Eq, Structural)]
pub enum Placement {
    /// At the end of the parent function.
    Append,
    /// Directly before the given block.
    InsertBefore,
}

/// Why a block could not be created.
#[derive(Clone, Copy, Debug, PartialEq, Eq, Structural)]
pub enum BlockError {
    /// The context, the parent and the block to insert before disagree on their owner.
    Owners,
    /// Neither a parent nor a block to insert before was given.
    NoParent,
    /// The block to insert before belongs to another function than the parent.
    NotInParent,
}

/// The message of a block error.
pub open spec fn block_error_text(e: BlockError) -> Seq<char> {
    match e {
        BlockError::Owners => "Some values are from different contexts or modules."@,
        BlockError::NoParent => "Can't create block without parent."@,
        BlockError::NotInParent => "Insert before block isn't in parent function."@,
    }
}

impl BlockError {
    /// The message shown to Python callers.
    pub fn message(&self) -> (r: &'static str)
        ensures
            r@ == block_error_text(*self),
    {
        match self {
            BlockError::Owners => "Some values are from different contexts or modules.",
            BlockError::NoParent => "Can't create block without parent.",
            BlockError::NotInParent => "Insert before block isn't in parent function.",
        }
    }
}

/// The owners that a new block's owner is merged from.
pub open spec fn block_owners(context: u64, parent: Option<FunctionRef>, before: Option<BlockRef>) -> Seq<Owner> {
    let s1 = seq![Owner::Context(context)];
    let s2 = match parent {
        Some(p) => s1.push(p.owner),
        None => s1,
    };
    match before {
        Some(b) => s2.push(b.owner),
        None => s2,
    }
}

/// A new block: its owner merges the context with the owners of the parent
/// and of the block to insert before; it is inserted before that block if
/// one is given (which must then lie in the parent, if a parent is given),
/// else appended to the parent.
pub open spec fn place_block_spec(context: u64, parent: Option<FunctionRef>, before: Option<BlockRef>) -> Result<(Owner, Placement), BlockError> {
    match merge_all(block_owners(context, parent, before)) {
        Err(_) => Err(BlockError::Owners),
        Ok(o) => match (parent, before) {
            (None, None) => Err(BlockError::NoParent),
            (Some(_), None) => Ok((o.unwrap(), Placement::Append)),
            (Some(p), Some(b)) => if b.parent != Some(p.function) {
                Err(BlockError::NotInParent)
            } else {
                Ok((o.unwrap(), Placement::InsertBefore))
            },
            (None, Some(_)) => Ok((o.unwrap(), Placement::InsertBefore)),
        },
    }
}

/// Where a new block goes and who owns it: see `place_block_spec`.
pub fn place_block(context: u64, parent: Option<FunctionRef>, before: Option<BlockRef>) -> (r: Result<(Owner, Placement), BlockError>)
    ensures
        r == place_block_spec(context, parent, before),
{
    let mut owners: Vec<Owner> = Vec::new();
    owners.push(Owner::Context(context));
    match parent {
        Some(p) => owners.push(p.owner),
        None => {},
    }
    match before {
        Some(b) => owners.push(b.owner),
        None => {},
    }
    assert(owners@ =~= block_owners(context, parent, before));
    let owner = match Owner::merge(&owners) {
        Ok(o) => o,
        Err(_) => {
            return Err(BlockError::Owners);
        },
    };
    match (parent, before) {
        (None, None) => Err(BlockError::NoParent),
        (Some(_), None) => Ok((owner, Placement::Append)),
        (Some(p), Some(b)) => {
            let inside = match b.parent {
                Some(f) => f == p.function,
                None => false,
            };
            if !inside {
                Err(BlockError::NotInParent)
            } else {
                Ok((owner, Placement::InsertBefore))
            }
        },
        (None, Some(_)) => Ok((owner, Placement::InsertBefore)),
    }
}

/// Why the builder could not be positioned.
#[derive(Clone, Copy, Debug, PartialEq, Eq, Structural)]
pub enum InsertError {
    /// The builder and the instruction disagree on their owner.
    Owners,
    /// The block is from another context than the builder.
    BlockContext,
    /// The instruction is from another context than the builder.
    InstructionContext,
}

/// The message of a positioning error.
pub open spec fn insert_error_text(e: InsertError) -> Seq<char> {
    match e {
        InsertError::Owners => "Some values are from different contexts or modules."@,
        InsertError::BlockContext => "Block is not from the same context as builder."@,
        InsertError::InstructionContext => "Instruction is not from the same context as builder."@,
    }
}

impl InsertError {
    /// The message shown to Python callers.
    pub fn message(&self) -> (r: &'static str)
        ensures
            r@ == insert_error_text(*self),
    {
        match self {
            InsertError::Owners => "Some values are from different contexts or modules.",
            InsertError::BlockContext => "Block is not from the same context as builder.",
            InsertError::InstructionContext => "Instruction is not from the same context as builder.",
        }
    }
}

/// Where the builder inserts next.
#[derive(Clone, Copy, Debug, PartialEq, Eq, Structural)]
pub enum Position {
    /// At the end of the block with this handle.
    AtEnd(u64),
    /// Before the instruction with this handle.
    Before(u64),
}

/// Moves the builder to the end of a block: allowed when the block is from
/// the builder's context; the builder is then owned by the block's owner.
pub fn position_at_end(builder: Owner, block: Owner) -> (r: Result<Owner, InsertError>)
    ensures
        owner_context(block) == owner_context(builder) ==> r == Ok::<Owner, InsertError>(block),
        owner_context(block) != owner_context(builder) ==> r == Err::<Owner, InsertError>(InsertError::BlockContext),
{
    if block.context() != builder.context() {
        Err(InsertError::BlockContext)
    } else {
        Ok(block)
    }
}

/// Checks that the builder may insert next to, or insert, an instruction:
/// the owners must merge and the merged owner's context must be the
/// builder's. The second check never fails once the first has passed.
pub fn check_instruction(builder: Owner, instr: Owner) -> (r: Result<(), InsertError>)
    ensures
        merge_all(seq![builder, instr]) is Ok ==> r is Ok,
        merge_all(seq![builder, instr]) is Err ==> r == Err::<(), InsertError>(InsertError::Owners),
{
    let mut owners: Vec<Owner> = Vec::new();
    owners.push(builder);
    owners.push(instr);
    assert(owners@ =~= seq![builder, instr]);
    let owner = match Owner::merge(&owners) {
        Ok(o) => o,
        Err(_) => {
            return Err(InsertError::Owners);
        },
    };
    proof {
        lemma_merge_keeps_context(seq![builder, instr]);
    }
    if owner.context() != builder.context() {
        return Err(InsertError::InstructionContext);
    }
    Ok(())
}

/// Where the builder goes to insert after an instruction: before the next
/// instruction if there is one, else at the end of the instruction's block.
pub fn position_after(builder: Owner, instr: Owner, next: Option<u64>, block: u64) -> (r: Result<Position, InsertError>)
    ensures
        merge_all(seq![builder, instr]) is Err ==> r == Err::<Position, InsertError>(InsertError::Owners),
        merge_all(seq![builder, instr]) is Ok ==> r == Ok::<Position, InsertError>(match next {
            Some(n) => Position::Before(n),
            None => Position::AtEnd(block),
        }),
{
    check_instruction(builder, instr)?;
    match next {
        Some(n) => Ok(Position::Before(n)),
        None => Ok(Position::AtEnd(block)),
    }
}

/// The attribute index of parameter `n` (counted from zero): indices of
/// parameters start from one.
pub fn param_attribute_index(n: u32) -> (r: u32)
    requires
        n < u32::MAX,
    ensures
        r == n + 1,
{
    n + 1
}

/// The attribute index of the return value.
pub fn return_attribute_index() -> (r: u32)
    ensures
        r == 0,
{
    0
}

/// The attribute index of the function itself.
pub fn function_attribute_index() -> (r: u32)
    ensures
        r == u32::MAX,
{
    u32::MAX
}

/// The index a string attribute is added at: the given one, else the
/// function itself.
pub fn string_attribute_index(index: Option<u32>) -> (r: u32)
    ensures
        r == match index {
            Some(i) => i,
            None => u32::MAX,
        },
{
    match index {
        Some(i) => i,
        None => function_attribute_index(),
    }
}

/// The QIR module flags of a new module.
#[derive(Clone, Copy, Debug, PartialEq, Eq, Structural)]
pub struct QirModuleFlags {
    pub major_version: i32,
    pub minor_version: i32,
    pub dynamic_qubit_management: bool,
    pub dynamic_result_management: bool,
}

/// The flags of a new QIR module: those given, and for the others QIR 1.0
/// with static qubits and results.
pub fn qir_module_flags(
    major_version: Option<i32>,
    minor_version: Option<i32>,
    dynamic_qubit_management: Option<bool>,
    dynamic_result_management: Option<bool>,
) -> (r: QirModuleFlags)
    ensures
        r.major_version == match major_version { Some(v) => v, None => 1 },
        r.minor_version == match minor_version { Some(v) => v, None => 0 },
        r.dynamic_qubit_management == match dynamic_qubit_management { Some(v) => v, None => false },
        r.dynamic_result_management == match dynamic_result_management { Some(v) => v, None => false },
{
    QirModuleFlags {
        major_version: match major_version { Some(v) => v, None => 1 },
        minor_version: match minor_version { Some(v) => v, None => 0 },
        dynamic_qubit_management: match dynamic_qubit_management { Some(v) => v, None => false },
        dynamic_result_management: match dynamic_result_management { Some(v) => v, None => false },
    }
}

} // verus!
