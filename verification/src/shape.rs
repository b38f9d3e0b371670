//! The shapes of the LLVM objects that the Python API hands out: which class
//! wraps a type, a value or an instruction, and which operands of an
//! instruction hold its cases and successors.

use vstd::prelude::*;
use crate::convert::Opcode;

verus! {

/// The kind of an LLVM type, as far as the classes of the API tell kinds apart.
#[derive(Clone, Copy, Debug, PartialEq, Eq, Structural)]
pub enum TypeKind {
    Void,
    Double,
    Integer,
    Function,
    Struct,
    Array,
    Pointer,
    /// Any other kind (half, float, label, metadata, vector, ...).
    Other,
}

/// The class that wraps a type.
#[derive(Clone, Copy, Debug, PartialEq, Eq, Structural)]
pub enum TypeClass {
    Type,
    IntType,
    FunctionType,
    StructType,
    ArrayType,
    PointerType,
}

/// The class of a type of the given kind: the kinds with accessors of their
/// own get a subclass, every other kind the plain type class.
pub open spec fn type_class_of(k: TypeKind) -> TypeClass {
    match k {
        TypeKind::Array => TypeClass::ArrayType,
        TypeKind::Function => TypeClass::FunctionType,
        TypeKind::Integer => TypeClass::IntType,
        TypeKind::Pointer => TypeClass::PointerType,
        TypeKind::Struct => TypeClass::StructType,
        _ => TypeClass::Type,
    }
}

impl TypeKind {
    /// Whether this is the void type.
    pub fn is_void(&self) -> (r: bool)
        ensures
            r == (*self is Void),
    {
        match self {
            TypeKind::Void => true,
            _ => false,
        }
    }

    /// Whether this is the double type.
    pub fn is_double(&self) -> (r: bool)
        ensures
            r == (*self is Double),
    {
        match self {
            TypeKind::Double => true,
            _ => false,
        }
    }

    /// The class that wraps a type of this kind.
    pub fn class(&self) -> (r: TypeClass)
        ensures
            r == type_class_of(*self),
    {
        match self {
            TypeKind::Array => TypeClass::ArrayType,
            TypeKind::Function => TypeClass::FunctionType,
            TypeKind::Integer => TypeClass::IntType,
            TypeKind::Pointer => TypeClass::PointerType,
            TypeKind::Struct => TypeClass::StructType,
            _ => TypeClass::Type,
        }
    }
}

/// The kind of an LLVM value, as far as the classes of the API tell kinds apart.
#[derive(Clone, Copy, Debug, PartialEq, Eq, Structural)]
pub enum ValueKind {
    Instruction,
    BasicBlock,
    ConstantInt,
    ConstantFp,
    Function,
    /// Any other kind (argument, global variable, other constants, ...).
    Other,
}

/// The class that wraps a constant.
#[derive(Clone, Copy, Debug, PartialEq, Eq, Structural)]
pub enum ConstantClass {
    Constant,
    IntConstant,
    FloatConstant,
    Function,
}

/// The class that wraps an instruction.
#[derive(Clone, Copy, Debug, PartialEq, Eq, Structural)]
pub enum InstructionClass {
    Instruction,
    Switch,
    ICmp,
    FCmp,
    Call,
    Phi,
}

/// The class that wraps a value.
#[derive(Clone, Copy, Debug, PartialEq, Eq, Structural)]
pub enum ValueClass {
    Value,
    BasicBlock,
    Instruction(InstructionClass),
    Constant(ConstantClass),
}

/// Why a value could not be wrapped.
#[derive(Clone, Copy, Debug, PartialEq, Eq, Structural)]
pub enum ShapeError {
    /// A constant was asked for and the value is not one.
    NotConstant,
    /// A metadata string was asked for and the metadata is not one.
    NotMetadataString,
    /// Constant metadata holds no constant that can be read.
    NoConstant,
}

/// The message of a shape error.
pub open spec fn shape_error_text(e: ShapeError) -> Seq<char> {
    match e {
        ShapeError::NotConstant => "Value is not constant."@,
        ShapeError::NotMetadataString => "Value is not a metadata string."@,
        ShapeError::NoConstant => "Could not extract constant."@,
    }
}

impl ShapeError {
    /// The message shown to Python callers.
    pub fn message(&self) -> (r: &'static str)
        ensures
            r@ == shape_error_text(*self),
    {
        match self {
            ShapeError::NotConstant => "Value is not constant.",
            ShapeError::NotMetadataString => "Value is not a metadata string.",
            ShapeError::NoConstant => "Could not extract constant.",
        }
    }
}

/// The class of an instruction with the given opcode.
pub open spec fn instruction_class_of(op: Opcode) -> InstructionClass {
    match op {
        Opcode::Switch => InstructionClass::Switch,
        Opcode::ICmp => InstructionClass::ICmp,
        Opcode::FCmp => InstructionClass::FCmp,
        Opcode::Call => InstructionClass::Call,
        Opcode::Phi => InstructionClass::Phi,
        _ => InstructionClass::Instruction,
    }
}

/// The class of a constant of the given kind.
pub open spec fn constant_class_of(k: ValueKind) -> ConstantClass {
    match k {
        ValueKind::ConstantInt => ConstantClass::IntConstant,
        ValueKind::ConstantFp => ConstantClass::FloatConstant,
        ValueKind::Function => ConstantClass::Function,
        _ => ConstantClass::Constant,
    }
}

/// The class of a value: instructions by their opcode, blocks, constants by
/// their kind, and the plain value class for the rest.
pub open spec fn value_class_of(k: ValueKind, is_constant: bool, opcode: Option<Opcode>) -> ValueClass {
    match k {
        ValueKind::Instruction => ValueClass::Instruction(instruction_class_of(opcode.unwrap())),
        ValueKind::BasicBlock => ValueClass::BasicBlock,
        _ => if is_constant {
            ValueClass::Constant(constant_class_of(k))
        } else {
            ValueClass::Value
        },
    }
}

/// The class that wraps an instruction with the given opcode.
pub fn instruction_class(op: Opcode) -> (r: InstructionClass)
    ensures
        r == instruction_class_of(op),
{
    match op {
        Opcode::Switch => InstructionClass::Switch,
        Opcode::ICmp => InstructionClass::ICmp,
        Opcode::FCmp => InstructionClass::FCmp,
        Opcode::Call => InstructionClass::Call,
        Opcode::Phi => InstructionClass::Phi,
        _ => InstructionClass::Instruction,
    }
}

/// The class that wraps a constant; fails when the value is not constant.
pub fn constant_class(kind: ValueKind, is_constant: bool) -> (r: Result<ConstantClass, ShapeError>)
    ensures
        is_constant ==> r == Ok::<ConstantClass, ShapeError>(constant_class_of(kind)),
        !is_constant ==> r == Err::<ConstantClass, ShapeError>(ShapeError::NotConstant),
{
    if !is_constant {
        return Err(ShapeError::NotConstant);
    }
    match kind {
        ValueKind::ConstantInt => Ok(ConstantClass::IntConstant),
        ValueKind::ConstantFp => Ok(ConstantClass::FloatConstant),
        ValueKind::Function => Ok(ConstantClass::Function),
        _ => Ok(ConstantClass::Constant),
    }
}

/// The class that wraps a value. The opcode is read for instructions only.
pub fn value_class(kind: ValueKind, is_constant: bool, opcode: Option<Opcode>) -> (r: ValueClass)
    requires
        kind is Instruction ==> opcode is Some,
    ensures
        r == value_class_of(kind, is_constant, opcode),
{
    match kind {
        ValueKind::Instruction => {
            let op = match opcode {
                Some(op) => op,
                None => Opcode::Add,
            };
            ValueClass::Instruction(instruction_class(op))
        },
        ValueKind::BasicBlock => ValueClass::BasicBlock,
        _ => if is_constant {
            match constant_class(kind, true) {
                Ok(c) => ValueClass::Constant(c),
                Err(_) => ValueClass::Value,
            }
        } else {
            ValueClass::Value
        },
    }
}

/// The operand numbers of the cases of a switch with `num_operands`
/// operands: after the condition (0) and the default block (1) come pairs of
/// a case value and its block.
pub fn switch_case_operands(num_operands: u32) -> (r: Vec<(u32, u32)>)
    requires
        num_operands % 2 == 0,
    ensures
        num_operands >= 2 ==> r.len() == (num_operands - 2) / 2,
        num_operands < 2 ==> r.len() == 0,
        forall|k: int| 0 <= k < r.len() ==> #[trigger] r@[k] == ((2 + 2 * k) as u32, (3 + 2 * k) as u32),
{
    let mut r: Vec<(u32, u32)> = Vec::new();
    let mut i: u32 = 2;
    while i < num_operands
        invariant
            2 <= i,
            i % 2 == 0,
            num_operands % 2 == 0,
            i <= num_operands || num_operands < 2,
            num_operands < 2 ==> i == 2,
            r.len() == (i - 2) / 2,
            forall|k: int| 0 <= k < r.len() ==> #[trigger] r@[k] == ((2 + 2 * k) as u32, (3 + 2 * k) as u32),
        decreases num_operands - i,
    {
        r.push((i, i + 1));
        i = i + 2;
    }
    r
}

/// The positions, in order, of the operands that are blocks.
pub open spec fn block_positions(is_block: Seq<bool>) -> Seq<usize>
    decreases is_block.len(),
{
    if is_block.len() == 0 {
        Seq::empty()
    } else {
        let rest = block_positions(is_block.drop_last());
        if is_block.last() {
            rest.push((is_block.len() - 1) as usize)
        } else {
            rest
        }
    }
}

/// The operands that are successors of an instruction: none unless it is a
/// terminator, and then those of its operands that are blocks, in order.
pub fn successor_operands(is_terminator: bool, operand_is_block: &Vec<bool>) -> (r: Vec<usize>)
    ensures
        !is_terminator ==> r@ == Seq::<usize>::empty(),
        is_terminator ==> r@ == block_positions(operand_is_block@),
{
    let mut r: Vec<usize> = Vec::new();
    if !is_terminator {
        return r;
    }
    let mut i: usize = 0;
    while i < operand_is_block.len()
        invariant
            0 <= i <= operand_is_block.len(),
            r@ == block_positions(operand_is_block@.take(i as int)),
        decreases operand_is_block.len() - i,
    {
        assert(operand_is_block@.take(i + 1).drop_last() =~= operand_is_block@.take(i as int));
        if operand_is_block[i] {
            r.push(i);
        }
        i = i + 1;
    }
    assert(operand_is_block@.take(operand_is_block.len() as int) =~= operand_is_block@);
    r
}

/// The kind of a piece of metadata, as far as the classes of the API tell kinds apart.
#[derive(Clone, Copy, Debug, PartialEq, Eq, Structural)]
pub enum MetadataKind {
    MdString,
    ConstantAsMetadata,
    Other,
}

/// The class that wraps a piece of metadata.
#[derive(Clone, Copy, Debug, PartialEq, Eq, Structural)]
pub enum MetadataClass {
    Metadata,
    MetadataString,
    ConstantAsMetadata,
}

/// The class of a piece of metadata: a string when its kind says so and its
/// value is a string, a constant when its kind says so and a constant can be
/// read from it, plain metadata for every other kind.
pub fn metadata_class(kind: MetadataKind, is_md_string: bool, has_constant: bool) -> (r: Result<MetadataClass, ShapeError>)
    ensures
        kind is MdString ==> r == (if is_md_string {
            Ok::<MetadataClass, ShapeError>(MetadataClass::MetadataString)
        } else {
            Err::<MetadataClass, ShapeError>(ShapeError::NotMetadataString)
        }),
        kind is ConstantAsMetadata ==> r == (if has_constant {
            Ok::<MetadataClass, ShapeError>(MetadataClass::ConstantAsMetadata)
        } else {
            Err::<MetadataClass, ShapeError>(ShapeError::NoConstant)
        }),
        kind is Other ==> r == Ok::<MetadataClass, ShapeError>(MetadataClass::Metadata),
{
    match kind {
        MetadataKind::MdString => if is_md_string {
            Ok(MetadataClass::MetadataString)
        } else {
            Err(ShapeError::NotMetadataString)
        },
        MetadataKind::ConstantAsMetadata => if has_constant {
            Ok(MetadataClass::ConstantAsMetadata)
        } else {
            Err(ShapeError::NoConstant)
        },
        MetadataKind::Other => Ok(MetadataClass::Metadata),
    }
}

/// A rich comparison that Python asks of an object.
#[derive(Clone, Copy, Debug, PartialEq, Eq, Structural)]
pub enum CompareOp {
    Lt,
    Le,
    Eq,
    Ne,
    Gt,
    Ge,
}

/// The answer to a rich comparison of objects that are only equal or not:
/// `==` and `!=` are answered, the orderings are not implemented (`None`).
pub fn compare(op: CompareOp, equal: bool) -> (r: Option<bool>)
    ensures
        op is Eq ==> r == Some(equal),
        op is Ne ==> r == Some(!equal),
        !(op is Eq) && !(op is Ne) ==> r is None,
{
    match op {
        CompareOp::Eq => Some(equal),
        CompareOp::Ne => Some(!equal),
        _ => None,
    }
}


/// Each instruction class stands for exactly its own opcode: switches,
/// integer and float comparisons, calls and phis get their classes, and every
/// other opcode (branches, returns, arithmetic, ...) gets the plain class.
pub proof fn lemma_instruction_class_by_opcode(op: Opcode)
    ensures
        instruction_class_of(op) == InstructionClass::Switch <==> op == Opcode::Switch,
        instruction_class_of(op) == InstructionClass::ICmp <==> op == Opcode::ICmp,
        instruction_class_of(op) == InstructionClass::FCmp <==> op == Opcode::FCmp,
        instruction_class_of(op) == InstructionClass::Call <==> op == Opcode::Call,
        instruction_class_of(op) == InstructionClass::Phi <==> op == Opcode::Phi,
        instruction_class_of(op) == InstructionClass::Instruction <==> (op != Opcode::Switch && op != Opcode::ICmp
            && op != Opcode::FCmp && op != Opcode::Call && op != Opcode::Phi),
{
}

/// The successor positions of a terminator are exactly the positions of its
/// operands that are blocks, position zero included, each once and in
/// increasing order.
pub proof fn lemma_block_positions(is_block: Seq<bool>)
    requires
        is_block.len() <= usize::MAX,
    ensures
        forall|p: int| 0 <= p < is_block.len() && #[trigger] is_block[p] ==> block_positions(is_block).contains(
            p as usize,
        ),
        forall|k: int|
            0 <= k < block_positions(is_block).len() ==> 0 <= #[trigger] block_positions(is_block)[k] < is_block.len()
                && is_block[block_positions(is_block)[k] as int],
        forall|j: int, k: int|
            0 <= j < k < block_positions(is_block).len() ==> #[trigger] block_positions(is_block)[j]
                < #[trigger] block_positions(is_block)[k],
    decreases is_block.len(),
{
    if is_block.len() > 0 {
        let pre = is_block.drop_last();
        lemma_block_positions(pre);
        let rest = block_positions(pre);
        let n = is_block.len() - 1;
        assert forall|p: int| 0 <= p < is_block.len() && #[trigger] is_block[p] implies block_positions(
            is_block,
        ).contains(p as usize) by {
            if p < n {
                assert(pre[p] == is_block[p]);
                let k = choose|k: int| 0 <= k < rest.len() && rest[k] == p as usize;
                if is_block.last() {
                    assert(block_positions(is_block)[k] == p as usize);
                }
            } else {
                assert(block_positions(is_block).last() == p as usize);
            }
        }
        let bp = block_positions(is_block);
        assert(bp == if is_block.last() { rest.push(n as usize) } else { rest });
        assert forall|k: int| 0 <= k < bp.len() implies 0 <= #[trigger] bp[k] < is_block.len() && is_block[bp[k] as int] by {
            if k < rest.len() {
                assert(bp[k] == rest[k]);
                assert(0 <= rest[k] < pre.len());
                assert(pre[rest[k] as int] == is_block[rest[k] as int]);
            } else {
                assert(is_block.last());
                assert(bp[k] == n as usize);
                assert(is_block[n] == is_block.last());
            }
        }
        assert forall|j: int, k: int| 0 <= j < k < bp.len() implies #[trigger] bp[j] < #[trigger] bp[k] by {
            assert(bp[j] == rest[j]);
            assert(0 <= rest[j] < pre.len());
            if k < rest.len() {
                assert(bp[k] == rest[k]);
            } else {
                assert(is_block.last());
                assert(bp[k] == n as usize);
            }
        }
    }
}

} // verus!
