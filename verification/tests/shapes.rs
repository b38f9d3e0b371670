use pyqir::convert::Opcode;
use pyqir::shape::{
    compare, constant_class, instruction_class, metadata_class, successor_operands,
    switch_case_operands, value_class, CompareOp, ConstantClass, InstructionClass, MetadataClass,
    MetadataKind, ShapeError, TypeClass, TypeKind, ValueClass, ValueKind,
};

#[test]
fn types_get_the_class_of_their_kind() {
    assert_eq!(TypeKind::Array.class(), TypeClass::ArrayType);
    assert_eq!(TypeKind::Function.class(), TypeClass::FunctionType);
    assert_eq!(TypeKind::Integer.class(), TypeClass::IntType);
    assert_eq!(TypeKind::Pointer.class(), TypeClass::PointerType);
    assert_eq!(TypeKind::Struct.class(), TypeClass::StructType);
    assert_eq!(TypeKind::Double.class(), TypeClass::Type);
    assert_eq!(TypeKind::Void.class(), TypeClass::Type);
    assert!(TypeKind::Void.is_void());
    assert!(!TypeKind::Double.is_void());
    assert!(TypeKind::Double.is_double());
    assert!(!TypeKind::Other.is_double());
}

#[test]
fn values_get_the_class_of_their_kind() {
    assert_eq!(
        value_class(ValueKind::Instruction, false, Some(Opcode::Call)),
        ValueClass::Instruction(InstructionClass::Call)
    );
    assert_eq!(
        value_class(ValueKind::Instruction, false, Some(Opcode::Add)),
        ValueClass::Instruction(InstructionClass::Instruction)
    );
    assert_eq!(value_class(ValueKind::BasicBlock, false, None), ValueClass::BasicBlock);
    assert_eq!(
        value_class(ValueKind::ConstantInt, true, None),
        ValueClass::Constant(ConstantClass::IntConstant)
    );
    assert_eq!(
        value_class(ValueKind::Function, true, None),
        ValueClass::Constant(ConstantClass::Function)
    );
    assert_eq!(
        value_class(ValueKind::Other, true, None),
        ValueClass::Constant(ConstantClass::Constant)
    );
    assert_eq!(value_class(ValueKind::Other, false, None), ValueClass::Value);
}

#[test]
fn only_constants_are_constants() {
    assert_eq!(constant_class(ValueKind::ConstantFp, true), Ok(ConstantClass::FloatConstant));
    assert_eq!(constant_class(ValueKind::ConstantFp, false), Err(ShapeError::NotConstant));
    assert_eq!(ShapeError::NotConstant.message(), "Value is not constant.");
}

#[test]
fn instructions_get_the_class_of_their_opcode() {
    assert_eq!(instruction_class(Opcode::Switch), InstructionClass::Switch);
    assert_eq!(instruction_class(Opcode::ICmp), InstructionClass::ICmp);
    assert_eq!(instruction_class(Opcode::FCmp), InstructionClass::FCmp);
    assert_eq!(instruction_class(Opcode::Phi), InstructionClass::Phi);
    assert_eq!(instruction_class(Opcode::Ret), InstructionClass::Instruction);
}

#[test]
fn switch_cases_pair_values_with_blocks() {
    assert_eq!(switch_case_operands(2), vec![]);
    assert_eq!(switch_case_operands(0), vec![]);
    assert_eq!(switch_case_operands(6), vec![(2, 3), (4, 5)]);
}

#[test]
fn successors_are_the_block_operands_of_terminators() {
    let flags = vec![false, true, true];
    assert_eq!(successor_operands(true, &flags), vec![1, 2]);
    assert_eq!(successor_operands(false, &flags), Vec::<usize>::new());
    assert_eq!(successor_operands(true, &vec![false, false]), Vec::<usize>::new());
}

#[test]
fn metadata_gets_the_class_of_its_kind() {
    assert_eq!(metadata_class(MetadataKind::MdString, true, false), Ok(MetadataClass::MetadataString));
    assert_eq!(metadata_class(MetadataKind::MdString, false, true), Err(ShapeError::NotMetadataString));
    assert_eq!(
        metadata_class(MetadataKind::ConstantAsMetadata, false, true),
        Ok(MetadataClass::ConstantAsMetadata)
    );
    assert_eq!(metadata_class(MetadataKind::ConstantAsMetadata, true, false), Err(ShapeError::NoConstant));
    assert_eq!(metadata_class(MetadataKind::Other, false, false), Ok(MetadataClass::Metadata));
    assert_eq!(ShapeError::NotMetadataString.message(), "Value is not a metadata string.");
    assert_eq!(ShapeError::NoConstant.message(), "Could not extract constant.");
}

#[test]
fn only_equality_is_compared() {
    assert_eq!(compare(CompareOp::Eq, true), Some(true));
    assert_eq!(compare(CompareOp::Eq, false), Some(false));
    assert_eq!(compare(CompareOp::Ne, true), Some(false));
    assert_eq!(compare(CompareOp::Lt, true), None);
    assert_eq!(compare(CompareOp::Ge, false), None);
}
