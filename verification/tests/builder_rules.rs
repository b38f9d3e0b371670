use pyqir::builder::{
    call_operands, callable_fn_type, check_instruction, function_attribute_index, literal_value,
    param_attribute_index, place_block, position_after, position_at_end, qir_module_flags,
    return_attribute_index, string_attribute_index, Argument, BlockError, BlockRef, CallError,
    CallOperand, FnTypeSite, FunctionRef, InsertError, Literal, Placement, Position,
};
use pyqir::owner::Owner;
use pyqir::shape::TypeKind;

const CTX: Owner = Owner::Context(1);
const MODULE: Owner = Owner::Module { module: 10, context: 1 };

#[test]
fn arguments_are_passed_by_parameter_type() {
    let args = vec![
        Argument::Value { value: 77, owner: CTX },
        Argument::Literal(Literal::Bool(true)),
        Argument::Literal(Literal::Int(Some(42))),
        Argument::Literal(Literal::Float(2.5f64.to_bits())),
    ];
    let params = vec![TypeKind::Pointer, TypeKind::Integer, TypeKind::Integer, TypeKind::Double];
    let (owner, ops) = call_operands(CTX, MODULE, &args, Some(&params)).unwrap();
    assert_eq!(owner, MODULE);
    assert_eq!(
        ops,
        vec![
            CallOperand::Value(77),
            CallOperand::Int(1),
            CallOperand::Int(42),
            CallOperand::Real(2.5f64.to_bits())
        ]
    );
}

#[test]
fn the_argument_count_must_match() {
    let args = vec![Argument::Literal(Literal::Bool(false))];
    let params = vec![TypeKind::Integer, TypeKind::Integer];
    let e = call_operands(CTX, CTX, &args, Some(&params)).unwrap_err();
    assert_eq!(e, CallError::ArgumentCount { expected: 2, got: 1 });
    assert_eq!(e.message(), "Expected 2 arguments, got 1.");
}

#[test]
fn a_callee_must_be_callable() {
    let e = call_operands(CTX, CTX, &vec![], None).unwrap_err();
    assert_eq!(e, CallError::NotCallable);
    assert_eq!(e.message(), "Callee is not callable.");
    assert_eq!(callable_fn_type(TypeKind::Function, None), Some(FnTypeSite::Own));
    assert_eq!(callable_fn_type(TypeKind::Pointer, Some(TypeKind::Function)), Some(FnTypeSite::Pointee));
    assert_eq!(callable_fn_type(TypeKind::Pointer, Some(TypeKind::Integer)), None);
    assert_eq!(callable_fn_type(TypeKind::Integer, None), None);
}

#[test]
fn owners_are_checked_first() {
    let args = vec![Argument::Value { value: 1, owner: Owner::Context(2) }];
    let e = call_operands(CTX, CTX, &args, None).unwrap_err();
    assert_eq!(e, CallError::Owners);
    assert_eq!(e.message(), "Some values are from different contexts or modules.");
}

#[test]
fn literals_must_fit_their_parameter() {
    let params = vec![TypeKind::Integer, TypeKind::Double];
    let args = vec![
        Argument::Literal(Literal::Int(Some(3))),
        Argument::Literal(Literal::Int(Some(3))),
    ];
    let e = call_operands(CTX, CTX, &args, Some(&params)).unwrap_err();
    assert_eq!(e, CallError::LiteralType);
    assert_eq!(e.message(), "Can't convert Python value into this type.");
    let args = vec![
        Argument::Literal(Literal::Float(0)),
        Argument::Literal(Literal::Float(0)),
    ];
    assert_eq!(call_operands(CTX, CTX, &args, Some(&params)).unwrap_err(), CallError::LiteralType);
}

#[test]
fn the_first_bad_argument_decides() {
    let params = vec![TypeKind::Integer, TypeKind::Integer, TypeKind::Void];
    let args = vec![
        Argument::Literal(Literal::Int(Some(1))),
        Argument::Literal(Literal::Int(None)),
        Argument::Literal(Literal::Bool(true)),
    ];
    assert_eq!(
        call_operands(CTX, CTX, &args, Some(&params)).unwrap_err(),
        CallError::IntOutOfRange { index: 1 }
    );
}

#[test]
fn blocks_need_a_parent() {
    let e = place_block(1, None, None).unwrap_err();
    assert_eq!(e, BlockError::NoParent);
    assert_eq!(e.message(), "Can't create block without parent.");
}

#[test]
fn blocks_are_appended_or_inserted() {
    let f = FunctionRef { function: 5, owner: MODULE };
    assert_eq!(place_block(1, Some(f), None), Ok((MODULE, Placement::Append)));
    let inside = BlockRef { parent: Some(5), owner: MODULE };
    assert_eq!(place_block(1, Some(f), Some(inside)), Ok((MODULE, Placement::InsertBefore)));
    assert_eq!(place_block(1, None, Some(inside)), Ok((MODULE, Placement::InsertBefore)));
    let elsewhere = BlockRef { parent: Some(6), owner: MODULE };
    let e = place_block(1, Some(f), Some(elsewhere)).unwrap_err();
    assert_eq!(e, BlockError::NotInParent);
    assert_eq!(e.message(), "Insert before block isn't in parent function.");
    let detached = BlockRef { parent: None, owner: CTX };
    assert_eq!(place_block(1, Some(f), Some(detached)), Err(BlockError::NotInParent));
}

#[test]
fn blocks_from_another_context_are_refused() {
    let f = FunctionRef { function: 5, owner: Owner::Module { module: 3, context: 2 } };
    assert_eq!(place_block(1, Some(f), None), Err(BlockError::Owners));
}

#[test]
fn the_builder_moves_within_its_context() {
    assert_eq!(position_at_end(CTX, MODULE), Ok(MODULE));
    let e = position_at_end(CTX, Owner::Context(2)).unwrap_err();
    assert_eq!(e, InsertError::BlockContext);
    assert_eq!(e.message(), "Block is not from the same context as builder.");
    assert_eq!(check_instruction(CTX, MODULE), Ok(()));
    assert_eq!(check_instruction(MODULE, Owner::Module { module: 11, context: 1 }), Err(InsertError::Owners));
    assert_eq!(position_after(CTX, MODULE, Some(8), 3), Ok(Position::Before(8)));
    assert_eq!(position_after(CTX, MODULE, None, 3), Ok(Position::AtEnd(3)));
    assert_eq!(position_after(CTX, Owner::Context(9), None, 3), Err(InsertError::Owners));
}

#[test]
fn attribute_indices() {
    assert_eq!(param_attribute_index(0), 1);
    assert_eq!(param_attribute_index(4), 5);
    assert_eq!(return_attribute_index(), 0);
    assert_eq!(function_attribute_index(), u32::MAX);
    assert_eq!(string_attribute_index(None), u32::MAX);
    assert_eq!(string_attribute_index(Some(2)), 2);
}

#[test]
fn qir_modules_default_to_version_one_with_static_management() {
    let f = qir_module_flags(None, None, None, None);
    assert_eq!((f.major_version, f.minor_version), (1, 0));
    assert!(!f.dynamic_qubit_management);
    assert!(!f.dynamic_result_management);
    let g = qir_module_flags(Some(2), Some(1), Some(true), Some(false));
    assert_eq!((g.major_version, g.minor_version), (2, 1));
    assert!(g.dynamic_qubit_management);
    assert!(!g.dynamic_result_management);
}

#[test]
fn constants_follow_their_type() {
    assert_eq!(literal_value(Literal::Bool(false), TypeKind::Integer), Ok(CallOperand::Int(0)));
    assert_eq!(literal_value(Literal::Int(Some(9)), TypeKind::Integer), Ok(CallOperand::Int(9)));
    assert_eq!(literal_value(Literal::Float(7), TypeKind::Double), Ok(CallOperand::Real(7)));
    assert_eq!(literal_value(Literal::Bool(true), TypeKind::Double), Err(CallError::LiteralType));
    assert_eq!(literal_value(Literal::Int(None), TypeKind::Integer), Err(CallError::IntOutOfRange { index: 0 }));
}
