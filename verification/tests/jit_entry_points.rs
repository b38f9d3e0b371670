use pyqir::jit::{check_entry_point_signature, check_target, choose_entry_point, FunctionSummary, JitError};

fn function(name: &str, is_entry_point: bool) -> FunctionSummary {
    FunctionSummary {
        name: Some(name.to_string()),
        is_entry_point,
        param_count: 0,
        returns_void: true,
    }
}

/// A module with one entry point, `App__Foo`, and a declared intrinsic.
fn custom_entry_point_name() -> Vec<FunctionSummary> {
    vec![function("App__Foo", true), function("__quantum__qis__x__body", false)]
}

/// A module with the entry points `App__Foo` and `App__Bar`.
fn multiple_entry_points() -> Vec<FunctionSummary> {
    vec![
        function("App__Foo", true),
        function("App__Bar", true),
        function("__quantum__qis__h__body", false),
    ]
}

/// A module whose entry points take a parameter or return a value.
fn entry_point_types() -> Vec<FunctionSummary> {
    vec![
        FunctionSummary {
            name: Some("App__IntParam".to_string()),
            is_entry_point: true,
            param_count: 1,
            returns_void: true,
        },
        FunctionSummary {
            name: Some("App__IntReturn".to_string()),
            is_entry_point: true,
            param_count: 0,
            returns_void: false,
        },
    ]
}

fn run(functions: &Vec<FunctionSummary>, name: Option<&str>) -> Result<String, String> {
    let i = choose_entry_point(functions, name).map_err(|e| e.message().to_string())?;
    check_entry_point_signature(&functions[i]).map_err(|e| e.message().to_string())?;
    Ok(functions[i].name.clone().unwrap())
}

/// Checks only the choice of entry point among the module's functions; the
/// gates that running it records are not checked here.
#[test]
fn runs_bell_qir_measure() {
    let fs = vec![function("Bell__Run", true), function("__quantum__qis__m__body", false)];
    assert_eq!(run(&fs, None), Ok("Bell__Run".to_string()));
}

/// Checks only the choice of entry point among the module's functions; the
/// gates that running it records are not checked here.
#[test]
fn runs_single_entry_point_with_custom_name() {
    assert_eq!(run(&custom_entry_point_name(), None), Ok("App__Foo".to_string()));
}

/// Checks only the choice of entry point among the module's functions; the
/// gates that running it records are not checked here.
#[test]
fn runs_entry_point_by_name() {
    assert_eq!(run(&custom_entry_point_name(), Some("App__Foo")), Ok("App__Foo".to_string()));
}

/// Checks only the choice of entry point among the module's functions; the
/// gates that running it records are not checked here.
#[test]
fn fails_if_wrong_name_single_entry_point() {
    assert_eq!(
        run(&custom_entry_point_name(), Some("nonexistent")),
        Err("No matching entry point found.".to_string())
    );
}

/// Checks only the choice of entry point among the module's functions; the
/// gates that running it records are not checked here.
#[test]
fn fails_without_name_if_multiple_entry_points() {
    assert_eq!(
        run(&multiple_entry_points(), None),
        Err("Multiple matching entry points found.".to_string())
    );
}

/// Checks only the choice of entry point among the module's functions; the
/// gates that running it records are not checked here.
#[test]
fn runs_first_entry_point_by_name() {
    assert_eq!(run(&multiple_entry_points(), Some("App__Foo")), Ok("App__Foo".to_string()));
}

/// Checks only the choice of entry point among the module's functions; the
/// gates that running it records are not checked here.
#[test]
fn runs_second_entry_point_by_name() {
    assert_eq!(run(&multiple_entry_points(), Some("App__Bar")), Ok("App__Bar".to_string()));
}

/// Checks only the choice of entry point among the module's functions; the
/// gates that running it records are not checked here.
#[test]
fn fails_if_wrong_name_multiple_entry_points() {
    assert_eq!(
        run(&multiple_entry_points(), Some("nonexistent")),
        Err("No matching entry point found.".to_string())
    );
}

/// Checks only the choice of entry point among the module's functions; the
/// gates that running it records are not checked here.
#[test]
fn fails_if_entry_point_has_params() {
    assert_eq!(
        run(&entry_point_types(), Some("App__IntParam")),
        Err("Entry point has parameters or a non-void return type.".to_string())
    );
}

/// Checks only the choice of entry point among the module's functions; the
/// gates that running it records are not checked here.
#[test]
fn fails_if_entry_point_has_return_value() {
    assert_eq!(
        run(&entry_point_types(), Some("App__IntReturn")),
        Err("Entry point has parameters or a non-void return type.".to_string())
    );
}

#[test]
fn functions_without_the_attribute_are_no_entry_points() {
    let fs = vec![function("App__Foo", false)];
    assert_eq!(choose_entry_point(&fs, None), Err(JitError::NoMatchingEntryPoint));
    assert_eq!(choose_entry_point(&fs, Some("App__Foo")), Err(JitError::NoMatchingEntryPoint));
}

#[test]
fn a_function_without_a_valid_name_matches_no_name() {
    let fs = vec![FunctionSummary {
        name: None,
        is_entry_point: true,
        param_count: 0,
        returns_void: true,
    }];
    assert_eq!(choose_entry_point(&fs, None), Ok(0));
    assert_eq!(choose_entry_point(&fs, Some("")), Err(JitError::NoMatchingEntryPoint));
}

#[test]
fn target_checks_come_in_order() {
    assert_eq!(check_target(false, false), Err(JitError::NoAsmBackend));
    assert_eq!(check_target(false, true), Err(JitError::NoAsmBackend));
    assert_eq!(check_target(true, false), Err(JitError::NoTargetMachine));
    assert_eq!(check_target(true, true), Ok(()));
    assert_eq!(JitError::NoAsmBackend.message(), "Target doesn't have an ASM backend.");
    assert_eq!(JitError::NoTargetMachine.message(), "Target doesn't have a target machine.");
}
