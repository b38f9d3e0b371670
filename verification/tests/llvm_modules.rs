use inkwell::attributes::AttributeLoc;
use inkwell::context::Context;
use inkwell::module::Module;
use inkwell::targets::{InitializationConfig, Target};
use inkwell::OptimizationLevel;
use pyqir::intrinsics::{Intrinsic, Intrinsics, Runtime, Simulator, NUM_INTRINSICS};
use pyqir::jit::{entry_point, JitError};

fn declare<'a>(context: &'a Context, module: &Module<'a>, name: &str) {
    let ty = context.void_type().fn_type(&[], false);
    module.add_function(name, ty, None);
}

fn entry<'a>(context: &'a Context, module: &Module<'a>, name: &str) {
    let ty = context.void_type().fn_type(&[], false);
    let f = module.add_function(name, ty, None);
    f.add_attribute(AttributeLoc::Function, context.create_string_attribute("EntryPoint", ""));
}

#[test]
fn instructions_are_found_by_their_lowercase_symbols() {
    let context = Context::create();
    let module = context.create_module("m");
    declare(&context, &module, "__quantum__qis__h__body");
    declare(&context, &module, "__quantum__qis__s__adj");
    declare(&context, &module, "__quantum__qis__cnot__body");
    let found = Intrinsics::new(&module);
    assert!(found.h.is_some());
    assert!(found.s_adj.is_some());
    assert!(found.cnot.is_some());
    assert!(found.s.is_none());
    assert!(found.x.is_none());
    assert!(found.m.is_none());
    assert_eq!(found.h.unwrap().get_name().to_str(), Ok("__quantum__qis__h__body"));
    assert_eq!(found.s_adj.unwrap().get_name().to_str(), Ok("__quantum__qis__s__adj"));
    assert_eq!(found.cnot.unwrap().get_name().to_str(), Ok("__quantum__qis__cnot__body"));
}

#[test]
fn runtime_functions_are_found_by_their_symbols() {
    let context = Context::create();
    let module = context.create_module("m");
    declare(&context, &module, "__quantum__rt__result_equal");
    declare(&context, &module, "__quantum__rt__qubit_allocate");
    let found = Runtime::new(&module);
    assert!(found.result_equal.is_some());
    assert!(found.qubit_allocate.is_some());
    assert!(found.result_get_one.is_none());
    assert!(found.qubit_release.is_none());
    assert_eq!(found.result_equal.unwrap().get_name().to_str(), Ok("__quantum__rt__result_equal"));
    assert_eq!(found.qubit_allocate.unwrap().get_name().to_str(), Ok("__quantum__rt__qubit_allocate"));
}

#[test]
fn the_entry_point_of_a_module_is_found_by_its_attribute() {
    let context = Context::create();
    let module = context.create_module("m");
    declare(&context, &module, "__quantum__qis__x__body");
    entry(&context, &module, "App__Foo");
    let f = entry_point(&module, None).unwrap();
    assert_eq!(f.get_name().to_str(), Ok("App__Foo"));
    assert_eq!(entry_point(&module, Some("App__Bar")).unwrap_err(), JitError::NoMatchingEntryPoint);
}

#[test]
fn entry_points_with_parameters_are_refused() {
    let context = Context::create();
    let module = context.create_module("m");
    let ty = context.void_type().fn_type(&[context.i64_type().into()], false);
    let f = module.add_function("App__IntParam", ty, None);
    f.add_attribute(AttributeLoc::Function, context.create_string_attribute("EntryPoint", ""));
    let ty = context.i64_type().fn_type(&[], false);
    let g = module.add_function("App__IntReturn", ty, None);
    g.add_attribute(AttributeLoc::Function, context.create_string_attribute("EntryPoint", ""));
    assert_eq!(entry_point(&module, Some("App__IntParam")).unwrap_err(), JitError::EntryPointSignature);
    assert_eq!(entry_point(&module, Some("App__IntReturn")).unwrap_err(), JitError::EntryPointSignature);
    assert_eq!(entry_point(&module, None).unwrap_err(), JitError::MultipleEntryPoints);
}

#[test]
fn the_simulator_binds_what_the_module_declares_in_binding_order() {
    Target::initialize_native(&InitializationConfig::default()).unwrap();
    let context = Context::create();
    let module = context.create_module("m");
    declare(&context, &module, "__quantum__rt__qubit_release");
    declare(&context, &module, "__quantum__qis__m__body");
    declare(&context, &module, "__quantum__qis__h__body");
    declare(&context, &module, "__quantum__qis__cnot__body");
    let engine = module.create_jit_execution_engine(OptimizationLevel::None).unwrap();
    let handlers: Vec<usize> = (1..=NUM_INTRINSICS).map(|i| i * 16).collect();
    let sim = Simulator::new(&module, &engine, &handlers);
    assert_eq!(sim.bound, vec![Intrinsic::Cnot, Intrinsic::H, Intrinsic::M, Intrinsic::QubitRelease]);
    let mapped: Vec<(String, usize)> = sim
        .mappings
        .iter()
        .map(|m| (m.function.get_name().to_str().unwrap().to_string(), m.address))
        .collect();
    assert_eq!(
        mapped,
        vec![
            ("__quantum__qis__cnot__body".to_string(), handlers[Intrinsic::Cnot.index()]),
            ("__quantum__qis__h__body".to_string(), handlers[Intrinsic::H.index()]),
            ("__quantum__qis__m__body".to_string(), handlers[Intrinsic::M.index()]),
            ("__quantum__rt__qubit_release".to_string(), handlers[Intrinsic::QubitRelease.index()]),
        ]
    );
}

#[test]
fn a_declared_function_returning_a_token_does_not_stop_the_entry_point_search() {
    let context = Context::create();
    let ir = "declare token @llvm.call.preallocated.setup(i32)\n\ndefine void @App__Main() #0 {\n  ret void\n}\n\nattributes #0 = { \"EntryPoint\" }\n";
    let buffer = inkwell::memory_buffer::MemoryBuffer::create_from_memory_range_copy(ir.as_bytes(), "m");
    let module = context.create_module_from_ir(buffer).unwrap();
    let f = entry_point(&module, None).unwrap();
    assert_eq!(f.get_name().to_str(), Ok("App__Main"));
}
