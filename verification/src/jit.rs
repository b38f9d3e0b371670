//! Choosing and checking the entry point that the JIT runs.

use vstd::prelude::*;
use inkwell::attributes::AttributeLoc;
use inkwell::module::Module;
use inkwell::values::FunctionValue;

verus! {

#[verifier::external_type_specification]
#[verifier::external_body]
pub struct ExModule<'ctx>(Module<'ctx>);

#[verifier::external_type_specification]
#[verifier::external_body]
pub struct ExFunctionValue<'ctx>(FunctionValue<'ctx>);

/// Why a module could not be run.
#[derive(Clone, Copy, Debug, PartialEq, Eq, Structural)]
pub enum JitError {
    NoAsmBackend,
    NoTargetMachine,
    NoMatchingEntryPoint,
    MultipleEntryPoints,
    EntryPointSignature,
}

/// The message of a runner error.
pub open spec fn jit_error_text(e: JitError) -> Seq<char> {
    match e {
        JitError::NoAsmBackend => "Target doesn't have an ASM backend."@,
        JitError::NoTargetMachine => "Target doesn't have a target machine."@,
        JitError::NoMatchingEntryPoint => "No matching entry point found."@,
        JitError::MultipleEntryPoints => "Multiple matching entry points found."@,
        JitError::EntryPointSignature => "Entry point has parameters or a non-void return type."@,
    }
}

impl JitError {
    /// The message that the runner reports.
    pub fn message(&self) -> (r: &'static str)
        ensures
            r@ == jit_error_text(*self),
    {
        match self {
            JitError::NoAsmBackend => "Target doesn't have an ASM backend.",
            JitError::NoTargetMachine => "Target doesn't have a target machine.",
            JitError::NoMatchingEntryPoint => "No matching entry point found.",
            JitError::MultipleEntryPoints => "Multiple matching entry points found.",
            JitError::EntryPointSignature => "Entry point has parameters or a non-void return type.",
        }
    }
}

/// What the entry point selection reads of a function.
pub struct FunctionSummary {
    /// The function's name, if it is valid UTF-8.
    pub name: Option<String>,
    /// Whether the function carries the `EntryPoint` attribute.
    pub is_entry_point: bool,
    /// The number of parameters.
    pub param_count: u32,
    /// Whether the function returns nothing.
    pub returns_void: bool,
}

/// A function summary as a mathematical value.
pub struct SummaryView {
    pub name: Option<Seq<char>>,
    pub is_entry_point: bool,
    pub param_count: u32,
    pub returns_void: bool,
}

impl View for FunctionSummary {
    type V = SummaryView;

    open spec fn view(&self) -> SummaryView {
        SummaryView {
            name: match self.name {
                Some(s) => Some(s@),
                None => None,
            },
            is_entry_point: self.is_entry_point,
            param_count: self.param_count,
            returns_void: self.returns_void,
        }
    }
}

/// The views of a sequence of summaries.
pub open spec fn summary_views(fs: Seq<FunctionSummary>) -> Seq<SummaryView> {
    fs.map_values(|f: FunctionSummary| f@)
}

/// Whether a function is a candidate for the requested entry point: it is an
/// entry point and, when a name was requested, carries exactly that name.
pub open spec fn is_candidate(f: SummaryView, name: Option<Seq<char>>) -> bool {
    &&& f.is_entry_point
    &&& match name {
        None => true,
        Some(n) => f.name == Some(n),
    }
}

/// Whether a function can be run as the entry point: it takes no parameters
/// and returns nothing.
pub open spec fn is_runnable(f: SummaryView) -> bool {
    f.param_count == 0 && f.returns_void
}

/// The number of candidates among the first `k` functions.
pub open spec fn count_candidates(fs: Seq<SummaryView>, name: Option<Seq<char>>, k: int) -> nat
    decreases k,
{
    if k <= 0 {
        0
    } else {
        count_candidates(fs, name, k - 1) + if is_candidate(fs[k - 1], name) { 1nat } else { 0nat }
    }
}

/// The view of an optional requested name.
pub open spec fn name_view(name: Option<&str>) -> Option<Seq<char>> {
    match name {
        None => None,
        Some(n) => Some(n@),
    }
}

/// The number of candidates among a prefix only grows with the prefix.
proof fn lemma_count_monotone(fs: Seq<SummaryView>, name: Option<Seq<char>>, j: int, k: int)
    requires
        0 <= j <= k,
    ensures
        count_candidates(fs, name, j) <= count_candidates(fs, name, k),
    decreases k - j,
{
    if j < k {
        lemma_count_monotone(fs, name, j, k - 1);
    }
}

/// Two different candidates make at least two.
proof fn lemma_two_candidates(fs: Seq<SummaryView>, name: Option<Seq<char>>, i: int, j: int, k: int)
    requires
        0 <= i < j < k,
        is_candidate(fs[i], name),
        is_candidate(fs[j], name),
    ensures
        count_candidates(fs, name, k) >= 2,
{
    lemma_count_monotone(fs, name, i + 1, j);
    lemma_count_monotone(fs, name, j + 1, k);
    assert(count_candidates(fs, name, i + 1) >= 1);
    assert(count_candidates(fs, name, j + 1) == count_candidates(fs, name, j) + 1);
}

/// Compares a function's name with the requested one.
fn name_matches(f_name: &Option<String>, name: &str) -> (r: bool)
    ensures
        r == (f_name matches Some(s) && s@ == name@),
{
    match f_name {
        Some(s) => crate::text::str_eq(s.as_str(), name),
        None => false,
    }
}

/// Whether a function is a candidate for the requested entry point.
fn candidate(f: &FunctionSummary, name: Option<&str>) -> (r: bool)
    ensures
        r == is_candidate(f@, name_view(name)),
{
    if !f.is_entry_point {
        return false;
    }
    match name {
        None => true,
        Some(n) => name_matches(&f.name, n),
    }
}

/// Chooses the entry point among the functions of a module: the only
/// function that is an entry point and, when a name is given, has that name.
/// Fails when there is no such function or more than one.
pub fn choose_entry_point(functions: &Vec<FunctionSummary>, name: Option<&str>) -> (r: Result<usize, JitError>)
    ensures
        count_candidates(summary_views(functions@), name_view(name), functions.len() as int) == 0 <==> r
            == Err::<usize, JitError>(JitError::NoMatchingEntryPoint),
        count_candidates(summary_views(functions@), name_view(name), functions.len() as int) >= 2 <==> r
            == Err::<usize, JitError>(JitError::MultipleEntryPoints),
        r is Ok <==> count_candidates(summary_views(functions@), name_view(name), functions.len() as int) == 1,
        r matches Ok(i) ==> i < functions.len() && is_candidate(functions@[i as int]@, name_view(name)),
{
    let ghost nm = name_view(name);
    let ghost fs = summary_views(functions@);
    let mut found: Option<usize> = None;
    let mut i: usize = 0;
    while i < functions.len()
        invariant
            0 <= i <= functions.len(),
            nm == name_view(name),
            fs == summary_views(functions@),
            found is None ==> count_candidates(fs, nm, i as int) == 0,
            found matches Some(j) ==> j < i && is_candidate(fs[j as int], nm)
                && count_candidates(fs, nm, i as int) == 1,
        decreases functions.len() - i,
    {
        let is_c = candidate(&functions[i], name);
        assert(fs[i as int] == functions@[i as int]@);
        assert(count_candidates(fs, nm, i as int + 1) == count_candidates(fs, nm, i as int)
            + if is_candidate(fs[i as int], nm) { 1nat } else { 0nat });
        if is_c {
            match found {
                Some(j) => {
                    proof {
                        assert(count_candidates(fs, nm, i as int + 1) == 2);
                        lemma_count_monotone(fs, nm, i as int + 1, functions.len() as int);
                    }
                    return Err(JitError::MultipleEntryPoints);
                },
                None => {
                    found = Some(i);
                },
            }
        }
        i = i + 1;
    }
    match found {
        Some(j) => {
            assert(fs[j as int] == functions@[j as int]@);
            Ok(j)
        },
        None => Err(JitError::NoMatchingEntryPoint),
    }
}

/// Checks that the chosen entry point can be run: it takes no parameters and
/// returns nothing.
pub fn check_entry_point_signature(f: &FunctionSummary) -> (r: Result<(), JitError>)
    ensures
        r is Ok <==> is_runnable(f@),
        r is Err ==> r == Err::<(), JitError>(JitError::EntryPointSignature),
{
    if f.param_count == 0 && f.returns_void {
        Ok(())
    } else {
        Err(JitError::EntryPointSignature)
    }
}

/// Checks that the native target can generate code: it has an assembly
/// back end and a target machine.
pub fn check_target(has_asm_backend: bool, has_target_machine: bool) -> (r: Result<(), JitError>)
    ensures
        !has_asm_backend ==> r == Err::<(), JitError>(JitError::NoAsmBackend),
        has_asm_backend && !has_target_machine ==> r == Err::<(), JitError>(JitError::NoTargetMachine),
        has_asm_backend && has_target_machine ==> r is Ok,
{
    if !has_asm_backend {
        return Err(JitError::NoAsmBackend);
    }
    if !has_target_machine {
        return Err(JitError::NoTargetMachine);
    }
    Ok(())
}

/// Where an attribute of a function sits: on its return value, on one of its
/// parameters (counted from zero), or on the function itself.
#[derive(Clone, Copy, Debug, PartialEq, Eq, Structural)]
pub enum AttributePlace {
    Return,
    Param(u32),
    Function,
}

/// The functions of a module, in module order, while the module is not
/// changed.
pub uninterp spec fn module_function_list(module: Module<'_>) -> Seq<FunctionValue<'_>>;

/// The name of a function, when it is valid UTF-8.
pub uninterp spec fn function_symbol(f: FunctionValue<'_>) -> Option<Seq<char>>;

/// Whether a function carries a string attribute with the given key at the
/// given place.
pub uninterp spec fn string_attribute_present(f: FunctionValue<'_>, place: AttributePlace, key: Seq<char>) -> bool;

/// The number of parameters of a function.
pub uninterp spec fn param_count_of(f: FunctionValue<'_>) -> u32;

/// The textual form of a function's type, as LLVM prints types.
pub uninterp spec fn type_text_of(f: FunctionValue<'_>) -> Seq<char>;

/// `Module::get_functions`, collected: the functions of the module, in
/// module order.
#[verifier::external_body]
pub(crate) fn module_functions<'ctx>(module: &Module<'ctx>) -> (r: Vec<FunctionValue<'ctx>>)
    ensures
        r@ == module_function_list(*module),
{
    module.get_functions().collect()
}

/// `FunctionValue::get_name`: the function's name, when it is valid UTF-8.
#[verifier::external_body]
pub(crate) fn function_name<'ctx>(f: FunctionValue<'ctx>) -> (r: Option<String>)
    ensures
        match r {
            Some(s) => function_symbol(f) == Some(s@),
            None => function_symbol(f) is None,
        },
{
    f.get_name().to_str().ok().map(|s| s.to_owned())
}

/// `FunctionValue::get_string_attribute`, asked only whether an attribute
/// with the key sits at the place.
#[verifier::external_body]
pub(crate) fn has_string_attribute<'ctx>(f: FunctionValue<'ctx>, place: AttributePlace, key: &str) -> (r: bool)
    requires
        place matches AttributePlace::Param(i) ==> i <= u32::MAX - 2,
    ensures
        r == string_attribute_present(f, place, key@),
{
    let loc = match place {
        AttributePlace::Return => AttributeLoc::Return,
        AttributePlace::Param(i) => AttributeLoc::Param(i),
        AttributePlace::Function => AttributeLoc::Function,
    };
    f.get_string_attribute(loc, key).is_some()
}

/// `FunctionValue::count_params`: the number of parameters.
#[verifier::external_body]
pub(crate) fn count_params<'ctx>(f: FunctionValue<'ctx>) -> (r: u32)
    ensures
        r == param_count_of(f),
{
    f.count_params()
}

/// `FunctionType::print_to_string` of the function's type: the type as LLVM
/// prints it, such as `void ()` or `i64 (i64)`.
#[verifier::external_body]
pub(crate) fn type_text<'ctx>(f: FunctionValue<'ctx>) -> (r: String)
    ensures
        r@ == type_text_of(f),
{
    f.get_type().print_to_string().to_string()
}

/// Whether a printed function type returns nothing: LLVM prints a function
/// type as its return type, a space and its parameter list, and the void
/// type as `void`.
pub open spec fn void_type_text(t: Seq<char>) -> bool {
    t.len() >= 5 && t[0] == 'v' && t[1] == 'o' && t[2] == 'i' && t[3] == 'd' && t[4] == ' '
}

/// Whether a printed function type returns nothing.
fn returns_void(t: &str) -> (r: bool)
    ensures
        r == void_type_text(t@),
{
    if t.unicode_len() < 5 {
        return false;
    }
    t.get_char(0) == 'v' && t.get_char(1) == 'o' && t.get_char(2) == 'i' && t.get_char(3) == 'd'
        && t.get_char(4) == ' '
}

/// What entry point selection reads of a function.
pub open spec fn summary_of(f: FunctionValue<'_>) -> SummaryView {
    SummaryView {
        name: function_symbol(f),
        is_entry_point: string_attribute_present(f, AttributePlace::Function, "EntryPoint"@),
        param_count: param_count_of(f),
        returns_void: void_type_text(type_text_of(f)),
    }
}

/// The summaries of the functions of a module, in module order.
pub open spec fn module_summaries(module: Module<'_>) -> Seq<SummaryView> {
    module_function_list(module).map_values(|f: FunctionValue<'_>| summary_of(f))
}

/// What entry point selection reads of a function.
fn summarize<'ctx>(f: FunctionValue<'ctx>) -> (r: FunctionSummary)
    ensures
        r@ == summary_of(f),
{
    let text = type_text(f);
    FunctionSummary {
        name: function_name(f),
        is_entry_point: has_string_attribute(f, AttributePlace::Function, "EntryPoint"),
        param_count: count_params(f),
        returns_void: returns_void(text.as_str()),
    }
}

/// Chooses the entry point of a module (see `choose_entry_point`) and checks
/// that it can be run (see `check_entry_point_signature`).
pub fn entry_point<'ctx>(module: &Module<'ctx>, name: Option<&str>) -> (r: Result<FunctionValue<'ctx>, JitError>)
    ensures
        ({
            let fs = module_summaries(*module);
            let n = fs.len() as int;
            let nm = name_view(name);
            &&& count_candidates(fs, nm, n) == 0 <==> r == Err::<FunctionValue<'ctx>, JitError>(
                JitError::NoMatchingEntryPoint,
            )
            &&& count_candidates(fs, nm, n) >= 2 <==> r == Err::<FunctionValue<'ctx>, JitError>(
                JitError::MultipleEntryPoints,
            )
            &&& r is Ok <==> count_candidates(fs, nm, n) == 1 && forall|i: int|
                0 <= i < n && is_candidate(#[trigger] fs[i], nm) ==> is_runnable(fs[i])
            &&& r == Err::<FunctionValue<'ctx>, JitError>(JitError::EntryPointSignature) <==> count_candidates(fs, nm, n)
                == 1 && exists|i: int| 0 <= i < n && is_candidate(#[trigger] fs[i], nm) && !is_runnable(fs[i])
            &&& r matches Ok(f) ==> exists|i: int|
                0 <= i < n && module_function_list(*module)[i] == f && is_candidate(#[trigger] fs[i], nm)
        }),
{
    let ghost fs = module_summaries(*module);
    let ghost nm = name_view(name);
    let functions = module_functions(module);
    let mut summaries: Vec<FunctionSummary> = Vec::new();
    let mut i: usize = 0;
    while i < functions.len()
        invariant
            0 <= i <= functions.len(),
            functions@ == module_function_list(*module),
            fs == module_summaries(*module),
            summaries.len() == i,
            forall|k: int| 0 <= k < i ==> (#[trigger] summaries@[k])@ == fs[k],
        decreases functions.len() - i,
    {
        let s = summarize(functions[i]);
        summaries.push(s);
        i = i + 1;
    }
    assert(summary_views(summaries@) =~= fs);
    let ghost n = functions.len() as int;
    match choose_entry_point(&summaries, name) {
        Err(e) => {
            proof {
                if e == JitError::MultipleEntryPoints {
                    assert(count_candidates(fs, nm, n) != 1);
                }
            }
            Err(e)
        },
        Ok(chosen) => {
            assert(summaries@[chosen as int]@ == fs[chosen as int]);
            proof {
                assert forall|j: int| 0 <= j < n && is_candidate(#[trigger] fs[j], nm) implies j == chosen by {
                    if j < chosen {
                        lemma_two_candidates(fs, nm, j, chosen as int, n);
                    } else if j > chosen {
                        lemma_two_candidates(fs, nm, chosen as int, j, n);
                    }
                }
            }
            match check_entry_point_signature(&summaries[chosen]) {
                Err(e) => Err(e),
                Ok(()) => Ok(functions[chosen]),
            }
        },
    }
}

} // verus!
