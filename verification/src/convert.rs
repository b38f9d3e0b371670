//! The instruction opcodes, comparison predicates and linkage kinds that the
//! bindings expose, and their numbering in the LLVM C interface.

use vstd::prelude::*;

verus! {

/// An instruction opcode.
#[derive(Clone, Copy, Debug, PartialEq, Eq, Structural)]
pub enum Opcode {
    Add,
    AddrSpaceCast,
    Alloca,
    And,
    AShr,
    AtomicCmpXchg,
    AtomicRmw,
    BitCast,
    Br,
    Call,
    CallBr,
    CatchRet,
    CatchPad,
    CatchSwitch,
    CleanupPad,
    CleanupRet,
    ExtractElement,
    ExtractValue,
    FAdd,
    FCmp,
    FDiv,
    Fence,
    FMul,
    FNeg,
    FPExt,
    FPToSI,
    FPToUI,
    FPTrunc,
    Freeze,
    FRem,
    FSub,
    GetElementPtr,
    ICmp,
    IndirectBr,
    InsertElement,
    InsertValue,
    IntToPtr,
    Invoke,
    LandingPad,
    Load,
    LShr,
    Mul,
    Or,
    Phi,
    PtrToInt,
    Resume,
    Ret,
    SDiv,
    Select,
    SExt,
    Shl,
    ShuffleVector,
    SIToFP,
    SRem,
    Store,
    Sub,
    Switch,
    Trunc,
    UDiv,
    UIToFP,
    Unreachable,
    URem,
    UserOp1,
    UserOp2,
    VaArg,
    Xor,
    ZExt,
}

/// The number of the opcode in the LLVM C interface (`LLVMOpcode`).
pub open spec fn opcode_code(x: Opcode) -> u32 {
    match x {
        Opcode::Add => 8,
        Opcode::AddrSpaceCast => 60,
        Opcode::Alloca => 26,
        Opcode::And => 23,
        Opcode::AShr => 22,
        Opcode::AtomicCmpXchg => 56,
        Opcode::AtomicRmw => 57,
        Opcode::BitCast => 41,
        Opcode::Br => 2,
        Opcode::Call => 45,
        Opcode::CallBr => 67,
        Opcode::CatchRet => 62,
        Opcode::CatchPad => 63,
        Opcode::CatchSwitch => 65,
        Opcode::CleanupPad => 64,
        Opcode::CleanupRet => 61,
        Opcode::ExtractElement => 50,
        Opcode::ExtractValue => 53,
        Opcode::FAdd => 9,
        Opcode::FCmp => 43,
        Opcode::FDiv => 16,
        Opcode::Fence => 55,
        Opcode::FMul => 13,
        Opcode::FNeg => 66,
        Opcode::FPExt => 38,
        Opcode::FPToSI => 34,
        Opcode::FPToUI => 33,
        Opcode::FPTrunc => 37,
        Opcode::Freeze => 68,
        Opcode::FRem => 19,
        Opcode::FSub => 11,
        Opcode::GetElementPtr => 29,
        Opcode::ICmp => 42,
        Opcode::IndirectBr => 4,
        Opcode::InsertElement => 51,
        Opcode::InsertValue => 54,
        Opcode::IntToPtr => 40,
        Opcode::Invoke => 5,
        Opcode::LandingPad => 59,
        Opcode::Load => 27,
        Opcode::LShr => 21,
        Opcode::Mul => 12,
        Opcode::Or => 24,
        Opcode::Phi => 44,
        Opcode::PtrToInt => 39,
        Opcode::Resume => 58,
        Opcode::Ret => 1,
        Opcode::SDiv => 15,
        Opcode::Select => 46,
        Opcode::SExt => 32,
        Opcode::Shl => 20,
        Opcode::ShuffleVector => 52,
        Opcode::SIToFP => 36,
        Opcode::SRem => 18,
        Opcode::Store => 28,
        Opcode::Sub => 10,
        Opcode::Switch => 3,
        Opcode::Trunc => 30,
        Opcode::UDiv => 14,
        Opcode::UIToFP => 35,
        Opcode::Unreachable => 7,
        Opcode::URem => 17,
        Opcode::UserOp1 => 47,
        Opcode::UserOp2 => 48,
        Opcode::VaArg => 49,
        Opcode::Xor => 25,
        Opcode::ZExt => 31,
    }
}

impl Opcode {
    /// The opcode that the LLVM C interface numbers `code`, if any.
    pub fn from_llvm(code: u32) -> (r: Option<Opcode>)
        ensures
            r matches Some(x) ==> opcode_code(x) == code,
            r is None ==> forall|x: Opcode| #[trigger] opcode_code(x) != code,
    {
        match code {
            8 => Some(Opcode::Add),
            60 => Some(Opcode::AddrSpaceCast),
            26 => Some(Opcode::Alloca),
            23 => Some(Opcode::And),
            22 => Some(Opcode::AShr),
            56 => Some(Opcode::AtomicCmpXchg),
            57 => Some(Opcode::AtomicRmw),
            41 => Some(Opcode::BitCast),
            2 => Some(Opcode::Br),
            45 => Some(Opcode::Call),
            67 => Some(Opcode::CallBr),
            62 => Some(Opcode::CatchRet),
            63 => Some(Opcode::CatchPad),
            65 => Some(Opcode::CatchSwitch),
            64 => Some(Opcode::CleanupPad),
            61 => Some(Opcode::CleanupRet),
            50 => Some(Opcode::ExtractElement),
            53 => Some(Opcode::ExtractValue),
            9 => Some(Opcode::FAdd),
            43 => Some(Opcode::FCmp),
            16 => Some(Opcode::FDiv),
            55 => Some(Opcode::Fence),
            13 => Some(Opcode::FMul),
            66 => Some(Opcode::FNeg),
            38 => Some(Opcode::FPExt),
            34 => Some(Opcode::FPToSI),
            33 => Some(Opcode::FPToUI),
            37 => Some(Opcode::FPTrunc),
            68 => Some(Opcode::Freeze),
            19 => Some(Opcode::FRem),
            11 => Some(Opcode::FSub),
            29 => Some(Opcode::GetElementPtr),
            42 => Some(Opcode::ICmp),
            4 => Some(Opcode::IndirectBr),
            51 => Some(Opcode::InsertElement),
            54 => Some(Opcode::InsertValue),
            40 => Some(Opcode::IntToPtr),
            5 => Some(Opcode::Invoke),
            59 => Some(Opcode::LandingPad),
            27 => Some(Opcode::Load),
            21 => Some(Opcode::LShr),
            12 => Some(Opcode::Mul),
            24 => Some(Opcode::Or),
            44 => Some(Opcode::Phi),
            39 => Some(Opcode::PtrToInt),
            58 => Some(Opcode::Resume),
            1 => Some(Opcode::Ret),
            15 => Some(Opcode::SDiv),
            46 => Some(Opcode::Select),
            32 => Some(Opcode::SExt),
            20 => Some(Opcode::Shl),
            52 => Some(Opcode::ShuffleVector),
            36 => Some(Opcode::SIToFP),
            18 => Some(Opcode::SRem),
            28 => Some(Opcode::Store),
            10 => Some(Opcode::Sub),
            3 => Some(Opcode::Switch),
            30 => Some(Opcode::Trunc),
            14 => Some(Opcode::UDiv),
            35 => Some(Opcode::UIToFP),
            7 => Some(Opcode::Unreachable),
            17 => Some(Opcode::URem),
            47 => Some(Opcode::UserOp1),
            48 => Some(Opcode::UserOp2),
            49 => Some(Opcode::VaArg),
            25 => Some(Opcode::Xor),
            31 => Some(Opcode::ZExt),
            _ => None,
        }
    }
}

/// An integer comparison predicate.
#[derive(Clone, Copy, Debug, PartialEq, Eq, Structural)]
pub enum IntPredicate {
    Eq,
    Ne,
    Ugt,
    Uge,
    Ult,
    Ule,
    Sgt,
    Sge,
    Slt,
    Sle,
}

/// The number of the predicate in the LLVM C interface (`LLVMIntPredicate`).
pub open spec fn int_predicate_code(x: IntPredicate) -> u32 {
    match x {
        IntPredicate::Eq => 32,
        IntPredicate::Ne => 33,
        IntPredicate::Ugt => 34,
        IntPredicate::Uge => 35,
        IntPredicate::Ult => 36,
        IntPredicate::Ule => 37,
        IntPredicate::Sgt => 38,
        IntPredicate::Sge => 39,
        IntPredicate::Slt => 40,
        IntPredicate::Sle => 41,
    }
}

impl IntPredicate {
    /// The predicate that the LLVM C interface numbers `code`, if any.
    pub fn from_llvm(code: u32) -> (r: Option<IntPredicate>)
        ensures
            r matches Some(x) ==> int_predicate_code(x) == code,
            r is None ==> forall|x: IntPredicate| #[trigger] int_predicate_code(x) != code,
    {
        match code {
            32 => Some(IntPredicate::Eq),
            33 => Some(IntPredicate::Ne),
            34 => Some(IntPredicate::Ugt),
            35 => Some(IntPredicate::Uge),
            36 => Some(IntPredicate::Ult),
            37 => Some(IntPredicate::Ule),
            38 => Some(IntPredicate::Sgt),
            39 => Some(IntPredicate::Sge),
            40 => Some(IntPredicate::Slt),
            41 => Some(IntPredicate::Sle),
            _ => None,
        }
    }

    /// The number of this predicate in the LLVM C interface.
    pub fn llvm_code(self) -> (r: u32)
        ensures
            r == int_predicate_code(self),
    {
        match self {
            IntPredicate::Eq => 32,
            IntPredicate::Ne => 33,
            IntPredicate::Ugt => 34,
            IntPredicate::Uge => 35,
            IntPredicate::Ult => 36,
            IntPredicate::Ule => 37,
            IntPredicate::Sgt => 38,
            IntPredicate::Sge => 39,
            IntPredicate::Slt => 40,
            IntPredicate::Sle => 41,
        }
    }
}

/// A floating-point comparison predicate.
#[derive(Clone, Copy, Debug, PartialEq, Eq, Structural)]
pub enum FloatPredicate {
    False,
    Oeq,
    Ogt,
    Oge,
    Olt,
    Ole,
    One,
    Ord,
    Uno,
    Ueq,
    Ugt,
    Uge,
    Ult,
    Ule,
    Une,
    True,
}

/// The number of the predicate in the LLVM C interface (`LLVMRealPredicate`).
pub open spec fn float_predicate_code(x: FloatPredicate) -> u32 {
    match x {
        FloatPredicate::False => 0,
        FloatPredicate::Oeq => 1,
        FloatPredicate::Ogt => 2,
        FloatPredicate::Oge => 3,
        FloatPredicate::Olt => 4,
        FloatPredicate::Ole => 5,
        FloatPredicate::One => 6,
        FloatPredicate::Ord => 7,
        FloatPredicate::Uno => 8,
        FloatPredicate::Ueq => 9,
        FloatPredicate::Ugt => 10,
        FloatPredicate::Uge => 11,
        FloatPredicate::Ult => 12,
        FloatPredicate::Ule => 13,
        FloatPredicate::Une => 14,
        FloatPredicate::True => 15,
    }
}

impl FloatPredicate {
    /// The predicate that the LLVM C interface numbers `code`, if any.
    pub fn from_llvm(code: u32) -> (r: Option<FloatPredicate>)
        ensures
            r matches Some(x) ==> float_predicate_code(x) == code,
            r is None ==> forall|x: FloatPredicate| #[trigger] float_predicate_code(x) != code,
    {
        match code {
            0 => Some(FloatPredicate::False),
            1 => Some(FloatPredicate::Oeq),
            2 => Some(FloatPredicate::Ogt),
            3 => Some(FloatPredicate::Oge),
            4 => Some(FloatPredicate::Olt),
            5 => Some(FloatPredicate::Ole),
            6 => Some(FloatPredicate::One),
            7 => Some(FloatPredicate::Ord),
            8 => Some(FloatPredicate::Uno),
            9 => Some(FloatPredicate::Ueq),
            10 => Some(FloatPredicate::Ugt),
            11 => Some(FloatPredicate::Uge),
            12 => Some(FloatPredicate::Ult),
            13 => Some(FloatPredicate::Ule),
            14 => Some(FloatPredicate::Une),
            15 => Some(FloatPredicate::True),
            _ => None,
        }
    }
}

/// The linkage kind of a global value in a module.
#[derive(Clone, Copy, Debug, PartialEq, Eq, Structural)]
pub enum Linkage {
    Appending,
    AvailableExternally,
    Common,
    External,
    ExternalWeak,
    Internal,
    LinkOnceAny,
    LinkOnceOdr,
    Private,
    WeakAny,
    WeakOdr,
}

/// The number of the linkage kind in the LLVM C interface (`LLVMLinkage`).
pub open spec fn linkage_code(x: Linkage) -> u32 {
    match x {
        Linkage::Appending => 7,
        Linkage::AvailableExternally => 1,
        Linkage::Common => 14,
        Linkage::External => 0,
        Linkage::ExternalWeak => 12,
        Linkage::Internal => 8,
        Linkage::LinkOnceAny => 2,
        Linkage::LinkOnceOdr => 3,
        Linkage::Private => 9,
        Linkage::WeakAny => 5,
        Linkage::WeakOdr => 6,
    }
}

impl Linkage {
    /// The number of this linkage kind in the LLVM C interface.
    pub fn llvm_code(self) -> (r: u32)
        ensures
            r == linkage_code(self),
    {
        match self {
            Linkage::Appending => 7,
            Linkage::AvailableExternally => 1,
            Linkage::Common => 14,
            Linkage::External => 0,
            Linkage::ExternalWeak => 12,
            Linkage::Internal => 8,
            Linkage::LinkOnceAny => 2,
            Linkage::LinkOnceOdr => 3,
            Linkage::Private => 9,
            Linkage::WeakAny => 5,
            Linkage::WeakOdr => 6,
        }
    }
}

/// How a module flag behaves when two modules that both carry it are linked
/// (the choices that the Python bindings offer).
#[derive(Clone, Copy, Debug, PartialEq, Eq, Structural)]
pub enum ModuleFlagBehavior {
    Error,
    Warning,
    Require,
    Override,
    Append,
    AppendUnique,
    Max,
}

/// The module flag behaviors of the code generation layer.
#[derive(Clone, Copy, Debug, PartialEq, Eq, Structural)]
pub enum FlagBehavior {
    Error,
    Warning,
    Require,
    Override,
    Append,
    AppendUnique,
    Max,
}

/// The code-generation behavior that carries the same name as a Python-facing one.
pub open spec fn flag_behavior_of(b: ModuleFlagBehavior) -> FlagBehavior {
    match b {
        ModuleFlagBehavior::Error => FlagBehavior::Error,
        ModuleFlagBehavior::Warning => FlagBehavior::Warning,
        ModuleFlagBehavior::Require => FlagBehavior::Require,
        ModuleFlagBehavior::Override => FlagBehavior::Override,
        ModuleFlagBehavior::Append => FlagBehavior::Append,
        ModuleFlagBehavior::AppendUnique => FlagBehavior::AppendUnique,
        ModuleFlagBehavior::Max => FlagBehavior::Max,
    }
}

/// The Python-facing behavior that carries the same name as a code-generation one.
pub open spec fn module_flag_behavior_of(b: FlagBehavior) -> ModuleFlagBehavior {
    match b {
        FlagBehavior::Error => ModuleFlagBehavior::Error,
        FlagBehavior::Warning => ModuleFlagBehavior::Warning,
        FlagBehavior::Require => ModuleFlagBehavior::Require,
        FlagBehavior::Override => ModuleFlagBehavior::Override,
        FlagBehavior::Append => ModuleFlagBehavior::Append,
        FlagBehavior::AppendUnique => ModuleFlagBehavior::AppendUnique,
        FlagBehavior::Max => ModuleFlagBehavior::Max,
    }
}

impl ModuleFlagBehavior {
    /// Converts to the code-generation behavior of the same name.
    pub fn to_flag_behavior(self) -> (r: FlagBehavior)
        ensures
            r == flag_behavior_of(self),
    {
        match self {
            ModuleFlagBehavior::Error => FlagBehavior::Error,
            ModuleFlagBehavior::Warning => FlagBehavior::Warning,
            ModuleFlagBehavior::Require => FlagBehavior::Require,
            ModuleFlagBehavior::Override => FlagBehavior::Override,
            ModuleFlagBehavior::Append => FlagBehavior::Append,
            ModuleFlagBehavior::AppendUnique => FlagBehavior::AppendUnique,
            ModuleFlagBehavior::Max => FlagBehavior::Max,
        }
    }

    /// Converts from the code-generation behavior of the same name.
    pub fn from_flag_behavior(b: FlagBehavior) -> (r: ModuleFlagBehavior)
        ensures
            r == module_flag_behavior_of(b),
    {
        match b {
            FlagBehavior::Error => ModuleFlagBehavior::Error,
            FlagBehavior::Warning => ModuleFlagBehavior::Warning,
            FlagBehavior::Require => ModuleFlagBehavior::Require,
            FlagBehavior::Override => ModuleFlagBehavior::Override,
            FlagBehavior::Append => ModuleFlagBehavior::Append,
            FlagBehavior::AppendUnique => ModuleFlagBehavior::AppendUnique,
            FlagBehavior::Max => ModuleFlagBehavior::Max,
        }
    }
}

/// Distinct opcodes have distinct numbers in the LLVM C interface, so reading
/// an opcode back from its number gives the opcode itself.
pub proof fn lemma_opcode_code_injective(a: Opcode, b: Opcode)
    ensures
        opcode_code(a) == opcode_code(b) ==> a == b,
{
}

/// Distinct integer predicates have distinct numbers in the LLVM C interface.
pub proof fn lemma_int_predicate_code_injective(a: IntPredicate, b: IntPredicate)
    ensures
        int_predicate_code(a) == int_predicate_code(b) ==> a == b,
{
}

/// Distinct floating-point predicates have distinct numbers in the LLVM C interface.
pub proof fn lemma_float_predicate_code_injective(a: FloatPredicate, b: FloatPredicate)
    ensures
        float_predicate_code(a) == float_predicate_code(b) ==> a == b,
{
}

/// Distinct linkage kinds have distinct numbers in the LLVM C interface.
pub proof fn lemma_linkage_code_injective(a: Linkage, b: Linkage)
    ensures
        linkage_code(a) == linkage_code(b) ==> a == b,
{
}

/// Converting a flag behavior to the code-generation layer and back gives it
/// back, in both directions.
pub proof fn lemma_flag_behavior_roundtrip(a: ModuleFlagBehavior, b: FlagBehavior)
    ensures
        module_flag_behavior_of(flag_behavior_of(a)) == a,
        flag_behavior_of(module_flag_behavior_of(b)) == b,
{
}


/// Whether the opcodes `ops` are numbered `start`, `start + 1`, ... in turn.
pub open spec fn numbered_from(start: int, ops: Seq<Opcode>) -> bool {
    forall|k: int| 0 <= k < ops.len() ==> opcode_code(#[trigger] ops[k]) == start + k
}

/// LLVM numbers its opcodes by instruction group, each group a run of
/// consecutive codes: the terminators from 1 (with 6 unused), the binary
/// operators from 8 with each integer arithmetic operation directly followed
/// by its floating-point form, the memory operations from 26, the casts from
/// 30, the other operations from 42, the atomics and exception handling from
/// 55, and the later additions after them.
pub proof fn lemma_opcode_numbering()
    ensures
        numbered_from(1, seq![Opcode::Ret, Opcode::Br, Opcode::Switch, Opcode::IndirectBr, Opcode::Invoke]),
        numbered_from(7, seq![Opcode::Unreachable]),
        numbered_from(
            8,
            seq![
                Opcode::Add, Opcode::FAdd, Opcode::Sub, Opcode::FSub, Opcode::Mul, Opcode::FMul,
                Opcode::UDiv, Opcode::SDiv, Opcode::FDiv, Opcode::URem, Opcode::SRem, Opcode::FRem,
                Opcode::Shl, Opcode::LShr, Opcode::AShr, Opcode::And, Opcode::Or, Opcode::Xor,
            ],
        ),
        numbered_from(26, seq![Opcode::Alloca, Opcode::Load, Opcode::Store, Opcode::GetElementPtr]),
        numbered_from(
            30,
            seq![
                Opcode::Trunc, Opcode::ZExt, Opcode::SExt, Opcode::FPToUI, Opcode::FPToSI, Opcode::UIToFP,
                Opcode::SIToFP, Opcode::FPTrunc, Opcode::FPExt, Opcode::PtrToInt, Opcode::IntToPtr, Opcode::BitCast,
            ],
        ),
        numbered_from(
            42,
            seq![
                Opcode::ICmp, Opcode::FCmp, Opcode::Phi, Opcode::Call, Opcode::Select, Opcode::UserOp1,
                Opcode::UserOp2, Opcode::VaArg, Opcode::ExtractElement, Opcode::InsertElement,
                Opcode::ShuffleVector, Opcode::ExtractValue, Opcode::InsertValue,
            ],
        ),
        numbered_from(
            55,
            seq![
                Opcode::Fence, Opcode::AtomicCmpXchg, Opcode::AtomicRmw, Opcode::Resume, Opcode::LandingPad,
                Opcode::AddrSpaceCast, Opcode::CleanupRet, Opcode::CatchRet, Opcode::CatchPad,
                Opcode::CleanupPad, Opcode::CatchSwitch, Opcode::FNeg, Opcode::CallBr, Opcode::Freeze,
            ],
        ),
        forall|x: Opcode| 1 <= #[trigger] opcode_code(x) <= 68 && opcode_code(x) != 6,
{
}


/// Whether the integer comparisons `ps` are numbered `start`, `start + 1`, ... in turn.
pub open spec fn int_predicates_numbered_from(start: int, ps: Seq<IntPredicate>) -> bool {
    forall|k: int| 0 <= k < ps.len() ==> int_predicate_code(#[trigger] ps[k]) == start + k
}

/// LLVM numbers the integer comparisons from 32: equality, inequality, then
/// the unsigned orderings, then the signed ones, each signed ordering four
/// after its unsigned form.
pub proof fn lemma_int_predicate_numbering()
    ensures
        int_predicates_numbered_from(
            32,
            seq![
                IntPredicate::Eq, IntPredicate::Ne, IntPredicate::Ugt, IntPredicate::Uge, IntPredicate::Ult,
                IntPredicate::Ule, IntPredicate::Sgt, IntPredicate::Sge, IntPredicate::Slt, IntPredicate::Sle,
            ],
        ),
        int_predicate_code(IntPredicate::Sgt) == int_predicate_code(IntPredicate::Ugt) + 4,
        int_predicate_code(IntPredicate::Sge) == int_predicate_code(IntPredicate::Uge) + 4,
        int_predicate_code(IntPredicate::Slt) == int_predicate_code(IntPredicate::Ult) + 4,
        int_predicate_code(IntPredicate::Sle) == int_predicate_code(IntPredicate::Ule) + 4,
{
}

/// LLVM numbers a float comparison by the outcomes it holds on: one for
/// equal, two for greater, four for less and eight for unordered; so each
/// unordered comparison is eight after the ordered one it extends.
pub proof fn lemma_float_predicate_numbering()
    ensures
        float_predicate_code(FloatPredicate::False) == 0,
        float_predicate_code(FloatPredicate::Oeq) == 1,
        float_predicate_code(FloatPredicate::Ogt) == 2,
        float_predicate_code(FloatPredicate::Oge) == 1 + 2,
        float_predicate_code(FloatPredicate::Olt) == 4,
        float_predicate_code(FloatPredicate::Ole) == 1 + 4,
        float_predicate_code(FloatPredicate::One) == 2 + 4,
        float_predicate_code(FloatPredicate::Ord) == 1 + 2 + 4,
        float_predicate_code(FloatPredicate::Uno) == 8,
        float_predicate_code(FloatPredicate::Ueq) == float_predicate_code(FloatPredicate::Oeq) + 8,
        float_predicate_code(FloatPredicate::Ugt) == float_predicate_code(FloatPredicate::Ogt) + 8,
        float_predicate_code(FloatPredicate::Uge) == float_predicate_code(FloatPredicate::Oge) + 8,
        float_predicate_code(FloatPredicate::Ult) == float_predicate_code(FloatPredicate::Olt) + 8,
        float_predicate_code(FloatPredicate::Ule) == float_predicate_code(FloatPredicate::Ole) + 8,
        float_predicate_code(FloatPredicate::Une) == float_predicate_code(FloatPredicate::One) + 8,
        float_predicate_code(FloatPredicate::True) == float_predicate_code(FloatPredicate::Ord) + 8,
{
}

/// LLVM's numbers of the linkage kinds that the library tells apart, in the
/// order of the LLVM C interface.
pub proof fn lemma_linkage_numbering()
    ensures
        linkage_code(Linkage::External) == 0,
        linkage_code(Linkage::AvailableExternally) == 1,
        linkage_code(Linkage::LinkOnceAny) == 2,
        linkage_code(Linkage::LinkOnceOdr) == 3,
        linkage_code(Linkage::WeakAny) == 5,
        linkage_code(Linkage::WeakOdr) == 6,
        linkage_code(Linkage::Appending) == 7,
        linkage_code(Linkage::Internal) == 8,
        linkage_code(Linkage::Private) == 9,
        linkage_code(Linkage::ExternalWeak) == 12,
        linkage_code(Linkage::Common) == 14,
{
}

} // verus!
