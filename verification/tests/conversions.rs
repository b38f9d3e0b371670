use llvm_sys::{LLVMIntPredicate, LLVMLinkage, LLVMOpcode, LLVMRealPredicate};
use pyqir::convert::{FlagBehavior, FloatPredicate, IntPredicate, Linkage, ModuleFlagBehavior, Opcode};

#[test]
fn opcodes_follow_the_llvm_numbering() {
    let pairs = [
        (LLVMOpcode::LLVMRet, Opcode::Ret),
        (LLVMOpcode::LLVMBr, Opcode::Br),
        (LLVMOpcode::LLVMSwitch, Opcode::Switch),
        (LLVMOpcode::LLVMCallBr, Opcode::CallBr),
        (LLVMOpcode::LLVMFNeg, Opcode::FNeg),
        (LLVMOpcode::LLVMAdd, Opcode::Add),
        (LLVMOpcode::LLVMAddrSpaceCast, Opcode::AddrSpaceCast),
        (LLVMOpcode::LLVMICmp, Opcode::ICmp),
        (LLVMOpcode::LLVMFCmp, Opcode::FCmp),
        (LLVMOpcode::LLVMPHI, Opcode::Phi),
        (LLVMOpcode::LLVMCall, Opcode::Call),
        (LLVMOpcode::LLVMFreeze, Opcode::Freeze),
        (LLVMOpcode::LLVMCatchSwitch, Opcode::CatchSwitch),
        (LLVMOpcode::LLVMAtomicRMW, Opcode::AtomicRmw),
        (LLVMOpcode::LLVMZExt, Opcode::ZExt),
    ];
    for (llvm, op) in pairs {
        assert_eq!(Opcode::from_llvm(llvm as u32), Some(op));
    }
    assert_eq!(Opcode::from_llvm(6), None);
    assert_eq!(Opcode::from_llvm(0), None);
    assert_eq!(Opcode::from_llvm(69), None);
}

#[test]
fn every_llvm_opcode_number_is_known() {
    let mut known = 0;
    for code in 0..100u32 {
        if Opcode::from_llvm(code).is_some() {
            known += 1;
        }
    }
    assert_eq!(known, 67);
}

#[test]
fn int_predicates_round_trip() {
    let pairs = [
        (LLVMIntPredicate::LLVMIntEQ, IntPredicate::Eq),
        (LLVMIntPredicate::LLVMIntNE, IntPredicate::Ne),
        (LLVMIntPredicate::LLVMIntUGT, IntPredicate::Ugt),
        (LLVMIntPredicate::LLVMIntUGE, IntPredicate::Uge),
        (LLVMIntPredicate::LLVMIntULT, IntPredicate::Ult),
        (LLVMIntPredicate::LLVMIntULE, IntPredicate::Ule),
        (LLVMIntPredicate::LLVMIntSGT, IntPredicate::Sgt),
        (LLVMIntPredicate::LLVMIntSGE, IntPredicate::Sge),
        (LLVMIntPredicate::LLVMIntSLT, IntPredicate::Slt),
        (LLVMIntPredicate::LLVMIntSLE, IntPredicate::Sle),
    ];
    for (llvm, p) in pairs {
        assert_eq!(IntPredicate::from_llvm(llvm as u32), Some(p));
        assert_eq!(p.llvm_code(), llvm as u32);
    }
    assert_eq!(IntPredicate::from_llvm(31), None);
    assert_eq!(IntPredicate::from_llvm(42), None);
}

#[test]
fn float_predicates_follow_the_llvm_numbering() {
    let pairs = [
        (LLVMRealPredicate::LLVMRealPredicateFalse, FloatPredicate::False),
        (LLVMRealPredicate::LLVMRealOEQ, FloatPredicate::Oeq),
        (LLVMRealPredicate::LLVMRealOGT, FloatPredicate::Ogt),
        (LLVMRealPredicate::LLVMRealUNO, FloatPredicate::Uno),
        (LLVMRealPredicate::LLVMRealUNE, FloatPredicate::Une),
        (LLVMRealPredicate::LLVMRealPredicateTrue, FloatPredicate::True),
    ];
    for (llvm, p) in pairs {
        assert_eq!(FloatPredicate::from_llvm(llvm as u32), Some(p));
    }
    assert_eq!(FloatPredicate::from_llvm(16), None);
}

#[test]
fn linkages_follow_the_llvm_numbering() {
    let pairs = [
        (LLVMLinkage::LLVMAppendingLinkage, Linkage::Appending),
        (LLVMLinkage::LLVMAvailableExternallyLinkage, Linkage::AvailableExternally),
        (LLVMLinkage::LLVMCommonLinkage, Linkage::Common),
        (LLVMLinkage::LLVMExternalLinkage, Linkage::External),
        (LLVMLinkage::LLVMExternalWeakLinkage, Linkage::ExternalWeak),
        (LLVMLinkage::LLVMInternalLinkage, Linkage::Internal),
        (LLVMLinkage::LLVMLinkOnceAnyLinkage, Linkage::LinkOnceAny),
        (LLVMLinkage::LLVMLinkOnceODRLinkage, Linkage::LinkOnceOdr),
        (LLVMLinkage::LLVMPrivateLinkage, Linkage::Private),
        (LLVMLinkage::LLVMWeakAnyLinkage, Linkage::WeakAny),
        (LLVMLinkage::LLVMWeakODRLinkage, Linkage::WeakOdr),
    ];
    for (llvm, l) in pairs {
        assert_eq!(l.llvm_code(), llvm as u32);
    }
}

#[test]
fn flag_behaviors_round_trip() {
    let all = [
        ModuleFlagBehavior::Error,
        ModuleFlagBehavior::Warning,
        ModuleFlagBehavior::Require,
        ModuleFlagBehavior::Override,
        ModuleFlagBehavior::Append,
        ModuleFlagBehavior::AppendUnique,
        ModuleFlagBehavior::Max,
    ];
    for b in all {
        assert_eq!(ModuleFlagBehavior::from_flag_behavior(b.to_flag_behavior()), b);
    }
    assert_eq!(ModuleFlagBehavior::AppendUnique.to_flag_behavior(), FlagBehavior::AppendUnique);
    assert_eq!(ModuleFlagBehavior::from_flag_behavior(FlagBehavior::Max), ModuleFlagBehavior::Max);
}
