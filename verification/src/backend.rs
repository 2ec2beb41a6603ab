//! The configuration surface of the native code-generation backend.
//!
//! The backend itself (modules, builders, execution engines) lives outside
//! this library and is driven by the embedding program; what the library
//! owns is the plain data handed across that boundary: the option enums a
//! driver chooses from, the raw option codes of the C API they map onto,
//! the session guard returned by [`llvm_init`], and the address of a
//! compiled function.  Every mapping from a high-level option to its raw
//! code is written here as ordinary verified code with an exact contract.

use vstd::prelude::*;

verus! {

/// Raw code for the file kind a target machine emits.
#[derive(Debug, Clone, Copy, PartialEq, Eq)]
pub enum LLVMCodeGenFileType {
    LLVMAssemblyFile,
    LLVMObjectFile,
}

/// Raw code for what the verifier does when a function is malformed.
#[derive(Debug, Clone, Copy, PartialEq, Eq)]
pub enum LLVMVerifierFailureAction {
    LLVMAbortProcessAction,
    LLVMPrintMessageAction,
    LLVMReturnStatusAction,
}

/// Raw code for a floating-point comparison predicate.
#[derive(Debug, Clone, Copy, PartialEq, Eq)]
pub enum LLVMRealPredicate {
    LLVMRealPredicateFalse,
    LLVMRealOEQ,
    LLVMRealOGT,
    LLVMRealOGE,
    LLVMRealOLT,
    LLVMRealOLE,
    LLVMRealONE,
    LLVMRealORD,
    LLVMRealUNO,
    LLVMRealUEQ,
    LLVMRealUGT,
    LLVMRealUGE,
    LLVMRealULT,
    LLVMRealULE,
    LLVMRealUNE,
    LLVMRealPredicateTrue,
}

/// Raw code for an integer comparison predicate.
#[derive(Debug, Clone, Copy, PartialEq, Eq)]
pub enum LLVMIntPredicate {
    LLVMIntEQ,
    LLVMIntNE,
    LLVMIntUGT,
    LLVMIntUGE,
    LLVMIntULT,
    LLVMIntULE,
    LLVMIntSGT,
    LLVMIntSGE,
    LLVMIntSLT,
    LLVMIntSLE,
}

/// Raw code for how hard the backend optimizes.
#[derive(Debug, Clone, Copy, PartialEq, Eq)]
pub enum LLVMCodeGenOptLevel {
    LLVMCodeGenLevelNone,
    LLVMCodeGenLevelLess,
    LLVMCodeGenLevelDefault,
    LLVMCodeGenLevelAggressive,
}

/// Raw code for the relocation model.
#[derive(Debug, Clone, Copy, PartialEq, Eq)]
pub enum LLVMRelocMode {
    LLVMRelocDefault,
    LLVMRelocStatic,
    LLVMRelocPIC,
    LLVMRelocDynamicNoPic,
    LLVMRelocROPI,
    LLVMRelocRWPI,
    LLVMRelocRopiRwpi,
}

/// Raw code for the code model.
#[derive(Debug, Clone, Copy, PartialEq, Eq)]
pub enum LLVMCodeModel {
    LLVMCodeModelDefault,
    LLVMCodeModelJITDefault,
    LLVMCodeModelTiny,
    LLVMCodeModelSmall,
    LLVMCodeModelKernel,
    LLVMCodeModelMedium,
    LLVMCodeModelLarge,
}

/// What the verifier does when a function is malformed.
#[derive(Debug, Clone, Copy, PartialEq, Eq)]
pub enum VerifierFailureAction {
    AbortProcess,
    PrintMessage,
    ReturnStatus,
}

/// The raw code each verifier action stands for.
pub open spec fn verifier_action_raw(a: VerifierFailureAction) -> LLVMVerifierFailureAction {
    match a {
        VerifierFailureAction::AbortProcess => LLVMVerifierFailureAction::LLVMAbortProcessAction,
        VerifierFailureAction::PrintMessage => LLVMVerifierFailureAction::LLVMPrintMessageAction,
        VerifierFailureAction::ReturnStatus => LLVMVerifierFailureAction::LLVMReturnStatusAction,
    }
}

impl VerifierFailureAction {
    /// The raw option code of this action.
    pub fn as_raw(&self) -> (r: LLVMVerifierFailureAction)
        ensures
            r == verifier_action_raw(*self),
    {
        match *self {
            VerifierFailureAction::AbortProcess => LLVMVerifierFailureAction::LLVMAbortProcessAction,
            VerifierFailureAction::PrintMessage => LLVMVerifierFailureAction::LLVMPrintMessageAction,
            VerifierFailureAction::ReturnStatus => LLVMVerifierFailureAction::LLVMReturnStatusAction,
        }
    }
}

/// An integer comparison predicate.
#[derive(Debug, Clone, Copy, PartialEq, Eq)]
pub enum IntPredicate {
    Equal,
    NotEqual,
    SignedGreaterThan,
    SignedGreaterThanOrEqual,
    SignedLesserThan,
    SignedLesserThanOrEqual,
    UnsignedGreaterThan,
    UnsignedGreaterThanOrEqual,
    UnsignedLesserThan,
    UnsignedLesserThanOrEqual,
}

/// The raw code each integer predicate stands for.
pub open spec fn int_predicate_raw(p: IntPredicate) -> LLVMIntPredicate {
    match p {
        IntPredicate::Equal => LLVMIntPredicate::LLVMIntEQ,
        IntPredicate::NotEqual => LLVMIntPredicate::LLVMIntNE,
        IntPredicate::SignedGreaterThan => LLVMIntPredicate::LLVMIntSGT,
        IntPredicate::SignedGreaterThanOrEqual => LLVMIntPredicate::LLVMIntSGE,
        IntPredicate::SignedLesserThan => LLVMIntPredicate::LLVMIntSLT,
        IntPredicate::SignedLesserThanOrEqual => LLVMIntPredicate::LLVMIntSLE,
        IntPredicate::UnsignedGreaterThan => LLVMIntPredicate::LLVMIntUGT,
        IntPredicate::UnsignedGreaterThanOrEqual => LLVMIntPredicate::LLVMIntUGE,
        IntPredicate::UnsignedLesserThan => LLVMIntPredicate::LLVMIntULT,
        IntPredicate::UnsignedLesserThanOrEqual => LLVMIntPredicate::LLVMIntULE,
    }
}

impl IntPredicate {
    /// The raw option code of this predicate.
    pub fn as_raw(&self) -> (r: LLVMIntPredicate)
        ensures
            r == int_predicate_raw(*self),
    {
        match *self {
            IntPredicate::Equal => LLVMIntPredicate::LLVMIntEQ,
            IntPredicate::NotEqual => LLVMIntPredicate::LLVMIntNE,
            IntPredicate::SignedGreaterThan => LLVMIntPredicate::LLVMIntSGT,
            IntPredicate::SignedGreaterThanOrEqual => LLVMIntPredicate::LLVMIntSGE,
            IntPredicate::SignedLesserThan => LLVMIntPredicate::LLVMIntSLT,
            IntPredicate::SignedLesserThanOrEqual => LLVMIntPredicate::LLVMIntSLE,
            IntPredicate::UnsignedGreaterThan => LLVMIntPredicate::LLVMIntUGT,
            IntPredicate::UnsignedGreaterThanOrEqual => LLVMIntPredicate::LLVMIntUGE,
            IntPredicate::UnsignedLesserThan => LLVMIntPredicate::LLVMIntULT,
            IntPredicate::UnsignedLesserThanOrEqual => LLVMIntPredicate::LLVMIntULE,
        }
    }
}

/// A floating-point comparison predicate.
#[derive(Debug, Clone, Copy, PartialEq, Eq)]
pub enum RealPredicate {
    False,
    OrderedEqual,
    OrderedGreaterThan,
    OrderedGreaterThanOrEqual,
    OrderedLesserThan,
    OrderedLesserThanOrEqual,
    OrderedNotEqual,
    Ordered,
    Unordered,
    UnorderedEqual,
    UnorderedGreaterThan,
    UnorderedGreaterThanOrEqual,
    UnorderedLesserThan,
    UnorderedLesserThanOrEqual,
    UnorderedNotEqual,
    True,
}

/// The raw code each floating-point predicate stands for.
pub open spec fn real_predicate_raw(p: RealPredicate) -> LLVMRealPredicate {
    match p {
        RealPredicate::False => LLVMRealPredicate::LLVMRealPredicateFalse,
        RealPredicate::OrderedEqual => LLVMRealPredicate::LLVMRealOEQ,
        RealPredicate::OrderedGreaterThan => LLVMRealPredicate::LLVMRealOGT,
        RealPredicate::OrderedGreaterThanOrEqual => LLVMRealPredicate::LLVMRealOGE,
        RealPredicate::OrderedLesserThan => LLVMRealPredicate::LLVMRealOLT,
        RealPredicate::OrderedLesserThanOrEqual => LLVMRealPredicate::LLVMRealOLE,
        RealPredicate::OrderedNotEqual => LLVMRealPredicate::LLVMRealONE,
        RealPredicate::Ordered => LLVMRealPredicate::LLVMRealORD,
        RealPredicate::Unordered => LLVMRealPredicate::LLVMRealUNO,
        RealPredicate::UnorderedEqual => LLVMRealPredicate::LLVMRealUEQ,
        RealPredicate::UnorderedGreaterThan => LLVMRealPredicate::LLVMRealUGT,
        RealPredicate::UnorderedGreaterThanOrEqual => LLVMRealPredicate::LLVMRealUGE,
        RealPredicate::UnorderedLesserThan => LLVMRealPredicate::LLVMRealULT,
        RealPredicate::UnorderedLesserThanOrEqual => LLVMRealPredicate::LLVMRealULE,
        RealPredicate::UnorderedNotEqual => LLVMRealPredicate::LLVMRealUNE,
        RealPredicate::True => LLVMRealPredicate::LLVMRealPredicateTrue,
    }
}

impl RealPredicate {
    /// The raw option code of this predicate.
    pub fn as_raw(&self) -> (r: LLVMRealPredicate)
        ensures
            r == real_predicate_raw(*self),
    {
        match *self {
            RealPredicate::False => LLVMRealPredicate::LLVMRealPredicateFalse,
            RealPredicate::OrderedEqual => LLVMRealPredicate::LLVMRealOEQ,
            RealPredicate::OrderedGreaterThan => LLVMRealPredicate::LLVMRealOGT,
            RealPredicate::OrderedGreaterThanOrEqual => LLVMRealPredicate::LLVMRealOGE,
            RealPredicate::OrderedLesserThan => LLVMRealPredicate::LLVMRealOLT,
            RealPredicate::OrderedLesserThanOrEqual => LLVMRealPredicate::LLVMRealOLE,
            RealPredicate::OrderedNotEqual => LLVMRealPredicate::LLVMRealONE,
            RealPredicate::Ordered => LLVMRealPredicate::LLVMRealORD,
            RealPredicate::Unordered => LLVMRealPredicate::LLVMRealUNO,
            RealPredicate::UnorderedEqual => LLVMRealPredicate::LLVMRealUEQ,
            RealPredicate::UnorderedGreaterThan => LLVMRealPredicate::LLVMRealUGT,
            RealPredicate::UnorderedGreaterThanOrEqual => LLVMRealPredicate::LLVMRealUGE,
            RealPredicate::UnorderedLesserThan => LLVMRealPredicate::LLVMRealULT,
            RealPredicate::UnorderedLesserThanOrEqual => LLVMRealPredicate::LLVMRealULE,
            RealPredicate::UnorderedNotEqual => LLVMRealPredicate::LLVMRealUNE,
            RealPredicate::True => LLVMRealPredicate::LLVMRealPredicateTrue,
        }
    }
}

/// The file kind a target machine emits.
#[derive(Debug, Clone, Copy, PartialEq, Eq)]
pub enum CodeGenFileType {
    AssemblyFile,
    ObjectFile,
}

/// The raw code each file kind stands for.
pub open spec fn file_type_raw(t: CodeGenFileType) -> LLVMCodeGenFileType {
    match t {
        CodeGenFileType::AssemblyFile => LLVMCodeGenFileType::LLVMAssemblyFile,
        CodeGenFileType::ObjectFile => LLVMCodeGenFileType::LLVMObjectFile,
    }
}

impl CodeGenFileType {
    /// The raw option code of this file kind.
    pub fn as_raw(&self) -> (r: LLVMCodeGenFileType)
        ensures
            r == file_type_raw(*self),
    {
        match *self {
            CodeGenFileType::AssemblyFile => LLVMCodeGenFileType::LLVMAssemblyFile,
            CodeGenFileType::ObjectFile => LLVMCodeGenFileType::LLVMObjectFile,
        }
    }
}

/// How hard the backend optimizes.
#[derive(Debug, Clone, Copy, PartialEq, Eq)]
pub enum CodeGenOptLevel {
    NoOpt,
    Less,
    Default,
    Aggressive,
}

/// The raw code each optimization level stands for.
pub open spec fn opt_level_raw(l: CodeGenOptLevel) -> LLVMCodeGenOptLevel {
    match l {
        CodeGenOptLevel::NoOpt => LLVMCodeGenOptLevel::LLVMCodeGenLevelNone,
        CodeGenOptLevel::Less => LLVMCodeGenOptLevel::LLVMCodeGenLevelLess,
        CodeGenOptLevel::Default => LLVMCodeGenOptLevel::LLVMCodeGenLevelDefault,
        CodeGenOptLevel::Aggressive => LLVMCodeGenOptLevel::LLVMCodeGenLevelAggressive,
    }
}

impl CodeGenOptLevel {
    /// The raw option code of this optimization level.
    pub fn as_raw(&self) -> (r: LLVMCodeGenOptLevel)
        ensures
            r == opt_level_raw(*self),
    {
        match *self {
            CodeGenOptLevel::NoOpt => LLVMCodeGenOptLevel::LLVMCodeGenLevelNone,
            CodeGenOptLevel::Less => LLVMCodeGenOptLevel::LLVMCodeGenLevelLess,
            CodeGenOptLevel::Default => LLVMCodeGenOptLevel::LLVMCodeGenLevelDefault,
            CodeGenOptLevel::Aggressive => LLVMCodeGenOptLevel::LLVMCodeGenLevelAggressive,
        }
    }
}

/// The relocation model.
#[derive(Debug, Clone, Copy, PartialEq, Eq)]
pub enum RelocMode {
    Default,
    Static,
    PIC,
    DynamicNoPic,
    ROPI,
    RWPI,
    RopiRwpi,
}

/// The raw code each relocation model stands for.
pub open spec fn reloc_mode_raw(m: RelocMode) -> LLVMRelocMode {
    match m {
        RelocMode::Default => LLVMRelocMode::LLVMRelocDefault,
        RelocMode::Static => LLVMRelocMode::LLVMRelocStatic,
        RelocMode::PIC => LLVMRelocMode::LLVMRelocPIC,
        RelocMode::DynamicNoPic => LLVMRelocMode::LLVMRelocDynamicNoPic,
        RelocMode::ROPI => LLVMRelocMode::LLVMRelocROPI,
        RelocMode::RWPI => LLVMRelocMode::LLVMRelocRWPI,
        RelocMode::RopiRwpi => LLVMRelocMode::LLVMRelocRopiRwpi,
    }
}

impl RelocMode {
    /// The raw option code of this relocation model.
    pub fn as_raw(&self) -> (r: LLVMRelocMode)
        ensures
            r == reloc_mode_raw(*self),
    {
        match *self {
            RelocMode::Default => LLVMRelocMode::LLVMRelocDefault,
            RelocMode::Static => LLVMRelocMode::LLVMRelocStatic,
            RelocMode::PIC => LLVMRelocMode::LLVMRelocPIC,
            RelocMode::DynamicNoPic => LLVMRelocMode::LLVMRelocDynamicNoPic,
            RelocMode::ROPI => LLVMRelocMode::LLVMRelocROPI,
            RelocMode::RWPI => LLVMRelocMode::LLVMRelocRWPI,
            RelocMode::RopiRwpi => LLVMRelocMode::LLVMRelocRopiRwpi,
        }
    }
}

/// The code model.
#[derive(Debug, Clone, Copy, PartialEq, Eq)]
pub enum CodeModel {
    Default,
    JITDefault,
    Tiny,
    Small,
    Kernel,
    Medium,
    Large,
}

/// The raw code each code model stands for.
pub open spec fn code_model_raw(m: CodeModel) -> LLVMCodeModel {
    match m {
        CodeModel::Default => LLVMCodeModel::LLVMCodeModelDefault,
        CodeModel::JITDefault => LLVMCodeModel::LLVMCodeModelJITDefault,
        CodeModel::Tiny => LLVMCodeModel::LLVMCodeModelTiny,
        CodeModel::Small => LLVMCodeModel::LLVMCodeModelSmall,
        CodeModel::Kernel => LLVMCodeModel::LLVMCodeModelKernel,
        CodeModel::Medium => LLVMCodeModel::LLVMCodeModelMedium,
        CodeModel::Large => LLVMCodeModel::LLVMCodeModelLarge,
    }
}

impl CodeModel {
    /// The raw option code of this code model.
    pub fn as_raw(&self) -> (r: LLVMCodeModel)
        ensures
            r == code_model_raw(*self),
    {
        match *self {
            CodeModel::Default => LLVMCodeModel::LLVMCodeModelDefault,
            CodeModel::JITDefault => LLVMCodeModel::LLVMCodeModelJITDefault,
            CodeModel::Tiny => LLVMCodeModel::LLVMCodeModelTiny,
            CodeModel::Small => LLVMCodeModel::LLVMCodeModelSmall,
            CodeModel::Kernel => LLVMCodeModel::LLVMCodeModelKernel,
            CodeModel::Medium => LLVMCodeModel::LLVMCodeModelMedium,
            CodeModel::Large => LLVMCodeModel::LLVMCodeModelLarge,
        }
    }
}

/// A token standing for one backend session.  It can only be had from
/// [`llvm_init`], so holding one is the evidence that the session was
/// opened; the embedding driver keeps it alive for as long as the session
/// lasts.
#[derive(Debug)]
pub struct LLVM {
    opened: (),
}

/// Opens a backend session and returns its token.
pub fn llvm_init() -> LLVM {
    LLVM { opened: () }
}

/// The address of a function compiled by the backend, as handed back by an
/// execution engine.  The library only carries the number; calling through
/// it is the driver's business.
#[derive(Debug, Clone, Copy, PartialEq, Eq)]
pub struct FunctionAddress(u64);

impl FunctionAddress {
    /// The raw address inside.
    pub closed spec fn addr(&self) -> u64 {
        self.0
    }

    /// Wraps a raw address handed back by an execution engine.
    pub fn from_raw(address: u64) -> (r: FunctionAddress)
        ensures
            r.addr() == address,
    {
        FunctionAddress(address)
    }

    /// The raw address, for the driver to call through.
    pub fn as_raw(&self) -> (r: u64)
        ensures
            r == self.addr(),
    {
        self.0
    }
}

} // verus!
