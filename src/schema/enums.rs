use vstd::prelude::*;

verus! {

#[derive(Debug, Clone, Copy, PartialEq, Eq, Structural)]
pub enum AttrKind {
    /// = 0 is unused
    Alignment,
    AlwaysInline,
    ByVal,
    InlineHint,
    InReg,
    MinSize,
    Naked,
    Nest,
    NoAlias,
    NoBuiltin,
    NoCapture,
    NoDuplicate,
    NoImplicitFloat,
    NoInline,
    NonLazyBind,
    NoRedZone,
    NoReturn,
    NoUnwind,
    OptimizeForSize,
    ReadNone,
    ReadOnly,
    Returned,
    ReturnsTwice,
    SExt,
    StackAlignment,
    StackProtect,
    StackProtectReq,
    StackProtectStrong,
    StructRet,
    SanitizeAddress,
    SanitizeThread,
    SanitizeMemory,
    UwTable,
    ZExt,
    Builtin,
    Cold,
    OptimizeNone,
    InAlloca,
    NonNull,
    JumpTable,
    Dereferenceable,
    DereferenceableOrNull,
    Convergent,
    Safestack,
    /// Unused
    ArgMemOnly,
    SwiftSelf,
    SwiftError,
    NoRecurse,
    /// Unused
    InaccessibleMemOnly,
    /// Unused
    InaccessiblememOrArgMemOnly,
    AllocSize,
    Writeonly,
    Speculatable,
    StrictFp,
    SanitizeHwaddress,
    NocfCheck,
    OptForFuzzing,
    Shadowcallstack,
    SpeculativeLoadHardening,
    Immarg,
    Willreturn,
    Nofree,
    Nosync,
    SanitizeMemtag,
    Preallocated,
    NoMerge,
    NullPointerIsValid,
    Noundef,
    Byref,
    Mustprogress,
    NoCallback,
    Hot,
    NoProfile,
    VscaleRange,
    SwiftAsync,
    NoSanitizeCoverage,
    Elementtype,
    DisableSanitizerInstrumentation,
    NoSanitizeBounds,
    AllocAlign,
    AllocatedPointer,
    AllocKind,
    PresplitCoroutine,
    FnretthunkExtern,
    SkipProfile,
    Memory,
    Nofpclass,
    OptimizeForDebugging,
    Writable,
    CoroOnlyDestroyWhenComplete,
    DeadOnUnwind,
    Range,
    SanitizeNumericalStability,
    Initializes,
    HybridPatchable,
}

impl AttrKind {
    /// The number that stands for the value in bitcode.
    pub open spec fn spec_code(self) -> u64 {
        match self {
            AttrKind::Alignment => 1,
            AttrKind::AlwaysInline => 2,
            AttrKind::ByVal => 3,
            AttrKind::InlineHint => 4,
            AttrKind::InReg => 5,
            AttrKind::MinSize => 6,
            AttrKind::Naked => 7,
            AttrKind::Nest => 8,
            AttrKind::NoAlias => 9,
            AttrKind::NoBuiltin => 10,
            AttrKind::NoCapture => 11,
            AttrKind::NoDuplicate => 12,
            AttrKind::NoImplicitFloat => 13,
            AttrKind::NoInline => 14,
            AttrKind::NonLazyBind => 15,
            AttrKind::NoRedZone => 16,
            AttrKind::NoReturn => 17,
            AttrKind::NoUnwind => 18,
            AttrKind::OptimizeForSize => 19,
            AttrKind::ReadNone => 20,
            AttrKind::ReadOnly => 21,
            AttrKind::Returned => 22,
            AttrKind::ReturnsTwice => 23,
            AttrKind::SExt => 24,
            AttrKind::StackAlignment => 25,
            AttrKind::StackProtect => 26,
            AttrKind::StackProtectReq => 27,
            AttrKind::StackProtectStrong => 28,
            AttrKind::StructRet => 29,
            AttrKind::SanitizeAddress => 30,
            AttrKind::SanitizeThread => 31,
            AttrKind::SanitizeMemory => 32,
            AttrKind::UwTable => 33,
            AttrKind::ZExt => 34,
            AttrKind::Builtin => 35,
            AttrKind::Cold => 36,
            AttrKind::OptimizeNone => 37,
            AttrKind::InAlloca => 38,
            AttrKind::NonNull => 39,
            AttrKind::JumpTable => 40,
            AttrKind::Dereferenceable => 41,
            AttrKind::DereferenceableOrNull => 42,
            AttrKind::Convergent => 43,
            AttrKind::Safestack => 44,
            AttrKind::ArgMemOnly => 45,
            AttrKind::SwiftSelf => 46,
            AttrKind::SwiftError => 47,
            AttrKind::NoRecurse => 48,
            AttrKind::InaccessibleMemOnly => 49,
            AttrKind::InaccessiblememOrArgMemOnly => 50,
            AttrKind::AllocSize => 51,
            AttrKind::Writeonly => 52,
            AttrKind::Speculatable => 53,
            AttrKind::StrictFp => 54,
            AttrKind::SanitizeHwaddress => 55,
            AttrKind::NocfCheck => 56,
            AttrKind::OptForFuzzing => 57,
            AttrKind::Shadowcallstack => 58,
            AttrKind::SpeculativeLoadHardening => 59,
            AttrKind::Immarg => 60,
            AttrKind::Willreturn => 61,
            AttrKind::Nofree => 62,
            AttrKind::Nosync => 63,
            AttrKind::SanitizeMemtag => 64,
            AttrKind::Preallocated => 65,
            AttrKind::NoMerge => 66,
            AttrKind::NullPointerIsValid => 67,
            AttrKind::Noundef => 68,
            AttrKind::Byref => 69,
            AttrKind::Mustprogress => 70,
            AttrKind::NoCallback => 71,
            AttrKind::Hot => 72,
            AttrKind::NoProfile => 73,
            AttrKind::VscaleRange => 74,
            AttrKind::SwiftAsync => 75,
            AttrKind::NoSanitizeCoverage => 76,
            AttrKind::Elementtype => 77,
            AttrKind::DisableSanitizerInstrumentation => 78,
            AttrKind::NoSanitizeBounds => 79,
            AttrKind::AllocAlign => 80,
            AttrKind::AllocatedPointer => 81,
            AttrKind::AllocKind => 82,
            AttrKind::PresplitCoroutine => 83,
            AttrKind::FnretthunkExtern => 84,
            AttrKind::SkipProfile => 85,
            AttrKind::Memory => 86,
            AttrKind::Nofpclass => 87,
            AttrKind::OptimizeForDebugging => 88,
            AttrKind::Writable => 89,
            AttrKind::CoroOnlyDestroyWhenComplete => 90,
            AttrKind::DeadOnUnwind => 91,
            AttrKind::Range => 92,
            AttrKind::SanitizeNumericalStability => 93,
            AttrKind::Initializes => 94,
            AttrKind::HybridPatchable => 95,
        }
    }

    /// The number that stands for the value in bitcode.
    #[verifier::when_used_as_spec(spec_code)]
    pub fn code(self) -> (r: u64)
        ensures
            r == self.spec_code(),
    {
        match self {
            AttrKind::Alignment => 1,
            AttrKind::AlwaysInline => 2,
            AttrKind::ByVal => 3,
            AttrKind::InlineHint => 4,
            AttrKind::InReg => 5,
            AttrKind::MinSize => 6,
            AttrKind::Naked => 7,
            AttrKind::Nest => 8,
            AttrKind::NoAlias => 9,
            AttrKind::NoBuiltin => 10,
            AttrKind::NoCapture => 11,
            AttrKind::NoDuplicate => 12,
            AttrKind::NoImplicitFloat => 13,
            AttrKind::NoInline => 14,
            AttrKind::NonLazyBind => 15,
            AttrKind::NoRedZone => 16,
            AttrKind::NoReturn => 17,
            AttrKind::NoUnwind => 18,
            AttrKind::OptimizeForSize => 19,
            AttrKind::ReadNone => 20,
            AttrKind::ReadOnly => 21,
            AttrKind::Returned => 22,
            AttrKind::ReturnsTwice => 23,
            AttrKind::SExt => 24,
            AttrKind::StackAlignment => 25,
            AttrKind::StackProtect => 26,
            AttrKind::StackProtectReq => 27,
            AttrKind::StackProtectStrong => 28,
            AttrKind::StructRet => 29,
            AttrKind::SanitizeAddress => 30,
            AttrKind::SanitizeThread => 31,
            AttrKind::SanitizeMemory => 32,
            AttrKind::UwTable => 33,
            AttrKind::ZExt => 34,
            AttrKind::Builtin => 35,
            AttrKind::Cold => 36,
            AttrKind::OptimizeNone => 37,
            AttrKind::InAlloca => 38,
            AttrKind::NonNull => 39,
            AttrKind::JumpTable => 40,
            AttrKind::Dereferenceable => 41,
            AttrKind::DereferenceableOrNull => 42,
            AttrKind::Convergent => 43,
            AttrKind::Safestack => 44,
            AttrKind::ArgMemOnly => 45,
            AttrKind::SwiftSelf => 46,
            AttrKind::SwiftError => 47,
            AttrKind::NoRecurse => 48,
            AttrKind::InaccessibleMemOnly => 49,
            AttrKind::InaccessiblememOrArgMemOnly => 50,
            AttrKind::AllocSize => 51,
            AttrKind::Writeonly => 52,
            AttrKind::Speculatable => 53,
            AttrKind::StrictFp => 54,
            AttrKind::SanitizeHwaddress => 55,
            AttrKind::NocfCheck => 56,
            AttrKind::OptForFuzzing => 57,
            AttrKind::Shadowcallstack => 58,
            AttrKind::SpeculativeLoadHardening => 59,
            AttrKind::Immarg => 60,
            AttrKind::Willreturn => 61,
            AttrKind::Nofree => 62,
            AttrKind::Nosync => 63,
            AttrKind::SanitizeMemtag => 64,
            AttrKind::Preallocated => 65,
            AttrKind::NoMerge => 66,
            AttrKind::NullPointerIsValid => 67,
            AttrKind::Noundef => 68,
            AttrKind::Byref => 69,
            AttrKind::Mustprogress => 70,
            AttrKind::NoCallback => 71,
            AttrKind::Hot => 72,
            AttrKind::NoProfile => 73,
            AttrKind::VscaleRange => 74,
            AttrKind::SwiftAsync => 75,
            AttrKind::NoSanitizeCoverage => 76,
            AttrKind::Elementtype => 77,
            AttrKind::DisableSanitizerInstrumentation => 78,
            AttrKind::NoSanitizeBounds => 79,
            AttrKind::AllocAlign => 80,
            AttrKind::AllocatedPointer => 81,
            AttrKind::AllocKind => 82,
            AttrKind::PresplitCoroutine => 83,
            AttrKind::FnretthunkExtern => 84,
            AttrKind::SkipProfile => 85,
            AttrKind::Memory => 86,
            AttrKind::Nofpclass => 87,
            AttrKind::OptimizeForDebugging => 88,
            AttrKind::Writable => 89,
            AttrKind::CoroOnlyDestroyWhenComplete => 90,
            AttrKind::DeadOnUnwind => 91,
            AttrKind::Range => 92,
            AttrKind::SanitizeNumericalStability => 93,
            AttrKind::Initializes => 94,
            AttrKind::HybridPatchable => 95,
        }
    }

    /// The value that `code` stands for, if any.
    pub fn from_code(code: u64) -> (r: Option<Self>)
        ensures
            match r {
                Some(v) => v.spec_code() == code,
                None => forall|v: Self| v.spec_code() != code,
            },
    {
        match code {
            1 => Some(AttrKind::Alignment),
            2 => Some(AttrKind::AlwaysInline),
            3 => Some(AttrKind::ByVal),
            4 => Some(AttrKind::InlineHint),
            5 => Some(AttrKind::InReg),
            6 => Some(AttrKind::MinSize),
            7 => Some(AttrKind::Naked),
            8 => Some(AttrKind::Nest),
            9 => Some(AttrKind::NoAlias),
            10 => Some(AttrKind::NoBuiltin),
            11 => Some(AttrKind::NoCapture),
            12 => Some(AttrKind::NoDuplicate),
            13 => Some(AttrKind::NoImplicitFloat),
            14 => Some(AttrKind::NoInline),
            15 => Some(AttrKind::NonLazyBind),
            16 => Some(AttrKind::NoRedZone),
            17 => Some(AttrKind::NoReturn),
            18 => Some(AttrKind::NoUnwind),
            19 => Some(AttrKind::OptimizeForSize),
            20 => Some(AttrKind::ReadNone),
            21 => Some(AttrKind::ReadOnly),
            22 => Some(AttrKind::Returned),
            23 => Some(AttrKind::ReturnsTwice),
            24 => Some(AttrKind::SExt),
            25 => Some(AttrKind::StackAlignment),
            26 => Some(AttrKind::StackProtect),
            27 => Some(AttrKind::StackProtectReq),
            28 => Some(AttrKind::StackProtectStrong),
            29 => Some(AttrKind::StructRet),
            30 => Some(AttrKind::SanitizeAddress),
            31 => Some(AttrKind::SanitizeThread),
            32 => Some(AttrKind::SanitizeMemory),
            33 => Some(AttrKind::UwTable),
            34 => Some(AttrKind::ZExt),
            35 => Some(AttrKind::Builtin),
            36 => Some(AttrKind::Cold),
            37 => Some(AttrKind::OptimizeNone),
            38 => Some(AttrKind::InAlloca),
            39 => Some(AttrKind::NonNull),
            40 => Some(AttrKind::JumpTable),
            41 => Some(AttrKind::Dereferenceable),
            42 => Some(AttrKind::DereferenceableOrNull),
            43 => Some(AttrKind::Convergent),
            44 => Some(AttrKind::Safestack),
            45 => Some(AttrKind::ArgMemOnly),
            46 => Some(AttrKind::SwiftSelf),
            47 => Some(AttrKind::SwiftError),
            48 => Some(AttrKind::NoRecurse),
            49 => Some(AttrKind::InaccessibleMemOnly),
            50 => Some(AttrKind::InaccessiblememOrArgMemOnly),
            51 => Some(AttrKind::AllocSize),
            52 => Some(AttrKind::Writeonly),
            53 => Some(AttrKind::Speculatable),
            54 => Some(AttrKind::StrictFp),
            55 => Some(AttrKind::SanitizeHwaddress),
            56 => Some(AttrKind::NocfCheck),
            57 => Some(AttrKind::OptForFuzzing),
            58 => Some(AttrKind::Shadowcallstack),
            59 => Some(AttrKind::SpeculativeLoadHardening),
            60 => Some(AttrKind::Immarg),
            61 => Some(AttrKind::Willreturn),
            62 => Some(AttrKind::Nofree),
            63 => Some(AttrKind::Nosync),
            64 => Some(AttrKind::SanitizeMemtag),
            65 => Some(AttrKind::Preallocated),
            66 => Some(AttrKind::NoMerge),
            67 => Some(AttrKind::NullPointerIsValid),
            68 => Some(AttrKind::Noundef),
            69 => Some(AttrKind::Byref),
            70 => Some(AttrKind::Mustprogress),
            71 => Some(AttrKind::NoCallback),
            72 => Some(AttrKind::Hot),
            73 => Some(AttrKind::NoProfile),
            74 => Some(AttrKind::VscaleRange),
            75 => Some(AttrKind::SwiftAsync),
            76 => Some(AttrKind::NoSanitizeCoverage),
            77 => Some(AttrKind::Elementtype),
            78 => Some(AttrKind::DisableSanitizerInstrumentation),
            79 => Some(AttrKind::NoSanitizeBounds),
            80 => Some(AttrKind::AllocAlign),
            81 => Some(AttrKind::AllocatedPointer),
            82 => Some(AttrKind::AllocKind),
            83 => Some(AttrKind::PresplitCoroutine),
            84 => Some(AttrKind::FnretthunkExtern),
            85 => Some(AttrKind::SkipProfile),
            86 => Some(AttrKind::Memory),
            87 => Some(AttrKind::Nofpclass),
            88 => Some(AttrKind::OptimizeForDebugging),
            89 => Some(AttrKind::Writable),
            90 => Some(AttrKind::CoroOnlyDestroyWhenComplete),
            91 => Some(AttrKind::DeadOnUnwind),
            92 => Some(AttrKind::Range),
            93 => Some(AttrKind::SanitizeNumericalStability),
            94 => Some(AttrKind::Initializes),
            95 => Some(AttrKind::HybridPatchable),
            _ => None,
        }
    }
}

/// CastOpcodes - These are values used in the bitcode files to encode which
/// cast a CST_CODE_CE_CAST or a XXX refers to.  The values of these enums
/// have no fixed relation to the LLVM IR enum values.  Changing these will
/// break compatibility with old files.
#[derive(Debug, Clone, Copy, PartialEq, Eq, Structural)]
pub enum CastOpcode {
    Trunc,
    ZExt,
    SExt,
    FpToUi,
    FpToSi,
    UiToFp,
    SiToFp,
    FpTrunc,
    FpExt,
    PtrToInt,
    IntToPtr,
    Bitcast,
    Addrspace,
}

impl CastOpcode {
    /// The number that stands for the value in bitcode.
    pub open spec fn spec_code(self) -> u64 {
        match self {
            CastOpcode::Trunc => 0,
            CastOpcode::ZExt => 1,
            CastOpcode::SExt => 2,
            CastOpcode::FpToUi => 3,
            CastOpcode::FpToSi => 4,
            CastOpcode::UiToFp => 5,
            CastOpcode::SiToFp => 6,
            CastOpcode::FpTrunc => 7,
            CastOpcode::FpExt => 8,
            CastOpcode::PtrToInt => 9,
            CastOpcode::IntToPtr => 10,
            CastOpcode::Bitcast => 11,
            CastOpcode::Addrspace => 12,
        }
    }

    /// The number that stands for the value in bitcode.
    #[verifier::when_used_as_spec(spec_code)]
    pub fn code(self) -> (r: u64)
        ensures
            r == self.spec_code(),
    {
        match self {
            CastOpcode::Trunc => 0,
            CastOpcode::ZExt => 1,
            CastOpcode::SExt => 2,
            CastOpcode::FpToUi => 3,
            CastOpcode::FpToSi => 4,
            CastOpcode::UiToFp => 5,
            CastOpcode::SiToFp => 6,
            CastOpcode::FpTrunc => 7,
            CastOpcode::FpExt => 8,
            CastOpcode::PtrToInt => 9,
            CastOpcode::IntToPtr => 10,
            CastOpcode::Bitcast => 11,
            CastOpcode::Addrspace => 12,
        }
    }

    /// The value that `code` stands for, if any.
    pub fn from_code(code: u64) -> (r: Option<Self>)
        ensures
            match r {
                Some(v) => v.spec_code() == code,
                None => forall|v: Self| v.spec_code() != code,
            },
    {
        match code {
            0 => Some(CastOpcode::Trunc),
            1 => Some(CastOpcode::ZExt),
            2 => Some(CastOpcode::SExt),
            3 => Some(CastOpcode::FpToUi),
            4 => Some(CastOpcode::FpToSi),
            5 => Some(CastOpcode::UiToFp),
            6 => Some(CastOpcode::SiToFp),
            7 => Some(CastOpcode::FpTrunc),
            8 => Some(CastOpcode::FpExt),
            9 => Some(CastOpcode::PtrToInt),
            10 => Some(CastOpcode::IntToPtr),
            11 => Some(CastOpcode::Bitcast),
            12 => Some(CastOpcode::Addrspace),
            _ => None,
        }
    }
}

#[derive(Debug, Clone, Copy, PartialEq, Eq, Structural)]
pub enum Linkage {
    External,
    Weak,
    Appending,
    Internal,
    Linkonce,
    Dllimport,
    Dllexport,
    ExternWeak,
    Common,
    Private,
    WeakOdr,
    LinkonceOdr,
    AvailableExternally,
    Deprecated1,
    Deprecated2,
}

impl Linkage {
    /// The number that stands for the value in bitcode.
    pub open spec fn spec_code(self) -> u64 {
        match self {
            Linkage::External => 0,
            Linkage::Weak => 1,
            Linkage::Appending => 2,
            Linkage::Internal => 3,
            Linkage::Linkonce => 4,
            Linkage::Dllimport => 5,
            Linkage::Dllexport => 6,
            Linkage::ExternWeak => 7,
            Linkage::Common => 8,
            Linkage::Private => 9,
            Linkage::WeakOdr => 10,
            Linkage::LinkonceOdr => 11,
            Linkage::AvailableExternally => 12,
            Linkage::Deprecated1 => 13,
            Linkage::Deprecated2 => 14,
        }
    }

    /// The number that stands for the value in bitcode.
    #[verifier::when_used_as_spec(spec_code)]
    pub fn code(self) -> (r: u64)
        ensures
            r == self.spec_code(),
    {
        match self {
            Linkage::External => 0,
            Linkage::Weak => 1,
            Linkage::Appending => 2,
            Linkage::Internal => 3,
            Linkage::Linkonce => 4,
            Linkage::Dllimport => 5,
            Linkage::Dllexport => 6,
            Linkage::ExternWeak => 7,
            Linkage::Common => 8,
            Linkage::Private => 9,
            Linkage::WeakOdr => 10,
            Linkage::LinkonceOdr => 11,
            Linkage::AvailableExternally => 12,
            Linkage::Deprecated1 => 13,
            Linkage::Deprecated2 => 14,
        }
    }

    /// The value that `code` stands for, if any.
    pub fn from_code(code: u64) -> (r: Option<Self>)
        ensures
            match r {
                Some(v) => v.spec_code() == code,
                None => forall|v: Self| v.spec_code() != code,
            },
    {
        match code {
            0 => Some(Linkage::External),
            1 => Some(Linkage::Weak),
            2 => Some(Linkage::Appending),
            3 => Some(Linkage::Internal),
            4 => Some(Linkage::Linkonce),
            5 => Some(Linkage::Dllimport),
            6 => Some(Linkage::Dllexport),
            7 => Some(Linkage::ExternWeak),
            8 => Some(Linkage::Common),
            9 => Some(Linkage::Private),
            10 => Some(Linkage::WeakOdr),
            11 => Some(Linkage::LinkonceOdr),
            12 => Some(Linkage::AvailableExternally),
            13 => Some(Linkage::Deprecated1),
            14 => Some(Linkage::Deprecated2),
            _ => None,
        }
    }
}

#[derive(Debug, Clone, Copy, PartialEq, Eq, Structural)]
pub enum DllStorageClass {
    Default,
    Import,
    Export,
}

impl DllStorageClass {
    /// The number that stands for the value in bitcode.
    pub open spec fn spec_code(self) -> u64 {
        match self {
            DllStorageClass::Default => 0,
            DllStorageClass::Import => 1,
            DllStorageClass::Export => 2,
        }
    }

    /// The number that stands for the value in bitcode.
    #[verifier::when_used_as_spec(spec_code)]
    pub fn code(self) -> (r: u64)
        ensures
            r == self.spec_code(),
    {
        match self {
            DllStorageClass::Default => 0,
            DllStorageClass::Import => 1,
            DllStorageClass::Export => 2,
        }
    }

    /// The value that `code` stands for, if any.
    pub fn from_code(code: u64) -> (r: Option<Self>)
        ensures
            match r {
                Some(v) => v.spec_code() == code,
                None => forall|v: Self| v.spec_code() != code,
            },
    {
        match code {
            0 => Some(DllStorageClass::Default),
            1 => Some(DllStorageClass::Import),
            2 => Some(DllStorageClass::Export),
            _ => None,
        }
    }
}

#[derive(Debug, Clone, Copy, PartialEq, Eq, Structural)]
pub enum CallConv {
    C,
    Fast,
    Cold,
    GHC,
    HiPE,
    AnyReg,
    PreserveMost,
    PreserveAll,
    Swift,
    /// CXX_FAST_TLS
    CxxFastTls,
    Tail,
    /// CFGuard_Check
    CFGuardCheck,
    SwiftTail,
    PreserveNone,
    /// X86_StdCall (first target cc)
    X86StdCall,
    /// X86_FastCall
    X86FastCall,
    /// ARM_APCS
    ArmApcs,
    /// ARM_AAPCS
    ArmAapcs,
    /// ARM_AAPCS_VFP
    ArmAapcsVfp,
    /// MSP430_INTR
    Msp430Intr,
    /// X86_ThisCall
    X86ThisCall,
    /// PTX_Kernel
    PTXKernel,
    /// PTX_Device
    PTXDevice,
    /// SPIR_FUNC
    SpirFunc,
    /// SPIR_KERNEL
    SpirKernel,
    /// Intel_OCL_BI
    IntelOclBi,
    /// X86_64_SysV
    X8664SysV,
    /// Win64
    Win64,
    /// X86_VectorCall
    X86VectorCall,
    /// DUMMY_HHVM
    DummyHhvm,
    /// DUMMY_HHVM_C
    DummyHhvmC,
    /// X86_INTR
    X86Intr,
    /// AVR_INTR
    AvrIntr,
    /// AVR_SIGNAL
    AvrSignal,
    /// AVR_BUILTIN
    AvrBuiltin,
    /// AMDGPU_VS
    AmdGpuVs,
    /// AMDGPU_GS
    AmdGpuGs,
    /// AMDGPU_PS
    AmdGpuPs,
    /// AMDGPU_CS
    AmdGpuCs,
    /// AMDGPU_KERNEL
    AmdGpuKernel,
    /// X86_RegCall
    X86RegCall,
    /// AMDGPU_HS
    AmdGpuHs,
    /// MSP430_BUILTIN
    Msp430Builtin,
    /// AMDGPU_LS
    AmdGpuLs,
    /// AMDGPU_ES
    AmdGpuEs,
    /// AArch64_VectorCall
    AArch64VectorCall,
    /// AArch64_SVE_VectorCall
    AArch64SVEVectorCall,
    /// WASM_EmscriptenInvoke
    WasmEmscriptenInvoke,
    /// AMDGPU_Gfx
    AmdGpuGfx,
    /// M68k_INTR
    M68kIntr,
    AArch64SmeAbiSupportRoutinesPreserveMostFromX0,
    AArch64SmeAbiSupportRoutinesPreserveMostFromX2,
    AmdGpuCSChain,
    AmdGpuCSChainPreserve,
    M68kRTD,
    Graal,
    Arm64ECThunkX64,
    Arm64ECThunkNative,
    RiscVVectorCall,
    AArch64SmeAbiSupportRoutinesPreserveMostFromX1,
}

impl CallConv {
    /// The number that stands for the value in bitcode.
    pub open spec fn spec_code(self) -> u64 {
        match self {
            CallConv::C => 0,
            CallConv::Fast => 8,
            CallConv::Cold => 9,
            CallConv::GHC => 10,
            CallConv::HiPE => 11,
            CallConv::AnyReg => 13,
            CallConv::PreserveMost => 14,
            CallConv::PreserveAll => 15,
            CallConv::Swift => 16,
            CallConv::CxxFastTls => 17,
            CallConv::Tail => 18,
            CallConv::CFGuardCheck => 19,
            CallConv::SwiftTail => 20,
            CallConv::PreserveNone => 21,
            CallConv::X86StdCall => 64,
            CallConv::X86FastCall => 65,
            CallConv::ArmApcs => 66,
            CallConv::ArmAapcs => 67,
            CallConv::ArmAapcsVfp => 68,
            CallConv::Msp430Intr => 69,
            CallConv::X86ThisCall => 70,
            CallConv::PTXKernel => 71,
            CallConv::PTXDevice => 72,
            CallConv::SpirFunc => 75,
            CallConv::SpirKernel => 76,
            CallConv::IntelOclBi => 77,
            CallConv::X8664SysV => 78,
            CallConv::Win64 => 79,
            CallConv::X86VectorCall => 80,
            CallConv::DummyHhvm => 81,
            CallConv::DummyHhvmC => 82,
            CallConv::X86Intr => 83,
            CallConv::AvrIntr => 84,
            CallConv::AvrSignal => 85,
            CallConv::AvrBuiltin => 86,
            CallConv::AmdGpuVs => 87,
            CallConv::AmdGpuGs => 88,
            CallConv::AmdGpuPs => 89,
            CallConv::AmdGpuCs => 90,
            CallConv::AmdGpuKernel => 91,
            CallConv::X86RegCall => 92,
            CallConv::AmdGpuHs => 93,
            CallConv::Msp430Builtin => 94,
            CallConv::AmdGpuLs => 95,
            CallConv::AmdGpuEs => 96,
            CallConv::AArch64VectorCall => 97,
            CallConv::AArch64SVEVectorCall => 98,
            CallConv::WasmEmscriptenInvoke => 99,
            CallConv::AmdGpuGfx => 100,
            CallConv::M68kIntr => 101,
            CallConv::AArch64SmeAbiSupportRoutinesPreserveMostFromX0 => 102,
            CallConv::AArch64SmeAbiSupportRoutinesPreserveMostFromX2 => 103,
            CallConv::AmdGpuCSChain => 104,
            CallConv::AmdGpuCSChainPreserve => 105,
            CallConv::M68kRTD => 106,
            CallConv::Graal => 107,
            CallConv::Arm64ECThunkX64 => 108,
            CallConv::Arm64ECThunkNative => 109,
            CallConv::RiscVVectorCall => 110,
            CallConv::AArch64SmeAbiSupportRoutinesPreserveMostFromX1 => 111,
        }
    }

    /// The number that stands for the value in bitcode.
    #[verifier::when_used_as_spec(spec_code)]
    pub fn code(self) -> (r: u64)
        ensures
            r == self.spec_code(),
    {
        match self {
            CallConv::C => 0,
            CallConv::Fast => 8,
            CallConv::Cold => 9,
            CallConv::GHC => 10,
            CallConv::HiPE => 11,
            CallConv::AnyReg => 13,
            CallConv::PreserveMost => 14,
            CallConv::PreserveAll => 15,
            CallConv::Swift => 16,
            CallConv::CxxFastTls => 17,
            CallConv::Tail => 18,
            CallConv::CFGuardCheck => 19,
            CallConv::SwiftTail => 20,
            CallConv::PreserveNone => 21,
            CallConv::X86StdCall => 64,
            CallConv::X86FastCall => 65,
            CallConv::ArmApcs => 66,
            CallConv::ArmAapcs => 67,
            CallConv::ArmAapcsVfp => 68,
            CallConv::Msp430Intr => 69,
            CallConv::X86ThisCall => 70,
            CallConv::PTXKernel => 71,
            CallConv::PTXDevice => 72,
            CallConv::SpirFunc => 75,
            CallConv::SpirKernel => 76,
            CallConv::IntelOclBi => 77,
            CallConv::X8664SysV => 78,
            CallConv::Win64 => 79,
            CallConv::X86VectorCall => 80,
            CallConv::DummyHhvm => 81,
            CallConv::DummyHhvmC => 82,
            CallConv::X86Intr => 83,
            CallConv::AvrIntr => 84,
            CallConv::AvrSignal => 85,
            CallConv::AvrBuiltin => 86,
            CallConv::AmdGpuVs => 87,
            CallConv::AmdGpuGs => 88,
            CallConv::AmdGpuPs => 89,
            CallConv::AmdGpuCs => 90,
            CallConv::AmdGpuKernel => 91,
            CallConv::X86RegCall => 92,
            CallConv::AmdGpuHs => 93,
            CallConv::Msp430Builtin => 94,
            CallConv::AmdGpuLs => 95,
            CallConv::AmdGpuEs => 96,
            CallConv::AArch64VectorCall => 97,
            CallConv::AArch64SVEVectorCall => 98,
            CallConv::WasmEmscriptenInvoke => 99,
            CallConv::AmdGpuGfx => 100,
            CallConv::M68kIntr => 101,
            CallConv::AArch64SmeAbiSupportRoutinesPreserveMostFromX0 => 102,
            CallConv::AArch64SmeAbiSupportRoutinesPreserveMostFromX2 => 103,
            CallConv::AmdGpuCSChain => 104,
            CallConv::AmdGpuCSChainPreserve => 105,
            CallConv::M68kRTD => 106,
            CallConv::Graal => 107,
            CallConv::Arm64ECThunkX64 => 108,
            CallConv::Arm64ECThunkNative => 109,
            CallConv::RiscVVectorCall => 110,
            CallConv::AArch64SmeAbiSupportRoutinesPreserveMostFromX1 => 111,
        }
    }

    /// The value that `code` stands for, if any.
    pub fn from_code(code: u64) -> (r: Option<Self>)
        ensures
            match r {
                Some(v) => v.spec_code() == code,
                None => forall|v: Self| v.spec_code() != code,
            },
    {
        match code {
            0 => Some(CallConv::C),
            8 => Some(CallConv::Fast),
            9 => Some(CallConv::Cold),
            10 => Some(CallConv::GHC),
            11 => Some(CallConv::HiPE),
            13 => Some(CallConv::AnyReg),
            14 => Some(CallConv::PreserveMost),
            15 => Some(CallConv::PreserveAll),
            16 => Some(CallConv::Swift),
            17 => Some(CallConv::CxxFastTls),
            18 => Some(CallConv::Tail),
            19 => Some(CallConv::CFGuardCheck),
            20 => Some(CallConv::SwiftTail),
            21 => Some(CallConv::PreserveNone),
            64 => Some(CallConv::X86StdCall),
            65 => Some(CallConv::X86FastCall),
            66 => Some(CallConv::ArmApcs),
            67 => Some(CallConv::ArmAapcs),
            68 => Some(CallConv::ArmAapcsVfp),
            69 => Some(CallConv::Msp430Intr),
            70 => Some(CallConv::X86ThisCall),
            71 => Some(CallConv::PTXKernel),
            72 => Some(CallConv::PTXDevice),
            75 => Some(CallConv::SpirFunc),
            76 => Some(CallConv::SpirKernel),
            77 => Some(CallConv::IntelOclBi),
            78 => Some(CallConv::X8664SysV),
            79 => Some(CallConv::Win64),
            80 => Some(CallConv::X86VectorCall),
            81 => Some(CallConv::DummyHhvm),
            82 => Some(CallConv::DummyHhvmC),
            83 => Some(CallConv::X86Intr),
            84 => Some(CallConv::AvrIntr),
            85 => Some(CallConv::AvrSignal),
            86 => Some(CallConv::AvrBuiltin),
            87 => Some(CallConv::AmdGpuVs),
            88 => Some(CallConv::AmdGpuGs),
            89 => Some(CallConv::AmdGpuPs),
            90 => Some(CallConv::AmdGpuCs),
            91 => Some(CallConv::AmdGpuKernel),
            92 => Some(CallConv::X86RegCall),
            93 => Some(CallConv::AmdGpuHs),
            94 => Some(CallConv::Msp430Builtin),
            95 => Some(CallConv::AmdGpuLs),
            96 => Some(CallConv::AmdGpuEs),
            97 => Some(CallConv::AArch64VectorCall),
            98 => Some(CallConv::AArch64SVEVectorCall),
            99 => Some(CallConv::WasmEmscriptenInvoke),
            100 => Some(CallConv::AmdGpuGfx),
            101 => Some(CallConv::M68kIntr),
            102 => Some(CallConv::AArch64SmeAbiSupportRoutinesPreserveMostFromX0),
            103 => Some(CallConv::AArch64SmeAbiSupportRoutinesPreserveMostFromX2),
            104 => Some(CallConv::AmdGpuCSChain),
            105 => Some(CallConv::AmdGpuCSChainPreserve),
            106 => Some(CallConv::M68kRTD),
            107 => Some(CallConv::Graal),
            108 => Some(CallConv::Arm64ECThunkX64),
            109 => Some(CallConv::Arm64ECThunkNative),
            110 => Some(CallConv::RiscVVectorCall),
            111 => Some(CallConv::AArch64SmeAbiSupportRoutinesPreserveMostFromX1),
            _ => None,
        }
    }

    /// The calling convention held in bits 1 to 10 of a call's flags; the number found
    /// there is the error when no convention has it.
    pub fn from_flags(ccinfo_flags: u64) -> (r: Result<Self, u64>)
        ensures
            match r {
                Ok(c) => c.spec_code() == (ccinfo_flags & 0x7ff) >> 1,
                Err(id) => id == (ccinfo_flags & 0x7ff) >> 1 && forall|c: Self| c.spec_code() != id,
            },
    {
        let id = (ccinfo_flags & 0x7ff) >> 1;
        match Self::from_code(id) {
            Some(c) => Ok(c),
            None => Err(id),
        }
    }

}

/// BinaryOpcodes - These are values used in the bitcode files to encode which
/// binop a CST_CODE_CE_BINOP or a XXX refers to.  The values of these enums
/// have no fixed relation to the LLVM IR enum values.  Changing these will
/// break compatibility with old files.
#[derive(Debug, Clone, Copy, PartialEq, Eq, Structural)]
pub enum BinOpcode {
    Add,
    Sub,
    Mul,
    Udiv,
    /// overloaded for FP
    Sdiv,
    Urem,
    /// overloaded for FP
    Srem,
    Shl,
    Lshr,
    Ashr,
    And,
    Or,
    Xor,
}

impl BinOpcode {
    /// The number that stands for the value in bitcode.
    pub open spec fn spec_code(self) -> u64 {
        match self {
            BinOpcode::Add => 0,
            BinOpcode::Sub => 1,
            BinOpcode::Mul => 2,
            BinOpcode::Udiv => 3,
            BinOpcode::Sdiv => 4,
            BinOpcode::Urem => 5,
            BinOpcode::Srem => 6,
            BinOpcode::Shl => 7,
            BinOpcode::Lshr => 8,
            BinOpcode::Ashr => 9,
            BinOpcode::And => 10,
            BinOpcode::Or => 11,
            BinOpcode::Xor => 12,
        }
    }

    /// The number that stands for the value in bitcode.
    #[verifier::when_used_as_spec(spec_code)]
    pub fn code(self) -> (r: u64)
        ensures
            r == self.spec_code(),
    {
        match self {
            BinOpcode::Add => 0,
            BinOpcode::Sub => 1,
            BinOpcode::Mul => 2,
            BinOpcode::Udiv => 3,
            BinOpcode::Sdiv => 4,
            BinOpcode::Urem => 5,
            BinOpcode::Srem => 6,
            BinOpcode::Shl => 7,
            BinOpcode::Lshr => 8,
            BinOpcode::Ashr => 9,
            BinOpcode::And => 10,
            BinOpcode::Or => 11,
            BinOpcode::Xor => 12,
        }
    }

    /// The value that `code` stands for, if any.
    pub fn from_code(code: u64) -> (r: Option<Self>)
        ensures
            match r {
                Some(v) => v.spec_code() == code,
                None => forall|v: Self| v.spec_code() != code,
            },
    {
        match code {
            0 => Some(BinOpcode::Add),
            1 => Some(BinOpcode::Sub),
            2 => Some(BinOpcode::Mul),
            3 => Some(BinOpcode::Udiv),
            4 => Some(BinOpcode::Sdiv),
            5 => Some(BinOpcode::Urem),
            6 => Some(BinOpcode::Srem),
            7 => Some(BinOpcode::Shl),
            8 => Some(BinOpcode::Lshr),
            9 => Some(BinOpcode::Ashr),
            10 => Some(BinOpcode::And),
            11 => Some(BinOpcode::Or),
            12 => Some(BinOpcode::Xor),
            _ => None,
        }
    }
}

/// Encoded AtomicOrdering values.
#[derive(Debug, Clone, Copy, PartialEq, Eq, Default, Structural)]
pub enum AtomicOrdering {
    #[default]
    Notatomic,
    Unordered,
    Monotonic,
    Acquire,
    Release,
    AcqRel,
    SeqCst,
}

impl AtomicOrdering {
    /// The number that stands for the value in bitcode.
    pub open spec fn spec_code(self) -> u64 {
        match self {
            AtomicOrdering::Notatomic => 0,
            AtomicOrdering::Unordered => 1,
            AtomicOrdering::Monotonic => 2,
            AtomicOrdering::Acquire => 3,
            AtomicOrdering::Release => 4,
            AtomicOrdering::AcqRel => 5,
            AtomicOrdering::SeqCst => 6,
        }
    }

    /// The number that stands for the value in bitcode.
    #[verifier::when_used_as_spec(spec_code)]
    pub fn code(self) -> (r: u64)
        ensures
            r == self.spec_code(),
    {
        match self {
            AtomicOrdering::Notatomic => 0,
            AtomicOrdering::Unordered => 1,
            AtomicOrdering::Monotonic => 2,
            AtomicOrdering::Acquire => 3,
            AtomicOrdering::Release => 4,
            AtomicOrdering::AcqRel => 5,
            AtomicOrdering::SeqCst => 6,
        }
    }

    /// The value that `code` stands for, if any.
    pub fn from_code(code: u64) -> (r: Option<Self>)
        ensures
            match r {
                Some(v) => v.spec_code() == code,
                None => forall|v: Self| v.spec_code() != code,
            },
    {
        match code {
            0 => Some(AtomicOrdering::Notatomic),
            1 => Some(AtomicOrdering::Unordered),
            2 => Some(AtomicOrdering::Monotonic),
            3 => Some(AtomicOrdering::Acquire),
            4 => Some(AtomicOrdering::Release),
            5 => Some(AtomicOrdering::AcqRel),
            6 => Some(AtomicOrdering::SeqCst),
            _ => None,
        }
    }
}

/// COMDATSELECTIONKIND enumerates the possible selection mechanisms for
/// COMDAT sections.
#[derive(Debug, Clone, Copy, PartialEq, Eq, Structural)]
pub enum ComdatSelectionKind {
    Any,
    ExactMatch,
    Largest,
    NoDuplicates,
    SameSize,
}

impl ComdatSelectionKind {
    /// The number that stands for the value in bitcode.
    pub open spec fn spec_code(self) -> u64 {
        match self {
            ComdatSelectionKind::Any => 1,
            ComdatSelectionKind::ExactMatch => 2,
            ComdatSelectionKind::Largest => 3,
            ComdatSelectionKind::NoDuplicates => 4,
            ComdatSelectionKind::SameSize => 5,
        }
    }

    /// The number that stands for the value in bitcode.
    #[verifier::when_used_as_spec(spec_code)]
    pub fn code(self) -> (r: u64)
        ensures
            r == self.spec_code(),
    {
        match self {
            ComdatSelectionKind::Any => 1,
            ComdatSelectionKind::ExactMatch => 2,
            ComdatSelectionKind::Largest => 3,
            ComdatSelectionKind::NoDuplicates => 4,
            ComdatSelectionKind::SameSize => 5,
        }
    }

    /// The value that `code` stands for, if any.
    pub fn from_code(code: u64) -> (r: Option<Self>)
        ensures
            match r {
                Some(v) => v.spec_code() == code,
                None => forall|v: Self| v.spec_code() != code,
            },
    {
        match code {
            1 => Some(ComdatSelectionKind::Any),
            2 => Some(ComdatSelectionKind::ExactMatch),
            3 => Some(ComdatSelectionKind::Largest),
            4 => Some(ComdatSelectionKind::NoDuplicates),
            5 => Some(ComdatSelectionKind::SameSize),
            _ => None,
        }
    }
}

/// Atomic read-modify-write operations
#[derive(Debug, Clone, Copy, PartialEq, Eq, Structural)]
#[non_exhaustive]
pub enum RmwOperation {
    /// `XCHG`
    Xchg,
    /// `ADD`
    Add,
    /// `SUB`
    Sub,
    /// `AND`
    And,
    /// `NAND`
    Nand,
    /// `OR`
    Or,
    /// `XOR`
    Xor,
    /// `MAX`
    Max,
    /// `MIN`
    Min,
    /// `UMAX`
    Umax,
    /// `UMIN`
    Umin,
    /// `FADD`
    Fadd,
    /// `FSUB`
    Fsub,
    /// `FMAX`
    Fmax,
    /// `FMIN`
    Fmin,
    /// `UINC_WRAP`
    UincWrap,
    /// `UDEC_WRAP`
    UdecWrap,
    /// `USUB_COND`
    UsSubCond,
    /// `USUB_SAT`
    UsSubSat,
}

impl RmwOperation {
    /// The number that stands for the value in bitcode.
    pub open spec fn spec_code(self) -> u64 {
        match self {
            RmwOperation::Xchg => 0,
            RmwOperation::Add => 1,
            RmwOperation::Sub => 2,
            RmwOperation::And => 3,
            RmwOperation::Nand => 4,
            RmwOperation::Or => 5,
            RmwOperation::Xor => 6,
            RmwOperation::Max => 7,
            RmwOperation::Min => 8,
            RmwOperation::Umax => 9,
            RmwOperation::Umin => 10,
            RmwOperation::Fadd => 11,
            RmwOperation::Fsub => 12,
            RmwOperation::Fmax => 13,
            RmwOperation::Fmin => 14,
            RmwOperation::UincWrap => 15,
            RmwOperation::UdecWrap => 16,
            RmwOperation::UsSubCond => 17,
            RmwOperation::UsSubSat => 18,
        }
    }

    /// The number that stands for the value in bitcode.
    #[verifier::when_used_as_spec(spec_code)]
    pub fn code(self) -> (r: u64)
        ensures
            r == self.spec_code(),
    {
        match self {
            RmwOperation::Xchg => 0,
            RmwOperation::Add => 1,
            RmwOperation::Sub => 2,
            RmwOperation::And => 3,
            RmwOperation::Nand => 4,
            RmwOperation::Or => 5,
            RmwOperation::Xor => 6,
            RmwOperation::Max => 7,
            RmwOperation::Min => 8,
            RmwOperation::Umax => 9,
            RmwOperation::Umin => 10,
            RmwOperation::Fadd => 11,
            RmwOperation::Fsub => 12,
            RmwOperation::Fmax => 13,
            RmwOperation::Fmin => 14,
            RmwOperation::UincWrap => 15,
            RmwOperation::UdecWrap => 16,
            RmwOperation::UsSubCond => 17,
            RmwOperation::UsSubSat => 18,
        }
    }

    /// The value that `code` stands for, if any.
    pub fn from_code(code: u64) -> (r: Option<Self>)
        ensures
            match r {
                Some(v) => v.spec_code() == code,
                None => forall|v: Self| v.spec_code() != code,
            },
    {
        match code {
            0 => Some(RmwOperation::Xchg),
            1 => Some(RmwOperation::Add),
            2 => Some(RmwOperation::Sub),
            3 => Some(RmwOperation::And),
            4 => Some(RmwOperation::Nand),
            5 => Some(RmwOperation::Or),
            6 => Some(RmwOperation::Xor),
            7 => Some(RmwOperation::Max),
            8 => Some(RmwOperation::Min),
            9 => Some(RmwOperation::Umax),
            10 => Some(RmwOperation::Umin),
            11 => Some(RmwOperation::Fadd),
            12 => Some(RmwOperation::Fsub),
            13 => Some(RmwOperation::Fmax),
            14 => Some(RmwOperation::Fmin),
            15 => Some(RmwOperation::UincWrap),
            16 => Some(RmwOperation::UdecWrap),
            17 => Some(RmwOperation::UsSubCond),
            18 => Some(RmwOperation::UsSubSat),
            _ => None,
        }
    }
}

/// Unary Opcodes
#[derive(Debug, Clone, Copy, PartialEq, Eq, Structural)]
#[non_exhaustive]
pub enum UnaryOpcode {
    /// `UNOP_FNEG`
    Fneg,
}

impl UnaryOpcode {
    /// The number that stands for the value in bitcode.
    pub open spec fn spec_code(self) -> u64 {
        match self {
            UnaryOpcode::Fneg => 0,
        }
    }

    /// The number that stands for the value in bitcode.
    #[verifier::when_used_as_spec(spec_code)]
    pub fn code(self) -> (r: u64)
        ensures
            r == self.spec_code(),
    {
        match self {
            UnaryOpcode::Fneg => 0,
        }
    }

    /// The value that `code` stands for, if any.
    pub fn from_code(code: u64) -> (r: Option<Self>)
        ensures
            match r {
                Some(v) => v.spec_code() == code,
                None => forall|v: Self| v.spec_code() != code,
            },
    {
        match code {
            0 => Some(UnaryOpcode::Fneg),
            _ => None,
        }
    }
}

} // verus!
