use vstd::prelude::*;

verus! {

/// Enumeration of block identifiers in LLVM bitcode format.
#[derive(Debug, Clone, Copy, PartialEq, Eq, Hash, Structural)]
#[non_exhaustive]
pub enum BlockId {
    /// `MODULE` block identifier
    Module,
    /// `PARAMATTR` block identifier
    ParamAttr,
    /// `PARAMATTR_GROUP` block identifier
    ParamAttrGroup,
    /// `CONSTANTS_BLOCK_ID = 11`
    Constants,
    /// `FUNCTION_BLOCK_ID = 12`
    Function,
    /// Obsolete.
    ///
    /// Block intended to contain information on the bitcode versioning. Can be
    /// used to provide better error messages when we fail to parse a bitcode file.
    Identification,
    /// `VALUE_SYMTAB_BLOCK_ID`
    ValueSymtab,
    /// `METADATA_BLOCK_ID`
    Metadata,
    /// `METADATA_ATTACHMENT_ID`
    MetadataAttachment,
    /// `TYPE_BLOCK_ID_NEW = 17`
    Type,
    /// `USELIST_BLOCK_ID`
    Uselist,
    /// `MODULE_STRTAB_BLOCK_ID`
    ModuleStrtab,
    /// Obsolete
    /// `GLOBALVAL_SUMMARY_BLOCK_ID`
    GlobalvalSummary,
    /// `OPERAND_BUNDLE_TAGS_BLOCK_ID`
    OperandBundleTags,
    /// `METADATA_KIND_BLOCK_ID`
    MetadataKind,
    /// `STRTAB_BLOCK_ID`
    Strtab,
    /// `FULL_LTO_GLOBALVAL_SUMMARY_BLOCK_ID`
    FullLtoGlobalvalSummary,
    /// `SYMTAB_BLOCK_ID`
    Symtab,
    /// `SYNC_SCOPE_NAMES_BLOCK_ID`
    SyncScopeNames,
}

impl BlockId {
    /// The number that stands for the value in bitcode.
    pub open spec fn spec_code(self) -> u64 {
        match self {
            BlockId::Module => 8,
            BlockId::ParamAttr => 9,
            BlockId::ParamAttrGroup => 10,
            BlockId::Constants => 11,
            BlockId::Function => 12,
            BlockId::Identification => 13,
            BlockId::ValueSymtab => 14,
            BlockId::Metadata => 15,
            BlockId::MetadataAttachment => 16,
            BlockId::Type => 17,
            BlockId::Uselist => 18,
            BlockId::ModuleStrtab => 19,
            BlockId::GlobalvalSummary => 20,
            BlockId::OperandBundleTags => 21,
            BlockId::MetadataKind => 22,
            BlockId::Strtab => 23,
            BlockId::FullLtoGlobalvalSummary => 24,
            BlockId::Symtab => 25,
            BlockId::SyncScopeNames => 26,
        }
    }

    /// The number that stands for the value in bitcode.
    #[verifier::when_used_as_spec(spec_code)]
    pub fn code(self) -> (r: u64)
        ensures
            r == self.spec_code(),
    {
        match self {
            BlockId::Module => 8,
            BlockId::ParamAttr => 9,
            BlockId::ParamAttrGroup => 10,
            BlockId::Constants => 11,
            BlockId::Function => 12,
            BlockId::Identification => 13,
            BlockId::ValueSymtab => 14,
            BlockId::Metadata => 15,
            BlockId::MetadataAttachment => 16,
            BlockId::Type => 17,
            BlockId::Uselist => 18,
            BlockId::ModuleStrtab => 19,
            BlockId::GlobalvalSummary => 20,
            BlockId::OperandBundleTags => 21,
            BlockId::MetadataKind => 22,
            BlockId::Strtab => 23,
            BlockId::FullLtoGlobalvalSummary => 24,
            BlockId::Symtab => 25,
            BlockId::SyncScopeNames => 26,
        }
    }

    /// The value that `code` stands for, if any.
    pub fn from_code(code: u64) -> (r: Option<Self>)
        ensures
            match r {
                Some(v) => v.spec_code() == code,
                None => forall|v: Self| v.spec_code() != code,
            },
    {
        match code {
            8 => Some(BlockId::Module),
            9 => Some(BlockId::ParamAttr),
            10 => Some(BlockId::ParamAttrGroup),
            11 => Some(BlockId::Constants),
            12 => Some(BlockId::Function),
            13 => Some(BlockId::Identification),
            14 => Some(BlockId::ValueSymtab),
            15 => Some(BlockId::Metadata),
            16 => Some(BlockId::MetadataAttachment),
            17 => Some(BlockId::Type),
            18 => Some(BlockId::Uselist),
            19 => Some(BlockId::ModuleStrtab),
            20 => Some(BlockId::GlobalvalSummary),
            21 => Some(BlockId::OperandBundleTags),
            22 => Some(BlockId::MetadataKind),
            23 => Some(BlockId::Strtab),
            24 => Some(BlockId::FullLtoGlobalvalSummary),
            25 => Some(BlockId::Symtab),
            26 => Some(BlockId::SyncScopeNames),
            _ => None,
        }
    }
}

/// OperandBundle tag codes
#[derive(Debug, Clone, Copy, PartialEq, Eq, Structural)]
#[non_exhaustive]
pub enum OperandBundleTagCode {
    /// `TAG`
    ///
    /// [strchr x N]
    Tag,
}

impl OperandBundleTagCode {
    /// The number that stands for the value in bitcode.
    pub open spec fn spec_code(self) -> u64 {
        match self {
            OperandBundleTagCode::Tag => 1,
        }
    }

    /// The number that stands for the value in bitcode.
    #[verifier::when_used_as_spec(spec_code)]
    pub fn code(self) -> (r: u64)
        ensures
            r == self.spec_code(),
    {
        match self {
            OperandBundleTagCode::Tag => 1,
        }
    }

    /// The value that `code` stands for, if any.
    pub fn from_code(code: u64) -> (r: Option<Self>)
        ensures
            match r {
                Some(v) => v.spec_code() == code,
                None => forall|v: Self| v.spec_code() != code,
            },
    {
        match code {
            1 => Some(OperandBundleTagCode::Tag),
            _ => None,
        }
    }
}

/// Sync scope name codes
#[derive(Debug, Clone, Copy, PartialEq, Eq, Structural)]
#[non_exhaustive]
pub enum SyncScopeNameCode {
    /// `SYNC_SCOPE_NAME`
    Name,
}

impl SyncScopeNameCode {
    /// The number that stands for the value in bitcode.
    pub open spec fn spec_code(self) -> u64 {
        match self {
            SyncScopeNameCode::Name => 1,
        }
    }

    /// The number that stands for the value in bitcode.
    #[verifier::when_used_as_spec(spec_code)]
    pub fn code(self) -> (r: u64)
        ensures
            r == self.spec_code(),
    {
        match self {
            SyncScopeNameCode::Name => 1,
        }
    }

    /// The value that `code` stands for, if any.
    pub fn from_code(code: u64) -> (r: Option<Self>)
        ensures
            match r {
                Some(v) => v.spec_code() == code,
                None => forall|v: Self| v.spec_code() != code,
            },
    {
        match code {
            1 => Some(SyncScopeNameCode::Name),
            _ => None,
        }
    }
}

/// STRTAB block codes
#[derive(Debug, Clone, Copy, PartialEq, Eq, Structural)]
#[non_exhaustive]
pub enum StrtabCode {
    /// `STRTAB_BLOB`
    Blob,
}

impl StrtabCode {
    /// The number that stands for the value in bitcode.
    pub open spec fn spec_code(self) -> u64 {
        match self {
            StrtabCode::Blob => 1,
        }
    }

    /// The number that stands for the value in bitcode.
    #[verifier::when_used_as_spec(spec_code)]
    pub fn code(self) -> (r: u64)
        ensures
            r == self.spec_code(),
    {
        match self {
            StrtabCode::Blob => 1,
        }
    }

    /// The value that `code` stands for, if any.
    pub fn from_code(code: u64) -> (r: Option<Self>)
        ensures
            match r {
                Some(v) => v.spec_code() == code,
                None => forall|v: Self| v.spec_code() != code,
            },
    {
        match code {
            1 => Some(StrtabCode::Blob),
            _ => None,
        }
    }
}

/// SYMTAB block codes
#[derive(Debug, Clone, Copy, PartialEq, Eq, Structural)]
#[non_exhaustive]
pub enum SymtabCode {
    /// `SYMTAB_BLOB`
    Blob,
}

impl SymtabCode {
    /// The number that stands for the value in bitcode.
    pub open spec fn spec_code(self) -> u64 {
        match self {
            SymtabCode::Blob => 1,
        }
    }

    /// The number that stands for the value in bitcode.
    #[verifier::when_used_as_spec(spec_code)]
    pub fn code(self) -> (r: u64)
        ensures
            r == self.spec_code(),
    {
        match self {
            SymtabCode::Blob => 1,
        }
    }

    /// The value that `code` stands for, if any.
    pub fn from_code(code: u64) -> (r: Option<Self>)
        ensures
            match r {
                Some(v) => v.spec_code() == code,
                None => forall|v: Self| v.spec_code() != code,
            },
    {
        match code {
            1 => Some(SymtabCode::Blob),
            _ => None,
        }
    }
}

/// `MODULE` blocks have a number of optional fields and subblocks.
#[derive(Debug, Clone, Copy, PartialEq, Eq, Structural)]
#[non_exhaustive]
pub enum ModuleCode {
    /// `VERSION`
    ///
    /// [version#]
    Version,
    /// `TRIPLE`
    ///
    /// [strchr x N]
    Triple,
    /// `DATALAYOUT`
    ///
    /// [strchr x N]
    Datalayout,
    /// `ASM`
    ///
    /// [strchr x N]
    Asm,
    /// `SECTIONNAME`
    ///
    /// [strchr x N]
    SectionName,
    /// Obsolete.
    ///
    /// `DEPLIB`
    ///
    /// [strchr x N]
    Deplib,
    /// `GLOBALVAR`
    ///
    /// [pointer type, isconst, initid, linkage, alignment, section, visibility, threadlocal]
    GlobalVar,
    /// `FUNCTION`
    ///
    /// [type, callingconv, isproto, linkage, paramattrs, alignment, section, visibility, gc, unnamed_addr]
    Function,
    /// Obsolete alias record; replaced by `MODULE_CODE_ALIAS`
    ///
    /// `ALIAS`
    ///
    /// [alias type, aliasee val#, linkage, visibility]
    AliasOld,
    /// `GCNAME`
    ///
    /// [strchr x N]
    GCName,
    /// `COMDAT`
    ///
    /// [selection_kind, name]
    Comdat,
    /// `VSTOFFSET`
    ///
    /// [offset]
    VstOffset,
    /// `ALIAS`
    ///
    /// [alias value type, addrspace, aliasee val#, linkage, visibility]
    Alias,
    /// Defined in the MODULE block but never emitted (Obsolete)
    MetadataValuesUnused,
    /// `SOURCE_FILENAME`
    ///
    /// [namechar x N]
    SourceFilename,
    /// `HASH`
    ///
    /// [5*i32]
    Hash,
    /// `IFUNC`
    ///
    /// [ifunc value type, addrspace, resolver val#, linkage, visibility]
    Ifunc,
}

impl ModuleCode {
    /// The number that stands for the value in bitcode.
    pub open spec fn spec_code(self) -> u64 {
        match self {
            ModuleCode::Version => 1,
            ModuleCode::Triple => 2,
            ModuleCode::Datalayout => 3,
            ModuleCode::Asm => 4,
            ModuleCode::SectionName => 5,
            ModuleCode::Deplib => 6,
            ModuleCode::GlobalVar => 7,
            ModuleCode::Function => 8,
            ModuleCode::AliasOld => 9,
            ModuleCode::GCName => 11,
            ModuleCode::Comdat => 12,
            ModuleCode::VstOffset => 13,
            ModuleCode::Alias => 14,
            ModuleCode::MetadataValuesUnused => 15,
            ModuleCode::SourceFilename => 16,
            ModuleCode::Hash => 17,
            ModuleCode::Ifunc => 18,
        }
    }

    /// The number that stands for the value in bitcode.
    #[verifier::when_used_as_spec(spec_code)]
    pub fn code(self) -> (r: u64)
        ensures
            r == self.spec_code(),
    {
        match self {
            ModuleCode::Version => 1,
            ModuleCode::Triple => 2,
            ModuleCode::Datalayout => 3,
            ModuleCode::Asm => 4,
            ModuleCode::SectionName => 5,
            ModuleCode::Deplib => 6,
            ModuleCode::GlobalVar => 7,
            ModuleCode::Function => 8,
            ModuleCode::AliasOld => 9,
            ModuleCode::GCName => 11,
            ModuleCode::Comdat => 12,
            ModuleCode::VstOffset => 13,
            ModuleCode::Alias => 14,
            ModuleCode::MetadataValuesUnused => 15,
            ModuleCode::SourceFilename => 16,
            ModuleCode::Hash => 17,
            ModuleCode::Ifunc => 18,
        }
    }

    /// The value that `code` stands for, if any.
    pub fn from_code(code: u64) -> (r: Option<Self>)
        ensures
            match r {
                Some(v) => v.spec_code() == code,
                None => forall|v: Self| v.spec_code() != code,
            },
    {
        match code {
            1 => Some(ModuleCode::Version),
            2 => Some(ModuleCode::Triple),
            3 => Some(ModuleCode::Datalayout),
            4 => Some(ModuleCode::Asm),
            5 => Some(ModuleCode::SectionName),
            6 => Some(ModuleCode::Deplib),
            7 => Some(ModuleCode::GlobalVar),
            8 => Some(ModuleCode::Function),
            9 => Some(ModuleCode::AliasOld),
            11 => Some(ModuleCode::GCName),
            12 => Some(ModuleCode::Comdat),
            13 => Some(ModuleCode::VstOffset),
            14 => Some(ModuleCode::Alias),
            15 => Some(ModuleCode::MetadataValuesUnused),
            16 => Some(ModuleCode::SourceFilename),
            17 => Some(ModuleCode::Hash),
            18 => Some(ModuleCode::Ifunc),
            _ => None,
        }
    }
}

/// The global value summary block contains codes for defining the global value summary information.
#[derive(Debug, Clone, Copy, PartialEq, Eq, Structural)]
#[non_exhaustive]
pub enum GlobalValueSummaryCode {
    /// `PERMODULE`
    ///
    /// [valueid, flags, instcount, numrefs, numrefs x valueid, n x (valueid)]
    PerModule,
    /// `PERMODULE_PROFILE`
    ///
    /// [valueid, flags, instcount, numrefs, numrefs x valueid, n x (valueid, hotness+tailcall)]
    PerModuleProfile,
    /// `PERMODULE_GLOBALVAR_INIT_REFS`
    ///
    /// [valueid, flags, n x valueid]
    PerModuleGlobalvarInitRefs,
    /// `COMBINED`
    ///
    /// [valueid, modid, flags, instcount, numrefs, numrefs x valueid, n x (valueid)]
    Combined,
    /// `COMBINED_PROFILE`
    ///
    /// [valueid, modid, flags, instcount, numrefs, numrefs x valueid, n x (valueid, hotness+tailcall)]
    CombinedProfile,
    /// `COMBINED_GLOBALVAR_INIT_REFS`
    ///
    /// [valueid, modid, flags, n x valueid]
    CombinedGlobalvarInitRefs,
    /// `ALIAS`
    ///
    /// [valueid, flags, valueid]
    Alias,
    /// `COMBINED_ALIAS`
    ///
    /// [valueid, modid, flags, valueid]
    CombinedAlias,
    /// `COMBINED_ORIGINAL_NAME`
    ///
    /// [original_name_hash]
    CombinedOriginalName,
    /// `VERSION` of the summary, bumped when adding flags for instance.
    Version,
    /// The list of `llvm.type.test` type identifiers used by the following function that are used
    /// other than by an `llvm.assume`.
    ///
    /// [n x typeid]
    TypeTests,
    /// The list of virtual calls made by this function using `llvm.assume(llvm.type.test)` intrinsics
    /// that do not have all constant integer arguments.
    ///
    /// [n x (typeid, offset)]
    TypeTestAssumeVCalls,
    /// The list of virtual calls made by this function using `llvm.type.checked.load` intrinsics
    /// that do not have all constant integer arguments.
    ///
    /// [n x (typeid, offset)]
    TypeCheckedLoadVCalls,
    /// Identifies a virtual call made by this function using an `llvm.assume(llvm.type.test)`
    /// intrinsic with all constant integer arguments.
    ///
    /// [typeid, offset, n x arg]
    TypeTestAssumeConstVCall,
    /// Identifies a virtual call made by this function using an `llvm.type.checked.load` intrinsic
    /// with all constant integer arguments.
    ///
    /// [typeid, offset, n x arg]
    TypeCheckedLoadConstVCall,
    /// Assigns a GUID to a value ID. This normally appears only in combined summaries,
    /// but it can also appear in per-module summaries for PGO data.
    ///
    /// [valueid, guid]
    ValueGuid,
    /// The list of local functions with CFI jump tables. Function names are strings in `strtab`.
    ///
    /// [n * name]
    CfiFunctionDefs,
    /// The list of external functions with CFI jump tables. Function names are strings in `strtab`.
    ///
    /// [n * name]
    CfiFunctionDecls,
    /// Per-module summary that also adds relative block frequency to callee info.
    ///
    /// `PERMODULE_RELBF`
    ///
    /// [valueid, flags, instcount, numrefs, numrefs x valueid, n x (valueid, relblockfreq+tailcall)]
    PerModuleRelBf,
    /// Index-wide flags
    Flags,
    /// Maps type identifier to summary information for that type identifier. Produced by the thin link
    /// (only lives in combined index).
    ///
    /// `TYPE_ID`
    ///
    /// [typeid, kind, bitwidth, align, size, bitmask, inlinebits, n x (typeid, kind, name, numrba, numrba x (numarg, numarg x arg, kind, info, byte, bit)]
    TypeId,
    /// Maps type identifier to summary information for that type identifier computed from type metadata:
    /// the valueid of each vtable definition decorated with a type metadata for that identifier,
    /// and the offset from the corresponding type metadata.
    /// Exists in the per-module summary to provide information to thin link for index-based whole
    /// program devirtualization.
    ///
    /// `TYPE_ID_METADATA`
    ///
    /// [typeid, n x (valueid, offset)]
    TypeIdMetadata,
    /// Summarizes vtable definition for use in index-based whole program devirtualization during the thin link.
    ///
    /// `PERMODULE_VTABLE_GLOBALVAR_INIT_REFS`
    ///
    /// [valueid, flags, varflags, numrefs, numrefs x valueid, n x (valueid, offset)]
    PerModuleVtableGlobalvarInitRefs,
    /// The total number of basic blocks in the module.
    BlockCount,
    /// Range information for accessed offsets for every argument.
    ///
    /// [n x (paramno, range, numcalls, numcalls x (callee_guid, paramno, range))]
    ParamAccess,
    /// Summary of per-module memprof callsite metadata.
    ///
    /// [valueid, n x stackidindex]
    PerModuleCallsiteInfo,
    /// Summary of per-module allocation memprof metadata.
    ///
    /// [nummib, nummib x (alloc type, context radix tree index), [nummib x (numcontext x total size)]?]
    PerModuleAllocInfo,
    /// Summary of combined index memprof callsite metadata.
    ///
    /// [valueid, context radix tree index, numver, numver x version]
    CombinedCallsiteInfo,
    /// Summary of combined index allocation memprof metadata.
    ///
    /// [nummib, numver, nummib x (alloc type, numstackids, numstackids x stackidindex), numver x version]
    CombinedAllocInfo,
    /// List of all stack ids referenced by index in the callsite and alloc infos.
    ///
    /// [n x stack id]
    StackIds,
    /// List of all full stack id pairs corresponding to the total sizes recorded at the end of the alloc info
    /// when reporting of hinted bytes is enabled.
    ///
    /// [nummib x (numcontext x full stack id)]
    AllocContextIds,
    /// Linearized radix tree of allocation contexts.
    ///
    /// [n x entry]
    ContextRadixTreeArray,
}

impl GlobalValueSummaryCode {
    /// The number that stands for the value in bitcode.
    pub open spec fn spec_code(self) -> u64 {
        match self {
            GlobalValueSummaryCode::PerModule => 1,
            GlobalValueSummaryCode::PerModuleProfile => 2,
            GlobalValueSummaryCode::PerModuleGlobalvarInitRefs => 3,
            GlobalValueSummaryCode::Combined => 4,
            GlobalValueSummaryCode::CombinedProfile => 5,
            GlobalValueSummaryCode::CombinedGlobalvarInitRefs => 6,
            GlobalValueSummaryCode::Alias => 7,
            GlobalValueSummaryCode::CombinedAlias => 8,
            GlobalValueSummaryCode::CombinedOriginalName => 9,
            GlobalValueSummaryCode::Version => 10,
            GlobalValueSummaryCode::TypeTests => 11,
            GlobalValueSummaryCode::TypeTestAssumeVCalls => 12,
            GlobalValueSummaryCode::TypeCheckedLoadVCalls => 13,
            GlobalValueSummaryCode::TypeTestAssumeConstVCall => 14,
            GlobalValueSummaryCode::TypeCheckedLoadConstVCall => 15,
            GlobalValueSummaryCode::ValueGuid => 16,
            GlobalValueSummaryCode::CfiFunctionDefs => 17,
            GlobalValueSummaryCode::CfiFunctionDecls => 18,
            GlobalValueSummaryCode::PerModuleRelBf => 19,
            GlobalValueSummaryCode::Flags => 20,
            GlobalValueSummaryCode::TypeId => 21,
            GlobalValueSummaryCode::TypeIdMetadata => 22,
            GlobalValueSummaryCode::PerModuleVtableGlobalvarInitRefs => 23,
            GlobalValueSummaryCode::BlockCount => 24,
            GlobalValueSummaryCode::ParamAccess => 25,
            GlobalValueSummaryCode::PerModuleCallsiteInfo => 26,
            GlobalValueSummaryCode::PerModuleAllocInfo => 27,
            GlobalValueSummaryCode::CombinedCallsiteInfo => 28,
            GlobalValueSummaryCode::CombinedAllocInfo => 29,
            GlobalValueSummaryCode::StackIds => 30,
            GlobalValueSummaryCode::AllocContextIds => 31,
            GlobalValueSummaryCode::ContextRadixTreeArray => 32,
        }
    }

    /// The number that stands for the value in bitcode.
    #[verifier::when_used_as_spec(spec_code)]
    pub fn code(self) -> (r: u64)
        ensures
            r == self.spec_code(),
    {
        match self {
            GlobalValueSummaryCode::PerModule => 1,
            GlobalValueSummaryCode::PerModuleProfile => 2,
            GlobalValueSummaryCode::PerModuleGlobalvarInitRefs => 3,
            GlobalValueSummaryCode::Combined => 4,
            GlobalValueSummaryCode::CombinedProfile => 5,
            GlobalValueSummaryCode::CombinedGlobalvarInitRefs => 6,
            GlobalValueSummaryCode::Alias => 7,
            GlobalValueSummaryCode::CombinedAlias => 8,
            GlobalValueSummaryCode::CombinedOriginalName => 9,
            GlobalValueSummaryCode::Version => 10,
            GlobalValueSummaryCode::TypeTests => 11,
            GlobalValueSummaryCode::TypeTestAssumeVCalls => 12,
            GlobalValueSummaryCode::TypeCheckedLoadVCalls => 13,
            GlobalValueSummaryCode::TypeTestAssumeConstVCall => 14,
            GlobalValueSummaryCode::TypeCheckedLoadConstVCall => 15,
            GlobalValueSummaryCode::ValueGuid => 16,
            GlobalValueSummaryCode::CfiFunctionDefs => 17,
            GlobalValueSummaryCode::CfiFunctionDecls => 18,
            GlobalValueSummaryCode::PerModuleRelBf => 19,
            GlobalValueSummaryCode::Flags => 20,
            GlobalValueSummaryCode::TypeId => 21,
            GlobalValueSummaryCode::TypeIdMetadata => 22,
            GlobalValueSummaryCode::PerModuleVtableGlobalvarInitRefs => 23,
            GlobalValueSummaryCode::BlockCount => 24,
            GlobalValueSummaryCode::ParamAccess => 25,
            GlobalValueSummaryCode::PerModuleCallsiteInfo => 26,
            GlobalValueSummaryCode::PerModuleAllocInfo => 27,
            GlobalValueSummaryCode::CombinedCallsiteInfo => 28,
            GlobalValueSummaryCode::CombinedAllocInfo => 29,
            GlobalValueSummaryCode::StackIds => 30,
            GlobalValueSummaryCode::AllocContextIds => 31,
            GlobalValueSummaryCode::ContextRadixTreeArray => 32,
        }
    }

    /// The value that `code` stands for, if any.
    pub fn from_code(code: u64) -> (r: Option<Self>)
        ensures
            match r {
                Some(v) => v.spec_code() == code,
                None => forall|v: Self| v.spec_code() != code,
            },
    {
        match code {
            1 => Some(GlobalValueSummaryCode::PerModule),
            2 => Some(GlobalValueSummaryCode::PerModuleProfile),
            3 => Some(GlobalValueSummaryCode::PerModuleGlobalvarInitRefs),
            4 => Some(GlobalValueSummaryCode::Combined),
            5 => Some(GlobalValueSummaryCode::CombinedProfile),
            6 => Some(GlobalValueSummaryCode::CombinedGlobalvarInitRefs),
            7 => Some(GlobalValueSummaryCode::Alias),
            8 => Some(GlobalValueSummaryCode::CombinedAlias),
            9 => Some(GlobalValueSummaryCode::CombinedOriginalName),
            10 => Some(GlobalValueSummaryCode::Version),
            11 => Some(GlobalValueSummaryCode::TypeTests),
            12 => Some(GlobalValueSummaryCode::TypeTestAssumeVCalls),
            13 => Some(GlobalValueSummaryCode::TypeCheckedLoadVCalls),
            14 => Some(GlobalValueSummaryCode::TypeTestAssumeConstVCall),
            15 => Some(GlobalValueSummaryCode::TypeCheckedLoadConstVCall),
            16 => Some(GlobalValueSummaryCode::ValueGuid),
            17 => Some(GlobalValueSummaryCode::CfiFunctionDefs),
            18 => Some(GlobalValueSummaryCode::CfiFunctionDecls),
            19 => Some(GlobalValueSummaryCode::PerModuleRelBf),
            20 => Some(GlobalValueSummaryCode::Flags),
            21 => Some(GlobalValueSummaryCode::TypeId),
            22 => Some(GlobalValueSummaryCode::TypeIdMetadata),
            23 => Some(GlobalValueSummaryCode::PerModuleVtableGlobalvarInitRefs),
            24 => Some(GlobalValueSummaryCode::BlockCount),
            25 => Some(GlobalValueSummaryCode::ParamAccess),
            26 => Some(GlobalValueSummaryCode::PerModuleCallsiteInfo),
            27 => Some(GlobalValueSummaryCode::PerModuleAllocInfo),
            28 => Some(GlobalValueSummaryCode::CombinedCallsiteInfo),
            29 => Some(GlobalValueSummaryCode::CombinedAllocInfo),
            30 => Some(GlobalValueSummaryCode::StackIds),
            31 => Some(GlobalValueSummaryCode::AllocContextIds),
            32 => Some(GlobalValueSummaryCode::ContextRadixTreeArray),
            _ => None,
        }
    }
}

/// `METADATA` block codes
#[derive(Debug, Clone, Copy, PartialEq, Eq, Structural)]
#[non_exhaustive]
pub enum MetadataCode {
    /// `MDSTRING`
    ///
    /// [values]
    StringOld,
    /// `VALUE`
    ///
    /// [type num, value num]
    Value,
    /// `NODE`
    ///
    /// [n x md num]
    Node,
    /// `STRING`
    ///
    /// [values]
    Name,
    /// `DISTINCT_NODE`
    ///
    /// [n x md num]
    DistinctNode,
    /// `KIND`
    ///
    /// [n x [id, name]]
    Kind,
    /// `LOCATION`
    ///
    /// [distinct, line, col, scope, inlined-at?]
    Location,
    /// `OLD_NODE`
    ///
    /// [n x (type num, value num)]
    OldNode,
    /// `OLD_FN_NODE`
    ///
    /// [n x (type num, value num)]
    OldFnNode,
    /// `NAMED_NODE`
    ///
    /// [n x mdnodes]
    NamedNode,
    /// `ATTACHMENT`
    ///
    /// [m x [value, [n x [id, mdnode]]]
    Attachment,
    /// `GENERIC_DEBUG`
    ///
    /// [distinct, tag, vers, header, n x md num]
    GenericDebug,
    /// `SUBRANGE`
    ///
    /// [distinct, count, lo]
    Subrange,
    /// `ENUMERATOR`
    ///
    /// [isUnsigned|distinct, value, name]
    Enumerator,
    /// `BASIC_TYPE`
    ///
    /// [distinct, tag, name, size, align, enc]
    BasicType,
    /// `FILE`
    ///
    /// [distinct, filename, directory, checksumkind, checksum]
    File,
    /// `DERIVED_TYPE`
    ///
    /// [distinct, ...]
    DerivedType,
    /// `COMPOSITE_TYPE`
    ///
    /// [distinct, ...]
    CompositeType,
    /// `SUBROUTINE_TYPE`
    ///
    /// [distinct, flags, types, cc]
    SubroutineType,
    /// `COMPILE_UNIT`
    ///
    /// [distinct, ...]
    CompileUnit,
    /// `SUBPROGRAM`
    ///
    /// [distinct, ...]
    Subprogram,
    /// `LEXICAL_BLOCK`
    ///
    /// [distinct, scope, file, line, column]
    LexicalBlock,
    /// `LEXICAL_BLOCK_FILE`
    ///
    /// [distinct, scope, file, discriminator]
    LexicalBlockFile,
    /// `NAMESPACE`
    ///
    /// [distinct, scope, file, name, line, exportSymbols]
    Namespace,
    /// `TEMPLATE_TYPE`
    ///
    /// [distinct, scope, name, type, ...]
    TemplateType,
    /// `TEMPLATE_VALUE`
    ///
    /// [distinct, scope, name, type, value, ...]
    TemplateValue,
    /// `GLOBAL_VAR`
    ///
    /// [distinct, ...]
    GlobalVar,
    /// `LOCAL_VAR`
    ///
    /// [distinct, ...]
    LocalVar,
    /// `EXPRESSION`
    ///
    /// [distinct, n x element]
    Expression,
    /// `OBJC_PROPERTY`
    ///
    /// [distinct, name, file, line, ...]
    ObjcProperty,
    /// `IMPORTED_ENTITY`
    ///
    /// [distinct, tag, scope, entity, line, name]
    ImportedEntity,
    /// `MODULE`
    ///
    /// [distinct, scope, name, ...]
    Module,
    /// `MACRO`
    ///
    /// [distinct, macinfo, line, name, value]
    Macro,
    /// `MACRO_FILE`
    ///
    /// [distinct, macinfo, line, file, ...]
    MacroFile,
    /// `STRINGS`
    ///
    /// [count, offset] blob([lengths][chars])
    Strings,
    /// `GLOBAL_DECL_ATTACHMENT`
    ///
    /// [valueid, n x [id, mdnode]]
    GlobalDeclAttachment,
    /// `GLOBAL_VAR_EXPR`
    ///
    /// [distinct, var, expr]
    GlobalVarExpr,
    /// `INDEX_OFFSET`
    ///
    /// [offset]
    IndexOffset,
    /// `INDEX`
    ///
    /// [bitpos]
    Index,
    /// `LABEL`
    ///
    /// [distinct, scope, name, file, line]
    Label,
    /// `STRING_TYPE`
    ///
    /// [distinct, name, size, align, ..]
    StringType,
    /// `COMMON_BLOCK`
    ///
    /// [distinct, scope, name, variable, ..]
    CommonBlock,
    /// `GENERIC_SUBRANGE`
    ///
    /// [distinct, count, lo, up, stride]
    GenericSubrange,
    /// `ARG_LIST`
    ///
    /// [n x [type num, value num]]
    ArgList,
    /// `ASSIGN_ID`
    ///
    /// [distinct, ...]
    AssignId,
}

impl MetadataCode {
    /// The number that stands for the value in bitcode.
    pub open spec fn spec_code(self) -> u64 {
        match self {
            MetadataCode::StringOld => 1,
            MetadataCode::Value => 2,
            MetadataCode::Node => 3,
            MetadataCode::Name => 4,
            MetadataCode::DistinctNode => 5,
            MetadataCode::Kind => 6,
            MetadataCode::Location => 7,
            MetadataCode::OldNode => 8,
            MetadataCode::OldFnNode => 9,
            MetadataCode::NamedNode => 10,
            MetadataCode::Attachment => 11,
            MetadataCode::GenericDebug => 12,
            MetadataCode::Subrange => 13,
            MetadataCode::Enumerator => 14,
            MetadataCode::BasicType => 15,
            MetadataCode::File => 16,
            MetadataCode::DerivedType => 17,
            MetadataCode::CompositeType => 18,
            MetadataCode::SubroutineType => 19,
            MetadataCode::CompileUnit => 20,
            MetadataCode::Subprogram => 21,
            MetadataCode::LexicalBlock => 22,
            MetadataCode::LexicalBlockFile => 23,
            MetadataCode::Namespace => 24,
            MetadataCode::TemplateType => 25,
            MetadataCode::TemplateValue => 26,
            MetadataCode::GlobalVar => 27,
            MetadataCode::LocalVar => 28,
            MetadataCode::Expression => 29,
            MetadataCode::ObjcProperty => 30,
            MetadataCode::ImportedEntity => 31,
            MetadataCode::Module => 32,
            MetadataCode::Macro => 33,
            MetadataCode::MacroFile => 34,
            MetadataCode::Strings => 35,
            MetadataCode::GlobalDeclAttachment => 36,
            MetadataCode::GlobalVarExpr => 37,
            MetadataCode::IndexOffset => 38,
            MetadataCode::Index => 39,
            MetadataCode::Label => 40,
            MetadataCode::StringType => 41,
            MetadataCode::CommonBlock => 44,
            MetadataCode::GenericSubrange => 45,
            MetadataCode::ArgList => 46,
            MetadataCode::AssignId => 47,
        }
    }

    /// The number that stands for the value in bitcode.
    #[verifier::when_used_as_spec(spec_code)]
    pub fn code(self) -> (r: u64)
        ensures
            r == self.spec_code(),
    {
        match self {
            MetadataCode::StringOld => 1,
            MetadataCode::Value => 2,
            MetadataCode::Node => 3,
            MetadataCode::Name => 4,
            MetadataCode::DistinctNode => 5,
            MetadataCode::Kind => 6,
            MetadataCode::Location => 7,
            MetadataCode::OldNode => 8,
            MetadataCode::OldFnNode => 9,
            MetadataCode::NamedNode => 10,
            MetadataCode::Attachment => 11,
            MetadataCode::GenericDebug => 12,
            MetadataCode::Subrange => 13,
            MetadataCode::Enumerator => 14,
            MetadataCode::BasicType => 15,
            MetadataCode::File => 16,
            MetadataCode::DerivedType => 17,
            MetadataCode::CompositeType => 18,
            MetadataCode::SubroutineType => 19,
            MetadataCode::CompileUnit => 20,
            MetadataCode::Subprogram => 21,
            MetadataCode::LexicalBlock => 22,
            MetadataCode::LexicalBlockFile => 23,
            MetadataCode::Namespace => 24,
            MetadataCode::TemplateType => 25,
            MetadataCode::TemplateValue => 26,
            MetadataCode::GlobalVar => 27,
            MetadataCode::LocalVar => 28,
            MetadataCode::Expression => 29,
            MetadataCode::ObjcProperty => 30,
            MetadataCode::ImportedEntity => 31,
            MetadataCode::Module => 32,
            MetadataCode::Macro => 33,
            MetadataCode::MacroFile => 34,
            MetadataCode::Strings => 35,
            MetadataCode::GlobalDeclAttachment => 36,
            MetadataCode::GlobalVarExpr => 37,
            MetadataCode::IndexOffset => 38,
            MetadataCode::Index => 39,
            MetadataCode::Label => 40,
            MetadataCode::StringType => 41,
            MetadataCode::CommonBlock => 44,
            MetadataCode::GenericSubrange => 45,
            MetadataCode::ArgList => 46,
            MetadataCode::AssignId => 47,
        }
    }

    /// The value that `code` stands for, if any.
    pub fn from_code(code: u64) -> (r: Option<Self>)
        ensures
            match r {
                Some(v) => v.spec_code() == code,
                None => forall|v: Self| v.spec_code() != code,
            },
    {
        match code {
            1 => Some(MetadataCode::StringOld),
            2 => Some(MetadataCode::Value),
            3 => Some(MetadataCode::Node),
            4 => Some(MetadataCode::Name),
            5 => Some(MetadataCode::DistinctNode),
            6 => Some(MetadataCode::Kind),
            7 => Some(MetadataCode::Location),
            8 => Some(MetadataCode::OldNode),
            9 => Some(MetadataCode::OldFnNode),
            10 => Some(MetadataCode::NamedNode),
            11 => Some(MetadataCode::Attachment),
            12 => Some(MetadataCode::GenericDebug),
            13 => Some(MetadataCode::Subrange),
            14 => Some(MetadataCode::Enumerator),
            15 => Some(MetadataCode::BasicType),
            16 => Some(MetadataCode::File),
            17 => Some(MetadataCode::DerivedType),
            18 => Some(MetadataCode::CompositeType),
            19 => Some(MetadataCode::SubroutineType),
            20 => Some(MetadataCode::CompileUnit),
            21 => Some(MetadataCode::Subprogram),
            22 => Some(MetadataCode::LexicalBlock),
            23 => Some(MetadataCode::LexicalBlockFile),
            24 => Some(MetadataCode::Namespace),
            25 => Some(MetadataCode::TemplateType),
            26 => Some(MetadataCode::TemplateValue),
            27 => Some(MetadataCode::GlobalVar),
            28 => Some(MetadataCode::LocalVar),
            29 => Some(MetadataCode::Expression),
            30 => Some(MetadataCode::ObjcProperty),
            31 => Some(MetadataCode::ImportedEntity),
            32 => Some(MetadataCode::Module),
            33 => Some(MetadataCode::Macro),
            34 => Some(MetadataCode::MacroFile),
            35 => Some(MetadataCode::Strings),
            36 => Some(MetadataCode::GlobalDeclAttachment),
            37 => Some(MetadataCode::GlobalVarExpr),
            38 => Some(MetadataCode::IndexOffset),
            39 => Some(MetadataCode::Index),
            40 => Some(MetadataCode::Label),
            41 => Some(MetadataCode::StringType),
            44 => Some(MetadataCode::CommonBlock),
            45 => Some(MetadataCode::GenericSubrange),
            46 => Some(MetadataCode::ArgList),
            47 => Some(MetadataCode::AssignId),
            _ => None,
        }
    }
}

/// `USELISTBLOCK` encoded values for a value's use-list.
#[derive(Debug, Clone, Copy, PartialEq, Eq, Structural)]
#[non_exhaustive]
pub enum UselistCode {
    /// `DEFAULT`
    ///
    /// [index..., value-id]
    Default,
    /// `BB`
    ///
    /// [index..., bb-id]
    BB,
}

impl UselistCode {
    /// The number that stands for the value in bitcode.
    pub open spec fn spec_code(self) -> u64 {
        match self {
            UselistCode::Default => 1,
            UselistCode::BB => 2,
        }
    }

    /// The number that stands for the value in bitcode.
    #[verifier::when_used_as_spec(spec_code)]
    pub fn code(self) -> (r: u64)
        ensures
            r == self.spec_code(),
    {
        match self {
            UselistCode::Default => 1,
            UselistCode::BB => 2,
        }
    }

    /// The value that `code` stands for, if any.
    pub fn from_code(code: u64) -> (r: Option<Self>)
        ensures
            match r {
                Some(v) => v.spec_code() == code,
                None => forall|v: Self| v.spec_code() != code,
            },
    {
        match code {
            1 => Some(UselistCode::Default),
            2 => Some(UselistCode::BB),
            _ => None,
        }
    }
}

/// Identification block contains a string that describes the producer details,
/// and an epoch that defines the auto-upgrade capability.
#[derive(Debug, Clone, Copy, PartialEq, Eq, Structural)]
#[non_exhaustive]
pub enum IdentificationCode {
    /// `IDENTIFICATION`
    ///
    /// [strchr x N]
    String,
    /// `EPOCH`
    ///
    /// [epoch#]
    Epoch,
}

impl IdentificationCode {
    /// The number that stands for the value in bitcode.
    pub open spec fn spec_code(self) -> u64 {
        match self {
            IdentificationCode::String => 1,
            IdentificationCode::Epoch => 2,
        }
    }

    /// The number that stands for the value in bitcode.
    #[verifier::when_used_as_spec(spec_code)]
    pub fn code(self) -> (r: u64)
        ensures
            r == self.spec_code(),
    {
        match self {
            IdentificationCode::String => 1,
            IdentificationCode::Epoch => 2,
        }
    }

    /// The value that `code` stands for, if any.
    pub fn from_code(code: u64) -> (r: Option<Self>)
        ensures
            match r {
                Some(v) => v.spec_code() == code,
                None => forall|v: Self| v.spec_code() != code,
            },
    {
        match code {
            1 => Some(IdentificationCode::String),
            2 => Some(IdentificationCode::Epoch),
            _ => None,
        }
    }
}

/// `PARAMATTR` blocks have code for defining a parameter attribute set.
#[derive(Debug, Clone, Copy, PartialEq, Eq, Structural)]
#[non_exhaustive]
pub enum AttributeCode {
    /// `ENTRY`
    ///
    /// [paramidx0, attr0, paramidx1, attr1...]
    EntryOld,
    /// `ENTRY`
    ///
    /// [attrgrp0, attrgrp1, ...]
    Entry,
    /// `ENTRY`
    ///
    /// [grpid, idx, attr0, attr1, ...]
    GrpCodeEntry,
}

impl AttributeCode {
    /// The number that stands for the value in bitcode.
    pub open spec fn spec_code(self) -> u64 {
        match self {
            AttributeCode::EntryOld => 1,
            AttributeCode::Entry => 2,
            AttributeCode::GrpCodeEntry => 3,
        }
    }

    /// The number that stands for the value in bitcode.
    #[verifier::when_used_as_spec(spec_code)]
    pub fn code(self) -> (r: u64)
        ensures
            r == self.spec_code(),
    {
        match self {
            AttributeCode::EntryOld => 1,
            AttributeCode::Entry => 2,
            AttributeCode::GrpCodeEntry => 3,
        }
    }

    /// The value that `code` stands for, if any.
    pub fn from_code(code: u64) -> (r: Option<Self>)
        ensures
            match r {
                Some(v) => v.spec_code() == code,
                None => forall|v: Self| v.spec_code() != code,
            },
    {
        match code {
            1 => Some(AttributeCode::EntryOld),
            2 => Some(AttributeCode::Entry),
            3 => Some(AttributeCode::GrpCodeEntry),
            _ => None,
        }
    }
}

/// Value symbol table codes.
#[derive(Debug, Clone, Copy, PartialEq, Eq, Structural)]
#[non_exhaustive]
pub enum ValueSymtabCode {
    /// `VST_ENTRY`
    ///
    /// [valueid, namechar x N]
    Entry,
    /// `VST_BBENTRY`
    ///
    /// [bbid, namechar x N]
    BbEntry,
    /// `VST_FNENTRY`
    ///
    /// Unused when strtab is present
    ///
    /// [valueid, offset, namechar x N]
    FnEntry,
    /// Obsolete.
    ///
    /// `VST_COMBINED_ENTRY`
    ///
    /// [valueid, refguid]
    CombinedEntry,
}

impl ValueSymtabCode {
    /// The number that stands for the value in bitcode.
    pub open spec fn spec_code(self) -> u64 {
        match self {
            ValueSymtabCode::Entry => 1,
            ValueSymtabCode::BbEntry => 2,
            ValueSymtabCode::FnEntry => 3,
            ValueSymtabCode::CombinedEntry => 5,
        }
    }

    /// The number that stands for the value in bitcode.
    #[verifier::when_used_as_spec(spec_code)]
    pub fn code(self) -> (r: u64)
        ensures
            r == self.spec_code(),
    {
        match self {
            ValueSymtabCode::Entry => 1,
            ValueSymtabCode::BbEntry => 2,
            ValueSymtabCode::FnEntry => 3,
            ValueSymtabCode::CombinedEntry => 5,
        }
    }

    /// The value that `code` stands for, if any.
    pub fn from_code(code: u64) -> (r: Option<Self>)
        ensures
            match r {
                Some(v) => v.spec_code() == code,
                None => forall|v: Self| v.spec_code() != code,
            },
    {
        match code {
            1 => Some(ValueSymtabCode::Entry),
            2 => Some(ValueSymtabCode::BbEntry),
            3 => Some(ValueSymtabCode::FnEntry),
            5 => Some(ValueSymtabCode::CombinedEntry),
            _ => None,
        }
    }
}

/// `TYPE` blocks have codes for each type primitive they use.
#[derive(Debug, Clone, Copy, PartialEq, Eq, Structural)]
#[non_exhaustive]
pub enum TypeCode {
    /// `NUMENTRY`
    ///
    /// [numentries]
    NumEntry,
    /// `VOID`
    Void,
    /// `FLOAT`
    Float,
    /// `DOUBLE`
    Double,
    /// `LABEL`
    Label,
    /// `OPAQUE`
    Opaque,
    /// `INTEGER`
    ///
    /// [width]
    Integer,
    /// Typed pointers are obsolete.
    ///
    /// [pointee type]
    Pointer,
    /// Obsolete
    ///
    /// [vararg, attrid, retty, paramty x N]
    FunctionOld,
    /// `HALF`
    Half,
    /// `ARRAY`
    ///
    /// [num_elements, elements_type]
    Array,
    /// `VECTOR`
    ///
    /// [num_elements, elements_type]
    Vector,
    /// `X86 LONG DOUBLE`
    X86Fp80,
    /// `LONG DOUBLE` (112 bit mantissa)
    Fp128,
    /// `PPC LONG DOUBLE` (2 doubles)
    PpcFp128,
    /// `METADATA`
    Metadata,
    /// Unused
    ///
    /// `X86 MMX`
    X86Mmx,
    /// `STRUCT_ANON`
    ///
    /// [ispacked, elements_type x N]
    StructAnon,
    /// `STRUCT_NAME`
    ///
    /// [strchr x N]
    StructName,
    /// `STRUCT_NAMED`
    ///
    /// [ispacked, elements_type x N]
    StructNamed,
    /// `FUNCTION`
    ///
    /// [vararg, retty, paramty x N]
    Function,
    /// `TOKEN`
    Token,
    /// `BRAIN FLOATING POINT`
    BFloat,
    /// `X86 AMX`
    X86Amx,
    /// `OPAQUE_POINTER`
    ///
    /// [addrspace]
    OpaquePointer,
    /// `TARGET_TYPE`
    TargetType,
}

impl TypeCode {
    /// The number that stands for the value in bitcode.
    pub open spec fn spec_code(self) -> u64 {
        match self {
            TypeCode::NumEntry => 1,
            TypeCode::Void => 2,
            TypeCode::Float => 3,
            TypeCode::Double => 4,
            TypeCode::Label => 5,
            TypeCode::Opaque => 6,
            TypeCode::Integer => 7,
            TypeCode::Pointer => 8,
            TypeCode::FunctionOld => 9,
            TypeCode::Half => 10,
            TypeCode::Array => 11,
            TypeCode::Vector => 12,
            TypeCode::X86Fp80 => 13,
            TypeCode::Fp128 => 14,
            TypeCode::PpcFp128 => 15,
            TypeCode::Metadata => 16,
            TypeCode::X86Mmx => 17,
            TypeCode::StructAnon => 18,
            TypeCode::StructName => 19,
            TypeCode::StructNamed => 20,
            TypeCode::Function => 21,
            TypeCode::Token => 22,
            TypeCode::BFloat => 23,
            TypeCode::X86Amx => 24,
            TypeCode::OpaquePointer => 25,
            TypeCode::TargetType => 26,
        }
    }

    /// The number that stands for the value in bitcode.
    #[verifier::when_used_as_spec(spec_code)]
    pub fn code(self) -> (r: u64)
        ensures
            r == self.spec_code(),
    {
        match self {
            TypeCode::NumEntry => 1,
            TypeCode::Void => 2,
            TypeCode::Float => 3,
            TypeCode::Double => 4,
            TypeCode::Label => 5,
            TypeCode::Opaque => 6,
            TypeCode::Integer => 7,
            TypeCode::Pointer => 8,
            TypeCode::FunctionOld => 9,
            TypeCode::Half => 10,
            TypeCode::Array => 11,
            TypeCode::Vector => 12,
            TypeCode::X86Fp80 => 13,
            TypeCode::Fp128 => 14,
            TypeCode::PpcFp128 => 15,
            TypeCode::Metadata => 16,
            TypeCode::X86Mmx => 17,
            TypeCode::StructAnon => 18,
            TypeCode::StructName => 19,
            TypeCode::StructNamed => 20,
            TypeCode::Function => 21,
            TypeCode::Token => 22,
            TypeCode::BFloat => 23,
            TypeCode::X86Amx => 24,
            TypeCode::OpaquePointer => 25,
            TypeCode::TargetType => 26,
        }
    }

    /// The value that `code` stands for, if any.
    pub fn from_code(code: u64) -> (r: Option<Self>)
        ensures
            match r {
                Some(v) => v.spec_code() == code,
                None => forall|v: Self| v.spec_code() != code,
            },
    {
        match code {
            1 => Some(TypeCode::NumEntry),
            2 => Some(TypeCode::Void),
            3 => Some(TypeCode::Float),
            4 => Some(TypeCode::Double),
            5 => Some(TypeCode::Label),
            6 => Some(TypeCode::Opaque),
            7 => Some(TypeCode::Integer),
            8 => Some(TypeCode::Pointer),
            9 => Some(TypeCode::FunctionOld),
            10 => Some(TypeCode::Half),
            11 => Some(TypeCode::Array),
            12 => Some(TypeCode::Vector),
            13 => Some(TypeCode::X86Fp80),
            14 => Some(TypeCode::Fp128),
            15 => Some(TypeCode::PpcFp128),
            16 => Some(TypeCode::Metadata),
            17 => Some(TypeCode::X86Mmx),
            18 => Some(TypeCode::StructAnon),
            19 => Some(TypeCode::StructName),
            20 => Some(TypeCode::StructNamed),
            21 => Some(TypeCode::Function),
            22 => Some(TypeCode::Token),
            23 => Some(TypeCode::BFloat),
            24 => Some(TypeCode::X86Amx),
            25 => Some(TypeCode::OpaquePointer),
            26 => Some(TypeCode::TargetType),
            _ => None,
        }
    }
}

#[derive(Debug, Clone, Copy, PartialEq, Eq, Structural)]
#[non_exhaustive]
pub enum ConstantsCodes {
    /// `SETTYPE`
    ///
    /// [typeid]
    Settype,
    /// `NULL`
    Null,
    /// `UNDEF`
    Undef,
    /// `INTEGER`
    ///
    /// [intval]
    Integer,
    /// `WIDE_INTEGER`
    ///
    /// [n x intval]
    WideInteger,
    /// `FLOAT`
    ///
    /// [fpval]
    Float,
    /// `AGGREGATE`
    ///
    /// [n x value number]
    Aggregate,
    /// `STRING`
    ///
    /// [values]
    String,
    /// `CSTRING`
    ///
    /// [values]
    CString,
    /// `CE_BINOP`
    ///
    /// [opcode, opval, opval]
    BinOp,
    /// `CE_CAST`
    ///
    /// [opcode, opty, opval]
    Cast,
    /// Obsolete “constant expression” GEP record; replaced by `CST_CODE_CE_GEP`
    ///
    /// `CE_GEP`
    ///
    /// [n x operands]
    GepOld,
    /// Unused
    ///
    /// `CE_SELECT`
    ///
    /// [opval, opval, opval]
    Select,
    /// `CE_EXTRACTELT`
    ///
    /// [opty, opval, opval]
    ExtractElt,
    /// `CE_INSERTELT`
    ///
    /// [opval, opval, opval]
    InsertElt,
    /// `CE_SHUFFLEVEC`
    ///
    /// [opval, opval, opval]
    ShuffleVec,
    /// Unused.
    ///
    /// `CE_CMP`
    ///
    /// [opty, opval, opval, pred]
    Cmp,
    /// Obsolete inline asm record variant
    ///
    /// `INLINEASM`
    ///
    /// [sideeffect|alignstack, asmstr, onststr]
    InlineasmOld,
    /// `SHUFVEC_EX`
    ///
    /// [opty, opval, opval, opval]
    ShufVecEx,
    /// Obsolete.
    ///
    /// `INBOUNDS_GEP`
    ///
    /// [n x operands]
    InboundsGep,
    /// `BLOCKADDRESS`
    ///
    /// [fnty, fnval, bb#]
    BlockAddress,
    /// `DATA`
    ///
    /// [n x elements]
    Data,
    /// Obsolete inline asm encoding variant
    ///
    /// `INLINEASM`
    ///
    /// [sideeffect|alignstack|asmdialect, smstr, onststr]
    InlineAsmOld2,
    /// [opty, flags, n x operands]
    GepWithInrangeIndexOld,
    /// `CST_CODE_CE_UNOP`
    ///
    /// [opcode, opval]
    UnOp,
    /// `POISON`
    Poison,
    /// `DSO_LOCAL_EQUIVALENT`
    ///
    /// [gvty, gv]
    DsoLocalEquivalent,
    /// Obsolete variant for inline asm
    ///
    /// `INLINEASM`
    ///
    /// [sideeffect|alignstack|asmdialect|unwind, asmstr, onststr]
    InlineAsmOld3,
    /// `NO_CFI`
    ///
    /// [fty, f]
    NoCfiValue,
    /// `INLINEASM`
    ///
    /// [fnty, sideeffect|alignstack|asmdialect|unwind, asmstr, onststr]
    InlineAsm,
    /// CST_CODE_CE_GEP_WITH_INRANGE
    /// [opty, flags, range, n x operands]
    GepWithInrange,
    /// CST_CODE_CE_GEP
    /// [opty, flags, n x operands]
    Gep,
    /// CST_CODE_PTRAUTH
    /// [ptr, key, disc, addrdisc]
    PtrAuth,
}

impl ConstantsCodes {
    /// The number that stands for the value in bitcode.
    pub open spec fn spec_code(self) -> u64 {
        match self {
            ConstantsCodes::Settype => 1,
            ConstantsCodes::Null => 2,
            ConstantsCodes::Undef => 3,
            ConstantsCodes::Integer => 4,
            ConstantsCodes::WideInteger => 5,
            ConstantsCodes::Float => 6,
            ConstantsCodes::Aggregate => 7,
            ConstantsCodes::String => 8,
            ConstantsCodes::CString => 9,
            ConstantsCodes::BinOp => 10,
            ConstantsCodes::Cast => 11,
            ConstantsCodes::GepOld => 12,
            ConstantsCodes::Select => 13,
            ConstantsCodes::ExtractElt => 14,
            ConstantsCodes::InsertElt => 15,
            ConstantsCodes::ShuffleVec => 16,
            ConstantsCodes::Cmp => 17,
            ConstantsCodes::InlineasmOld => 18,
            ConstantsCodes::ShufVecEx => 19,
            ConstantsCodes::InboundsGep => 20,
            ConstantsCodes::BlockAddress => 21,
            ConstantsCodes::Data => 22,
            ConstantsCodes::InlineAsmOld2 => 23,
            ConstantsCodes::GepWithInrangeIndexOld => 24,
            ConstantsCodes::UnOp => 25,
            ConstantsCodes::Poison => 26,
            ConstantsCodes::DsoLocalEquivalent => 27,
            ConstantsCodes::InlineAsmOld3 => 28,
            ConstantsCodes::NoCfiValue => 29,
            ConstantsCodes::InlineAsm => 30,
            ConstantsCodes::GepWithInrange => 31,
            ConstantsCodes::Gep => 32,
            ConstantsCodes::PtrAuth => 33,
        }
    }

    /// The number that stands for the value in bitcode.
    #[verifier::when_used_as_spec(spec_code)]
    pub fn code(self) -> (r: u64)
        ensures
            r == self.spec_code(),
    {
        match self {
            ConstantsCodes::Settype => 1,
            ConstantsCodes::Null => 2,
            ConstantsCodes::Undef => 3,
            ConstantsCodes::Integer => 4,
            ConstantsCodes::WideInteger => 5,
            ConstantsCodes::Float => 6,
            ConstantsCodes::Aggregate => 7,
            ConstantsCodes::String => 8,
            ConstantsCodes::CString => 9,
            ConstantsCodes::BinOp => 10,
            ConstantsCodes::Cast => 11,
            ConstantsCodes::GepOld => 12,
            ConstantsCodes::Select => 13,
            ConstantsCodes::ExtractElt => 14,
            ConstantsCodes::InsertElt => 15,
            ConstantsCodes::ShuffleVec => 16,
            ConstantsCodes::Cmp => 17,
            ConstantsCodes::InlineasmOld => 18,
            ConstantsCodes::ShufVecEx => 19,
            ConstantsCodes::InboundsGep => 20,
            ConstantsCodes::BlockAddress => 21,
            ConstantsCodes::Data => 22,
            ConstantsCodes::InlineAsmOld2 => 23,
            ConstantsCodes::GepWithInrangeIndexOld => 24,
            ConstantsCodes::UnOp => 25,
            ConstantsCodes::Poison => 26,
            ConstantsCodes::DsoLocalEquivalent => 27,
            ConstantsCodes::InlineAsmOld3 => 28,
            ConstantsCodes::NoCfiValue => 29,
            ConstantsCodes::InlineAsm => 30,
            ConstantsCodes::GepWithInrange => 31,
            ConstantsCodes::Gep => 32,
            ConstantsCodes::PtrAuth => 33,
        }
    }

    /// The value that `code` stands for, if any.
    pub fn from_code(code: u64) -> (r: Option<Self>)
        ensures
            match r {
                Some(v) => v.spec_code() == code,
                None => forall|v: Self| v.spec_code() != code,
            },
    {
        match code {
            1 => Some(ConstantsCodes::Settype),
            2 => Some(ConstantsCodes::Null),
            3 => Some(ConstantsCodes::Undef),
            4 => Some(ConstantsCodes::Integer),
            5 => Some(ConstantsCodes::WideInteger),
            6 => Some(ConstantsCodes::Float),
            7 => Some(ConstantsCodes::Aggregate),
            8 => Some(ConstantsCodes::String),
            9 => Some(ConstantsCodes::CString),
            10 => Some(ConstantsCodes::BinOp),
            11 => Some(ConstantsCodes::Cast),
            12 => Some(ConstantsCodes::GepOld),
            13 => Some(ConstantsCodes::Select),
            14 => Some(ConstantsCodes::ExtractElt),
            15 => Some(ConstantsCodes::InsertElt),
            16 => Some(ConstantsCodes::ShuffleVec),
            17 => Some(ConstantsCodes::Cmp),
            18 => Some(ConstantsCodes::InlineasmOld),
            19 => Some(ConstantsCodes::ShufVecEx),
            20 => Some(ConstantsCodes::InboundsGep),
            21 => Some(ConstantsCodes::BlockAddress),
            22 => Some(ConstantsCodes::Data),
            23 => Some(ConstantsCodes::InlineAsmOld2),
            24 => Some(ConstantsCodes::GepWithInrangeIndexOld),
            25 => Some(ConstantsCodes::UnOp),
            26 => Some(ConstantsCodes::Poison),
            27 => Some(ConstantsCodes::DsoLocalEquivalent),
            28 => Some(ConstantsCodes::InlineAsmOld3),
            29 => Some(ConstantsCodes::NoCfiValue),
            30 => Some(ConstantsCodes::InlineAsm),
            31 => Some(ConstantsCodes::GepWithInrange),
            32 => Some(ConstantsCodes::Gep),
            33 => Some(ConstantsCodes::PtrAuth),
            _ => None,
        }
    }
}

#[derive(Debug, Clone, Copy, PartialEq, Eq, Structural)]
#[non_exhaustive]
pub enum FunctionCode {
    /// `DECLAREBLOCKS`
    ///
    /// [n]
    DeclareBlocks,
    /// `BINOP`
    ///
    /// [opcode, ty, opval, opval]
    BinOp,
    /// `CAST`
    ///
    /// [opcode, ty, opty, opval]
    Cast,
    /// Old GEP instruction record; superseded by `FUNC_CODE_INST_GEP`
    ///
    /// `GEP`
    ///
    /// [n x operands]
    GepOld,
    /// Unused.
    ///
    /// `SELECT`
    ///
    /// [ty, opval, opval, opval]
    SelectOld,
    /// `EXTRACTELT`
    ///
    /// [opty, opval, opval]
    ExtractElt,
    /// `INSERTELT`
    ///
    /// [ty, opval, opval, opval]
    InsertElt,
    /// `SHUFFLEVEC`
    ///
    /// [ty, opval, opval, opval]
    ShuffleVec,
    /// `CMP`
    ///
    /// [opty, opval, opval, pred]
    Cmp,
    /// `RET`
    ///
    /// [opty, pval<both optional>]
    Ret,
    /// `BR`
    ///
    /// [bb#, bb#, cond] or [bb#]
    Br,
    /// `SWITCH`
    ///
    /// [opty, op0, op1, ...]
    Switch,
    /// `INVOKE`
    ///
    /// [attr, fnty, op0, op1, ...]
    Invoke,
    /// `UNREACHABLE`
    Unreachable,
    /// `PHI`
    ///
    /// [ty, val0, b0, ...]
    Phi,
    /// `ALLOCA`
    ///
    /// [instty, opty, op, align]
    Alloca,
    /// `LOAD`
    ///
    /// [opty, op, align, vol]
    Load,
    /// `VAARG`
    ///
    /// [valistty, valist, instty]
    VaArg,
    /// This store code encodes the pointer type, rather than the value type
    /// this is so information only available in the pointer type (e.g. address
    /// spaces) is retained.
    /// Obsolete store record; replaced by `FUNC_CODE_INST_STORE`
    ///
    /// `STORE`
    ///
    /// [ptrty, tr, al, align, vol]
    StoreOld,
    /// `EXTRACTVAL`
    ///
    /// [n x operands]
    ExtractVal,
    /// `INSERTVAL`
    ///
    /// [n x operands]
    InsertVal,
    /// `CMP2`
    ///
    /// fcmp/icmp returning Int1TY or vector of Int1Ty. Same as `CMP`, exists to
    /// support legacy vicmp/vfcmp instructions.
    ///
    /// [opty, opval, opval, pred]
    Cmp2,
    /// `VSELECT`
    ///
    /// new select on i1 or [N x i1]
    ///
    /// [ty, pval, pval, redty, red]
    Vselect,
    /// Obsolete inbounds GEP record; replaced by the newer `FUNC_CODE_INST_GEP`
    ///
    /// `INBOUNDS_GEP`
    ///
    /// [n x operands]
    InboundsGepOld,
    /// `INDIRECTBR`
    ///
    /// [opty, op0, op1, ...]
    IndirectBr,
    /// `DEBUG_LOC_AGAIN`
    DebugLocAgain,
    /// `CALL`
    ///
    /// [attr, cc, fnty, fnid, args...]
    Call,
    /// `DEBUG_LOC`
    ///
    /// [Line, ol, copeVal, IAVal]
    DebugLoc,
    /// `FENCE`
    ///
    /// [ordering, synchscope]
    Fence,
    /// Old cmpxchg record; replaced by `FUNC_CODE_INST_CMPXCHG`
    ///
    /// `CMPXCHG`
    ///
    /// [ptrty, ptr, cmp, val, vol, ordering, synchscope, failure_ordering?, weak?]
    CmpxchgOld,
    /// Obsolete atomicrmw record; replaced by `FUNC_CODE_INST_ATOMICRMW`
    ///
    /// `ATOMICRMW`
    ///
    /// [ptrty, tr, al, operation, align, vol, ordering, synchscope]
    AtomicRmwOld,
    /// `RESUME`
    ///
    /// [opval]
    Resume,
    /// Obsolete landingpad record; replaced by `FUNC_CODE_INST_LANDINGPAD`
    ///
    /// `LANDINGPAD`
    ///
    /// [ty, al, al, um, d0, al0...]
    LandingPadOld,
    /// `LOAD`
    ///
    /// [opty, op, align, vol, ordering, synchscope]
    LoadAtomic,
    /// Obsolete store-atomic record; replaced by `FUNC_CODE_INST_STOREATOMIC`
    ///
    /// `STORE`
    ///
    /// [ptrty, tr, al, align, vol ordering, synchscope]
    StoreAtomicOld,
    /// `GEP`
    ///
    /// [inbounds, n x operands]
    Gep,
    /// `STORE`
    ///
    /// [ptrty, tr, alty, al, align, vol]
    Store,
    /// `STORE`
    ///
    /// [ptrty, tr, al, align, vol]
    StoreAtomic,
    /// `CMPXCHG`
    ///
    /// [ptrty, ptr, cmp, val, vol, success_ordering, synchscope, failure_ordering, weak]
    Cmpxchg,
    /// `LANDINGPAD`
    ///
    /// [ty, al, um, d0, al0...]
    LandingPad,
    /// `CLEANUPRET`
    ///
    /// [val] or [val, b#]
    CleanupRet,
    /// `CATCHRET`
    ///
    /// [val, b#]
    CatchRet,
    /// `CATCHPAD`
    ///
    /// [bb#, b#, um, rgs...]
    CatchPad,
    /// `CLEANUPPAD`
    ///
    /// [num, rgs...]
    CleanupPad,
    /// `CATCHSWITCH`
    ///
    /// [num, rgs...] or [num, rgs..., b]
    CatchSwitch,
    /// `OPERAND_BUNDLE`
    ///
    /// [tag#, value...]
    OperandBundle,
    /// `UNOP`
    ///
    /// [opcode, ty, opval]
    UnOp,
    /// `CALLBR`
    ///
    /// [attr, cc, norm, transfs, fnty, fnid, args...]
    CallBr,
    /// `FREEZE`
    ///
    /// [opty, opval]
    Freeze,
    /// `ATOMICRMW`
    ///
    /// [ptrty, ptr, valty, val, operation, align, vol, ordering, synchscope]
    AtomicRmw,
    /// `BLOCKADDR_USERS`
    ///
    /// [value...]
    BlockaddrUsers,
    /// [DILocation, DILocalVariable, DIExpression, ValueAsMetadata]
    DebugRecordValue,
    /// [DILocation, DILocalVariable, DIExpression, ValueAsMetadata]
    DebugRecordDeclare,
    /// [DILocation, DILocalVariable, DIExpression, ValueAsMetadata, DIAssignID, DIExpression (addr), ValueAsMetadata (addr)]
    DebugRecordAssign,
    /// [DILocation, DILocalVariable, DIExpression, Value]
    DebugRecordValueSimple,
    /// [DILocation, DILabel]
    DebugRecordLabel,
}

impl FunctionCode {
    /// The number that stands for the value in bitcode.
    pub open spec fn spec_code(self) -> u64 {
        match self {
            FunctionCode::DeclareBlocks => 1,
            FunctionCode::BinOp => 2,
            FunctionCode::Cast => 3,
            FunctionCode::GepOld => 4,
            FunctionCode::SelectOld => 5,
            FunctionCode::ExtractElt => 6,
            FunctionCode::InsertElt => 7,
            FunctionCode::ShuffleVec => 8,
            FunctionCode::Cmp => 9,
            FunctionCode::Ret => 10,
            FunctionCode::Br => 11,
            FunctionCode::Switch => 12,
            FunctionCode::Invoke => 13,
            FunctionCode::Unreachable => 15,
            FunctionCode::Phi => 16,
            FunctionCode::Alloca => 19,
            FunctionCode::Load => 20,
            FunctionCode::VaArg => 23,
            FunctionCode::StoreOld => 24,
            FunctionCode::ExtractVal => 26,
            FunctionCode::InsertVal => 27,
            FunctionCode::Cmp2 => 28,
            FunctionCode::Vselect => 29,
            FunctionCode::InboundsGepOld => 30,
            FunctionCode::IndirectBr => 31,
            FunctionCode::DebugLocAgain => 33,
            FunctionCode::Call => 34,
            FunctionCode::DebugLoc => 35,
            FunctionCode::Fence => 36,
            FunctionCode::CmpxchgOld => 37,
            FunctionCode::AtomicRmwOld => 38,
            FunctionCode::Resume => 39,
            FunctionCode::LandingPadOld => 40,
            FunctionCode::LoadAtomic => 41,
            FunctionCode::StoreAtomicOld => 42,
            FunctionCode::Gep => 43,
            FunctionCode::Store => 44,
            FunctionCode::StoreAtomic => 45,
            FunctionCode::Cmpxchg => 46,
            FunctionCode::LandingPad => 47,
            FunctionCode::CleanupRet => 48,
            FunctionCode::CatchRet => 49,
            FunctionCode::CatchPad => 50,
            FunctionCode::CleanupPad => 51,
            FunctionCode::CatchSwitch => 52,
            FunctionCode::OperandBundle => 55,
            FunctionCode::UnOp => 56,
            FunctionCode::CallBr => 57,
            FunctionCode::Freeze => 58,
            FunctionCode::AtomicRmw => 59,
            FunctionCode::BlockaddrUsers => 60,
            FunctionCode::DebugRecordValue => 61,
            FunctionCode::DebugRecordDeclare => 62,
            FunctionCode::DebugRecordAssign => 63,
            FunctionCode::DebugRecordValueSimple => 64,
            FunctionCode::DebugRecordLabel => 65,
        }
    }

    /// The number that stands for the value in bitcode.
    #[verifier::when_used_as_spec(spec_code)]
    pub fn code(self) -> (r: u64)
        ensures
            r == self.spec_code(),
    {
        match self {
            FunctionCode::DeclareBlocks => 1,
            FunctionCode::BinOp => 2,
            FunctionCode::Cast => 3,
            FunctionCode::GepOld => 4,
            FunctionCode::SelectOld => 5,
            FunctionCode::ExtractElt => 6,
            FunctionCode::InsertElt => 7,
            FunctionCode::ShuffleVec => 8,
            FunctionCode::Cmp => 9,
            FunctionCode::Ret => 10,
            FunctionCode::Br => 11,
            FunctionCode::Switch => 12,
            FunctionCode::Invoke => 13,
            FunctionCode::Unreachable => 15,
            FunctionCode::Phi => 16,
            FunctionCode::Alloca => 19,
            FunctionCode::Load => 20,
            FunctionCode::VaArg => 23,
            FunctionCode::StoreOld => 24,
            FunctionCode::ExtractVal => 26,
            FunctionCode::InsertVal => 27,
            FunctionCode::Cmp2 => 28,
            FunctionCode::Vselect => 29,
            FunctionCode::InboundsGepOld => 30,
            FunctionCode::IndirectBr => 31,
            FunctionCode::DebugLocAgain => 33,
            FunctionCode::Call => 34,
            FunctionCode::DebugLoc => 35,
            FunctionCode::Fence => 36,
            FunctionCode::CmpxchgOld => 37,
            FunctionCode::AtomicRmwOld => 38,
            FunctionCode::Resume => 39,
            FunctionCode::LandingPadOld => 40,
            FunctionCode::LoadAtomic => 41,
            FunctionCode::StoreAtomicOld => 42,
            FunctionCode::Gep => 43,
            FunctionCode::Store => 44,
            FunctionCode::StoreAtomic => 45,
            FunctionCode::Cmpxchg => 46,
            FunctionCode::LandingPad => 47,
            FunctionCode::CleanupRet => 48,
            FunctionCode::CatchRet => 49,
            FunctionCode::CatchPad => 50,
            FunctionCode::CleanupPad => 51,
            FunctionCode::CatchSwitch => 52,
            FunctionCode::OperandBundle => 55,
            FunctionCode::UnOp => 56,
            FunctionCode::CallBr => 57,
            FunctionCode::Freeze => 58,
            FunctionCode::AtomicRmw => 59,
            FunctionCode::BlockaddrUsers => 60,
            FunctionCode::DebugRecordValue => 61,
            FunctionCode::DebugRecordDeclare => 62,
            FunctionCode::DebugRecordAssign => 63,
            FunctionCode::DebugRecordValueSimple => 64,
            FunctionCode::DebugRecordLabel => 65,
        }
    }

    /// The value that `code` stands for, if any.
    pub fn from_code(code: u64) -> (r: Option<Self>)
        ensures
            match r {
                Some(v) => v.spec_code() == code,
                None => forall|v: Self| v.spec_code() != code,
            },
    {
        match code {
            1 => Some(FunctionCode::DeclareBlocks),
            2 => Some(FunctionCode::BinOp),
            3 => Some(FunctionCode::Cast),
            4 => Some(FunctionCode::GepOld),
            5 => Some(FunctionCode::SelectOld),
            6 => Some(FunctionCode::ExtractElt),
            7 => Some(FunctionCode::InsertElt),
            8 => Some(FunctionCode::ShuffleVec),
            9 => Some(FunctionCode::Cmp),
            10 => Some(FunctionCode::Ret),
            11 => Some(FunctionCode::Br),
            12 => Some(FunctionCode::Switch),
            13 => Some(FunctionCode::Invoke),
            15 => Some(FunctionCode::Unreachable),
            16 => Some(FunctionCode::Phi),
            19 => Some(FunctionCode::Alloca),
            20 => Some(FunctionCode::Load),
            23 => Some(FunctionCode::VaArg),
            24 => Some(FunctionCode::StoreOld),
            26 => Some(FunctionCode::ExtractVal),
            27 => Some(FunctionCode::InsertVal),
            28 => Some(FunctionCode::Cmp2),
            29 => Some(FunctionCode::Vselect),
            30 => Some(FunctionCode::InboundsGepOld),
            31 => Some(FunctionCode::IndirectBr),
            33 => Some(FunctionCode::DebugLocAgain),
            34 => Some(FunctionCode::Call),
            35 => Some(FunctionCode::DebugLoc),
            36 => Some(FunctionCode::Fence),
            37 => Some(FunctionCode::CmpxchgOld),
            38 => Some(FunctionCode::AtomicRmwOld),
            39 => Some(FunctionCode::Resume),
            40 => Some(FunctionCode::LandingPadOld),
            41 => Some(FunctionCode::LoadAtomic),
            42 => Some(FunctionCode::StoreAtomicOld),
            43 => Some(FunctionCode::Gep),
            44 => Some(FunctionCode::Store),
            45 => Some(FunctionCode::StoreAtomic),
            46 => Some(FunctionCode::Cmpxchg),
            47 => Some(FunctionCode::LandingPad),
            48 => Some(FunctionCode::CleanupRet),
            49 => Some(FunctionCode::CatchRet),
            50 => Some(FunctionCode::CatchPad),
            51 => Some(FunctionCode::CleanupPad),
            52 => Some(FunctionCode::CatchSwitch),
            55 => Some(FunctionCode::OperandBundle),
            56 => Some(FunctionCode::UnOp),
            57 => Some(FunctionCode::CallBr),
            58 => Some(FunctionCode::Freeze),
            59 => Some(FunctionCode::AtomicRmw),
            60 => Some(FunctionCode::BlockaddrUsers),
            61 => Some(FunctionCode::DebugRecordValue),
            62 => Some(FunctionCode::DebugRecordDeclare),
            63 => Some(FunctionCode::DebugRecordAssign),
            64 => Some(FunctionCode::DebugRecordValueSimple),
            65 => Some(FunctionCode::DebugRecordLabel),
            _ => None,
        }
    }
}

/// `MODULEPATH_SYMTAB` block codes
#[derive(Debug, Clone, Copy, PartialEq, Eq, Structural)]
#[non_exhaustive]
pub enum ModulePathSymtabCode {
    /// `MST_ENTRY`
    ///
    /// [modid, namechar x N]
    Entry,
    /// `MST_HASH`
    ///
    /// [5*i32]
    Hash,
}

impl ModulePathSymtabCode {
    /// The number that stands for the value in bitcode.
    pub open spec fn spec_code(self) -> u64 {
        match self {
            ModulePathSymtabCode::Entry => 1,
            ModulePathSymtabCode::Hash => 2,
        }
    }

    /// The number that stands for the value in bitcode.
    #[verifier::when_used_as_spec(spec_code)]
    pub fn code(self) -> (r: u64)
        ensures
            r == self.spec_code(),
    {
        match self {
            ModulePathSymtabCode::Entry => 1,
            ModulePathSymtabCode::Hash => 2,
        }
    }

    /// The value that `code` stands for, if any.
    pub fn from_code(code: u64) -> (r: Option<Self>)
        ensures
            match r {
                Some(v) => v.spec_code() == code,
                None => forall|v: Self| v.spec_code() != code,
            },
    {
        match code {
            1 => Some(ModulePathSymtabCode::Entry),
            2 => Some(ModulePathSymtabCode::Hash),
            _ => None,
        }
    }
}

} // verus!
