use vstd::prelude::*;

verus! {

/// LLVM Bitcode block IDs
#[derive(Debug, Clone, Copy, PartialEq, Eq, Structural)]
pub enum BlockId {
    Module,
    /// Module sub-block
    ParamAttr,
    ParamAttrGroup,
    Constants,
    Function,
    /// Block intended to contains information on the bitcode versioning.
    /// Can be used to provide better error messages when we fail to parse a
    /// bitcode file.
    Identification,
    ValueSymbolTable,
    Metadata,
    MetadataAttachment,
    Type,
    UseList,
    ModuleStringTable,
    GlobalValSummary,
    OperandBundleTags,
    MetadataKind,
    StringTable,
    FullLtoGlobalValSummary,
    SymbolTable,
    SyncScopeNames,
}

impl BlockId {
    /// The number that stands for the value in bitcode.
    pub open spec fn spec_code(self) -> u64 {
        match self {
            BlockId::Module => 8,
            BlockId::ParamAttr => 9,
            BlockId::ParamAttrGroup => 10,
            BlockId::Constants => 11,
            BlockId::Function => 12,
            BlockId::Identification => 13,
            BlockId::ValueSymbolTable => 14,
            BlockId::Metadata => 15,
            BlockId::MetadataAttachment => 16,
            BlockId::Type => 17,
            BlockId::UseList => 18,
            BlockId::ModuleStringTable => 19,
            BlockId::GlobalValSummary => 20,
            BlockId::OperandBundleTags => 21,
            BlockId::MetadataKind => 22,
            BlockId::StringTable => 23,
            BlockId::FullLtoGlobalValSummary => 24,
            BlockId::SymbolTable => 25,
            BlockId::SyncScopeNames => 26,
        }
    }

    /// The number that stands for the value in bitcode.
    #[verifier::when_used_as_spec(spec_code)]
    pub fn code(self) -> (r: u64)
        ensures
            r == self.spec_code(),
    {
        match self {
            BlockId::Module => 8,
            BlockId::ParamAttr => 9,
            BlockId::ParamAttrGroup => 10,
            BlockId::Constants => 11,
            BlockId::Function => 12,
            BlockId::Identification => 13,
            BlockId::ValueSymbolTable => 14,
            BlockId::Metadata => 15,
            BlockId::MetadataAttachment => 16,
            BlockId::Type => 17,
            BlockId::UseList => 18,
            BlockId::ModuleStringTable => 19,
            BlockId::GlobalValSummary => 20,
            BlockId::OperandBundleTags => 21,
            BlockId::MetadataKind => 22,
            BlockId::StringTable => 23,
            BlockId::FullLtoGlobalValSummary => 24,
            BlockId::SymbolTable => 25,
            BlockId::SyncScopeNames => 26,
        }
    }

    /// The value that `code` stands for, if any.
    pub fn from_code(code: u64) -> (r: Option<Self>)
        ensures
            match r {
                Some(v) => v.spec_code() == code,
                None => forall|v: Self| v.spec_code() != code,
            },
    {
        match code {
            8 => Some(BlockId::Module),
            9 => Some(BlockId::ParamAttr),
            10 => Some(BlockId::ParamAttrGroup),
            11 => Some(BlockId::Constants),
            12 => Some(BlockId::Function),
            13 => Some(BlockId::Identification),
            14 => Some(BlockId::ValueSymbolTable),
            15 => Some(BlockId::Metadata),
            16 => Some(BlockId::MetadataAttachment),
            17 => Some(BlockId::Type),
            18 => Some(BlockId::UseList),
            19 => Some(BlockId::ModuleStringTable),
            20 => Some(BlockId::GlobalValSummary),
            21 => Some(BlockId::OperandBundleTags),
            22 => Some(BlockId::MetadataKind),
            23 => Some(BlockId::StringTable),
            24 => Some(BlockId::FullLtoGlobalValSummary),
            25 => Some(BlockId::SymbolTable),
            26 => Some(BlockId::SyncScopeNames),
            _ => None,
        }
    }
}

/// MODULE blocks have a number of optional fields and subblocks.
#[derive(Debug, Clone, Copy, PartialEq, Eq, Structural)]
pub enum ModuleCode {
    /// [version#]
    Version,
    /// [strchr x N]
    Triple,
    /// [strchr x N]
    DataLayout,
    /// [strchr x N]
    Asm,
    /// [strchr x N]
    SectionName,
    /// Deprecated, but still needed to read old bitcode files.
    /// [strchr x N]
    DepLib,
    /// GLOBALVAR: [pointer type, isconst, initid,
    ///             linkage, alignment, section, visibility, threadlocal]
    GlobalVar,
    /// FUNCTION:  [type, callingconv, isproto, linkage, paramattrs, alignment,
    ///             section, visibility, gc, unnamed_addr]
    Function,
    /// ALIAS: `[alias type, aliasee val#, linkage, visibility]`
    AliasOld,
    /// [strchr x N]
    GcName,
    /// [selection_kind, name]
    ComDat,
    /// [offset]
    VstOffset,
    /// ALIAS: `[alias value type, addrspace, aliasee val#, linkage, visibility]`
    Alias,
    MetadataValuesUnused,
    /// SOURCE_FILENAME: `[namechar x N]`
    SourceFileName,
    /// HASH: `[5 * i32]`
    Hash,
    /// IFUNC: `[ifunc value type, addrspace, resolver val#, linkage, visibility]`
    IFunc,
}

impl ModuleCode {
    /// The number that stands for the value in bitcode.
    pub open spec fn spec_code(self) -> u64 {
        match self {
            ModuleCode::Version => 1,
            ModuleCode::Triple => 2,
            ModuleCode::DataLayout => 3,
            ModuleCode::Asm => 4,
            ModuleCode::SectionName => 5,
            ModuleCode::DepLib => 6,
            ModuleCode::GlobalVar => 7,
            ModuleCode::Function => 8,
            ModuleCode::AliasOld => 9,
            ModuleCode::GcName => 11,
            ModuleCode::ComDat => 12,
            ModuleCode::VstOffset => 13,
            ModuleCode::Alias => 14,
            ModuleCode::MetadataValuesUnused => 15,
            ModuleCode::SourceFileName => 16,
            ModuleCode::Hash => 17,
            ModuleCode::IFunc => 18,
        }
    }

    /// The number that stands for the value in bitcode.
    #[verifier::when_used_as_spec(spec_code)]
    pub fn code(self) -> (r: u64)
        ensures
            r == self.spec_code(),
    {
        match self {
            ModuleCode::Version => 1,
            ModuleCode::Triple => 2,
            ModuleCode::DataLayout => 3,
            ModuleCode::Asm => 4,
            ModuleCode::SectionName => 5,
            ModuleCode::DepLib => 6,
            ModuleCode::GlobalVar => 7,
            ModuleCode::Function => 8,
            ModuleCode::AliasOld => 9,
            ModuleCode::GcName => 11,
            ModuleCode::ComDat => 12,
            ModuleCode::VstOffset => 13,
            ModuleCode::Alias => 14,
            ModuleCode::MetadataValuesUnused => 15,
            ModuleCode::SourceFileName => 16,
            ModuleCode::Hash => 17,
            ModuleCode::IFunc => 18,
        }
    }

    /// The value that `code` stands for, if any.
    pub fn from_code(code: u64) -> (r: Option<Self>)
        ensures
            match r {
                Some(v) => v.spec_code() == code,
                None => forall|v: Self| v.spec_code() != code,
            },
    {
        match code {
            1 => Some(ModuleCode::Version),
            2 => Some(ModuleCode::Triple),
            3 => Some(ModuleCode::DataLayout),
            4 => Some(ModuleCode::Asm),
            5 => Some(ModuleCode::SectionName),
            6 => Some(ModuleCode::DepLib),
            7 => Some(ModuleCode::GlobalVar),
            8 => Some(ModuleCode::Function),
            9 => Some(ModuleCode::AliasOld),
            11 => Some(ModuleCode::GcName),
            12 => Some(ModuleCode::ComDat),
            13 => Some(ModuleCode::VstOffset),
            14 => Some(ModuleCode::Alias),
            15 => Some(ModuleCode::MetadataValuesUnused),
            16 => Some(ModuleCode::SourceFileName),
            17 => Some(ModuleCode::Hash),
            18 => Some(ModuleCode::IFunc),
            _ => None,
        }
    }
}

} // verus!
