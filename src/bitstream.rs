use vstd::prelude::*;

verus! {

/// An operand that yields one value of a record: its code or one of its fields.
#[derive(Debug, Clone, Copy, PartialEq, Eq, Structural)]
pub enum ScalarOperand {
    /// A constant that is not on the wire.
    Literal(u64),
    /// A fixed-width field of the given number of bits.
    Fixed(u8),
    /// A VBR-encoded value with the given chunk width.
    Vbr(u8),
    /// A 6-bit character of `a-z`, `A-Z`, `0-9`, `.` and `_`.
    Char6,
}

/// The trailing variable-length operand of a record.
#[derive(Debug, Clone, Copy, PartialEq, Eq, Structural)]
pub enum PayloadOperand {
    /// A VBR6 byte count, 32-bit alignment, the bytes, and 32-bit alignment again.
    Blob,
    /// A VBR6 element count, then that many elements of the given operand.
    Array(ScalarOperand),
}

/// Any operand of an abbreviation.
#[derive(Debug, Clone, Copy, PartialEq, Eq, Structural)]
pub enum Operand {
    Scalar(ScalarOperand),
    Payload(PayloadOperand),
}

/// The encoding of a user-defined record: scalar operands, the first of which gives the
/// record code, then at most one payload operand.
#[derive(Debug, Clone)]
pub struct Abbreviation {
    /// The operands before the payload.
    pub fields: Vec<ScalarOperand>,
    /// The trailing array or blob, if any.
    pub payload: Option<PayloadOperand>,
    /// The index of the abbreviation in the table that holds it.
    pub id: u32,
}

impl Operand {
    pub fn is_payload(&self) -> (r: bool)
        ensures
            r == (*self is Payload),
    {
        matches!(self, Self::Payload(_))
    }

    pub fn is_literal(&self) -> (r: bool)
        ensures
            r == (*self is Scalar && self->Scalar_0 is Literal),
    {
        matches!(self, Self::Scalar(ScalarOperand::Literal(_)))
    }

    pub fn is_array(&self) -> (r: bool)
        ensures
            r == (*self is Payload && self->Payload_0 is Array),
    {
        matches!(self, Self::Payload(PayloadOperand::Array(_)))
    }

    pub fn is_blob(&self) -> (r: bool)
        ensures
            r == (*self is Payload && self->Payload_0 is Blob),
    {
        matches!(self, Self::Payload(PayloadOperand::Blob))
    }

    /// The kind number of the operand on the wire: literal 0, fixed 1, VBR 2, array 3,
    /// char6 4, blob 5.
    pub open spec fn spec_encoded_kind(&self) -> u8 {
        match self {
            Operand::Scalar(ScalarOperand::Literal(_)) => 0,
            Operand::Scalar(ScalarOperand::Fixed(_)) => 1,
            Operand::Scalar(ScalarOperand::Vbr(_)) => 2,
            Operand::Payload(PayloadOperand::Array(_)) => 3,
            Operand::Scalar(ScalarOperand::Char6) => 4,
            Operand::Payload(PayloadOperand::Blob) => 5,
        }
    }

    #[verifier::when_used_as_spec(spec_encoded_kind)]
    pub fn encoded_kind(&self) -> (r: u8)
        ensures
            r == self.spec_encoded_kind(),
    {
        match self {
            Self::Scalar(ScalarOperand::Literal(_)) => 0,
            Self::Scalar(ScalarOperand::Fixed(_)) => 1,
            Self::Scalar(ScalarOperand::Vbr(_)) => 2,
            Self::Payload(PayloadOperand::Array(_)) => 3,
            Self::Scalar(ScalarOperand::Char6) => 4,
            Self::Payload(PayloadOperand::Blob) => 5,
        }
    }
}

/// The character a 6-bit value stands for: 0 to 25 are `a` to `z`, 26 to 51 `A` to `Z`,
/// 52 to 61 `0` to `9`, 62 is `.` and 63 is `_`.
pub open spec fn char6_spec(v: u64) -> char {
    if v <= 25 {
        (v + 97) as char
    } else if v <= 51 {
        (v - 26 + 65) as char
    } else if v <= 61 {
        (v - 52 + 48) as char
    } else if v == 62 {
        '.'
    } else {
        '_'
    }
}

/// Decodes a 6-bit character.
pub fn char6_decode(v: u64) -> (c: char)
    requires
        v < 64,
    ensures
        c == char6_spec(v),
{
    let b: u8 = v as u8;
    if b <= 25 {
        (b + 97) as char
    } else if b <= 51 {
        (b - 26 + 65) as char
    } else if b <= 61 {
        (b - 52 + 48) as char
    } else if b == 62 {
        '.'
    } else {
        '_'
    }
}

/// The 64 six-bit values stand for 64 distinct characters, each a letter, a digit, `.`
/// or `_`.
pub proof fn lemma_char6_bijection()
    ensures
        forall|i: u64, j: u64|
            i < 64 && j < 64 && i != j ==> #[trigger] char6_spec(i) != #[trigger] char6_spec(j),
        forall|i: u64|
            i < 64 ==> ('a' <= #[trigger] char6_spec(i) <= 'z') || ('A' <= char6_spec(i) <= 'Z')
                || ('0' <= char6_spec(i) <= '9') || char6_spec(i) == '.' || char6_spec(i) == '_',
{
}

/// The records of a `BLOCKINFO` block.
#[derive(Debug, Clone, Copy, PartialEq, Eq, Structural)]
pub enum BlockInfoCode {
    /// Which block ID the following records describe.
    SetBid,
    /// The name of the block.
    BlockName,
    /// A record code and its name.
    SetRecordName,
}

impl BlockInfoCode {
    pub open spec fn spec_code(self) -> u64 {
        match self {
            BlockInfoCode::SetBid => 1,
            BlockInfoCode::BlockName => 2,
            BlockInfoCode::SetRecordName => 3,
        }
    }

    #[verifier::when_used_as_spec(spec_code)]
    pub fn code(self) -> (r: u64)
        ensures
            r == self.spec_code(),
    {
        match self {
            BlockInfoCode::SetBid => 1,
            BlockInfoCode::BlockName => 2,
            BlockInfoCode::SetRecordName => 3,
        }
    }

    pub fn from_code(code: u64) -> (r: Option<Self>)
        ensures
            match r {
                Some(c) => c.spec_code() == code,
                None => forall|c: Self| c.spec_code() != code,
            },
    {
        match code {
            1 => Some(BlockInfoCode::SetBid),
            2 => Some(BlockInfoCode::BlockName),
            3 => Some(BlockInfoCode::SetRecordName),
            _ => None,
        }
    }
}

/// The four abbreviation IDs that the format reserves for itself.
#[derive(Debug, Clone, Copy, PartialEq, Eq, Structural)]
pub enum BuiltinAbbreviationId {
    /// Ends the current block.
    EndBlock,
    /// Starts a nested block.
    EnterSubBlock,
    /// Defines an abbreviation.
    DefineAbbreviation,
    /// A record written without an abbreviation.
    UnabbreviatedRecord,
}

impl BuiltinAbbreviationId {
    pub open spec fn spec_code(self) -> u64 {
        match self {
            BuiltinAbbreviationId::EndBlock => 0,
            BuiltinAbbreviationId::EnterSubBlock => 1,
            BuiltinAbbreviationId::DefineAbbreviation => 2,
            BuiltinAbbreviationId::UnabbreviatedRecord => 3,
        }
    }

    #[verifier::when_used_as_spec(spec_code)]
    pub fn code(self) -> (r: u64)
        ensures
            r == self.spec_code(),
    {
        match self {
            BuiltinAbbreviationId::EndBlock => 0,
            BuiltinAbbreviationId::EnterSubBlock => 1,
            BuiltinAbbreviationId::DefineAbbreviation => 2,
            BuiltinAbbreviationId::UnabbreviatedRecord => 3,
        }
    }

    pub fn from_code(code: u64) -> (r: Option<Self>)
        ensures
            match r {
                Some(c) => c.spec_code() == code,
                None => forall|c: Self| c.spec_code() != code,
            },
    {
        match code {
            0 => Some(BuiltinAbbreviationId::EndBlock),
            1 => Some(BuiltinAbbreviationId::EnterSubBlock),
            2 => Some(BuiltinAbbreviationId::DefineAbbreviation),
            3 => Some(BuiltinAbbreviationId::UnabbreviatedRecord),
            _ => None,
        }
    }
}

} // verus!
