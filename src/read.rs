use std::collections::HashMap;
use vstd::prelude::*;

use crate::bitcode::{abbrev_record_spec, signature_spec, unabbrev_record_spec, BlockInfo, Record, RecordModel, Signature};
use crate::bits::{self, align32_spec, bits_of, read_spec, vbr_spec, Cursor};
use crate::bitstream::{Abbreviation, BlockInfoCode, BuiltinAbbreviationId, PayloadOperand, ScalarOperand};
use crate::visitor::{BitStreamVisitor, TOP_LEVEL_BLOCK_ID};

verus! {

broadcast use vstd::std_specs::hash::group_hash_axioms;

/// Bitstream reader errors.
#[derive(Debug, Clone, Copy, PartialEq, Eq, Structural)]
pub enum Error {
    /// The wrapper header is malformed, or the caller refused the signature.
    InvalidSignature(u32),
    /// An abbreviation definition breaks the rules on its operands.
    InvalidAbbrev,
    /// A block starts inside a `BLOCKINFO` block.
    NestedBlockInBlockInfo,
    /// A `BLOCKINFO` record needs a current block ID and none was set.
    MissingSetBid,
    /// An unknown or malformed `BLOCKINFO` record, with its code.
    InvalidBlockInfoRecord(u64),
    /// An abbreviation ID past the end of the block's table.
    NoSuchAbbrev { block_id: u64, abbrev_id: u64 },
    /// A block ran out before its END_BLOCK.
    MissingEndBlock(u64),
    /// A low-level cursor failure.
    ReadBits(bits::Error),
}

impl From<bits::Error> for Error {
    fn from(err: bits::Error) -> (r: Self)
        ensures
            r == Error::ReadBits(err),
    {
        Error::ReadBits(err)
    }
}

impl vstd::std_specs::convert::FromSpecImpl<bits::Error> for Error {
    open spec fn obeys_from_spec() -> bool {
        true
    }

    open spec fn from_spec(err: bits::Error) -> Self {
        Error::ReadBits(err)
    }
}

/// A cursor outcome with its error carried over.
pub open spec fn lift<T>(r: Result<T, bits::Error>) -> Result<T, Error> {
    match r {
        Ok(x) => Ok(x),
        Err(e) => Err(Error::ReadBits(e)),
    }
}

/// One operand encoding of an abbreviation definition, before its place is checked.
#[derive(Debug, Clone, Copy, PartialEq, Eq, Structural)]
pub enum OperandHead {
    /// A literal, fixed, VBR or char6 operand.
    Scalar(ScalarOperand),
    /// An array marker, whose element operand follows.
    Array,
    /// A blob operand.
    Blob,
    /// An unknown kind, or a fixed or VBR width outside 1 to 32.
    Invalid,
}

/// Reading one operand encoding at `pos`: a 1 bit and a VBR8 literal value, or a 0 bit
/// and a 3-bit kind (1 fixed, 2 VBR, 3 array, 4 char6, 5 blob), kinds 1 and 2 followed by a
/// VBR5 width.
pub open spec fn op_head_spec(bits: Seq<bool>, pos: int) -> Result<(OperandHead, int), Error> {
    match read_spec(bits, pos, 1) {
        Err(e) => Err(Error::ReadBits(e)),
        Ok((lit, p)) => if lit == 1 {
            match vbr_spec(bits, p, 8) {
                Err(e) => Err(Error::ReadBits(e)),
                Ok((v, q)) => Ok((OperandHead::Scalar(ScalarOperand::Literal(v)), q)),
            }
        } else {
            match read_spec(bits, p, 3) {
                Err(e) => Err(Error::ReadBits(e)),
                Ok((k, q)) => if k == 1 || k == 2 {
                    match vbr_spec(bits, q, 5) {
                        Err(e) => Err(Error::ReadBits(e)),
                        Ok((w, r)) => if w < 1 || w > 32 {
                            Ok((OperandHead::Invalid, r))
                        } else if k == 1 {
                            Ok((OperandHead::Scalar(ScalarOperand::Fixed(w as u8)), r))
                        } else {
                            Ok((OperandHead::Scalar(ScalarOperand::Vbr(w as u8)), r))
                        },
                    }
                } else if k == 3 {
                    Ok((OperandHead::Array, q))
                } else if k == 4 {
                    Ok((OperandHead::Scalar(ScalarOperand::Char6), q))
                } else if k == 5 {
                    Ok((OperandHead::Blob, q))
                } else {
                    Ok((OperandHead::Invalid, q))
                },
            }
        },
    }
}

/// Reading the `left` remaining operands of an abbreviation, the scalars appended to
/// `fields`. An array must be the second to last operand and be followed by its scalar
/// element; a blob must be the last.
pub open spec fn abbrev_ops_spec(bits: Seq<bool>, pos: int, left: nat, fields: Seq<ScalarOperand>) -> Result<
    (Seq<ScalarOperand>, Option<PayloadOperand>, int),
    Error,
>
    decreases left,
{
    if left == 0 {
        Ok((fields, None, pos))
    } else {
        match op_head_spec(bits, pos) {
            Err(e) => Err(e),
            Ok((h, p)) => match h {
                OperandHead::Scalar(sc) => abbrev_ops_spec(bits, p, (left - 1) as nat, fields.push(sc)),
                OperandHead::Array => if left == 2 {
                    match op_head_spec(bits, p) {
                        Err(e) => Err(e),
                        Ok((OperandHead::Scalar(el), q)) => Ok((fields, Some(PayloadOperand::Array(el)), q)),
                        Ok(_) => Err(Error::InvalidAbbrev),
                    }
                } else {
                    Err(Error::InvalidAbbrev)
                },
                OperandHead::Blob => if left == 1 {
                    Ok((fields, Some(PayloadOperand::Blob), p))
                } else {
                    Err(Error::InvalidAbbrev)
                },
                OperandHead::Invalid => Err(Error::InvalidAbbrev),
            },
        }
    }
}

/// Reading an abbreviation definition: a VBR5 operand count of at least 1, then the operands.
pub open spec fn define_abbrev_spec(bits: Seq<bool>, pos: int) -> Result<
    (Seq<ScalarOperand>, Option<PayloadOperand>, int),
    Error,
> {
    match vbr_spec(bits, pos, 5) {
        Err(e) => Err(Error::ReadBits(e)),
        Ok((n, p)) => if n == 0 {
            Err(Error::InvalidAbbrev)
        } else {
            abbrev_ops_spec(bits, p, n as nat, seq![])
        },
    }
}

/// Reading the header of a nested block after its ENTER_SUB_BLOCK ID: a VBR8 block ID, a
/// VBR4 abbreviation width, 32-bit alignment and a 32-bit word count. Gives the ID, the
/// width, the position after the header and the word count.
pub open spec fn sub_block_header_spec(bits: Seq<bool>, pos: int) -> Result<(u64, u64, int, u64), Error> {
    match vbr_spec(bits, pos, 8) {
        Err(e) => Err(Error::ReadBits(e)),
        Ok((id, p1)) => match vbr_spec(bits, p1, 4) {
            Err(e) => Err(Error::ReadBits(e)),
            Ok((w, p2)) => if align32_spec(p2) > bits.len() {
                Err(Error::ReadBits(bits::Error::BufferOverflow))
            } else {
                match read_spec(bits, align32_spec(p2), 32) {
                    Err(e) => Err(Error::ReadBits(e)),
                    Ok((words, p3)) => Ok((id, w, p3, words)),
                }
            },
        },
    }
}

/// The abbreviation that wire ID `abbrev_id` names in a block: the global abbreviations of
/// the block's ID come first, then those defined so far in the block itself, from ID 4 on.
pub open spec fn abbrev_for(globals: Seq<Abbreviation>, locals: Seq<Abbreviation>, abbrev_id: u64) -> Option<Abbreviation> {
    if 4 <= abbrev_id && abbrev_id - 4 < globals.len() + locals.len() {
        Some((globals + locals)[abbrev_id - 4])
    } else {
        None
    }
}

/// Finds the abbreviation that wire ID `abbrev_id` (4 or more) names, globals first.
pub fn lookup_abbrev<'a>(globals: &'a [Abbreviation], locals: &'a [Abbreviation], abbrev_id: u64) -> (r: Option<&'a Abbreviation>)
    requires
        abbrev_id >= 4,
    ensures
        match abbrev_for(globals@, locals@, abbrev_id) {
            Some(a) => r is Some && *r.unwrap() == a,
            None => r is None,
        },
{
    let index = abbrev_id - 4;
    if index < globals.len() as u64 {
        Some(&globals[index as usize])
    } else if index - (globals.len() as u64) < locals.len() as u64 {
        Some(&locals[(index - globals.len() as u64) as usize])
    } else {
        None
    }
}

/// The byte a field stands for in a name; a value above 255 stands for a byte that is never
/// valid UTF-8.
pub open spec fn name_byte(x: u64) -> u8 {
    if x <= 255 {
        x as u8
    } else {
        0xFF
    }
}

/// What `String::from_utf8_lossy` makes of a byte sequence.
pub uninterp spec fn utf8_lossy(b: Seq<u8>) -> Seq<char>;

/// Relies on `String::from_utf8_lossy`: the bytes decoded as UTF-8, each invalid sequence
/// replaced by U+FFFD; ASCII bytes, being valid UTF-8, stand for themselves.
#[verifier::external_body]
fn decode_utf8_lossy(b: &[u8]) -> (r: String)
    ensures
        r@ == utf8_lossy(b@),
        (forall|i: int| 0 <= i < b@.len() ==> b@[i] < 128) ==> r@ == b@.map_values(|x: u8| x as char),
{
    String::from_utf8_lossy(b).into_owned()
}

/// The name that the fields of a `BLOCKINFO` record spell from `start` on.
pub fn name_from_fields(fields: &[u64], start: usize) -> (r: String)
    requires
        start <= fields@.len(),
    ensures
        r@ == utf8_lossy(fields@.skip(start as int).map_values(|x: u64| name_byte(x))),
        (forall|i: int| start <= i < fields@.len() ==> fields@[i] < 128) ==> r@ == fields@.skip(
            start as int,
        ).map_values(|x: u64| x as char),
{
    let mut bytes: Vec<u8> = Vec::new();
    let mut i: usize = start;
    while i < fields.len()
        invariant
            start <= i <= fields@.len(),
            bytes@ =~= fields@.subrange(start as int, i as int).map_values(|x: u64| name_byte(x)),
        decreases fields@.len() - i,
    {
        let x = fields[i];
        bytes.push(if x <= 255 { x as u8 } else { 0xFF });
        i = i + 1;
        assert(fields@.subrange(start as int, i as int) =~= fields@.subrange(start as int, i - 1).push(x));
    }
    assert(fields@.subrange(start as int, i as int) =~= fields@.skip(start as int));
    let r = decode_utf8_lossy(bytes.as_slice());
    proof {
        if forall|i: int| start <= i < fields@.len() ==> fields@[i] < 128 {
            assert forall|k: int| 0 <= k < bytes@.len() implies bytes@[k] < 128 by {
                assert(fields@[start + k] < 128);
            }
            assert(bytes@.map_values(|x: u8| x as char) =~= fields@.skip(start as int).map_values(
                |x: u64| x as char,
            ));
        }
    }
    r
}

/// What a name table entry holds: the block's name and the names of its record codes.
pub open spec fn info_model(bi: BlockInfo) -> (Seq<char>, Map<u64, Seq<char>>) {
    (bi.name@, bi.record_names@.map_values(|s: String| s@))
}

/// What a name table holds, by block ID.
pub open spec fn names_model(m: Map<u64, BlockInfo>) -> Map<u64, (Seq<char>, Map<u64, Seq<char>>)> {
    m.map_values(|bi: BlockInfo| info_model(bi))
}

/// The entry of block `b` in a name table model; empty names if it has none.
pub open spec fn entry_of(names: Map<u64, (Seq<char>, Map<u64, Seq<char>>)>, b: u64) -> (Seq<char>, Map<u64, Seq<char>>) {
    if names.contains_key(b) {
        names[b]
    } else {
        (Seq::empty(), Map::empty())
    }
}

/// The effect of an unabbreviated `BLOCKINFO` record with code `code` and fields `f` on
/// the selected block ID `cur` and the name table `names`. `SetBid` (code 1, one field)
/// selects a block ID; `BlockName` (code 2) names the selected block; `SetRecordName`
/// (code 3) names the record code in its first field with the rest.
pub open spec fn info_record_spec(
    cur: Option<u64>,
    names: Map<u64, (Seq<char>, Map<u64, Seq<char>>)>,
    code: u64,
    f: Seq<u64>,
) -> Result<(Option<u64>, Map<u64, (Seq<char>, Map<u64, Seq<char>>)>), Error> {
    if code == 1 {
        if f.len() == 1 {
            Ok((Some(f[0]), names))
        } else {
            Err(Error::InvalidBlockInfoRecord(code))
        }
    } else if code == 2 || code == 3 {
        match cur {
            None => Err(Error::MissingSetBid),
            Some(b) => {
                let (name, rn) = entry_of(names, b);
                if code == 2 {
                    Ok((cur, names.insert(b, (utf8_lossy(f.map_values(|x: u64| name_byte(x))), rn))))
                } else if f.len() == 0 {
                    Err(Error::InvalidBlockInfoRecord(code))
                } else {
                    Ok(
                        (
                            cur,
                            names.insert(
                                b,
                                (name, rn.insert(f[0], utf8_lossy(f.skip(1).map_values(|x: u64| name_byte(x))))),
                            ),
                        ),
                    )
                }
            },
        }
    } else {
        Err(Error::InvalidBlockInfoRecord(code))
    }
}

/// An abbreviation as a `BLOCKINFO` block records it: its scalar operands and its payload.
pub open spec fn shape_of(a: Abbreviation) -> (Seq<ScalarOperand>, Option<PayloadOperand>) {
    (a.fields@, a.payload)
}

/// The state a `BLOCKINFO` block reads and changes.
pub struct InfoState {
    /// The block ID that `SetBid` selected last.
    pub current: Option<u64>,
    /// The name table model.
    pub names: Map<u64, (Seq<char>, Map<u64, Seq<char>>)>,
    /// The global abbreviations, by block ID.
    pub globals: Map<u64, Seq<(Seq<ScalarOperand>, Option<PayloadOperand>)>>,
}

/// `globals` with `shape` appended to the list of block `b`.
pub open spec fn globals_push(
    globals: Map<u64, Seq<(Seq<ScalarOperand>, Option<PayloadOperand>)>>,
    b: u64,
    shape: (Seq<ScalarOperand>, Option<PayloadOperand>),
) -> Map<u64, Seq<(Seq<ScalarOperand>, Option<PayloadOperand>)>> {
    let list = if globals.contains_key(b) {
        globals[b]
    } else {
        Seq::empty()
    };
    globals.insert(b, list.push(shape))
}

/// Reading the rest of a `BLOCKINFO` block from `pos`, with abbreviation IDs `width` bits
/// wide, in state `st`: the state at its END_BLOCK and the position after the 32-bit
/// alignment that follows. DEFINE_ABBREVIATION appends to the global list of the selected
/// block ID; unabbreviated records act as `info_record_spec` says; a nested block or an
/// abbreviated record is an error. An error comes with the state reached before the entry
/// that failed.
#[verifier::opaque]
pub open spec fn block_info_spec(bits: Seq<bool>, pos: int, width: nat, st: InfoState) -> Result<
    (InfoState, int),
    (Error, InfoState),
>
    decreases (if pos <= bits.len() {
        bits.len() - pos
    } else {
        0
    }) via block_info_spec_decreases
{
    match read_spec(bits, pos, width) {
        Err(e) => Err((Error::ReadBits(e), st)),
        Ok((id, p)) => if id == 0 {
            if align32_spec(p) > bits.len() {
                Err((Error::ReadBits(bits::Error::BufferOverflow), st))
            } else {
                Ok((st, align32_spec(p)))
            }
        } else if id == 1 {
            Err((Error::NestedBlockInBlockInfo, st))
        } else if id == 2 {
            match st.current {
                None => Err((Error::MissingSetBid, st)),
                Some(b) => match define_abbrev_spec(bits, p) {
                    Err(e) => Err((e, st)),
                    Ok((fs, pl, q)) => block_info_spec(
                        bits,
                        q,
                        width,
                        InfoState { globals: globals_push(st.globals, b, (fs, pl)), ..st },
                    ),
                },
            }
        } else if id == 3 {
            match unabbrev_record_spec(bits, p) {
                Err(e) => Err((e, st)),
                Ok((rec, q)) => match info_record_spec(st.current, st.names, rec.id, rec.fields) {
                    Err(e) => Err((e, st)),
                    Ok((c, n)) => block_info_spec(bits, q, width, InfoState { current: c, names: n, ..st }),
                },
            }
        } else {
            Err((Error::NoSuchAbbrev { block_id: 0, abbrev_id: id }, st))
        },
    }
}

#[via_fn]
proof fn block_info_spec_decreases(bits: Seq<bool>, pos: int, width: nat, st: InfoState) {
    match read_spec(bits, pos, width) {
        Ok((id, p)) => {
            lemma_define_abbrev_advances(bits, p);
            crate::bitcode::lemma_unabbrev_advances(bits, p);
        },
        Err(_) => {},
    }
}

proof fn lemma_op_head_advances(bits: Seq<bool>, pos: int)
    ensures
        op_head_spec(bits, pos) matches Ok((_, p)) ==> p >= pos,
{
}

proof fn lemma_abbrev_ops_advances(bits: Seq<bool>, pos: int, left: nat, fields: Seq<ScalarOperand>)
    ensures
        abbrev_ops_spec(bits, pos, left, fields) matches Ok((_, _, p)) ==> p >= pos,
    decreases left,
{
    if left > 0 {
        lemma_op_head_advances(bits, pos);
        match op_head_spec(bits, pos) {
            Ok((h, p)) => {
                lemma_op_head_advances(bits, p);
                if let OperandHead::Scalar(sc) = h {
                    lemma_abbrev_ops_advances(bits, p, (left - 1) as nat, fields.push(sc));
                }
            },
            Err(_) => {},
        }
    }
}

proof fn lemma_define_abbrev_advances(bits: Seq<bool>, pos: int)
    ensures
        define_abbrev_spec(bits, pos) matches Ok((_, _, p)) ==> p >= pos,
{
    match vbr_spec(bits, pos, 5) {
        Ok((n, p)) => lemma_abbrev_ops_advances(bits, p, n as nat, seq![]),
        Err(_) => {},
    }
}

/// The global abbreviation list of block `b`, empty if it has none.
pub open spec fn globals_of(
    globals: Map<u64, Seq<(Seq<ScalarOperand>, Option<PayloadOperand>)>>,
    b: u64,
) -> Seq<(Seq<ScalarOperand>, Option<PayloadOperand>)> {
    if globals.contains_key(b) {
        globals[b]
    } else {
        Seq::empty()
    }
}

/// The operands of each abbreviation of a list.
pub open spec fn shapes(v: Seq<Abbreviation>) -> Seq<(Seq<ScalarOperand>, Option<PayloadOperand>)> {
    v.map_values(|a: Abbreviation| shape_of(a))
}

/// The abbreviation that wire ID `id` names: globals first, then locals, from ID 4 on.
pub open spec fn shape_for(
    globals: Seq<(Seq<ScalarOperand>, Option<PayloadOperand>)>,
    locals: Seq<(Seq<ScalarOperand>, Option<PayloadOperand>)>,
    id: u64,
) -> Option<(Seq<ScalarOperand>, Option<PayloadOperand>)> {
    if 4 <= id && id - 4 < globals.len() + locals.len() {
        Some((globals + locals)[id - 4])
    } else {
        None
    }
}

proof fn lemma_shape_for(globals: Seq<Abbreviation>, locals: Seq<Abbreviation>, id: u64)
    ensures
        match abbrev_for(globals, locals, id) {
            Some(a) => shape_for(shapes(globals), shapes(locals), id) == Some(shape_of(a)),
            None => shape_for(shapes(globals), shapes(locals), id) is None,
        },
{
    assert(shapes(globals + locals) =~= shapes(globals) + shapes(locals));
}

/// What one entry of a block comes to.
pub enum EntryModel {
    /// END_BLOCK, with the position after the 32-bit alignment that follows it.
    End(int),
    /// ENTER_SUB_BLOCK, with the position of the nested block's header.
    Sub(int),
    /// DEFINE_ABBREVIATION, with the operands defined and the position after them.
    Define((Seq<ScalarOperand>, Option<PayloadOperand>), int),
    /// A record and the position after it.
    Rec(RecordModel, int),
    /// A failure.
    Fail(Error),
}

/// Reading one entry at `pos` of a block whose ID is `block_id` and whose abbreviation IDs
/// are `width` bits wide, `globals` and `locals` being the block's abbreviations. ID 0 is
/// END_BLOCK, 1 ENTER_SUB_BLOCK, 2 DEFINE_ABBREVIATION and 3 an unabbreviated record; an ID
/// from 4 on names an abbreviation, the global ones first and then the local ones, and is
/// `NoSuchAbbrev` past their end.
#[verifier::opaque]
pub open spec fn entry_spec(
    bytes: Seq<u8>,
    pos: int,
    block_id: u64,
    width: nat,
    globals: Seq<(Seq<ScalarOperand>, Option<PayloadOperand>)>,
    locals: Seq<(Seq<ScalarOperand>, Option<PayloadOperand>)>,
) -> EntryModel {
    let bits = bits_of(bytes);
    match read_spec(bits, pos, width) {
        Err(e) => EntryModel::Fail(Error::ReadBits(e)),
        Ok((id, p)) => if id == 0 {
            if align32_spec(p) > bits.len() {
                EntryModel::Fail(Error::ReadBits(bits::Error::BufferOverflow))
            } else {
                EntryModel::End(align32_spec(p))
            }
        } else if id == 1 {
            EntryModel::Sub(p)
        } else if id == 2 {
            match define_abbrev_spec(bits, p) {
                Err(e) => EntryModel::Fail(e),
                Ok((fs, pl, q)) => EntryModel::Define((fs, pl), q),
            }
        } else if id == 3 {
            match unabbrev_record_spec(bits, p) {
                Err(e) => EntryModel::Fail(e),
                Ok((rec, q)) => EntryModel::Rec(rec, q),
            }
        } else {
            match shape_for(globals, locals, id) {
                None => EntryModel::Fail(Error::NoSuchAbbrev { block_id, abbrev_id: id }),
                Some((fs, pl)) => match abbrev_record_spec(bytes, p, fs, pl) {
                    Err(e) => EntryModel::Fail(e),
                    Ok((rec, q)) => EntryModel::Rec(rec, q),
                },
            }
        },
    }
}

proof fn lemma_entry_advances(
    bytes: Seq<u8>,
    pos: int,
    block_id: u64,
    width: nat,
    globals: Seq<(Seq<ScalarOperand>, Option<PayloadOperand>)>,
    locals: Seq<(Seq<ScalarOperand>, Option<PayloadOperand>)>,
)
    ensures
        match entry_spec(bytes, pos, block_id, width, globals, locals) {
            EntryModel::End(p) => p > pos,
            EntryModel::Sub(p) => p > pos,
            EntryModel::Define(_, q) => q > pos,
            EntryModel::Rec(_, q) => q > pos,
            EntryModel::Fail(_) => true,
        },
{
    reveal(entry_spec);
    let bits = bits_of(bytes);
    if let Ok((id, p)) = read_spec(bits, pos, width) {
        lemma_define_abbrev_advances(bits, p);
        crate::bitcode::lemma_unabbrev_advances(bits, p);
        if let Some((fs, pl)) = shape_for(globals, locals, id) {
            crate::bitcode::lemma_abbrev_record_advances(bytes, p, fs, pl);
        }
    }
}

proof fn lemma_sub_block_header_advances(bits: Seq<bool>, pos: int)
    ensures
        sub_block_header_spec(bits, pos) matches Ok((_, _, h, _)) ==> h >= pos + 32,
{
}

/// The tables a block's reading can change: global abbreviations and names.
pub struct RunState {
    pub globals: Map<u64, Seq<(Seq<ScalarOperand>, Option<PayloadOperand>)>>,
    pub names: Map<u64, (Seq<char>, Map<u64, Seq<char>>)>,
}

/// A call the reader makes on its visitor.
pub enum VisitorCall {
    /// `should_enter_block` with the block ID.
    ShouldEnter(u64),
    /// `did_exit_block` with the block ID.
    DidExit(u64),
    /// `visit` with the enclosing block ID and the record.
    Visit(u64, RecordModel),
    /// `validate` with the signature, and the visitor's answer.
    Validate(Signature, bool),
}

/// `w` with the calls `cs` made before it.
pub open spec fn prepend(
    cs: Seq<VisitorCall>,
    w: (Seq<VisitorCall>, Result<(int, RunState), Error>, int),
) -> (Seq<VisitorCall>, Result<(int, RunState), Error>, int) {
    (cs + w.0, w.1, w.2)
}

/// Reading the entries of a block from `pos` in `bytes`, up to its END_BLOCK or, at the
/// top level, to the end of the bytes; `answers[ai..]` are the visitor's answers to
/// `should_enter_block`, in order. Gives the calls made on the visitor, in order; the
/// position after the block and the tables, or the error; and the index of the first
/// answer not used. Each record is visited with the block's ID; END_BLOCK is reported with
/// `did_exit_block`. Running out of bytes inside a block is `MissingEndBlock`. A nested
/// block with ID 0 is read as `BLOCKINFO`, without calls; another is announced with
/// `should_enter_block`, then read from exactly its declared bytes if the answer is yes,
/// and skipped if no. Either way the reading goes on right after those bytes.
pub open spec fn walk(
    bytes: Seq<u8>,
    pos: int,
    block_id: u64,
    width: nat,
    locals: Seq<(Seq<ScalarOperand>, Option<PayloadOperand>)>,
    st: RunState,
    answers: Seq<bool>,
    ai: int,
) -> (Seq<VisitorCall>, Result<(int, RunState), Error>, int)
    decreases bytes.len(), (if 0 <= pos <= 8 * bytes.len() {
        8 * bytes.len() - pos
    } else {
        0
    }) via walk_decreases
{
    let bits = bits_of(bytes);
    if pos < 0 {
        (seq![], Err(Error::ReadBits(bits::Error::BufferOverflow)), ai)
    } else if pos >= bits.len() {
        if block_id != TOP_LEVEL_BLOCK_ID {
            (seq![], Err(Error::MissingEndBlock(block_id)), ai)
        } else {
            (seq![], Ok((pos, st)), ai)
        }
    } else {
        match entry_spec(bytes, pos, block_id, width, globals_of(st.globals, block_id), locals) {
            EntryModel::Fail(e) => (seq![], Err(e), ai),
            EntryModel::End(p) => (seq![VisitorCall::DidExit(block_id)], Ok((p, st)), ai),
            EntryModel::Define(shape, q) => walk(bytes, q, block_id, width, locals.push(shape), st, answers, ai),
            EntryModel::Rec(rec, q) => prepend(
                seq![VisitorCall::Visit(block_id, rec)],
                walk(bytes, q, block_id, width, locals, st, answers, ai),
            ),
            EntryModel::Sub(p) => match sub_block_header_spec(bits, p) {
                Err(e) => (seq![], Err(e), ai),
                Ok((sid, sw, h, words)) => if h / 8 + 4 * words > bytes.len() {
                    (seq![], Err(Error::ReadBits(bits::Error::BufferOverflow)), ai)
                } else {
                    let sub = bytes.subrange(h / 8, h / 8 + 4 * words);
                    let next = h + 32 * words;
                    if sid == 0 {
                        match block_info_spec(
                            bits_of(sub),
                            0,
                            sw as nat,
                            InfoState { current: None, names: st.names, globals: st.globals },
                        ) {
                            Err((e, _)) => (seq![], Err(e), ai),
                            Ok((ist, _)) => walk(
                                bytes,
                                next,
                                block_id,
                                width,
                                locals,
                                RunState { globals: ist.globals, names: ist.names },
                                answers,
                                ai,
                            ),
                        }
                    } else if !(0 <= ai < answers.len() && answers[ai]) {
                        prepend(
                            seq![VisitorCall::ShouldEnter(sid)],
                            walk(bytes, next, block_id, width, locals, st, answers, ai + 1),
                        )
                    } else {
                        let (calls, inner, ae) = walk(sub, 0, sid, sw as nat, seq![], st, answers, ai + 1);
                        match inner {
                            Err(e) => (seq![VisitorCall::ShouldEnter(sid)] + calls, Err(e), ae),
                            Ok((_, st2)) => prepend(
                                seq![VisitorCall::ShouldEnter(sid)] + calls,
                                walk(bytes, next, block_id, width, locals, st2, answers, ae),
                            ),
                        }
                    }
                },
            },
        }
    }
}

#[via_fn]
proof fn walk_decreases(
    bytes: Seq<u8>,
    pos: int,
    block_id: u64,
    width: nat,
    locals: Seq<(Seq<ScalarOperand>, Option<PayloadOperand>)>,
    st: RunState,
    answers: Seq<bool>,
    ai: int,
) {
    lemma_entry_advances(bytes, pos, block_id, width, globals_of(st.globals, block_id), locals);
    if let EntryModel::Sub(p) = entry_spec(bytes, pos, block_id, width, globals_of(st.globals, block_id), locals) {
        lemma_sub_block_header_advances(bits_of(bytes), p);
    }
}

/// An abbreviation ID `k` from 4 on, read at `pos`, names the `(k - 4)`-th abbreviation of
/// the block's global list followed by its local list: the record is read with it, and an
/// ID past the end of both lists is `NoSuchAbbrev` with the block's ID.
pub proof fn lemma_abbrev_id_mapping(
    bytes: Seq<u8>,
    pos: int,
    block_id: u64,
    width: nat,
    globals: Seq<(Seq<ScalarOperand>, Option<PayloadOperand>)>,
    locals: Seq<(Seq<ScalarOperand>, Option<PayloadOperand>)>,
)
    ensures
        match read_spec(bits_of(bytes), pos, width) {
            Ok((k, p)) => k >= 4 ==> {
                let e = entry_spec(bytes, pos, block_id, width, globals, locals);
                if k - 4 < globals.len() + locals.len() {
                    let (fs, pl) = (globals + locals)[k - 4];
                    match abbrev_record_spec(bytes, p, fs, pl) {
                        Ok((rec, q)) => e == EntryModel::Rec(rec, q),
                        Err(err) => e == EntryModel::Fail(err),
                    }
                } else {
                    e == EntryModel::Fail(Error::NoSuchAbbrev { block_id, abbrev_id: k })
                }
            },
            Err(_) => true,
        },
{
    reveal(entry_spec);
}

/// A nested block other than `BLOCKINFO`, whose header ends at `h` and declares `words`
/// 32-bit words, is announced to the visitor. Skipped, or entered and read without error,
/// the enclosing block goes on at `h + 32 * words` either way. Entered, it is read from
/// exactly its declared bytes and nothing else, as a block of its own that fails with
/// `MissingEndBlock` if those bytes end before its END_BLOCK (its ID not being the one
/// reserved for the top level).
pub proof fn lemma_nested_block(
    bytes: Seq<u8>,
    pos: int,
    block_id: u64,
    width: nat,
    locals: Seq<(Seq<ScalarOperand>, Option<PayloadOperand>)>,
    st: RunState,
    answers: Seq<bool>,
    ai: int,
)
    requires
        0 <= pos < 8 * bytes.len(),
        entry_spec(bytes, pos, block_id, width, globals_of(st.globals, block_id), locals) is Sub,
        sub_block_header_spec(
            bits_of(bytes),
            entry_spec(bytes, pos, block_id, width, globals_of(st.globals, block_id), locals)->Sub_0,
        ) matches Ok((sid, _, h, words)) && sid != 0 && h / 8 + 4 * words <= bytes.len(),
    ensures
        ({
            let p = entry_spec(bytes, pos, block_id, width, globals_of(st.globals, block_id), locals)->Sub_0;
            let (sid, sw, h, words) = sub_block_header_spec(bits_of(bytes), p).unwrap();
            let sub = bytes.subrange(h / 8, h / 8 + 4 * words);
            let next = h + 32 * words;
            let w = walk(bytes, pos, block_id, width, locals, st, answers, ai);
            &&& !(0 <= ai < answers.len() && answers[ai]) ==> w == prepend(
                seq![VisitorCall::ShouldEnter(sid)],
                walk(bytes, next, block_id, width, locals, st, answers, ai + 1),
            )
            &&& (0 <= ai < answers.len() && answers[ai]) ==> {
                let (calls, inner, ae) = walk(sub, 0, sid, sw as nat, seq![], st, answers, ai + 1);
                match inner {
                    Err(e) => w == (seq![VisitorCall::ShouldEnter(sid)] + calls, Err::<(int, RunState), Error>(e), ae),
                    Ok((_, st2)) => w == prepend(
                        seq![VisitorCall::ShouldEnter(sid)] + calls,
                        walk(bytes, next, block_id, width, locals, st2, answers, ae),
                    ),
                }
            }
            &&& sid != TOP_LEVEL_BLOCK_ID ==> walk(sub, (8 * sub.len()) as int, sid, sw as nat, locals, st, answers, ai).1 == Err::<
                (int, RunState),
                Error,
            >(Error::MissingEndBlock(sid))
        }),
{
    reveal_with_fuel(walk, 1);
    let p = entry_spec(bytes, pos, block_id, width, globals_of(st.globals, block_id), locals)->Sub_0;
    let (sid, sw, h, words) = sub_block_header_spec(bits_of(bytes), p).unwrap();
    let sub = bytes.subrange(h / 8, h / 8 + 4 * words);
    assert(bits_of(sub).len() == 8 * sub.len());
}

/// For a visitor that tracks its calls: `after` is `before` having received the calls
/// `calls`, and, if `before` enters every block, each of `answers` is yes.
pub open spec fn tracked_by<V: BitStreamVisitor>(before: V, after: V, calls: Seq<VisitorCall>, answers: Seq<bool>) -> bool {
    before.tracks() ==> {
        &&& after.tracks()
        &&& after.enters_all() == before.enters_all()
        &&& after.log() == before.log() + calls
        &&& before.enters_all() ==> forall|i: int| 0 <= i < answers.len() ==> answers[i]
    }
}

proof fn lemma_tracked_refl<V: BitStreamVisitor>(v: V)
    ensures
        tracked_by(v, v, seq![], seq![]),
{
    assert(v.log() + Seq::<VisitorCall>::empty() =~= v.log());
}

proof fn lemma_tracked_trans<V: BitStreamVisitor>(
    a: V,
    b: V,
    c: V,
    c1: Seq<VisitorCall>,
    c2: Seq<VisitorCall>,
    a1: Seq<bool>,
    a2: Seq<bool>,
)
    requires
        tracked_by(a, b, c1, a1),
        tracked_by(b, c, c2, a2),
    ensures
        tracked_by(a, c, c1 + c2, a1 + a2),
{
    if a.tracks() {
        assert(a.log() + (c1 + c2) =~= (a.log() + c1) + c2);
        if a.enters_all() {
            assert forall|i: int| 0 <= i < (a1 + a2).len() implies (a1 + a2)[i] by {
                if i >= a1.len() {
                    assert((a1 + a2)[i] == a2[i - a1.len()]);
                }
            }
        }
    }
}

proof fn lemma_skip_join<T>(s: Seq<T>, i: int, j: int)
    requires
        0 <= i <= j <= s.len(),
    ensures
        s.skip(i) == s.subrange(i, j) + s.skip(j),
{
    assert(s.skip(i) =~= s.subrange(i, j) + s.skip(j));
}

/// `s` starts with `prefix`.
pub open spec fn begins_with<T>(s: Seq<T>, prefix: Seq<T>) -> bool {
    s.len() >= prefix.len() && s.take(prefix.len() as int) == prefix
}

pub proof fn lemma_begins_with_refl<T>(s: Seq<T>)
    ensures
        begins_with(s, s),
{
    assert(s.take(s.len() as int) =~= s);
}

pub proof fn lemma_begins_with_trans<T>(a: Seq<T>, b: Seq<T>, c: Seq<T>)
    requires
        begins_with(a, b),
        begins_with(b, c),
    ensures
        begins_with(a, c),
{
    assert(a.take(c.len() as int) =~= a.take(b.len() as int).take(c.len() as int));
}

/// A reading came to `w`: the visitor calls `calls`, the result `r`, and on success the
/// position `pos` and the tables `st`; `ae` answers were used up by then.
pub open spec fn walk_agrees(
    w: (Seq<VisitorCall>, Result<(int, RunState), Error>, int),
    calls: Seq<VisitorCall>,
    r: Result<(), Error>,
    pos: int,
    st: RunState,
    ae: int,
) -> bool {
    &&& w.0 == calls
    &&& w.2 == ae
    &&& match w.1 {
        Ok((p, s)) => r is Ok && pos == p && st == s,
        Err(e) => r == Err::<(), Error>(e),
    }
}

proof fn lemma_prepend_empty(w: (Seq<VisitorCall>, Result<(int, RunState), Error>, int))
    ensures
        prepend(seq![], w) == w,
{
    assert(Seq::<VisitorCall>::empty() + w.0 =~= w.0);
}

proof fn lemma_prepend_assoc(
    x: Seq<VisitorCall>,
    y: Seq<VisitorCall>,
    w: (Seq<VisitorCall>, Result<(int, RunState), Error>, int),
)
    ensures
        prepend(x, prepend(y, w)) == prepend(x + y, w),
{
    assert(x + (y + w.0) =~= (x + y) + w.0);
}

proof fn lemma_calls_step(s: Seq<VisitorCall>, i: int, j: int)
    requires
        0 <= i <= j <= s.len(),
    ensures
        s.skip(i) == s.subrange(i, j) + s.skip(j),
{
    assert(s.skip(i) =~= s.subrange(i, j) + s.skip(j));
}

/// A reading came to `w`: the visitor calls `calls`, the result `r`, on success the tables
/// `st`, and `ae` answers used up.
pub open spec fn outcome_agrees(
    w: (Seq<VisitorCall>, Result<(int, RunState), Error>, int),
    calls: Seq<VisitorCall>,
    r: Result<(), Error>,
    st: RunState,
    ae: int,
) -> bool {
    &&& w.0 == calls
    &&& w.2 == ae
    &&& match w.1 {
        Ok((_, s)) => r is Ok && st == s,
        Err(e) => r == Err::<(), Error>(e),
    }
}

/// As many yes answers as `n`.
pub open spec fn yes(n: nat) -> Seq<bool> {
    Seq::new(n, |i: int| true)
}

/// A reading came to `w` in the visitor calls `calls` and the result `r`.
pub open spec fn run_agrees(
    w: (Seq<VisitorCall>, Result<(int, RunState), Error>, int),
    calls: Seq<VisitorCall>,
    r: Result<(), Error>,
) -> bool {
    &&& w.0 == calls
    &&& match w.1 {
        Ok(_) => r is Ok,
        Err(e) => r == Err::<(), Error>(e),
    }
}

/// The tables of a reader that has read nothing.
pub open spec fn empty_run_state() -> RunState {
    RunState { globals: Map::empty(), names: Map::empty() }
}

/// Reading the block succeeds whatever the visitor answers.
pub open spec fn walk_succeeds(bytes: Seq<u8>, pos: int, block_id: u64, width: nat, st: RunState, ai: int) -> bool {
    forall|a: Seq<bool>| #[trigger] walk(bytes, pos, block_id, width, seq![], st, a, ai).1 is Ok
}

/// What one entry of a block turned out to be.
#[derive(Debug)]
pub enum BlockEntry {
    /// The end of the block.
    EndBlock,
    /// The start of a nested block, whose header follows.
    SubBlock,
    /// An abbreviation definition, now in the block's table.
    Abbreviation,
    /// A record.
    Record(Record),
}

/// The reader's state across a stream: block names and the global abbreviations that
/// `BLOCKINFO` blocks define, by block ID.
#[derive(Clone)]
pub struct BitStreamReader {
    block_info: HashMap<u64, BlockInfo>,
    global_abbrevs: HashMap<u64, Vec<Abbreviation>>,
    /// The visitors' answers to `should_enter_block` so far, in order.
    answers: Ghost<Seq<bool>>,
    /// The calls made on visitors so far, in order.
    calls: Ghost<Seq<VisitorCall>>,
}

impl BitStreamReader {
    /// The ID given to the stream's outermost level, which is no block.
    pub const TOP_LEVEL_BLOCK_ID: u64 = TOP_LEVEL_BLOCK_ID;

    /// The global abbreviations for block ID `id`, in order of definition.
    pub closed spec fn globals(&self, id: u64) -> Seq<Abbreviation> {
        if self.global_abbrevs@.contains_key(id) {
            self.global_abbrevs@[id]@
        } else {
            Seq::empty()
        }
    }

    /// The operands of the global abbreviations, by block ID.
    pub closed spec fn globals_model(&self) -> Map<u64, Seq<(Seq<ScalarOperand>, Option<PayloadOperand>)>> {
        self.global_abbrevs@.map_values(|v: Vec<Abbreviation>| v@.map_values(|a: Abbreviation| shape_of(a)))
    }

    /// Names of blocks and records seen so far, by block ID.
    pub closed spec fn names(&self) -> Map<u64, BlockInfo> {
        self.block_info@
    }

    /// The visitors' answers to `should_enter_block` so far, in order.
    pub closed spec fn answers(&self) -> Seq<bool> {
        self.answers@
    }

    /// The calls made on visitors so far, in order.
    pub closed spec fn calls(&self) -> Seq<VisitorCall> {
        self.calls@
    }

    /// The tables, as `walk` sees them.
    pub open spec fn run_state(&self) -> RunState {
        RunState { globals: self.globals_model(), names: names_model(self.names()) }
    }

    proof fn lemma_globals_shapes(&self, b: u64)
        ensures
            globals_of(self.globals_model(), b) == shapes(self.globals(b)),
    {
        if !self.global_abbrevs@.contains_key(b) {
            assert(shapes(self.globals(b)) =~= Seq::empty());
        }
    }

    /// Every global table of `self` starts with the table of `before`.
    pub open spec fn extends(&self, before: &Self) -> bool {
        forall|id: u64| #[trigger] self.globals(id).len() >= before.globals(id).len()
            && self.globals(id).take(before.globals(id).len() as int) == before.globals(id)
    }

    proof fn lemma_extends_refl(a: Self)
        ensures
            a.extends(&a),
    {
        assert forall|id: u64| #[trigger] a.globals(id).len() >= a.globals(id).len()
            && a.globals(id).take(a.globals(id).len() as int) == a.globals(id) by {
            assert(a.globals(id).take(a.globals(id).len() as int) =~= a.globals(id));
        }
    }

    proof fn lemma_extends_trans(a: Self, b: Self, c: Self)
        requires
            b.extends(&a),
            c.extends(&b),
        ensures
            c.extends(&a),
    {
        assert forall|id: u64| #[trigger] c.globals(id).len() >= a.globals(id).len()
            && c.globals(id).take(a.globals(id).len() as int) == a.globals(id) by {
            assert(b.globals(id).take(a.globals(id).len() as int) == a.globals(id));
            assert(c.globals(id).take(a.globals(id).len() as int) =~= c.globals(id).take(
                b.globals(id).len() as int,
            ).take(a.globals(id).len() as int));
        }
    }

    pub fn new() -> (r: Self)
        ensures
            forall|id: u64| #[trigger] r.globals(id) == Seq::<Abbreviation>::empty(),
            r.names() == Map::<u64, BlockInfo>::empty(),
            r.run_state() == empty_run_state(),
            r.answers() == Seq::<bool>::empty(),
            r.calls() == Seq::<VisitorCall>::empty(),
    {
        let r = Self { block_info: HashMap::new(), global_abbrevs: HashMap::new(), answers: Ghost(Seq::empty()), calls: Ghost(Seq::empty()) };
        proof {
            assert(r.globals_model() =~= Map::empty());
            assert(names_model(r.names()) =~= Map::empty());
        }
        r
    }

    /// The names gathered so far.
    pub fn block_info(&self) -> (r: &HashMap<u64, BlockInfo>)
        ensures
            r@ == self.names(),
    {
        &self.block_info
    }

    /// The names gathered, taking them out of the reader.
    pub fn into_block_info(self) -> (r: HashMap<u64, BlockInfo>)
        ensures
            r@ == self.names(),
    {
        self.block_info
    }

    /// Reads one operand encoding of an abbreviation definition.
    fn read_abbrev_op(cursor: &mut Cursor<'_>) -> (r: Result<OperandHead, Error>)
        requires
            old(cursor).wf(),
        ensures
            final(cursor).wf(),
            final(cursor).bytes() == old(cursor).bytes(),
            final(cursor).pos() >= old(cursor).pos(),
            match op_head_spec(old(cursor).bits(), old(cursor).pos()) {
                Ok((h, p)) => r == Ok::<OperandHead, Error>(h) && final(cursor).pos() == p,
                Err(e) => r == Err::<OperandHead, Error>(e),
            },
    {
        let is_literal = match cursor.read(1) {
            Ok(v) => v,
            Err(e) => {
                return Err(Error::ReadBits(e));
            },
        };
        if is_literal == 1 {
            return match cursor.read_vbr(8) {
                Ok(v) => Ok(OperandHead::Scalar(ScalarOperand::Literal(v))),
                Err(e) => Err(Error::ReadBits(e)),
            };
        }
        let op_type = match cursor.read(3) {
            Ok(v) => v,
            Err(e) => {
                return Err(Error::ReadBits(e));
            },
        };
        if op_type == 1 || op_type == 2 {
            let width = match cursor.read_vbr(5) {
                Ok(v) => v,
                Err(e) => {
                    return Err(Error::ReadBits(e));
                },
            };
            if width < 1 || width > 32 {
                Ok(OperandHead::Invalid)
            } else if op_type == 1 {
                Ok(OperandHead::Scalar(ScalarOperand::Fixed(width as u8)))
            } else {
                Ok(OperandHead::Scalar(ScalarOperand::Vbr(width as u8)))
            }
        } else if op_type == 3 {
            Ok(OperandHead::Array)
        } else if op_type == 4 {
            Ok(OperandHead::Scalar(ScalarOperand::Char6))
        } else if op_type == 5 {
            Ok(OperandHead::Blob)
        } else {
            Ok(OperandHead::Invalid)
        }
    }

    /// Reads an abbreviation definition and appends it to `abbrevs`.
    fn define_abbrev(cursor: &mut Cursor<'_>, abbrevs: &mut Vec<Abbreviation>) -> (r: Result<(), Error>)
        requires
            old(cursor).wf(),
        ensures
            final(cursor).wf(),
            final(cursor).bytes() == old(cursor).bytes(),
            final(cursor).pos() >= old(cursor).pos(),
            match define_abbrev_spec(old(cursor).bits(), old(cursor).pos()) {
                Ok((fs, pl, p)) => {
                    &&& r is Ok
                    &&& final(cursor).pos() == p
                    &&& final(abbrevs)@.len() == old(abbrevs)@.len() + 1
                    &&& final(abbrevs)@.take(old(abbrevs)@.len() as int) == old(abbrevs)@
                    &&& final(abbrevs)@.last().fields@ == fs
                    &&& final(abbrevs)@.last().payload == pl
                    &&& final(abbrevs)@.last().id == old(abbrevs)@.len() as u32
                },
                Err(e) => r == Err::<(), Error>(e) && final(abbrevs)@ == old(abbrevs)@,
            },
    {
        let num_ops = match cursor.read_vbr(5) {
            Ok(v) => v,
            Err(e) => {
                return Err(Error::ReadBits(e));
            },
        };
        if num_ops == 0 {
            return Err(Error::InvalidAbbrev);
        }
        let ghost bits = old(cursor).bits();
        let ghost start = cursor.pos();
        let id = abbrevs.len() as u32;
        let mut fields: Vec<ScalarOperand> = Vec::new();
        let mut left: u64 = num_ops;
        while left > 0
            invariant
                cursor.wf(),
                cursor.bytes() == old(cursor).bytes(),
                bits == cursor.bits(),
                cursor.pos() >= old(cursor).pos(),
                abbrevs@ == old(abbrevs)@,
                id == old(abbrevs)@.len() as u32,
                define_abbrev_spec(bits, old(cursor).pos()) == abbrev_ops_spec(
                    bits,
                    cursor.pos(),
                    left as nat,
                    fields@,
                ),
            decreases left,
        {
            let head = match Self::read_abbrev_op(cursor) {
                Ok(h) => h,
                Err(e) => {
                    return Err(e);
                },
            };
            match head {
                OperandHead::Scalar(sc) => {
                    fields.push(sc);
                    left = left - 1;
                },
                OperandHead::Array => {
                    if left != 2 {
                        return Err(Error::InvalidAbbrev);
                    }
                    match Self::read_abbrev_op(cursor) {
                        Ok(OperandHead::Scalar(el)) => {
                            abbrevs.push(
                                Abbreviation { fields, payload: Some(PayloadOperand::Array(el)), id },
                            );
                            proof {
                                assert(abbrevs@.take(old(abbrevs)@.len() as int) =~= old(abbrevs)@);
                            }
                            return Ok(());
                        },
                        Ok(_) => {
                            return Err(Error::InvalidAbbrev);
                        },
                        Err(e) => {
                            return Err(e);
                        },
                    }
                },
                OperandHead::Blob => {
                    if left != 1 {
                        return Err(Error::InvalidAbbrev);
                    }
                    abbrevs.push(Abbreviation { fields, payload: Some(PayloadOperand::Blob), id });
                    proof {
                        assert(abbrevs@.take(old(abbrevs)@.len() as int) =~= old(abbrevs)@);
                    }
                    return Ok(());
                },
                OperandHead::Invalid => {
                    return Err(Error::InvalidAbbrev);
                },
            }
        }
        abbrevs.push(Abbreviation { fields, payload: None, id });
        proof {
            assert(abbrevs@.take(old(abbrevs)@.len() as int) =~= old(abbrevs)@);
        }
        Ok(())
    }

    /// Reads an abbreviation ID of `width` bits.
    fn read_abbrev_id(cursor: &mut Cursor<'_>, width: u64) -> (r: Result<u64, Error>)
        requires
            old(cursor).wf(),
        ensures
            final(cursor).wf(),
            final(cursor).bytes() == old(cursor).bytes(),
            final(cursor).pos() >= old(cursor).pos(),
            match read_spec(old(cursor).bits(), old(cursor).pos(), width as nat) {
                Ok((v, p)) => r == Ok::<u64, Error>(v) && final(cursor).pos() == p,
                Err(e) => r == Err::<u64, Error>(Error::ReadBits(e)),
            },
    {
        if width > 64 {
            return Err(Error::ReadBits(bits::Error::VbrOverflow));
        }
        match cursor.read(width as usize) {
            Ok(v) => Ok(v),
            Err(e) => Err(Error::ReadBits(e)),
        }
    }

    /// Reads the header of a nested block and returns its ID, its abbreviation width and
    /// a cursor over exactly its declared length; this cursor moves past the whole block.
    #[verifier::rlimit(100)]
    fn read_sub_block_header<'input>(cursor: &mut Cursor<'input>) -> (r: Result<(u64, u64, Cursor<'input>), Error>)
        requires
            old(cursor).wf(),
        ensures
            final(cursor).wf(),
            final(cursor).bytes() == old(cursor).bytes(),
            final(cursor).pos() >= old(cursor).pos(),
            match sub_block_header_spec(old(cursor).bits(), old(cursor).pos()) {
                Err(e) => r == Err::<(u64, u64, Cursor<'input>), Error>(e),
                Ok((id, w, h, words)) => if h / 8 + 4 * words > old(cursor).bytes().len() {
                    r == Err::<(u64, u64, Cursor<'input>), Error>(Error::ReadBits(bits::Error::BufferOverflow))
                } else {
                    &&& r is Ok
                    &&& r.unwrap().0 == id
                    &&& r.unwrap().1 == w
                    &&& r.unwrap().2.wf()
                    &&& r.unwrap().2.pos() == 0
                    &&& r.unwrap().2.bytes() == old(cursor).bytes().subrange(h / 8, h / 8 + 4 * words)
                    &&& final(cursor).pos() == h + 32 * words
                    &&& h >= 32
                },
            },
    {
        let block_id = match cursor.read_vbr(8) {
            Ok(v) => v,
            Err(e) => {
                return Err(Error::ReadBits(e));
            },
        };
        let width = match cursor.read_vbr(4) {
            Ok(v) => v,
            Err(e) => {
                return Err(Error::ReadBits(e));
            },
        };
        if let Err(e) = cursor.align32() {
            return Err(Error::ReadBits(e));
        }
        let words = match cursor.read(32) {
            Ok(v) => v,
            Err(e) => {
                return Err(Error::ReadBits(e));
            },
        };
        proof {
            crate::bits::lemma_le_value_bound(
                old(cursor).bits().subrange(cursor.pos() - 32, cursor.pos()),
            );
            vstd::arithmetic::power2::lemma2_to64();
        }
        let remaining = (cursor.unconsumed_bit_len() / 8) as u64;
        if 4 * words > remaining {
            return Err(Error::ReadBits(bits::Error::BufferOverflow));
        }
        match cursor.take_slice((4 * words) as usize) {
            Ok(sub) => Ok((block_id, width, sub)),
            Err(e) => Err(Error::ReadBits(e)),
        }
    }

    /// Applies one unabbreviated record of a `BLOCKINFO` block. `SetBid` (code 1, one
    /// field) selects the block ID that the following records describe; `BlockName` (code
    /// 2) names that block; `SetRecordName` (code 3) names the record code in its first
    /// field with the rest. Only the names change, never the global abbreviations.
    pub fn apply_block_info_record(&mut self, current: &mut Option<u64>, record: &Record) -> (r: Result<(), Error>)
        ensures
            forall|id: u64| #[trigger] final(self).globals(id) == old(self).globals(id),
            final(self).globals_model() == old(self).globals_model(),
            final(self).answers() == old(self).answers(),
            final(self).calls() == old(self).calls(),
            r is Err ==> final(self).names() == old(self).names() && *final(current) == *old(current),
            match info_record_spec(*old(current), names_model(old(self).names()), record@.id, record@.fields) {
                Ok((c, n)) => r is Ok && *final(current) == c && names_model(final(self).names()) == n,
                Err(e) => r == Err::<(), Error>(e),
            },
    {
        let code = record.code();
        let fields = record.fields();
        match BlockInfoCode::from_code(code) {
            None => {
                assert(BlockInfoCode::SetBid.spec_code() != code);
                assert(BlockInfoCode::BlockName.spec_code() != code);
                assert(BlockInfoCode::SetRecordName.spec_code() != code);
                Err(Error::InvalidBlockInfoRecord(code))
            },
            Some(BlockInfoCode::SetBid) => {
                if fields.len() != 1 {
                    return Err(Error::InvalidBlockInfoRecord(code));
                }
                *current = Some(fields[0]);
                Ok(())
            },
            Some(BlockInfoCode::BlockName) => {
                let block_id = match *current {
                    Some(id) => id,
                    None => {
                        return Err(Error::MissingSetBid);
                    },
                };
                let name = name_from_fields(fields, 0);
                assert(fields@.skip(0) =~= fields@);
                let mut info = match self.block_info.remove(&block_id) {
                    Some(i) => i,
                    None => BlockInfo::default(),
                };
                let ghost removed = info;
                info.name = name;
                self.block_info.insert(block_id, info);
                proof {
                    let old_m = names_model(old(self).names());
                    assert(self.block_info@ =~= old(self).block_info@.insert(block_id, info));
                    assert(info.record_names@ == removed.record_names@);
                    assert(info_model(info).1 == entry_of(old_m, block_id).1) by {
                        if !old(self).block_info@.contains_key(block_id) {
                            assert(info.record_names@.map_values(|s: String| s@) =~= Map::<u64, Seq<char>>::empty());
                        }
                    }
                    assert(names_model(self.names()) =~= old_m.insert(block_id, info_model(info)));
                }
                Ok(())
            },
            Some(BlockInfoCode::SetRecordName) => {
                let block_id = match *current {
                    Some(id) => id,
                    None => {
                        return Err(Error::MissingSetBid);
                    },
                };
                if fields.len() == 0 {
                    return Err(Error::InvalidBlockInfoRecord(code));
                }
                let record_code = fields[0];
                let name = name_from_fields(fields, 1);
                let mut info = match self.block_info.remove(&block_id) {
                    Some(i) => i,
                    None => BlockInfo::default(),
                };
                let ghost removed = info;
                info.record_names.insert(record_code, name);
                self.block_info.insert(block_id, info);
                proof {
                    let old_m = names_model(old(self).names());
                    let rn_old = entry_of(old_m, block_id).1;
                    assert(self.block_info@ =~= old(self).block_info@.insert(block_id, info));
                    assert(removed.record_names@.map_values(|s: String| s@) == rn_old) by {
                        if !old(self).block_info@.contains_key(block_id) {
                            assert(removed.record_names@.map_values(|s: String| s@) =~= Map::<u64, Seq<char>>::empty());
                        }
                    }
                    assert(info_model(info).1 =~= rn_old.insert(record_code, name@));
                    assert(info_model(info).0 == entry_of(old_m, block_id).0);
                    assert(names_model(self.names()) =~= old_m.insert(block_id, info_model(info)));
                }
                Ok(())
            },
        }
    }

    /// Reads an abbreviation definition and appends it to the global list of `block_id`.
    fn define_global(&mut self, cursor: &mut Cursor<'_>, block_id: u64) -> (r: Result<(), Error>)
        requires
            old(cursor).wf(),
        ensures
            final(cursor).wf(),
            final(cursor).bytes() == old(cursor).bytes(),
            final(cursor).pos() >= old(cursor).pos(),
            final(self).extends(&*old(self)),
            final(self).names() == old(self).names(),
            final(self).answers() == old(self).answers(),
            final(self).calls() == old(self).calls(),
            match define_abbrev_spec(old(cursor).bits(), old(cursor).pos()) {
                Ok((fs, pl, q)) => {
                    &&& r is Ok
                    &&& final(cursor).pos() == q
                    &&& final(self).globals_model() == globals_push(old(self).globals_model(), block_id, (fs, pl))
                },
                Err(e) => r == Err::<(), Error>(e) && final(self).globals_model() == old(self).globals_model(),
            },
    {
        let (mut list, had) = match self.global_abbrevs.remove(&block_id) {
            Some(v) => (v, true),
            None => (Vec::new(), false),
        };
        let ghost old_list = list@;
        let res = Self::define_abbrev(cursor, &mut list);
        if had || res.is_ok() {
            self.global_abbrevs.insert(block_id, list);
        }
        proof {
            if res.is_err() {
                if had {
                    assert(list@ == old(self).global_abbrevs@[block_id]@);
                }
                assert(self.globals_model() =~= old(self).globals_model());
            }
        }
        proof {
            assert forall|id: u64| #[trigger] self.globals(id).len() >= old(self).globals(id).len()
                && self.globals(id).take(old(self).globals(id).len() as int) == old(self).globals(id) by {
                if id == block_id {
                    assert(self.globals(id) == list@ || res.is_err());
                } else {
                    assert(self.globals(id) == old(self).globals(id));
                    assert(self.globals(id).take(old(self).globals(id).len() as int) =~= old(self).globals(id));
                }
            }
        }
        if let Err(e) = res {
            return Err(e);
        }
        proof {
            let (fs, pl, q) = define_abbrev_spec(old(cursor).bits(), old(cursor).pos()).unwrap();
            let g = old(self).globals_model();
            let shapes = old_list.map_values(|a: Abbreviation| shape_of(a));
            assert(shapes =~= if g.contains_key(block_id) {
                g[block_id]
            } else {
                Seq::empty()
            });
            assert(list@.map_values(|a: Abbreviation| shape_of(a)) =~= shapes.push((fs, pl)));
            assert(self.globals_model() =~= globals_push(g, block_id, (fs, pl)));
        }
        Ok(())
    }

    /// Reads a `BLOCKINFO` block: it names blocks and records and defines the global
    /// abbreviations of the block IDs it selects with `SetBid`.
    pub fn read_block_info_block(&mut self, cursor: &mut Cursor<'_>, abbrev_width: u64) -> (r: Result<(), Error>)
        requires
            old(cursor).wf(),
        ensures
            final(cursor).wf(),
            final(cursor).bytes() == old(cursor).bytes(),
            final(cursor).pos() >= old(cursor).pos(),
            final(self).extends(&*old(self)),
            final(self).answers() == old(self).answers(),
            final(self).calls() == old(self).calls(),
            match block_info_spec(
                old(cursor).bits(),
                old(cursor).pos(),
                abbrev_width as nat,
                InfoState {
                    current: None,
                    names: names_model(old(self).names()),
                    globals: old(self).globals_model(),
                },
            ) {
                Ok((st, p)) => {
                    &&& r is Ok
                    &&& final(cursor).pos() == p
                    &&& names_model(final(self).names()) == st.names
                    &&& final(self).globals_model() == st.globals
                },
                Err((e, st)) => {
                    &&& r == Err::<(), Error>(e)
                    &&& names_model(final(self).names()) == st.names
                    &&& final(self).globals_model() == st.globals
                },
            },
    {
        let ghost bits = old(cursor).bits();
        let ghost w = abbrev_width as nat;
        let ghost start = InfoState {
            current: None,
            names: names_model(old(self).names()),
            globals: old(self).globals_model(),
        };
        let mut current_block_id: Option<u64> = None;
        proof {
            Self::lemma_extends_refl(*self);
        }
        loop
            invariant
                cursor.wf(),
                cursor.bytes() == old(cursor).bytes(),
                bits == cursor.bits(),
                bits == old(cursor).bits(),
                w == abbrev_width as nat,
                start == (InfoState {
                    current: None,
                    names: names_model(old(self).names()),
                    globals: old(self).globals_model(),
                }),
                cursor.pos() >= old(cursor).pos(),
                self.extends(&*old(self)),
                self.answers() == old(self).answers(),
                self.calls() == old(self).calls(),
                block_info_spec(bits, old(cursor).pos(), w, start) == block_info_spec(
                    bits,
                    cursor.pos(),
                    w,
                    InfoState {
                        current: current_block_id,
                        names: names_model(self.names()),
                        globals: self.globals_model(),
                    },
                ),
            decreases cursor.bits().len() - cursor.pos(),
        {
            let ghost before = *self;
            let ghost st = InfoState {
                current: current_block_id,
                names: names_model(self.names()),
                globals: self.globals_model(),
            };
            let ghost pos = cursor.pos();
            let abbrev_id = match Self::read_abbrev_id(cursor, abbrev_width) {
                Ok(v) => v,
                Err(e) => {
                    proof {
                        reveal_with_fuel(block_info_spec, 1);
                    }
                    return Err(e);
                },
            };
            let ghost p = cursor.pos();
            assert(read_spec(bits, pos, w) == Ok::<(u64, int), bits::Error>((abbrev_id, p)));
            proof {
                reveal_with_fuel(block_info_spec, 1);
            }
            match BuiltinAbbreviationId::from_code(abbrev_id) {
                None => {
                    assert(BuiltinAbbreviationId::EndBlock.spec_code() != abbrev_id);
                    assert(BuiltinAbbreviationId::EnterSubBlock.spec_code() != abbrev_id);
                    assert(BuiltinAbbreviationId::DefineAbbreviation.spec_code() != abbrev_id);
                    assert(BuiltinAbbreviationId::UnabbreviatedRecord.spec_code() != abbrev_id);
                    return Err(Error::NoSuchAbbrev { block_id: 0, abbrev_id });
                },
                Some(BuiltinAbbreviationId::EndBlock) => {
                    return match cursor.align32() {
                        Ok(()) => Ok(()),
                        Err(e) => Err(Error::ReadBits(e)),
                    };
                },
                Some(BuiltinAbbreviationId::EnterSubBlock) => {
                    return Err(Error::NestedBlockInBlockInfo);
                },
                Some(BuiltinAbbreviationId::DefineAbbreviation) => {
                    let block_id = match current_block_id {
                        Some(id) => id,
                        None => {
                            return Err(Error::MissingSetBid);
                        },
                    };
                    let res = self.define_global(cursor, block_id);
                    proof {
                        Self::lemma_extends_trans(*old(self), before, *self);
                    }
                    if let Err(e) = res {
                        return Err(e);
                    }
                },
                Some(BuiltinAbbreviationId::UnabbreviatedRecord) => {
                    let record = match Record::from_cursor(cursor) {
                        Ok(r) => r,
                        Err(e) => {
                            return Err(e);
                        },
                    };
                    let res = self.apply_block_info_record(&mut current_block_id, &record);
                    assert(forall|id: u64| #[trigger] self.globals(id) == before.globals(id));
                    if let Err(e) = res {
                        return Err(e);
                    }
                },
            }
        }
    }

    /// Reads one entry of a block whose ID is `block_id` and whose abbreviation IDs are
    /// `abbrev_width` bits wide, `locals` being the abbreviations defined so far in it.
    /// END_BLOCK (ID 0) moves to the next 32-bit boundary. ENTER_SUB_BLOCK (1) reads no
    /// further: the caller reads the nested block. DEFINE_ABBREVIATION (2) appends the
    /// definition to `locals`. UNABBREVIATED_RECORD (3) reads a record; ID 4 and up read a
    /// record with the abbreviation that the ID names, the block ID's global
    /// abbreviations first and then `locals`.
    pub fn read_entry(
        &self,
        cursor: &mut Cursor<'_>,
        block_id: u64,
        abbrev_width: u64,
        locals: &mut Vec<Abbreviation>,
    ) -> (r: Result<BlockEntry, Error>)
        requires
            old(cursor).wf(),
        ensures
            final(cursor).wf(),
            final(cursor).bytes() == old(cursor).bytes(),
            final(cursor).pos() >= old(cursor).pos(),
            r is Ok ==> final(cursor).pos() > old(cursor).pos(),
            !(r matches Ok(BlockEntry::Abbreviation)) ==> final(locals)@ == old(locals)@,
            match entry_spec(
                old(cursor).bytes(),
                old(cursor).pos(),
                block_id,
                abbrev_width as nat,
                shapes(self.globals(block_id)),
                shapes(old(locals)@),
            ) {
                EntryModel::End(p) => r matches Ok(BlockEntry::EndBlock) && final(cursor).pos() == p,
                EntryModel::Sub(p) => r matches Ok(BlockEntry::SubBlock) && final(cursor).pos() == p,
                EntryModel::Define(shape, q) => {
                    &&& r matches Ok(BlockEntry::Abbreviation)
                    &&& final(cursor).pos() == q
                    &&& shapes(final(locals)@) == shapes(old(locals)@).push(shape)
                },
                EntryModel::Rec(rec, q) => r matches Ok(BlockEntry::Record(x)) && x@ == rec && final(cursor).pos() == q,
                EntryModel::Fail(e) => r == Err::<BlockEntry, Error>(e),
            },
    {
        proof {
            reveal(entry_spec);
        }
        let abbrev_id = match Self::read_abbrev_id(cursor, abbrev_width) {
            Ok(v) => v,
            Err(e) => {
                return Err(e);
            },
        };
        match BuiltinAbbreviationId::from_code(abbrev_id) {
            Some(BuiltinAbbreviationId::EndBlock) => match cursor.align32() {
                Ok(()) => Ok(BlockEntry::EndBlock),
                Err(e) => Err(Error::ReadBits(e)),
            },
            Some(BuiltinAbbreviationId::EnterSubBlock) => Ok(BlockEntry::SubBlock),
            Some(BuiltinAbbreviationId::DefineAbbreviation) => {
                let ghost before = locals@;
                match Self::define_abbrev(cursor, locals) {
                    Ok(()) => {
                        proof {
                            assert(locals@ =~= before.push(locals@.last()));
                            assert(shapes(locals@) =~= shapes(before).push(shape_of(locals@.last())));
                        }
                        Ok(BlockEntry::Abbreviation)
                    },
                    Err(e) => Err(e),
                }
            },
            Some(BuiltinAbbreviationId::UnabbreviatedRecord) => match Record::from_cursor(cursor) {
                Ok(record) => Ok(BlockEntry::Record(record)),
                Err(e) => Err(e),
            },
            None => {
                assert(BuiltinAbbreviationId::EndBlock.spec_code() != abbrev_id);
                assert(BuiltinAbbreviationId::EnterSubBlock.spec_code() != abbrev_id);
                assert(BuiltinAbbreviationId::DefineAbbreviation.spec_code() != abbrev_id);
                assert(BuiltinAbbreviationId::UnabbreviatedRecord.spec_code() != abbrev_id);
                proof {
                    lemma_shape_for(self.globals(block_id), locals@, abbrev_id);
                }
                let empty: Vec<Abbreviation> = Vec::new();
                let globals: &Vec<Abbreviation> = match self.global_abbrevs.get(&block_id) {
                    Some(v) => v,
                    None => &empty,
                };
                match lookup_abbrev(globals.as_slice(), locals.as_slice(), abbrev_id) {
                    None => Err(Error::NoSuchAbbrev { block_id, abbrev_id }),
                    Some(abbrev) => match Record::from_cursor_abbrev(cursor, abbrev) {
                        Ok(record) => Ok(BlockEntry::Record(record)),
                        Err(e) => Err(e),
                    },
                }
            },
        }
    }

    /// Reads a nested block whose ENTER_SUB_BLOCK ID, read at `cur`, ends where the cursor
    /// stands: a `BLOCKINFO` block is read into the tables; another is read if the visitor
    /// enters it and skipped otherwise. Either way the cursor ends right after the
    /// block's declared bytes, which are all the nested reading sees; `walk` goes on from
    /// there.
    fn read_sub_block<V: BitStreamVisitor>(
        &mut self,
        cursor: &mut Cursor<'_>,
        visitor: &mut V,
        block_id: u64,
        abbrev_width: u64,
        cur: Ghost<int>,
        locals: Ghost<Seq<(Seq<ScalarOperand>, Option<PayloadOperand>)>>,
    ) -> (r: Result<(), Error>)
        requires
            old(cursor).wf(),
            0 <= cur@ < 8 * old(cursor).bytes().len(),
            entry_spec(
                old(cursor).bytes(),
                cur@,
                block_id,
                abbrev_width as nat,
                globals_of(old(self).run_state().globals, block_id),
                locals@,
            ) == EntryModel::Sub(old(cursor).pos()),
        ensures
            final(cursor).wf(),
            final(cursor).bytes() == old(cursor).bytes(),
            final(cursor).pos() >= old(cursor).pos(),
            final(self).extends(&*old(self)),
            begins_with(final(self).answers(), old(self).answers()),
            begins_with(final(self).calls(), old(self).calls()),
            tracked_by(
                *old(visitor),
                *final(visitor),
                final(self).calls().skip(old(self).calls().len() as int),
                final(self).answers().skip(old(self).answers().len() as int),
            ),
            forall|a: Seq<bool>|
                begins_with(a, final(self).answers()) ==> match r {
                    Ok(()) => #[trigger] walk(
                        old(cursor).bytes(),
                        cur@,
                        block_id,
                        abbrev_width as nat,
                        locals@,
                        old(self).run_state(),
                        a,
                        old(self).answers().len() as int,
                    ) == prepend(
                        final(self).calls().skip(old(self).calls().len() as int),
                        walk(
                            old(cursor).bytes(),
                            final(cursor).pos(),
                            block_id,
                            abbrev_width as nat,
                            locals@,
                            final(self).run_state(),
                            a,
                            final(self).answers().len() as int,
                        ),
                    ),
                    Err(e) => walk(
                        old(cursor).bytes(),
                        cur@,
                        block_id,
                        abbrev_width as nat,
                        locals@,
                        old(self).run_state(),
                        a,
                        old(self).answers().len() as int,
                    ) == (
                        final(self).calls().skip(old(self).calls().len() as int),
                        Err::<(int, RunState), Error>(e),
                        final(self).answers().len() as int,
                    ),
                },
        decreases old(cursor).bytes().len(), 0nat,
    {
        let ghost bytes0 = cursor.bytes();
        let ghost st0 = self.run_state();
        let ghost a0 = self.answers().len() as int;
        let ghost c0 = self.calls().len() as int;
        let ghost w = abbrev_width as nat;
        let ghost v0 = *visitor;
        proof {
            lemma_tracked_refl(v0);
            assert(self.answers().skip(a0) =~= Seq::<bool>::empty());
            Self::lemma_extends_refl(*self);
            lemma_begins_with_refl(self.answers());
            lemma_begins_with_refl(self.calls());
            assert(self.calls().skip(c0) =~= Seq::<VisitorCall>::empty());
        }
        let (sid, sw, mut sub) = match Self::read_sub_block_header(cursor) {
            Ok(t) => t,
            Err(e) => {
                proof {
                    assert forall|a: Seq<bool>| begins_with(a, self.answers()) implies #[trigger] walk(
                        bytes0,
                        cur@,
                        block_id,
                        w,
                        locals@,
                        st0,
                        a,
                        a0,
                    ) == (self.calls().skip(c0), Err::<(int, RunState), Error>(e), a0) by {
                        reveal_with_fuel(walk, 1);
                    }
                }
                return Err(e);
            },
        };
        if sid == 0 {
            let res = self.read_block_info_block(&mut sub, sw);
            proof {
                assert forall|a: Seq<bool>| begins_with(a, self.answers()) implies match res {
                    Ok(()) => #[trigger] walk(bytes0, cur@, block_id, w, locals@, st0, a, a0) == prepend(
                        self.calls().skip(c0),
                        walk(bytes0, cursor.pos(), block_id, w, locals@, self.run_state(), a, self.answers().len() as int),
                    ),
                    Err(e) => walk(bytes0, cur@, block_id, w, locals@, st0, a, a0) == (
                        self.calls().skip(c0),
                        Err::<(int, RunState), Error>(e),
                        self.answers().len() as int,
                    ),
                } by {
                    reveal_with_fuel(walk, 1);
                    lemma_prepend_empty(
                        walk(bytes0, cursor.pos(), block_id, w, locals@, self.run_state(), a, self.answers().len() as int),
                    );
                }
            }
            res
        } else {
            let enter = visitor.should_enter_block(sid);
            self.answers = Ghost(self.answers@.push(enter));
            self.calls = Ghost(self.calls@.push(VisitorCall::ShouldEnter(sid)));
            let ghost mid = *self;
            let ghost v1 = *visitor;
            proof {
                Self::lemma_extends_refl(*self);
                assert(self.run_state() == st0);
                assert(self.answers().take(a0) =~= old(self).answers());
                assert(self.calls().take(c0) =~= old(self).calls());
                assert(self.calls().skip(c0) =~= seq![VisitorCall::ShouldEnter(sid)]);
                assert(self.answers().skip(a0) =~= seq![enter]);
                if v0.tracks() {
                    assert(v0.log() + seq![VisitorCall::ShouldEnter(sid)] =~= v0.log().push(VisitorCall::ShouldEnter(sid)));
                }
                assert(tracked_by(v0, v1, seq![VisitorCall::ShouldEnter(sid)], seq![enter]));
            }
            if !enter {
                proof {
                    assert forall|a: Seq<bool>| begins_with(a, self.answers()) implies #[trigger] walk(
                        bytes0,
                        cur@,
                        block_id,
                        w,
                        locals@,
                        st0,
                        a,
                        a0,
                    ) == prepend(
                        self.calls().skip(c0),
                        walk(bytes0, cursor.pos(), block_id, w, locals@, self.run_state(), a, self.answers().len() as int),
                    ) by {
                        reveal_with_fuel(walk, 1);
                        assert(a[a0] == a.take(self.answers().len() as int)[a0]);
                    }
                }
                Ok(())
            } else {
                let res = self.read_block(&mut sub, sid, sw, visitor);
                proof {
                    lemma_tracked_trans(
                        v0,
                        v1,
                        *visitor,
                        seq![VisitorCall::ShouldEnter(sid)],
                        self.calls().skip(c0 + 1),
                        seq![enter],
                        self.answers().skip(a0 + 1),
                    );
                    lemma_skip_join(self.answers(), a0, a0 + 1);
                    assert(self.answers().subrange(a0, a0 + 1) =~= seq![enter]) by {
                        assert(self.answers().take(mid.answers().len() as int)[a0] == self.answers()[a0]);
                    }
                    Self::lemma_extends_trans(*old(self), mid, *self);
                    lemma_begins_with_trans(self.answers(), mid.answers(), old(self).answers());
                    lemma_begins_with_trans(self.calls(), mid.calls(), old(self).calls());
                    lemma_calls_step(self.calls(), c0, c0 + 1);
                    assert(self.calls().subrange(c0, c0 + 1) =~= seq![VisitorCall::ShouldEnter(sid)]) by {
                        assert(self.calls().take(mid.calls().len() as int)[c0] == self.calls()[c0]);
                    }
                    assert forall|a: Seq<bool>| begins_with(a, self.answers()) implies match res {
                        Ok(()) => #[trigger] walk(bytes0, cur@, block_id, w, locals@, st0, a, a0) == prepend(
                            self.calls().skip(c0),
                            walk(bytes0, cursor.pos(), block_id, w, locals@, self.run_state(), a, self.answers().len() as int),
                        ),
                        Err(e) => walk(bytes0, cur@, block_id, w, locals@, st0, a, a0) == (
                            self.calls().skip(c0),
                            Err::<(int, RunState), Error>(e),
                            self.answers().len() as int,
                        ),
                    } by {
                        reveal_with_fuel(walk, 1);
                        lemma_begins_with_trans(a, self.answers(), mid.answers());
                        assert(a[a0] == a.take(mid.answers().len() as int)[a0]);
                        assert(mid.answers()[a0] == true);
                        let inner = walk(sub.bytes(), 0, sid, sw as nat, seq![], mid.run_state(), a, mid.answers().len() as int);
                        assert(inner.2 == self.answers().len());
                        let rest = walk(bytes0, cursor.pos(), block_id, w, locals@, self.run_state(), a, self.answers().len() as int);
                        lemma_prepend_assoc(seq![VisitorCall::ShouldEnter(sid)], inner.0, rest);
                    }
                }
                res
            }
        }
    }

    /// Reads the entries of a block up to its END_BLOCK, or of the stream's top level up to
    /// its end, handing each record to the visitor and asking it whether to enter each
    /// nested block: the calls made and the result are what `walk` says for the answers the
    /// visitor gives.
    #[verifier::rlimit(100)]
    pub fn read_block<V: BitStreamVisitor>(
        &mut self,
        cursor: &mut Cursor<'_>,
        block_id: u64,
        abbrev_width: u64,
        visitor: &mut V,
    ) -> (r: Result<(), Error>)
        requires
            old(cursor).wf(),
        ensures
            final(cursor).wf(),
            final(cursor).bytes() == old(cursor).bytes(),
            final(cursor).pos() >= old(cursor).pos(),
            final(self).extends(&*old(self)),
            begins_with(final(self).answers(), old(self).answers()),
            begins_with(final(self).calls(), old(self).calls()),
            tracked_by(
                *old(visitor),
                *final(visitor),
                final(self).calls().skip(old(self).calls().len() as int),
                final(self).answers().skip(old(self).answers().len() as int),
            ),
            forall|a: Seq<bool>|
                begins_with(a, final(self).answers()) ==> walk_agrees(
                    #[trigger] walk(
                        old(cursor).bytes(),
                        old(cursor).pos(),
                        block_id,
                        abbrev_width as nat,
                        seq![],
                        old(self).run_state(),
                        a,
                        old(self).answers().len() as int,
                    ),
                    final(self).calls().skip(old(self).calls().len() as int),
                    r,
                    final(cursor).pos(),
                    final(self).run_state(),
                    final(self).answers().len() as int,
                ),
            walk_succeeds(
                old(cursor).bytes(),
                old(cursor).pos(),
                block_id,
                abbrev_width as nat,
                old(self).run_state(),
                old(self).answers().len() as int,
            ) ==> r is Ok,
        decreases old(cursor).bytes().len(), 1nat,
    {
        let ghost bytes0 = cursor.bytes();
        let ghost pos0 = cursor.pos();
        let ghost st0 = self.run_state();
        let ghost a0 = self.answers().len() as int;
        let ghost c0 = self.calls().len() as int;
        let ghost w = abbrev_width as nat;
        let mut locals: Vec<Abbreviation> = Vec::new();
        proof {
            lemma_tracked_refl(*visitor);
            assert(self.answers().skip(a0) =~= Seq::<bool>::empty());
            Self::lemma_extends_refl(*self);
            lemma_begins_with_refl(self.answers());
            lemma_begins_with_refl(self.calls());
            assert(shapes(locals@) =~= seq![]);
            assert(self.calls().skip(c0) =~= Seq::<VisitorCall>::empty());
            assert forall|a: Seq<bool>| begins_with(a, self.answers()) implies #[trigger] walk(
                bytes0,
                pos0,
                block_id,
                w,
                seq![],
                st0,
                a,
                a0,
            ) == prepend(
                self.calls().skip(c0),
                walk(bytes0, pos0, block_id, w, shapes(locals@), self.run_state(), a, a0),
            ) by {
                lemma_prepend_empty(walk(bytes0, pos0, block_id, w, seq![], st0, a, a0));
            }
        }
        while !cursor.is_at_end()
            invariant
                cursor.wf(),
                cursor.bytes() == old(cursor).bytes(),
                cursor.pos() >= old(cursor).pos(),
                self.extends(&*old(self)),
                begins_with(self.answers(), old(self).answers()),
                begins_with(self.calls(), old(self).calls()),
                tracked_by(*old(visitor), *visitor, self.calls().skip(c0), self.answers().skip(a0)),
                bytes0 == old(cursor).bytes(),
                pos0 == old(cursor).pos(),
                st0 == old(self).run_state(),
                a0 == old(self).answers().len(),
                c0 == old(self).calls().len(),
                w == abbrev_width as nat,
                forall|a: Seq<bool>|
                    begins_with(a, self.answers()) ==> #[trigger] walk(bytes0, pos0, block_id, w, seq![], st0, a, a0)
                        == prepend(
                        self.calls().skip(c0),
                        walk(
                            bytes0,
                            cursor.pos(),
                            block_id,
                            w,
                            shapes(locals@),
                            self.run_state(),
                            a,
                            self.answers().len() as int,
                        ),
                    ),
            decreases cursor.bits().len() - cursor.pos(),
        {
            let ghost before = *self;
            let ghost vt = *visitor;
            let ghost ansk = self.answers().skip(a0);
            let ghost cur = cursor.pos();
            let ghost locals0 = shapes(locals@);
            let ghost ans = self.answers().len() as int;
            let ghost cs = self.calls().skip(c0);
            proof {
                self.lemma_globals_shapes(block_id);
            }
            let entry = self.read_entry(cursor, block_id, abbrev_width, &mut locals);
            match entry {
                Err(e) => {
                    proof {
                        assert(cs + Seq::<VisitorCall>::empty() =~= cs);
                        assert forall|a: Seq<bool>| begins_with(a, self.answers()) implies walk_agrees(
                            #[trigger] walk(bytes0, pos0, block_id, w, seq![], st0, a, a0),
                            self.calls().skip(c0),
                            Err::<(), Error>(e),
                            cursor.pos(),
                            self.run_state(),
                            self.answers().len() as int,
                        ) by {
                            reveal_with_fuel(walk, 1);
                        }
                        lemma_begins_with_refl(self.answers());
                        let _ = walk(bytes0, pos0, block_id, w, seq![], st0, self.answers(), a0);
                    }
                    return Err(e);
                },
                Ok(BlockEntry::EndBlock) => {
                    visitor.did_exit_block(block_id);
                    self.calls = Ghost(self.calls@.push(VisitorCall::DidExit(block_id)));
                    proof {
                        if vt.tracks() {
                            assert(vt.log() + seq![VisitorCall::DidExit(block_id)] =~= vt.log().push(VisitorCall::DidExit(block_id)));
                        }
                        assert(tracked_by(vt, *visitor, seq![VisitorCall::DidExit(block_id)], seq![]));
                        lemma_tracked_trans(*old(visitor), vt, *visitor, cs, seq![VisitorCall::DidExit(block_id)], ansk, seq![]);
                        assert(ansk + Seq::<bool>::empty() =~= ansk);
                        assert(forall|id: u64| #[trigger] self.globals(id) == before.globals(id));
                        assert(self.calls().skip(c0) =~= cs + seq![VisitorCall::DidExit(block_id)]);
                        assert(self.calls().take(c0) =~= before.calls().take(c0));
                        assert forall|a: Seq<bool>| begins_with(a, self.answers()) implies walk_agrees(
                            #[trigger] walk(bytes0, pos0, block_id, w, seq![], st0, a, a0),
                            self.calls().skip(c0),
                            Ok::<(), Error>(()),
                            cursor.pos(),
                            self.run_state(),
                            self.answers().len() as int,
                        ) by {
                            reveal_with_fuel(walk, 1);
                        }
                    }
                    return Ok(());
                },
                Ok(BlockEntry::Abbreviation) => {
                    proof {
                        assert forall|a: Seq<bool>| begins_with(a, self.answers()) implies #[trigger] walk(
                            bytes0,
                            pos0,
                            block_id,
                            w,
                            seq![],
                            st0,
                            a,
                            a0,
                        ) == prepend(
                            self.calls().skip(c0),
                            walk(
                                bytes0,
                                cursor.pos(),
                                block_id,
                                w,
                                shapes(locals@),
                                self.run_state(),
                                a,
                                self.answers().len() as int,
                            ),
                        ) by {
                            reveal_with_fuel(walk, 1);
                        }
                    }
                },
                Ok(BlockEntry::Record(record)) => {
                    let ghost rec = record@;
                    visitor.visit(block_id, record);
                    self.calls = Ghost(self.calls@.push(VisitorCall::Visit(block_id, rec)));
                    proof {
                        if vt.tracks() {
                            assert(vt.log() + seq![VisitorCall::Visit(block_id, rec)] =~= vt.log().push(VisitorCall::Visit(block_id, rec)));
                        }
                        assert(tracked_by(vt, *visitor, seq![VisitorCall::Visit(block_id, rec)], seq![]));
                        lemma_tracked_trans(*old(visitor), vt, *visitor, cs, seq![VisitorCall::Visit(block_id, rec)], ansk, seq![]);
                        assert(ansk + Seq::<bool>::empty() =~= ansk);
                        assert(forall|id: u64| #[trigger] self.globals(id) == before.globals(id));
                        assert(self.calls().skip(c0) =~= cs + seq![VisitorCall::Visit(block_id, rec)]);
                        assert(self.calls().take(c0) =~= before.calls().take(c0));
                        assert forall|a: Seq<bool>| begins_with(a, self.answers()) implies #[trigger] walk(
                            bytes0,
                            pos0,
                            block_id,
                            w,
                            seq![],
                            st0,
                            a,
                            a0,
                        ) == prepend(
                            self.calls().skip(c0),
                            walk(
                                bytes0,
                                cursor.pos(),
                                block_id,
                                w,
                                shapes(locals@),
                                self.run_state(),
                                a,
                                self.answers().len() as int,
                            ),
                        ) by {
                            reveal_with_fuel(walk, 1);
                            lemma_prepend_assoc(
                                cs,
                                seq![VisitorCall::Visit(block_id, rec)],
                                walk(
                                    bytes0,
                                    cursor.pos(),
                                    block_id,
                                    w,
                                    shapes(locals@),
                                    self.run_state(),
                                    a,
                                    self.answers().len() as int,
                                ),
                            );
                        }
                    }
                },
                Ok(BlockEntry::SubBlock) => {
                    let res = self.read_sub_block(cursor, visitor, block_id, abbrev_width, Ghost(cur), Ghost(locals0));
                    proof {
                        lemma_tracked_trans(
                            *old(visitor),
                            vt,
                            *visitor,
                            cs,
                            self.calls().skip(before.calls().len() as int),
                            ansk,
                            self.answers().skip(before.answers().len() as int),
                        );
                        lemma_skip_join(self.answers(), a0, before.answers().len() as int);
                        assert(self.answers().subrange(a0, before.answers().len() as int) =~= ansk) by {
                            assert(self.answers().take(before.answers().len() as int) == before.answers());
                        }
                        Self::lemma_extends_trans(*old(self), before, *self);
                        lemma_begins_with_trans(self.answers(), before.answers(), old(self).answers());
                        lemma_begins_with_trans(self.calls(), before.calls(), old(self).calls());
                        lemma_calls_step(self.calls(), c0, before.calls().len() as int);
                        assert(self.calls().subrange(c0, before.calls().len() as int) =~= cs) by {
                            assert(self.calls().take(before.calls().len() as int) == before.calls());
                        }
                    }
                    match res {
                        Err(e) => {
                            proof {
                                assert forall|a: Seq<bool>| begins_with(a, self.answers()) implies walk_agrees(
                                    #[trigger] walk(bytes0, pos0, block_id, w, seq![], st0, a, a0),
                                    self.calls().skip(c0),
                                    Err::<(), Error>(e),
                                    cursor.pos(),
                                    self.run_state(),
                                    self.answers().len() as int,
                                ) by {
                                    lemma_begins_with_trans(a, self.answers(), before.answers());
                                }
                                lemma_begins_with_refl(self.answers());
                                let _ = walk(bytes0, pos0, block_id, w, seq![], st0, self.answers(), a0);
                            }
                            return Err(e);
                        },
                        Ok(()) => {
                            proof {
                                assert forall|a: Seq<bool>| begins_with(a, self.answers()) implies #[trigger] walk(
                                    bytes0,
                                    pos0,
                                    block_id,
                                    w,
                                    seq![],
                                    st0,
                                    a,
                                    a0,
                                ) == prepend(
                                    self.calls().skip(c0),
                                    walk(
                                        bytes0,
                                        cursor.pos(),
                                        block_id,
                                        w,
                                        shapes(locals@),
                                        self.run_state(),
                                        a,
                                        self.answers().len() as int,
                                    ),
                                ) by {
                                    lemma_begins_with_trans(a, self.answers(), before.answers());
                                    lemma_prepend_assoc(
                                        cs,
                                        self.calls().skip(before.calls().len() as int),
                                        walk(
                                            bytes0,
                                            cursor.pos(),
                                            block_id,
                                            w,
                                            shapes(locals@),
                                            self.run_state(),
                                            a,
                                            self.answers().len() as int,
                                        ),
                                    );
                                }
                            }
                        },
                    }
                },
            }
        }
        proof {
            assert(self.calls().skip(c0) + Seq::<VisitorCall>::empty() =~= self.calls().skip(c0));
            assert forall|a: Seq<bool>| begins_with(a, self.answers()) implies walk_agrees(
                #[trigger] walk(bytes0, pos0, block_id, w, seq![], st0, a, a0),
                self.calls().skip(c0),
                if block_id != TOP_LEVEL_BLOCK_ID {
                    Err::<(), Error>(Error::MissingEndBlock(block_id))
                } else {
                    Ok::<(), Error>(())
                },
                cursor.pos(),
                self.run_state(),
                self.answers().len() as int,
            ) by {
                reveal_with_fuel(walk, 1);
            }
            lemma_begins_with_refl(self.answers());
            let _ = walk(bytes0, pos0, block_id, w, seq![], st0, self.answers(), a0);
        }
        if block_id != TOP_LEVEL_BLOCK_ID {
            return Err(Error::MissingEndBlock(block_id));
        }
        Ok(())
    }

    /// Reads the bitstream `stream` after its signature, whose magic number is `magic`, was
    /// checked by the visitor with the answer `accepted`. A refused stream fails with the
    /// magic number and no visitor call; an accepted one is read from its top level, the
    /// calls made and the result being those `walk` gives for the visitor's answers.
    pub fn read_accepted<V: BitStreamVisitor>(
        &mut self,
        stream: &[u8],
        magic: u32,
        accepted: bool,
        visitor: &mut V,
    ) -> (r: Result<(), Error>)
        requires
            8 * stream@.len() <= usize::MAX,
        ensures
            final(self).extends(&*old(self)),
            begins_with(final(self).answers(), old(self).answers()),
            begins_with(final(self).calls(), old(self).calls()),
            tracked_by(
                *old(visitor),
                *final(visitor),
                final(self).calls().skip(old(self).calls().len() as int),
                final(self).answers().skip(old(self).answers().len() as int),
            ),
            !accepted ==> r == Err::<(), Error>(Error::InvalidSignature(magic)) && final(self).calls()
                == old(self).calls() && final(self).answers() == old(self).answers(),
            accepted ==> forall|a: Seq<bool>|
                begins_with(a, final(self).answers()) ==> outcome_agrees(
                    #[trigger] walk(
                        stream@,
                        0,
                        TOP_LEVEL_BLOCK_ID,
                        2,
                        seq![],
                        old(self).run_state(),
                        a,
                        old(self).answers().len() as int,
                    ),
                    final(self).calls().skip(old(self).calls().len() as int),
                    r,
                    final(self).run_state(),
                    final(self).answers().len() as int,
                ),
            accepted && walk_succeeds(
                stream@,
                0,
                TOP_LEVEL_BLOCK_ID,
                2,
                old(self).run_state(),
                old(self).answers().len() as int,
            ) ==> r is Ok,
    {
        if !accepted {
            proof {
                lemma_tracked_refl(*visitor);
                assert(self.calls().skip(self.calls().len() as int) =~= Seq::<VisitorCall>::empty());
                assert(self.answers().skip(self.answers().len() as int) =~= Seq::<bool>::empty());
                Self::lemma_extends_refl(*self);
                lemma_begins_with_refl(self.answers());
                lemma_begins_with_refl(self.calls());
            }
            return Err(Error::InvalidSignature(magic));
        }
        let mut cursor = Cursor::new(stream);
        self.read_block(&mut cursor, TOP_LEVEL_BLOCK_ID, 2, visitor)
    }

    /// Reads a bitstream, raw or wrapped: the visitor's `validate` gets the parsed
    /// signature first, and its answer goes to `read_accepted`. A buffer whose signature
    /// does not parse fails with `InvalidSignature(0)` and no visitor call.
    pub fn read_stream<V: BitStreamVisitor>(&mut self, data: &[u8], visitor: &mut V) -> (r: Result<(), Error>)
        requires
            8 * data@.len() <= usize::MAX,
        ensures
            final(self).extends(&*old(self)),
            begins_with(final(self).answers(), old(self).answers()),
            begins_with(final(self).calls(), old(self).calls()),
            signature_spec(data@) is None ==> final(self).answers() == old(self).answers() && *final(visitor)
                == *old(visitor),
            signature_spec(data@) is Some ==> tracked_by(
                *old(visitor),
                *final(visitor),
                final(self).calls().skip(old(self).calls().len() as int + 1),
                final(self).answers().skip(old(self).answers().len() as int),
            ),
            signature_spec(data@) is Some && old(visitor).tracks() ==> (final(self).calls()[old(
                self,
            ).calls().len() as int] matches VisitorCall::Validate(_, acc) && acc == old(visitor).accepts(
                signature_spec(data@).unwrap().0,
            )),
            signature_spec(data@) is None ==> r == Err::<(), Error>(Error::InvalidSignature(0))
                && final(self).calls() == old(self).calls(),
            signature_spec(data@) is Some ==> ({
                let (sig, rest) = signature_spec(data@).unwrap();
                let n = old(self).calls().len() as int;
                &&& final(self).calls().len() > n
                &&& final(self).calls()[n] matches VisitorCall::Validate(s, accepted)
                &&& s == sig
                &&& !accepted ==> r == Err::<(), Error>(Error::InvalidSignature(sig.magic))
                    && final(self).calls().len() == n + 1
                &&& accepted ==> forall|a: Seq<bool>|
                    begins_with(a, final(self).answers()) ==> outcome_agrees(
                        #[trigger] walk(
                            rest,
                            0,
                            TOP_LEVEL_BLOCK_ID,
                            2,
                            seq![],
                            old(self).run_state(),
                            a,
                            old(self).answers().len() as int,
                        ),
                        final(self).calls().skip(n + 1),
                        r,
                        final(self).run_state(),
                        final(self).answers().len() as int,
                    )
                &&& accepted && walk_succeeds(
                    rest,
                    0,
                    TOP_LEVEL_BLOCK_ID,
                    2,
                    old(self).run_state(),
                    old(self).answers().len() as int,
                ) ==> r is Ok
            }),
    {
        let (header, stream) = match Signature::parse(data) {
            Some(p) => p,
            None => {
                proof {
                    lemma_tracked_refl(*visitor);
                    Self::lemma_extends_refl(*self);
                    lemma_begins_with_refl(self.answers());
                    lemma_begins_with_refl(self.calls());
                }
                return Err(Error::InvalidSignature(0));
            },
        };
        let accepted = visitor.validate(header);
        self.calls = Ghost(self.calls@.push(VisitorCall::Validate(header, accepted)));
        let ghost mid = *self;
        let r = self.read_accepted(stream, header.magic, accepted, visitor);
        proof {
            let n = old(self).calls().len() as int;
            Self::lemma_extends_refl(mid);
            assert(mid.calls().take(n) =~= old(self).calls());
            lemma_begins_with_trans(self.calls(), mid.calls(), old(self).calls());
            assert(self.calls()[n] == mid.calls()[n]) by {
                assert(self.calls().take(mid.calls().len() as int)[n] == self.calls()[n]);
            }
        }
        r
    }
}

} // verus!
