use std::collections::HashMap;
use vstd::prelude::*;

use crate::bits::{align32_spec, bits_of, le_value, read_spec, vbr_spec, Cursor};
use crate::bitstream::{char6_decode, char6_spec, Abbreviation, PayloadOperand, ScalarOperand};
use crate::visitor::tree_of;
use crate::read::{run_agrees, yes, VisitorCall, empty_run_state, lemma_begins_with_refl, lift, names_model, walk, walk_succeeds, BitStreamReader, Error};
use crate::visitor::{BitStreamVisitor, CollectingVisitor, TOP_LEVEL_BLOCK_ID};

verus! {

/// The trailing variable-length element of a record.
#[derive(Debug, Clone)]
pub enum Payload {
    Array(Vec<u64>),
    Char6String(String),
    Blob(Vec<u8>),
}

/// What a payload holds.
pub enum PayloadModel {
    Array(Seq<u64>),
    Char6String(Seq<char>),
    Blob(Seq<u8>),
}

impl View for Payload {
    type V = PayloadModel;

    open spec fn view(&self) -> PayloadModel {
        match self {
            Payload::Array(v) => PayloadModel::Array(v@),
            Payload::Char6String(s) => PayloadModel::Char6String(s@),
            Payload::Blob(b) => PayloadModel::Blob(b@),
        }
    }
}

/// The model of an optional payload.
pub open spec fn payload_view(p: Option<Payload>) -> Option<PayloadModel> {
    match p {
        Some(p) => Some(p@),
        None => None,
    }
}

/// A data record: a code and a number of values of up to 64 bits, and maybe a payload.
///
/// The meaning of the code and the values depends on the application and the block.
#[derive(Debug, Clone)]
pub struct Record {
    /// Record code.
    pub id: u64,
    /// The values after the code.
    fields: Vec<u64>,
    /// The array or blob at the end, if any.
    payload: Option<Payload>,
}

/// What a record holds.
pub struct RecordModel {
    pub id: u64,
    pub fields: Seq<u64>,
    pub payload: Option<PayloadModel>,
}

impl View for Record {
    type V = RecordModel;

    closed spec fn view(&self) -> RecordModel {
        RecordModel { id: self.id, fields: self.fields@, payload: payload_view(self.payload) }
    }
}

/// Reading one scalar operand at `pos`: the value and the position after it. A char6
/// operand gives the code of its character.
pub open spec fn scalar_spec(bits: Seq<bool>, pos: int, op: ScalarOperand) -> Result<
    (u64, int),
    Error,
> {
    match op {
        ScalarOperand::Literal(v) => Ok((v, pos)),
        ScalarOperand::Fixed(w) => lift(read_spec(bits, pos, w as nat)),
        ScalarOperand::Vbr(w) => lift(vbr_spec(bits, pos, w as nat)),
        ScalarOperand::Char6 => match read_spec(bits, pos, 6) {
            Ok((v, p)) => Ok((char6_spec(v) as u64, p)),
            Err(e) => Err(Error::ReadBits(e)),
        },
    }
}

/// Reading the operands `ops` one after the other, the values appended to `acc`.
pub open spec fn scalars_spec(
    bits: Seq<bool>,
    pos: int,
    ops: Seq<ScalarOperand>,
    acc: Seq<u64>,
) -> Result<(Seq<u64>, int), Error>
    decreases ops.len(),
{
    if ops.len() == 0 {
        Ok((acc, pos))
    } else {
        match scalar_spec(bits, pos, ops[0]) {
            Ok((v, p)) => scalars_spec(bits, p, ops.skip(1), acc.push(v)),
            Err(e) => Err(e),
        }
    }
}

/// Reading the operand `op` `n` times, the values appended to `acc`.
pub open spec fn repeat_spec(bits: Seq<bool>, pos: int, op: ScalarOperand, n: nat, acc: Seq<u64>) -> Result<
    (Seq<u64>, int),
    Error,
>
    decreases n,
{
    if n == 0 {
        Ok((acc, pos))
    } else {
        match scalar_spec(bits, pos, op) {
            Ok((v, p)) => repeat_spec(bits, p, op, (n - 1) as nat, acc.push(v)),
            Err(e) => Err(e),
        }
    }
}

/// Reading `n` char6 characters, appended to `acc`.
pub open spec fn chars6_spec(bits: Seq<bool>, pos: int, n: nat, acc: Seq<char>) -> Result<
    (Seq<char>, int),
    Error,
>
    decreases n,
{
    if n == 0 {
        Ok((acc, pos))
    } else {
        match read_spec(bits, pos, 6) {
            Ok((v, p)) => chars6_spec(bits, p, (n - 1) as nat, acc.push(char6_spec(v))),
            Err(e) => Err(Error::ReadBits(e)),
        }
    }
}

/// Reading a blob whose byte count has been read and whose 32-bit alignment starts at
/// `pos`: the bytes and the position after the closing alignment.
pub open spec fn blob_spec(bytes: Seq<u8>, pos: int, n: nat) -> Result<(Seq<u8>, int), Error> {
    let start = align32_spec(pos);
    let end = start + 8 * n;
    if start > 8 * bytes.len() || start / 8 + n > bytes.len() || align32_spec(end) > 8
        * bytes.len() {
        Err(Error::ReadBits(crate::bits::Error::BufferOverflow))
    } else {
        Ok((bytes.subrange(start / 8, start / 8 + n), align32_spec(end)))
    }
}

/// Reading the payload that `op` describes at `pos`.
pub open spec fn payload_spec(bytes: Seq<u8>, pos: int, op: Option<PayloadOperand>) -> Result<
    (Option<PayloadModel>, int),
    Error,
> {
    let bits = bits_of(bytes);
    match op {
        None => Ok((None, pos)),
        Some(PayloadOperand::Array(el)) => match vbr_spec(bits, pos, 6) {
            Err(e) => Err(Error::ReadBits(e)),
            Ok((n, p)) => if el is Char6 {
                match chars6_spec(bits, p, n as nat, seq![]) {
                    Ok((cs, q)) => Ok((Some(PayloadModel::Char6String(cs)), q)),
                    Err(e) => Err(e),
                }
            } else {
                match repeat_spec(bits, p, el, n as nat, seq![]) {
                    Ok((vs, q)) => Ok((Some(PayloadModel::Array(vs)), q)),
                    Err(e) => Err(e),
                }
            },
        },
        Some(PayloadOperand::Blob) => match vbr_spec(bits, pos, 6) {
            Err(e) => Err(Error::ReadBits(e)),
            Ok((n, p)) => match blob_spec(bytes, p, n as nat) {
                Ok((b, q)) => Ok((Some(PayloadModel::Blob(b)), q)),
                Err(e) => Err(e),
            },
        },
    }
}

/// Reading a record with the abbreviation whose scalar operands are `ops` and whose
/// payload operand is `payload`: the first scalar gives the code, the others the fields.
pub open spec fn abbrev_record_spec(
    bytes: Seq<u8>,
    pos: int,
    ops: Seq<ScalarOperand>,
    payload: Option<PayloadOperand>,
) -> Result<(RecordModel, int), Error> {
    let bits = bits_of(bytes);
    if ops.len() == 0 {
        Err(Error::InvalidAbbrev)
    } else {
        match scalar_spec(bits, pos, ops[0]) {
            Err(e) => Err(e),
            Ok((code, p)) => match scalars_spec(bits, p, ops.skip(1), seq![]) {
                Err(e) => Err(e),
                Ok((fields, q)) => match payload_spec(bytes, q, payload) {
                    Err(e) => Err(e),
                    Ok((pl, r)) => Ok((RecordModel { id: code, fields, payload: pl }, r)),
                },
            },
        }
    }
}

/// Reading an unabbreviated record: a VBR6 code, a VBR6 count, then that many VBR6 fields.
pub open spec fn unabbrev_record_spec(bits: Seq<bool>, pos: int) -> Result<(RecordModel, int), Error> {
    match vbr_spec(bits, pos, 6) {
        Err(e) => Err(Error::ReadBits(e)),
        Ok((code, p)) => match vbr_spec(bits, p, 6) {
            Err(e) => Err(Error::ReadBits(e)),
            Ok((n, q)) => match repeat_spec(bits, q, ScalarOperand::Vbr(6), n as nat, seq![]) {
                Err(e) => Err(e),
                Ok((fields, r)) => Ok((RecordModel { id: code, fields, payload: None }, r)),
            },
        },
    }
}

proof fn lemma_repeat_advances(bits: Seq<bool>, pos: int, op: ScalarOperand, n: nat, acc: Seq<u64>)
    ensures
        repeat_spec(bits, pos, op, n, acc) matches Ok((_, p)) ==> p >= pos,
    decreases n,
{
    if n > 0 {
        match scalar_spec(bits, pos, op) {
            Ok((v, p)) => lemma_repeat_advances(bits, p, op, (n - 1) as nat, acc.push(v)),
            Err(_) => {},
        }
    }
}

proof fn lemma_scalars_advances(bits: Seq<bool>, pos: int, ops: Seq<ScalarOperand>, acc: Seq<u64>)
    ensures
        scalars_spec(bits, pos, ops, acc) matches Ok((_, p)) ==> p >= pos,
    decreases ops.len(),
{
    if ops.len() > 0 {
        match scalar_spec(bits, pos, ops[0]) {
            Ok((v, p)) => lemma_scalars_advances(bits, p, ops.skip(1), acc.push(v)),
            Err(_) => {},
        }
    }
}

proof fn lemma_chars6_advances(bits: Seq<bool>, pos: int, n: nat, acc: Seq<char>)
    ensures
        chars6_spec(bits, pos, n, acc) matches Ok((_, p)) ==> p >= pos,
    decreases n,
{
    if n > 0 {
        match read_spec(bits, pos, 6) {
            Ok((v, p)) => lemma_chars6_advances(bits, p, (n - 1) as nat, acc.push(char6_spec(v))),
            Err(_) => {},
        }
    }
}

proof fn lemma_payload_advances(bytes: Seq<u8>, pos: int, op: Option<PayloadOperand>)
    ensures
        payload_spec(bytes, pos, op) matches Ok((_, p)) ==> p >= pos,
{
    let bits = bits_of(bytes);
    if let Some(PayloadOperand::Array(el)) = op {
        if let Ok((n, r)) = vbr_spec(bits, pos, 6) {
            lemma_chars6_advances(bits, r, n as nat, seq![]);
            lemma_repeat_advances(bits, r, el, n as nat, seq![]);
        }
    }
}

/// An abbreviated record never ends before it starts.
pub proof fn lemma_abbrev_record_advances(
    bytes: Seq<u8>,
    pos: int,
    ops: Seq<ScalarOperand>,
    payload: Option<PayloadOperand>,
)
    ensures
        abbrev_record_spec(bytes, pos, ops, payload) matches Ok((_, p)) ==> p >= pos,
{
    let bits = bits_of(bytes);
    if ops.len() > 0 {
        if let Ok((code, p)) = scalar_spec(bits, pos, ops[0]) {
            lemma_scalars_advances(bits, p, ops.skip(1), seq![]);
            if let Ok((fields, q)) = scalars_spec(bits, p, ops.skip(1), seq![]) {
                lemma_payload_advances(bytes, q, payload);
            }
        }
    }
}

/// An unabbreviated record never ends before it starts.
pub proof fn lemma_unabbrev_advances(bits: Seq<bool>, pos: int)
    ensures
        unabbrev_record_spec(bits, pos) matches Ok((_, p)) ==> p >= pos,
{
    match vbr_spec(bits, pos, 6) {
        Ok((code, p)) => match vbr_spec(bits, p, 6) {
            Ok((n, q)) => lemma_repeat_advances(bits, q, ScalarOperand::Vbr(6), n as nat, seq![]),
            Err(_) => {},
        },
        Err(_) => {},
    }
}

/// A char6 operand always decodes from the next 6 bits, when they are there, to the code of
/// a letter, a digit, `.` or `_`; two different 6-bit values give two different codes.
pub proof fn lemma_char6_operand(bits1: Seq<bool>, p1: int, bits2: Seq<bool>, p2: int)
    requires
        0 <= p1,
        p1 + 6 <= bits1.len(),
        0 <= p2,
        p2 + 6 <= bits2.len(),
    ensures
        scalar_spec(bits1, p1, ScalarOperand::Char6) matches Ok((c, q)) && q == p1 + 6 && ({
            let ch = c as char;
            ('a' <= ch <= 'z') || ('A' <= ch <= 'Z') || ('0' <= ch <= '9') || ch == '.' || ch == '_'
        }),
        le_value(bits1.subrange(p1, p1 + 6)) != le_value(bits2.subrange(p2, p2 + 6)) ==> scalar_spec(
            bits1,
            p1,
            ScalarOperand::Char6,
        ).unwrap().0 != scalar_spec(bits2, p2, ScalarOperand::Char6).unwrap().0,
{
    crate::bits::lemma_le_value_bound(bits1.subrange(p1, p1 + 6));
    crate::bits::lemma_le_value_bound(bits2.subrange(p2, p2 + 6));
    vstd::arithmetic::power2::lemma2_to64();
    crate::bitstream::lemma_char6_bijection();
    let v1 = le_value(bits1.subrange(p1, p1 + 6)) as u64;
    let v2 = le_value(bits2.subrange(p2, p2 + 6)) as u64;
    assert(char6_spec(v1) == char6_spec(v1));
    assert(char6_spec(v2) == char6_spec(v2));
}

/// A Unicode scalar value: a code point that is not a surrogate.
pub open spec fn is_scalar_value(v: u32) -> bool {
    v < 0xD800 || (0xE000 <= v && v <= 0x10FFFF)
}

/// The character a field stands for in a name: its code point, or U+FFFD where the value
/// is not a Unicode scalar value.
pub open spec fn field_char(x: u64) -> char {
    if x <= 0xFFFF_FFFF && is_scalar_value(x as u32) {
        x as char
    } else {
        '\u{fffd}'
    }
}

/// Relies on `char::from_u32`: `Some` of the character with that code exactly when the
/// value is a Unicode scalar value.
#[verifier::external_body]
fn char_from_u32(v: u32) -> (r: Option<char>)
    ensures
        is_scalar_value(v) ==> r == Some(v as char),
        !is_scalar_value(v) ==> r is None,
{
    char::from_u32(v)
}

/// The signed number a field holds: the low bit is the sign and the rest the magnitude,
/// with a negative zero standing for the smallest `i64`.
pub open spec fn signed_spec(v: u64) -> int {
    if v % 2 == 0 {
        (v / 2) as int
    } else if v == 1 {
        i64::MIN as int
    } else {
        -((v / 2) as int)
    }
}

/// Decodes a sign-in-low-bit field value.
pub fn decode_signed(v: u64) -> (r: i64)
    ensures
        r as int == signed_spec(v),
{
    let magnitude = (v >> 1u64) as i64;
    assert(v >> 1u64 == v / 2) by (bit_vector);
    if v & 1 == 0 {
        assert(v & 1 == 0 ==> v % 2 == 0) by (bit_vector);
        magnitude
    } else if v == 1 {
        i64::MIN
    } else {
        assert(v & 1 != 0 ==> v % 2 == 1) by (bit_vector);
        -magnitude
    }
}

/// Relies on `String::push`: the character is appended at the end.
#[verifier::external_body]
fn push_char(s: &mut String, c: char)
    ensures
        final(s)@ == old(s)@.push(c),
{
    s.push(c);
}

impl Record {
    /// A copy of the record.
    pub fn clone_record(&self) -> (r: Record)
        ensures
            r@ == self@,
    {
        let payload = match &self.payload {
            None => None,
            Some(Payload::Array(v)) => Some(Payload::Array(clone_u64s(v))),
            Some(Payload::Char6String(st)) => Some(Payload::Char6String(st.clone())),
            Some(Payload::Blob(b)) => Some(Payload::Blob(clone_u8s(b))),
        };
        Record { id: self.id, fields: clone_u64s(&self.fields), payload }
    }

    /// The record code.
    pub fn code(&self) -> (r: u64)
        ensures
            r == self@.id,
    {
        self.id
    }

    /// The values after the code.
    pub fn fields(&self) -> (r: &[u64])
        ensures
            r@ == self@.fields,
    {
        self.fields.as_slice()
    }

    /// Takes the payload out of the record.
    pub fn take_payload(&mut self) -> (r: Option<Payload>)
        ensures
            payload_view(r) == old(self)@.payload,
            final(self)@.id == old(self)@.id,
            final(self)@.fields == old(self)@.fields,
            final(self)@.payload is None,
    {
        self.payload.take()
    }

    /// The fields from `start_at` on, each read as a character code.
    pub fn string(&self, start_at: usize) -> (r: String)
        ensures
            start_at <= self@.fields.len() ==> r@ == self@.fields.skip(start_at as int).map_values(
                |x: u64| field_char(x),
            ),
            start_at > self@.fields.len() ==> r@.len() == 0,
    {
        let mut s = String::new();
        let mut i: usize = start_at;
        let ghost f = self@.fields;
        if i > self.fields.len() {
            return s;
        }
        while i < self.fields.len()
            invariant
                f == self@.fields,
                f == self.fields@,
                start_at <= i <= f.len(),
                s@ =~= f.subrange(start_at as int, i as int).map_values(|x: u64| field_char(x)),
            decreases f.len() - i,
        {
            let x = self.fields[i];
            let c = if x <= 0xFFFF_FFFF {
                match char_from_u32(x as u32) {
                    Some(c) => c,
                    None => '\u{fffd}',
                }
            } else {
                '\u{fffd}'
            };
            push_char(&mut s, c);
            i = i + 1;
            assert(f.subrange(start_at as int, i as int) =~= f.subrange(start_at as int, i - 1).push(x));
        }
        assert(f.subrange(start_at as int, i as int) =~= f.skip(start_at as int));
        s
    }

    /// Reads one scalar operand.
    fn read_single_abbreviated_record_operand(cursor: &mut Cursor<'_>, operand: &ScalarOperand) -> (r: Result<u64, Error>)
        requires
            old(cursor).wf(),
        ensures
            final(cursor).wf(),
            final(cursor).bytes() == old(cursor).bytes(),
            final(cursor).pos() >= old(cursor).pos(),
            (*operand is Fixed || *operand is Char6) && r is Err ==> final(cursor).pos() == old(cursor).pos(),
            match scalar_spec(old(cursor).bits(), old(cursor).pos(), *operand) {
                Ok((v, p)) => r == Ok::<u64, Error>(v) && final(cursor).pos() == p,
                Err(e) => r == Err::<u64, Error>(e),
            },
    {
        match operand {
            ScalarOperand::Char6 => match cursor.read(6) {
                Ok(v) => {
                    proof {
                        crate::bits::lemma_le_value_bound(
                            old(cursor).bits().subrange(old(cursor).pos(), old(cursor).pos() + 6),
                        );
                        vstd::arithmetic::power2::lemma2_to64();
                    }
                    Ok(char6_decode(v) as u64)
                },
                Err(e) => Err(Error::ReadBits(e)),
            },
            ScalarOperand::Literal(value) => Ok(*value),
            ScalarOperand::Fixed(width) => match cursor.read(*width as usize) {
                Ok(v) => Ok(v),
                Err(e) => Err(Error::ReadBits(e)),
            },
            ScalarOperand::Vbr(width) => match cursor.read_vbr(*width as usize) {
                Ok(v) => Ok(v),
                Err(e) => Err(Error::ReadBits(e)),
            },
        }
    }

    /// Reads the operand `op` `n` times.
    fn read_repeated(cursor: &mut Cursor<'_>, op: &ScalarOperand, n: u64) -> (r: Result<Vec<u64>, Error>)
        requires
            old(cursor).wf(),
        ensures
            final(cursor).wf(),
            final(cursor).bytes() == old(cursor).bytes(),
            final(cursor).pos() >= old(cursor).pos(),
            match repeat_spec(old(cursor).bits(), old(cursor).pos(), *op, n as nat, seq![]) {
                Ok((vs, p)) => r is Ok && r.unwrap()@ == vs && final(cursor).pos() == p,
                Err(e) => r == Err::<Vec<u64>, Error>(e),
            },
    {
        let mut values: Vec<u64> = Vec::new();
        let mut k: u64 = 0;
        while k < n
            invariant
                cursor.wf(),
                cursor.bytes() == old(cursor).bytes(),
                cursor.pos() >= old(cursor).pos(),
                k <= n,
                repeat_spec(old(cursor).bits(), old(cursor).pos(), *op, n as nat, seq![])
                    == repeat_spec(cursor.bits(), cursor.pos(), *op, (n - k) as nat, values@),
            decreases n - k,
        {
            match Self::read_single_abbreviated_record_operand(cursor, op) {
                Ok(v) => values.push(v),
                Err(e) => {
                    return Err(e);
                },
            }
            k = k + 1;
        }
        Ok(values)
    }

    /// Reads `n` char6 characters.
    fn read_char6_string(cursor: &mut Cursor<'_>, n: u64) -> (r: Result<String, Error>)
        requires
            old(cursor).wf(),
        ensures
            final(cursor).wf(),
            final(cursor).bytes() == old(cursor).bytes(),
            final(cursor).pos() >= old(cursor).pos(),
            match chars6_spec(old(cursor).bits(), old(cursor).pos(), n as nat, seq![]) {
                Ok((cs, p)) => r is Ok && r.unwrap()@ == cs && final(cursor).pos() == p,
                Err(e) => r == Err::<String, Error>(e),
            },
    {
        let mut s = String::new();
        let mut k: u64 = 0;
        while k < n
            invariant
                cursor.wf(),
                cursor.bytes() == old(cursor).bytes(),
                cursor.pos() >= old(cursor).pos(),
                k <= n,
                chars6_spec(old(cursor).bits(), old(cursor).pos(), n as nat, seq![])
                    == chars6_spec(cursor.bits(), cursor.pos(), (n - k) as nat, s@),
            decreases n - k,
        {
            let ghost before = *cursor;
            match cursor.read(6) {
                Ok(v) => {
                    proof {
                        crate::bits::lemma_le_value_bound(
                            before.bits().subrange(before.pos(), before.pos() + 6),
                        );
                        vstd::arithmetic::power2::lemma2_to64();
                    }
                    push_char(&mut s, char6_decode(v));
                },
                Err(e) => {
                    return Err(Error::ReadBits(e));
                },
            }
            k = k + 1;
        }
        Ok(s)
    }

    /// Reads a blob: its byte count, 32-bit alignment, the bytes, 32-bit alignment.
    #[verifier::rlimit(100)]
    fn read_blob(cursor: &mut Cursor<'_>) -> (r: Result<Vec<u8>, Error>)
        requires
            old(cursor).wf(),
        ensures
            final(cursor).wf(),
            final(cursor).bytes() == old(cursor).bytes(),
            final(cursor).pos() >= old(cursor).pos(),
            match vbr_spec(old(cursor).bits(), old(cursor).pos(), 6) {
                Err(e) => r == Err::<Vec<u8>, Error>(Error::ReadBits(e)),
                Ok((n, p)) => match blob_spec(old(cursor).bytes(), p, n as nat) {
                    Ok((b, q)) => r is Ok && r.unwrap()@ == b && final(cursor).pos() == q,
                    Err(e) => r == Err::<Vec<u8>, Error>(e),
                },
            },
    {
        let length = match cursor.read_vbr(6) {
            Ok(v) => v,
            Err(e) => {
                return Err(Error::ReadBits(e));
            },
        };
        if let Err(e) = cursor.align32() {
            return Err(Error::ReadBits(e));
        }
        if length > cursor.unconsumed_bit_len() as u64 {
            return Err(Error::ReadBits(crate::bits::Error::BufferOverflow));
        }
        let data = match cursor.read_bytes(length as usize) {
            Ok(d) => vstd::slice::slice_to_vec(d),
            Err(e) => {
                return Err(Error::ReadBits(e));
            },
        };
        if let Err(e) = cursor.align32() {
            return Err(Error::ReadBits(e));
        }
        Ok(data)
    }

    /// Reads the payload that `op` describes.
    fn read_payload(cursor: &mut Cursor<'_>, op: &Option<PayloadOperand>) -> (r: Result<Option<Payload>, Error>)
        requires
            old(cursor).wf(),
        ensures
            final(cursor).wf(),
            final(cursor).bytes() == old(cursor).bytes(),
            final(cursor).pos() >= old(cursor).pos(),
            match payload_spec(old(cursor).bytes(), old(cursor).pos(), *op) {
                Ok((pl, p)) => r is Ok && payload_view(r.unwrap()) == pl && final(cursor).pos() == p,
                Err(e) => r == Err::<Option<Payload>, Error>(e),
            },
    {
        match op {
            None => Ok(None),
            Some(PayloadOperand::Array(element)) => {
                let length = match cursor.read_vbr(6) {
                    Ok(v) => v,
                    Err(e) => {
                        return Err(Error::ReadBits(e));
                    },
                };
                if matches!(element, ScalarOperand::Char6) {
                    match Self::read_char6_string(cursor, length) {
                        Ok(s) => Ok(Some(Payload::Char6String(s))),
                        Err(e) => Err(e),
                    }
                } else {
                    match Self::read_repeated(cursor, element, length) {
                        Ok(v) => Ok(Some(Payload::Array(v))),
                        Err(e) => Err(e),
                    }
                }
            },
            Some(PayloadOperand::Blob) => match Self::read_blob(cursor) {
                Ok(b) => Ok(Some(Payload::Blob(b))),
                Err(e) => Err(e),
            },
        }
    }

    /// Reads a record with an abbreviation: the whole record, payload included, so that
    /// the cursor ends at the first bit after it.
    pub fn from_cursor_abbrev(cursor: &mut Cursor<'_>, abbrev: &Abbreviation) -> (r: Result<Record, Error>)
        requires
            old(cursor).wf(),
        ensures
            final(cursor).wf(),
            final(cursor).bytes() == old(cursor).bytes(),
            final(cursor).pos() >= old(cursor).pos(),
            match abbrev_record_spec(old(cursor).bytes(), old(cursor).pos(), abbrev.fields@, abbrev.payload) {
                Ok((rec, p)) => r is Ok && r.unwrap()@ == rec && final(cursor).pos() == p,
                Err(e) => r == Err::<Record, Error>(e),
            },
    {
        if abbrev.fields.len() == 0 {
            return Err(Error::InvalidAbbrev);
        }
        let code = match Self::read_single_abbreviated_record_operand(cursor, &abbrev.fields[0]) {
            Ok(v) => v,
            Err(e) => {
                return Err(e);
            },
        };
        let ghost ops = abbrev.fields@;
        let ghost start = cursor.pos();
        let mut fields: Vec<u64> = Vec::new();
        let mut i: usize = 1;
        while i < abbrev.fields.len()
            invariant
                cursor.wf(),
                cursor.bytes() == old(cursor).bytes(),
                cursor.pos() >= old(cursor).pos(),
                ops == abbrev.fields@,
                1 <= i <= ops.len(),
                scalar_spec(old(cursor).bits(), old(cursor).pos(), ops[0]) == Ok::<(u64, int), Error>(
                    (code, start),
                ),
                scalars_spec(cursor.bits(), start, ops.skip(1), seq![]) == scalars_spec(
                    cursor.bits(),
                    cursor.pos(),
                    ops.skip(i as int),
                    fields@,
                ),
            decreases ops.len() - i,
        {
            assert(ops.skip(i as int)[0] == ops[i as int]);
            assert(ops.skip(i as int).skip(1) =~= ops.skip(i + 1));
            match Self::read_single_abbreviated_record_operand(cursor, &abbrev.fields[i]) {
                Ok(v) => fields.push(v),
                Err(e) => {
                    return Err(e);
                },
            }
            i = i + 1;
        }
        assert(ops.skip(i as int).len() == 0);
        let payload = match Self::read_payload(cursor, &abbrev.payload) {
            Ok(p) => p,
            Err(e) => {
                return Err(e);
            },
        };
        Ok(Record { id: code, fields, payload })
    }

    /// Reads an unabbreviated record.
    pub fn from_cursor(cursor: &mut Cursor<'_>) -> (r: Result<Record, Error>)
        requires
            old(cursor).wf(),
        ensures
            final(cursor).wf(),
            final(cursor).bytes() == old(cursor).bytes(),
            final(cursor).pos() >= old(cursor).pos(),
            match unabbrev_record_spec(old(cursor).bits(), old(cursor).pos()) {
                Ok((rec, p)) => r is Ok && r.unwrap()@ == rec && final(cursor).pos() == p,
                Err(e) => r == Err::<Record, Error>(e),
            },
    {
        let code = match cursor.read_vbr(6) {
            Ok(v) => v,
            Err(e) => {
                return Err(Error::ReadBits(e));
            },
        };
        let num_ops = match cursor.read_vbr(6) {
            Ok(v) => v,
            Err(e) => {
                return Err(Error::ReadBits(e));
            },
        };
        match Self::read_repeated(cursor, &ScalarOperand::Vbr(6), num_ops) {
            Ok(fields) => Ok(Record { id: code, fields, payload: None }),
            Err(e) => Err(e),
        }
    }
}

/// An item of a block: a nested block or a record.
#[derive(Debug)]
pub enum BitcodeElement {
    Block(Block),
    Record(Record),
}

/// A nested region of the stream, identified by an ID.
///
/// IDs 0 to 7 are reserved for standard blocks; 8 and up belong to the application.
#[derive(Debug)]
pub struct Block {
    /// Block ID.
    pub id: u64,
    /// The items of the block, in stream order.
    pub elements: Vec<BitcodeElement>,
}

/// What an element of the tree holds: a block with its ID and items, or a record.
pub enum ElementModel {
    Block(u64, Seq<ElementModel>),
    Record(RecordModel),
}

/// The model of an element of the tree.
pub open spec fn element_model(e: BitcodeElement) -> ElementModel
    decreases e,
{
    match e {
        BitcodeElement::Record(r) => ElementModel::Record(r@),
        BitcodeElement::Block(b) => ElementModel::Block(
            b.id,
            Seq::new(
                b.elements@.len(),
                |i: int|
                    if 0 <= i < b.elements@.len() {
                        element_model(b.elements@[i])
                    } else {
                        ElementModel::Block(0, seq![])
                    },
            ),
        ),
    }
}

fn clone_u64s(v: &Vec<u64>) -> (r: Vec<u64>)
    ensures
        r@ == v@,
{
    let mut r: Vec<u64> = Vec::new();
    let mut i: usize = 0;
    while i < v.len()
        invariant
            i <= v@.len(),
            r@ == v@.take(i as int),
        decreases v@.len() - i,
    {
        r.push(v[i]);
        i = i + 1;
        assert(r@ =~= v@.take(i as int));
    }
    assert(v@.take(i as int) =~= v@);
    r
}

fn clone_u8s(v: &Vec<u8>) -> (r: Vec<u8>)
    ensures
        r@ == v@,
{
    let mut r: Vec<u8> = Vec::new();
    let mut i: usize = 0;
    while i < v.len()
        invariant
            i <= v@.len(),
            r@ == v@.take(i as int),
        decreases v@.len() - i,
    {
        r.push(v[i]);
        i = i + 1;
        assert(r@ =~= v@.take(i as int));
    }
    assert(v@.take(i as int) =~= v@);
    r
}

/// A copy of an element and everything under it.
pub fn clone_element(e: &BitcodeElement) -> (r: BitcodeElement)
    ensures
        element_model(r) == element_model(*e),
    decreases *e,
{
    match e {
        BitcodeElement::Record(rec) => BitcodeElement::Record(rec.clone_record()),
        BitcodeElement::Block(b) => {
            let mut elements: Vec<BitcodeElement> = Vec::new();
            let mut i: usize = 0;
            while i < b.elements.len()
                invariant
                    *e is Block,
                    (*e)->Block_0 == *b,
                    i <= b.elements@.len(),
                    elements@.len() == i,
                    forall|j: int| 0 <= j < i ==> element_model(#[trigger] elements@[j]) == element_model(b.elements@[j]),
                decreases b.elements@.len() - i,
            {
                proof {
                    assert(*b == (*e)->Block_0);
                    assert(decreases_to!(*e => (*e)->Block_0));
                    assert(decreases_to!((*e)->Block_0 => (*e)->Block_0.elements));
                    assert(decreases_to!(b.elements => b.elements@));
                    assert(decreases_to!(b.elements@ => b.elements@[i as int]));
                }
                elements.push(clone_element(&b.elements[i]));
                i = i + 1;
            }
            let r = BitcodeElement::Block(Block { id: b.id, elements });
            proof {
                let m1 = element_model(r);
                let m2 = element_model(*e);
                assert(m1->Block_1 =~= m2->Block_1);
            }
            r
        },
    }
}

impl Clone for BitcodeElement {
    fn clone(&self) -> Self {
        clone_element(self)
    }
}

impl Clone for Block {
    fn clone(&self) -> Self {
        let mut elements: Vec<BitcodeElement> = Vec::new();
        let mut i: usize = 0;
        while i < self.elements.len()
            invariant
                i <= self.elements@.len(),
            decreases self.elements@.len() - i,
        {
            elements.push(clone_element(&self.elements[i]));
            i = i + 1;
        }
        Block { id: self.id, elements }
    }
}

impl BitcodeElement {
    pub fn is_block(&self) -> (r: bool)
        ensures
            r == (*self is Block),
    {
        matches!(self, Self::Block(_))
    }

    /// The block, if the element is one.
    pub fn as_block(&self) -> (r: Option<&Block>)
        ensures
            match self {
                BitcodeElement::Block(b) => r == Some(b),
                BitcodeElement::Record(_) => r is None,
            },
    {
        match self {
            Self::Block(block) => Some(block),
            Self::Record(_) => None,
        }
    }

    /// The block, mutably, if the element is one.
    pub fn as_block_mut(&mut self) -> (r: Option<&mut Block>)
        ensures
            r is Some <==> *old(self) is Block,
            r is Some ==> *r.unwrap() == (*old(self))->Block_0,
    {
        match self {
            Self::Block(block) => Some(block),
            Self::Record(_) => None,
        }
    }

    /// The record, mutably, if the element is one.
    pub fn as_record_mut(&mut self) -> (r: Option<&mut Record>)
        ensures
            r is Some <==> *old(self) is Record,
            r is Some ==> *r.unwrap() == (*old(self))->Record_0,
    {
        match self {
            Self::Block(_) => None,
            Self::Record(record) => Some(record),
        }
    }

    pub fn is_record(&self) -> (r: bool)
        ensures
            r == (*self is Record),
    {
        matches!(self, Self::Record(_))
    }

    /// The record, if the element is one.
    pub fn as_record(&self) -> (r: Option<&Record>)
        ensures
            match self {
                BitcodeElement::Record(rec) => r == Some(rec),
                BitcodeElement::Block(_) => r is None,
            },
    {
        match self {
            Self::Block(_) => None,
            Self::Record(record) => Some(record),
        }
    }
}

/// Names of a block kind and of its record codes, as `BLOCKINFO` gives them.
#[derive(Debug, Clone)]
pub struct BlockInfo {
    /// Block name.
    pub name: String,
    /// Record names by record code.
    pub record_names: HashMap<u64, String>,
}

impl Default for BlockInfo {
    fn default() -> (r: Self)
        ensures
            r.name@.len() == 0,
            r.record_names@ == Map::<u64, String>::empty(),
    {
        BlockInfo { name: String::new(), record_names: HashMap::new() }
    }
}

/// The magic number of the LLVM bitcode wrapper header.
pub const LLVM_BITCODE_WRAPPER_MAGIC: u32 = 0x0B17C0DE;

/// The header of a stream: its magic number and, for a wrapped stream, the wrapper fields.
#[derive(Debug, Clone, Copy, PartialEq, Eq, PartialOrd, Ord, Structural)]
pub struct Signature {
    pub magic: u32,
    pub magic2: u32,
    pub version: u32,
    pub offset: u32,
    pub size: u32,
    pub cpu_type: u32,
}

/// The little-endian 32-bit word at byte `i`.
pub open spec fn le_u32(b: Seq<u8>, i: int) -> u32 {
    (b[i] as int + 256 * b[i + 1] as int + 65536 * b[i + 2] as int + 16777216 * b[i + 3] as int) as u32
}

/// The signature of a buffer and the bytes where its bitstream starts. A raw stream's
/// signature is its first word; a wrapped stream's bitstream is the region the header
/// points to, whose first word is `magic2`.
pub open spec fn signature_spec(data: Seq<u8>) -> Option<(Signature, Seq<u8>)> {
    if data.len() < 4 {
        None
    } else if le_u32(data, 0) != LLVM_BITCODE_WRAPPER_MAGIC {
        Some(
            (
                Signature {
                    magic: le_u32(data, 0),
                    magic2: 0,
                    version: 0,
                    offset: 4,
                    size: (data.len() - 4) as u32,
                    cpu_type: 0,
                },
                data.skip(4),
            ),
        )
    } else if data.len() < 20 {
        None
    } else {
        let offset = le_u32(data, 8);
        let size = le_u32(data, 12);
        if offset + size > data.len() || size < 4 {
            None
        } else {
            Some(
                (
                    Signature {
                        magic: le_u32(data, 0),
                        magic2: le_u32(data, offset as int),
                        version: le_u32(data, 4),
                        offset,
                        size,
                        cpu_type: le_u32(data, 16),
                    },
                    data.subrange(offset + 4, offset + size),
                ),
            )
        }
    }
}

fn read_le_u32(b: &[u8], i: usize) -> (r: u32)
    requires
        i + 4 <= b@.len(),
    ensures
        r == le_u32(b@, i as int),
{
    b[i] as u32 + 256 * (b[i + 1] as u32) + 65536 * (b[i + 2] as u32) + 16777216 * (b[i + 3] as u32)
}

impl Signature {
    /// Reads the signature; `None` where the buffer is too short or the wrapper header
    /// points outside it.
    pub fn parse(data: &[u8]) -> (r: Option<(Self, &[u8])>)
        ensures
            match signature_spec(data@) {
                Some((sig, rest)) => r is Some && r.unwrap().0 == sig && r.unwrap().1@ == rest,
                None => r is None,
            },
    {
        if data.len() < 4 {
            return None;
        }
        let magic = read_le_u32(data, 0);
        if magic != LLVM_BITCODE_WRAPPER_MAGIC {
            let remaining = vstd::slice::slice_subrange(data, 4, data.len());
            return Some(
                (
                    Signature {
                        version: 0,
                        magic,
                        magic2: 0,
                        offset: 4,
                        size: (data.len() - 4) as u32,
                        cpu_type: 0,
                    },
                    remaining,
                ),
            );
        }
        if data.len() < 20 {
            return None;
        }
        let version = read_le_u32(data, 4);
        let offset = read_le_u32(data, 8);
        let size = read_le_u32(data, 12);
        let cpu_type = read_le_u32(data, 16);
        if offset as u64 + size as u64 > data.len() as u64 || size < 4 {
            return None;
        }
        let start = offset as usize;
        let end = start + size as usize;
        let magic2 = read_le_u32(data, start);
        let remaining = vstd::slice::slice_subrange(data, start + 4, end);
        Some((Signature { magic, magic2, version, offset, size, cpu_type }, remaining))
    }
}

/// For a wrapped buffer whose header points to a region inside it, that region lies within
/// the buffer, and reading the region as a raw stream (its first word not being the wrapper
/// magic) yields its first word as the magic and hands on the same bytes as the wrapped
/// reading did.
pub proof fn lemma_wrapper_region(data: Seq<u8>)
    requires
        data.len() >= 4,
        le_u32(data, 0) == LLVM_BITCODE_WRAPPER_MAGIC,
        signature_spec(data) is Some,
        le_u32(
            data,
            signature_spec(data).unwrap().0.offset as int,
        ) != LLVM_BITCODE_WRAPPER_MAGIC,
    ensures
        ({
            let (sig, rest) = signature_spec(data).unwrap();
            let inner = data.subrange(sig.offset as int, sig.offset + sig.size);
            &&& sig.offset + sig.size <= data.len()
            &&& signature_spec(inner) is Some
            &&& signature_spec(inner).unwrap().0.magic == sig.magic2
            &&& signature_spec(inner).unwrap().1 == rest
        }),
{
    let (sig, rest) = signature_spec(data).unwrap();
    let inner = data.subrange(sig.offset as int, sig.offset + sig.size);
    assert(le_u32(inner, 0) == le_u32(data, sig.offset as int));
    assert(inner.skip(4) =~= rest);
}

/// The contents of a bitstream: its signature, its top-level items, and the block names
/// from its `BLOCKINFO` blocks.
#[derive(Debug)]
pub struct Bitcode {
    pub signature: Signature,
    pub elements: Vec<BitcodeElement>,
    pub block_info: HashMap<u64, BlockInfo>,
}

impl Bitcode {
    /// Reads a whole bitstream, raw or wrapped, into a tree of blocks and records. It
    /// succeeds on every stream whose reading succeeds whatever a visitor would answer;
    /// its block names are those the reading gives.
    pub fn new(data: &[u8]) -> (r: Result<Self, Error>)
        requires
            8 * data@.len() <= usize::MAX,
        ensures
            signature_spec(data@) is None ==> r == Err::<Self, Error>(Error::InvalidSignature(0)),
            r is Ok ==> signature_spec(data@) is Some && r.unwrap().signature == signature_spec(
                data@,
            ).unwrap().0,
            signature_spec(data@) is Some && walk_succeeds(
                signature_spec(data@).unwrap().1,
                0,
                TOP_LEVEL_BLOCK_ID,
                2,
                empty_run_state(),
                0,
            ) ==> r is Ok,
            signature_spec(data@) is Some ==> exists|n: nat|
                #[trigger] walk(
                    signature_spec(data@).unwrap().1,
                    0,
                    TOP_LEVEL_BLOCK_ID,
                    2,
                    seq![],
                    empty_run_state(),
                    yes(n),
                    0,
                ).2 == n && match walk(
                    signature_spec(data@).unwrap().1,
                    0,
                    TOP_LEVEL_BLOCK_ID,
                    2,
                    seq![],
                    empty_run_state(),
                    yes(n),
                    0,
                ).1 {
                    Ok((_, st)) => {
                        &&& r is Ok
                        &&& names_model(r.unwrap().block_info@) == st.names
                        &&& r.unwrap().elements@.map_values(|e: BitcodeElement| element_model(e)) == tree_of(
                            walk(
                                signature_spec(data@).unwrap().1,
                                0,
                                TOP_LEVEL_BLOCK_ID,
                                2,
                                seq![],
                                empty_run_state(),
                                yes(n),
                                0,
                            ).0,
                        )
                    },
                    Err(e) => r == Err::<Self, Error>(e),
                },
    {
        let (signature, stream) = match Signature::parse(data) {
            Some(p) => p,
            None => {
                return Err(Error::InvalidSignature(0));
            },
        };
        let mut reader = BitStreamReader::new();
        let mut visitor = CollectingVisitor::new();
        let mut cursor = Cursor::new(stream);
        let res = reader.read_block(&mut cursor, TOP_LEVEL_BLOCK_ID, 2, &mut visitor);
        let ghost ans = reader.answers();
        proof {
            assert(reader.answers().skip(0) =~= ans);
            assert(reader.calls().skip(0) =~= reader.calls());
            assert(visitor.log() =~= reader.calls());
            assert(ans =~= yes(ans.len()));
            lemma_begins_with_refl(ans);
            let _ = walk(stream@, 0, TOP_LEVEL_BLOCK_ID, 2, seq![], empty_run_state(), yes(ans.len()), 0);
        }
        if let Err(e) = res {
            return Err(e);
        }
        let ghost answers = reader.answers();
        let ghost names = reader.names();
        let block_info = reader.into_block_info();
        let ghost log = visitor.log();
        let elements = visitor.finalize_top_level_elements();
        let r = Self { signature, elements, block_info };
        proof {
            let w = walk(stream@, 0, TOP_LEVEL_BLOCK_ID, 2, seq![], empty_run_state(), yes(ans.len()), 0);
            assert(w.0 == log);
        }
        Ok(r)
    }

    /// Reads a bitstream, raw or wrapped, handing its contents to `visitor`, with a fresh
    /// reader's `read_stream`: the visitor first sees the signature; if it refuses it, the
    /// read fails with its magic number. Otherwise the read succeeds on every stream whose
    /// reading succeeds whatever the visitor answers.
    pub fn read<V: BitStreamVisitor>(data: &[u8], visitor: &mut V) -> (r: Result<(), Error>)
        requires
            8 * data@.len() <= usize::MAX,
        ensures
            signature_spec(data@) is None ==> r == Err::<(), Error>(Error::InvalidSignature(0))
                && *final(visitor) == *old(visitor),
            r is Ok ==> signature_spec(data@) is Some,
            signature_spec(data@) is Some && walk_succeeds(
                signature_spec(data@).unwrap().1,
                0,
                TOP_LEVEL_BLOCK_ID,
                2,
                empty_run_state(),
                0,
            ) ==> r is Ok || r == Err::<(), Error>(
                Error::InvalidSignature(signature_spec(data@).unwrap().0.magic),
            ),
            old(visitor).tracks() && signature_spec(data@) is Some && !old(visitor).accepts(
                signature_spec(data@).unwrap().0,
            ) ==> r == Err::<(), Error>(Error::InvalidSignature(signature_spec(data@).unwrap().0.magic))
                && final(visitor).log() == old(visitor).log(),
            old(visitor).tracks() && signature_spec(data@) is Some && old(visitor).accepts(
                signature_spec(data@).unwrap().0,
            ) ==> final(visitor).log().len() >= old(visitor).log().len() && final(visitor).log().take(
                old(visitor).log().len() as int,
            ) == old(visitor).log() && exists|a: Seq<bool>|
                run_agrees(
                #[trigger] walk(
                    signature_spec(data@).unwrap().1,
                    0,
                    TOP_LEVEL_BLOCK_ID,
                    2,
                    seq![],
                    empty_run_state(),
                    a,
                    0,
                ),
                final(visitor).log().skip(old(visitor).log().len() as int),
                r,
            ),
            old(visitor).tracks() && old(visitor).enters_all() && signature_spec(data@) is Some
                && old(visitor).accepts(signature_spec(data@).unwrap().0) ==> exists|n: nat|
                run_agrees(
                #[trigger] walk(
                    signature_spec(data@).unwrap().1,
                    0,
                    TOP_LEVEL_BLOCK_ID,
                    2,
                    seq![],
                    empty_run_state(),
                    yes(n),
                    0,
                ),
                final(visitor).log().skip(old(visitor).log().len() as int),
                r,
            ) && walk(
                signature_spec(data@).unwrap().1,
                0,
                TOP_LEVEL_BLOCK_ID,
                2,
                seq![],
                empty_run_state(),
                yes(n),
                0,
            ).2 == n,
            old(visitor).tracks() && signature_spec(data@) is Some && old(visitor).accepts(
                signature_spec(data@).unwrap().0,
            ) && walk_succeeds(
                signature_spec(data@).unwrap().1,
                0,
                TOP_LEVEL_BLOCK_ID,
                2,
                empty_run_state(),
                0,
            ) ==> r is Ok,
    {
        let mut reader = BitStreamReader::new();
        let r = reader.read_stream(data, visitor);
        proof {
            if signature_spec(data@) is Some {
                let calls = reader.calls().skip(1);
                let ans = reader.answers();
                assert(reader.answers().skip(0) =~= ans);
                if old(visitor).tracks() {
                    assert(visitor.log().take(old(visitor).log().len() as int) =~= old(visitor).log());
                    assert(visitor.log().skip(old(visitor).log().len() as int) =~= calls);
                    if old(visitor).enters_all() {
                        assert(ans =~= yes(ans.len()));
                        lemma_begins_with_refl(ans);
                        let _ = walk(
                            signature_spec(data@).unwrap().1,
                            0,
                            TOP_LEVEL_BLOCK_ID,
                            2,
                            seq![],
                            empty_run_state(),
                            yes(ans.len()),
                            0,
                        );
                    }
                    if !old(visitor).accepts(signature_spec(data@).unwrap().0) {
                        assert(calls =~= Seq::<VisitorCall>::empty());
                        assert(visitor.log() =~= old(visitor).log());
                    }
                }
                lemma_begins_with_refl(reader.answers());
                let _ = walk(
                    signature_spec(data@).unwrap().1,
                    0,
                    TOP_LEVEL_BLOCK_ID,
                    2,
                    seq![],
                    empty_run_state(),
                    reader.answers(),
                    0,
                );
            }
        }
        r
    }
}

} // verus!
