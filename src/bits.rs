use vstd::arithmetic::power2::{lemma2_to64, lemma2_to64_rest, lemma_pow2_adds, lemma_pow2_pos, lemma_pow2_strictly_increases, pow2};
use vstd::bits::lemma_u64_shl_is_mul;
use vstd::prelude::*;

verus! {

/// Low-level cursor failures.
#[derive(Debug, Clone, Copy, PartialEq, Eq, Structural)]
pub enum Error {
    /// Fewer bits or bytes remain than were asked for.
    BufferOverflow,
    /// A width outside the legal range, or a VBR value whose chunks run past 64 bits.
    VbrOverflow,
    /// A byte read at a position that is not byte-aligned.
    Alignment,
}

/// Bit `i` of a byte sequence: bytes in order, least significant bit of each byte first.
pub open spec fn bit_at(bytes: Seq<u8>, i: int) -> bool {
    (bytes[i / 8] >> ((i % 8) as u8)) & 1u8 == 1u8
}

/// The bits of a byte sequence, in stream order.
pub open spec fn bits_of(bytes: Seq<u8>) -> Seq<bool> {
    Seq::new(8 * bytes.len(), |i: int| bit_at(bytes, i))
}

/// The number whose binary digits are `s`, least significant first.
pub open spec fn le_value(s: Seq<bool>) -> nat
    decreases s.len(),
{
    if s.len() == 0 {
        0
    } else {
        le_value(s.drop_last()) + if s.last() {
            pow2((s.len() - 1) as nat)
        } else {
            0nat
        }
    }
}

/// Outcome of reading `n` bits at bit position `pos`: the value and the position after it.
pub open spec fn read_spec(bits: Seq<bool>, pos: int, n: nat) -> Result<(u64, int), Error> {
    if n < 1 || n > 64 {
        Err(Error::VbrOverflow)
    } else if pos + n > bits.len() {
        Err(Error::BufferOverflow)
    } else {
        Ok((le_value(bits.subrange(pos, pos + n)) as u64, pos + n))
    }
}

/// Decodes VBR chunks of width `w` from the front of `s`, the first of them placed at bit
/// `shift` of the result. Gives the sum of the placed payloads and the number of bits taken.
/// A chunk whose place is 64 or more is an overflow.
pub open spec fn vbr_chunks(s: Seq<bool>, w: nat, shift: nat) -> Result<(nat, nat), Error>
    decreases s.len(),
{
    if w == 0 || s.len() < w {
        Err(Error::BufferOverflow)
    } else if shift >= 64 {
        Err(Error::VbrOverflow)
    } else {
        let part = le_value(s.take(w - 1)) * pow2(shift);
        if !s[w - 1] {
            Ok((part, w))
        } else {
            match vbr_chunks(s.skip(w as int), w, shift + (w - 1) as nat) {
                Ok((v, n)) => Ok((part + v, n + w)),
                Err(e) => Err(e),
            }
        }
    }
}

/// Outcome of reading a VBR number of chunk width `w` at bit position `pos`: the value,
/// truncated to 64 bits, and the position after its last chunk.
pub open spec fn vbr_spec(bits: Seq<bool>, pos: int, w: nat) -> Result<(u64, int), Error> {
    if w < 1 || w > 32 {
        Err(Error::VbrOverflow)
    } else {
        match vbr_chunks(bits.subrange(pos, bits.len() as int), w, 0) {
            Ok((v, n)) => Ok((v as u64, pos + n)),
            Err(e) => Err(e),
        }
    }
}

/// Outcome of reading the rest of a VBR number from chunk position `pos`, the chunks read
/// so far having summed to `acc` and the next chunk being placed at bit `shift`.
pub open spec fn vbr_tail(bits: Seq<bool>, pos: int, w: nat, shift: nat, acc: nat) -> Result<(u64, int), Error> {
    match vbr_chunks(bits.subrange(pos, bits.len() as int), w, shift) {
        Ok((v, n)) => Ok(((acc + v) as u64, pos + n)),
        Err(e) => Err(e),
    }
}

proof fn lemma_vbr_tail_short(bits: Seq<bool>, pos: int, w: nat, shift: nat, acc: nat)
    requires
        0 <= pos <= bits.len(),
        1 <= w,
        pos + w > bits.len(),
    ensures
        vbr_tail(bits, pos, w, shift, acc) == Err::<(u64, int), Error>(Error::BufferOverflow),
{
}

proof fn lemma_vbr_tail_overflow(bits: Seq<bool>, pos: int, w: nat, shift: nat, acc: nat)
    requires
        0 <= pos,
        1 <= w,
        pos + w <= bits.len(),
        shift >= 64,
    ensures
        vbr_tail(bits, pos, w, shift, acc) == Err::<(u64, int), Error>(Error::VbrOverflow),
{
}

proof fn lemma_vbr_tail_step(bits: Seq<bool>, pos: int, w: nat, shift: nat, acc: nat, c: nat)
    requires
        0 <= pos,
        1 <= w <= 32,
        pos + w <= bits.len(),
        shift < 64,
        c == le_value(bits.subrange(pos, pos + w)) as u64,
    ensures
        ({
            let t = pow2((w - 1) as nat);
            let p: nat = if c >= t { (c - t) as nat } else { c };
            &&& p < t
            &&& p == le_value(bits.subrange(pos, pos + w - 1))
            &&& c < t ==> vbr_tail(bits, pos, w, shift, acc) == Ok::<(u64, int), Error>(
                ((acc + p * pow2(shift)) as u64, pos + w),
            )
            &&& c >= t ==> vbr_tail(bits, pos, w, shift, acc) == vbr_tail(
                bits,
                pos + w,
                w,
                shift + (w - 1) as nat,
                acc + p * pow2(shift),
            )
        }),
{
    let rest = bits.subrange(pos, bits.len() as int);
    let chunk = bits.subrange(pos, pos + w);
    assert(chunk.drop_last() =~= rest.take(w - 1));
    assert(chunk.drop_last() =~= bits.subrange(pos, pos + w - 1));
    assert(chunk.last() == rest[w - 1]);
    assert(rest.skip(w as int) =~= bits.subrange(pos + w, bits.len() as int));
    lemma2_to64();
    lemma_le_value_bound(chunk.drop_last());
    lemma_le_value_bound(chunk);
    if w < 32 {
        lemma_pow2_strictly_increases(w, 32);
    }
    assert(le_value(chunk) == le_value(chunk.drop_last()) + if chunk.last() {
        pow2((w - 1) as nat)
    } else {
        0nat
    });
    let part = le_value(rest.take(w - 1)) * pow2(shift);
    if !rest[w - 1] {
        assert(vbr_chunks(rest, w, shift) == Ok::<(nat, nat), Error>((part, w)));
    }
}

proof fn lemma_vbr_place(res: nat, p: nat, shift: nat, w: nat)
    requires
        res < pow2(shift),
        p < pow2((w - 1) as nat),
        shift < 64,
        1 <= w <= 32,
    ensures
        res + p * pow2(shift) < pow2(shift + (w - 1) as nat),
        pow2(shift) * pow2((w - 1) as nat) == pow2(shift + (w - 1) as nat),
        pow2(shift) <= 0x8000_0000_0000_0000,
        pow2((w - 1) as nat) <= 0x8000_0000,
        res + p * pow2(shift) < 0x1_0000_0000_0000_0000_0000_0000,
        pow2(shift) * pow2((w - 1) as nat) <= 0x8000_0000 * 0x8000_0000_0000_0000,
{
    lemma2_to64();
    lemma2_to64_rest();
    if shift < 63 {
        lemma_pow2_strictly_increases(shift, 63);
    }
    if w < 32 {
        lemma_pow2_strictly_increases((w - 1) as nat, 31);
    }
    lemma_pow2_adds(shift, (w - 1) as nat);
    let pl = pow2(shift);
    let t = pow2((w - 1) as nat);
    assert(res + p * pl < t * pl) by (nonlinear_arith)
        requires
            p < t,
            res < pl,
    ;
    assert(t * pl == pl * t) by (nonlinear_arith);
    assert(pl * t <= 0x8000_0000 * 0x8000_0000_0000_0000) by (nonlinear_arith)
        requires
            t <= 0x8000_0000,
            pl <= 0x8000_0000_0000_0000,
    ;
}

/// The first multiple of 32 at or after `pos`.
pub open spec fn align32_spec(pos: int) -> int {
    if pos % 32 == 0 {
        pos
    } else {
        pos - pos % 32 + 32
    }
}

/// A run of `n` bits is worth less than `2^n`.
pub proof fn lemma_le_value_bound(s: Seq<bool>)
    ensures
        le_value(s) < pow2(s.len()),
    decreases s.len(),
{
    if s.len() > 0 {
        lemma_le_value_bound(s.drop_last());
        lemma_pow2_adds((s.len() - 1) as nat, 1);
        lemma2_to64();
    } else {
        lemma2_to64();
    }
}

/// Splitting a run of bits in two: the value of the whole is the value of the first part
/// plus the value of the second part placed after it.
pub proof fn lemma_le_value_split(s: Seq<bool>, k: int)
    requires
        0 <= k <= s.len(),
    ensures
        le_value(s) == le_value(s.take(k)) + pow2(k as nat) * le_value(s.skip(k)),
    decreases s.len(),
{
    if s.len() == k {
        assert(s.take(k) =~= s);
        assert(s.skip(k).len() == 0);
        assert(le_value(s.skip(k)) == 0);
        assert(pow2(k as nat) * 0 == 0) by (nonlinear_arith);
    } else {
        let t = s.skip(k);
        lemma_le_value_split(s.drop_last(), k);
        assert(s.drop_last().take(k) =~= s.take(k));
        assert(t.drop_last() =~= s.drop_last().skip(k));
        assert(t.last() == s.last());
        lemma_pow2_adds(k as nat, (s.len() - 1 - k) as nat);
        let a = le_value(t.drop_last());
        let b: nat = if s.last() { pow2((s.len() - 1 - k) as nat) } else { 0 };
        let c: nat = if s.last() { pow2((s.len() - 1) as nat) } else { 0 };
        assert(le_value(t) == a + b);
        assert(le_value(s) == le_value(s.drop_last()) + c);
        assert(c == pow2(k as nat) * b);
        assert(pow2(k as nat) * (a + b) == pow2(k as nat) * a + pow2(k as nat) * b) by (nonlinear_arith);
    }
}

/// Sum of a sequence of widths.
pub open spec fn total_width(widths: Seq<nat>) -> nat
    decreases widths.len(),
{
    if widths.len() == 0 {
        0
    } else {
        widths[0] + total_width(widths.skip(1))
    }
}

/// The values of successive reads of the given widths from `pos`, each placed after the
/// bits of the reads before it.
pub open spec fn successive_reads(bits: Seq<bool>, pos: int, widths: Seq<nat>) -> nat
    decreases widths.len(),
{
    if widths.len() == 0 {
        0
    } else {
        match read_spec(bits, pos, widths[0]) {
            Ok((v, p)) => v as nat + pow2(widths[0]) * successive_reads(bits, p, widths.skip(1)),
            Err(_) => 0,
        }
    }
}

/// Reading a run of bits in pieces of any widths from 1 to 64 each, and placing each value
/// after the ones before it, gives back the value of the whole run: the low-order bits of
/// the buffer from that position, least significant bit of each byte first.
pub proof fn lemma_successive_reads(bits: Seq<bool>, pos: int, widths: Seq<nat>)
    requires
        0 <= pos,
        pos + total_width(widths) <= bits.len(),
        forall|i: int| 0 <= i < widths.len() ==> 1 <= #[trigger] widths[i] <= 64,
    ensures
        successive_reads(bits, pos, widths) == le_value(
            bits.subrange(pos, pos + total_width(widths)),
        ),
    decreases widths.len(),
{
    let whole = bits.subrange(pos, pos + total_width(widths));
    if widths.len() == 0 {
        assert(whole.len() == 0);
    } else {
        let w = widths[0];
        assert(forall|i: int| 0 <= i < widths.skip(1).len() ==> widths.skip(1)[i] == widths[i + 1]);
        lemma_successive_reads(bits, pos + w, widths.skip(1));
        lemma_le_value_bound(bits.subrange(pos, pos + w));
        lemma2_to64();
        if w < 64 {
            lemma_pow2_strictly_increases(w, 64);
        }
        lemma_le_value_split(whole, w as int);
        assert(whole.take(w as int) =~= bits.subrange(pos, pos + w));
        assert(whole.skip(w as int) =~= bits.subrange(pos + w, pos + total_width(widths)));
    }
}

/// The `n` low binary digits of `x`, least significant first.
pub open spec fn le_bits(x: nat, n: nat) -> Seq<bool> {
    Seq::new(n, |i: int| (x / pow2(i as nat)) % 2 == 1)
}

/// The VBR encoding of `x` in chunks of `w` bits: each chunk holds the next `w - 1` low
/// digits and then a bit that is set when another chunk follows.
pub open spec fn vbr_encode(x: nat, w: nat) -> Seq<bool>
    decreases x via vbr_encode_decreases
{
    if w < 2 {
        seq![]
    } else {
        let chunk = le_bits(x % pow2((w - 1) as nat), (w - 1) as nat);
        if x < pow2((w - 1) as nat) {
            chunk.push(false)
        } else {
            chunk.push(true) + vbr_encode(x / pow2((w - 1) as nat), w)
        }
    }
}

#[via_fn]
proof fn vbr_encode_decreases(x: nat, w: nat) {
    if w >= 2 && x >= pow2((w - 1) as nat) {
        lemma_pow2_strictly_increases(0, (w - 1) as nat);
        lemma2_to64();
        assert(x / pow2((w - 1) as nat) < x) by (nonlinear_arith)
            requires pow2((w - 1) as nat) > 1, x > 0;
    }
}

proof fn lemma_le_bits_value(x: nat, n: nat)
    ensures
        le_value(le_bits(x, n)) == x % pow2(n),
    decreases n,
{
    lemma_pow2_pos(n);
    if n == 0 {
        lemma2_to64();
        assert(le_bits(x, n).len() == 0);
    } else {
        let b = le_bits(x, n);
        assert(b.drop_last() =~= le_bits(x, (n - 1) as nat));
        lemma_le_bits_value(x, (n - 1) as nat);
        let p = pow2((n - 1) as nat);
        lemma_pow2_pos((n - 1) as nat);
        vstd::arithmetic::power2::lemma_pow2_unfold(n);
        vstd::arithmetic::div_mod::lemma_mod_breakdown(x as int, p as int, 2);
        assert(p * 2 == pow2(n));
        let d = (x / p) % 2;
        assert(b.last() == (d == 1));
        if d == 1 {
            assert(p * d == p) by (nonlinear_arith)
                requires d == 1;
        } else {
            assert(p * d == 0);
        }
    }
}

proof fn lemma_vbr_chunks_encode(y: nat, w: nat, shift: nat, rest: Seq<bool>)
    requires
        2 <= w <= 32,
        shift < 64,
        y * pow2(shift) < pow2(64),
    ensures
        vbr_chunks(vbr_encode(y, w) + rest, w, shift) == Ok::<(nat, nat), Error>(
            (y * pow2(shift), vbr_encode(y, w).len()),
        ),
    decreases y,
{
    let p = pow2((w - 1) as nat);
    lemma_pow2_pos((w - 1) as nat);
    lemma_pow2_pos(shift);
    let e = vbr_encode(y, w);
    let s = e + rest;
    let low = y % p;
    let chunk = le_bits(low, (w - 1) as nat);
    lemma_le_bits_value(low, (w - 1) as nat);
    vstd::arithmetic::div_mod::lemma_small_mod(low, p);
    assert(s.take(w - 1) =~= chunk);
    if y < p {
        vstd::arithmetic::div_mod::lemma_small_mod(y, p);
        assert(e == chunk.push(false));
        assert(s[w - 1] == false);
    } else {
        let q = y / p;
        assert(e == chunk.push(true) + vbr_encode(q, w));
        assert(s[w - 1] == true);
        assert(s.skip(w as int) =~= vbr_encode(q, w) + rest);
        vstd::arithmetic::div_mod::lemma_fundamental_div_mod(y as int, p as int);
        lemma_pow2_adds(shift, (w - 1) as nat);
        let ps = pow2(shift);
        let shift2 = shift + (w - 1) as nat;
        assert(q >= 1) by {
            vstd::arithmetic::div_mod::lemma_div_pos_is_pos(y as int, p as int);
            if q == 0 {
                assert(y == p * q + low);
                assert(p * q == 0) by (nonlinear_arith) requires q == 0;
            }
        }
        assert(q * pow2(shift2) <= y * ps) by (nonlinear_arith)
            requires
                pow2(shift2) == ps * p,
                y == p * q + low,
                low >= 0,
                ps > 0,
        ;
        if shift2 >= 64 {
            if shift2 > 64 {
                lemma_pow2_strictly_increases(64, shift2);
            }
            assert(q * pow2(shift2) >= pow2(shift2)) by (nonlinear_arith)
                requires q >= 1, pow2(shift2) > 0;
            lemma_pow2_pos(shift2);
        }
        lemma_vbr_chunks_encode(q, w, shift2, rest);
        assert(low * ps + q * pow2(shift2) == y * ps) by (nonlinear_arith)
            requires
                pow2(shift2) == ps * p,
                y == p * q + low,
        ;
    }
}

/// Any 64-bit number written in VBR with a chunk width from 2 to 32 reads back as itself,
/// whatever follows it, and the read ends right after its last chunk.
pub proof fn lemma_vbr_round_trip(x: u64, w: nat, rest: Seq<bool>)
    requires
        2 <= w <= 32,
    ensures
        vbr_spec(vbr_encode(x as nat, w) + rest, 0, w) == Ok::<(u64, int), Error>(
            (x, vbr_encode(x as nat, w).len() as int),
        ),
{
    let s = vbr_encode(x as nat, w) + rest;
    lemma2_to64();
    assert(x * pow2(0) == x);
    lemma_vbr_chunks_encode(x as nat, w, 0, rest);
    assert(s.subrange(0, s.len() as int) =~= s);
}

/// A read position over a borrowed byte buffer, counted in bits.
#[derive(Debug, Clone, Copy)]
pub struct Cursor<'input> {
    buffer: &'input [u8],
    offset: usize,
}

impl<'input> Cursor<'input> {
    /// The bytes the cursor reads.
    pub closed spec fn bytes(&self) -> Seq<u8> {
        self.buffer@
    }

    /// The bit position of the next read.
    pub closed spec fn pos(&self) -> int {
        self.offset as int
    }

    /// The bits the cursor reads, in stream order.
    pub open spec fn bits(&self) -> Seq<bool> {
        bits_of(self.bytes())
    }

    /// The position lies within the buffer, whose bit length fits in `usize`.
    pub open spec fn wf(&self) -> bool {
        0 <= self.pos() <= 8 * self.bytes().len() <= usize::MAX
    }

    /// A cursor at the first bit of `buffer`.
    pub fn new(buffer: &'input [u8]) -> (r: Self)
        requires
            8 * buffer@.len() <= usize::MAX,
        ensures
            r.wf(),
            r.bytes() == buffer@,
            r.pos() == 0,
    {
        Self { buffer, offset: 0 }
    }

    /// Whether every bit has been read.
    pub fn is_at_end(&self) -> (r: bool)
        requires
            self.wf(),
        ensures
            r == (self.pos() >= 8 * self.bytes().len()),
    {
        self.offset >= self.buffer.len() * 8
    }

    /// The next `bits` bits, without moving.
    pub fn peek(&self, bits: usize) -> (r: Result<u64, Error>)
        requires
            self.wf(),
        ensures
            match read_spec(self.bits(), self.pos(), bits as nat) {
                Ok((v, _)) => r == Ok::<u64, Error>(v),
                Err(e) => r == Err::<u64, Error>(e),
            },
    {
        if bits < 1 || bits > 64 {
            return Err(Error::VbrOverflow);
        }
        if bits > self.buffer.len() * 8 - self.offset {
            return Err(Error::BufferOverflow);
        }
        Ok(self.read_bits(bits))
    }

    /// The next `bits` bits; the cursor moves past them.
    pub fn read(&mut self, bits: usize) -> (r: Result<u64, Error>)
        requires
            old(self).wf(),
        ensures
            final(self).wf(),
            final(self).bytes() == old(self).bytes(),
            final(self).pos() >= old(self).pos(),
            match read_spec(old(self).bits(), old(self).pos(), bits as nat) {
                Ok((v, p)) => r == Ok::<u64, Error>(v) && final(self).pos() == p,
                Err(e) => r == Err::<u64, Error>(e) && final(self).pos() == old(self).pos(),
            },
    {
        let res = self.peek(bits);
        if res.is_ok() {
            self.offset = self.offset + bits;
        }
        res
    }

    fn read_bits(&self, count: usize) -> (r: u64)
        requires
            self.wf(),
            1 <= count <= 64,
            self.pos() + count <= 8 * self.bytes().len(),
        ensures
            r as nat == le_value(self.bits().subrange(self.pos(), self.pos() + count)),
    {
        let ghost bits = self.bits();
        let ghost pos = self.pos();
        let mut res: u64 = 0;
        let mut k: usize = 0;
        while k < count
            invariant
                self.wf(),
                bits == self.bits(),
                pos == self.pos(),
                k <= count <= 64,
                pos + count <= 8 * self.bytes().len(),
                res as nat == le_value(bits.subrange(pos, pos + k)),
            decreases count - k,
        {
            proof {
                lemma_le_value_bound(bits.subrange(pos, pos + k));
            }
            let i = self.offset + k;
            let byte = self.buffer[i / 8];
            let bit = (byte >> ((i % 8) as u8)) & 1u8;
            let ghost prev = bits.subrange(pos, pos + k);
            let ghost next = bits.subrange(pos, pos + k + 1);
            assert(next.drop_last() =~= prev);
            assert(next.last() == bit_at(self.bytes(), i as int));
            if bit == 1 {
                let kk = k as u64;
                proof {
                    vstd::bits::lemma_u64_pow2_no_overflow(k as nat);
                    lemma_u64_shl_is_mul(1, kk);
                }
                let one: u64 = 1u64 << kk;
                assert(res < one ==> res | one == res + one) by (bit_vector)
                    requires
                        kk < 64,
                        one == 1u64 << kk,
                ;
                res = res | one;
            }
            k = k + 1;
        }
        res
    }

    /// Reads a VBR number of chunk width `width` (1 to 32). The number may be up to 64 bits
    /// long whatever the width.
    pub fn read_vbr(&mut self, width: usize) -> (r: Result<u64, Error>)
        requires
            old(self).wf(),
        ensures
            final(self).wf(),
            final(self).bytes() == old(self).bytes(),
            final(self).pos() >= old(self).pos(),
            width < 1 || width > 32 ==> final(self).pos() == old(self).pos(),
            match vbr_spec(old(self).bits(), old(self).pos(), width as nat) {
                Ok((v, p)) => r == Ok::<u64, Error>(v) && final(self).pos() == p,
                Err(e) => r == Err::<u64, Error>(e),
            },
    {
        if width < 1 || width > 32 {
            return Err(Error::VbrOverflow);
        }
        let ghost bits = self.bits();
        let ghost start = self.pos();
        let ghost w = width as nat;
        proof {
            vstd::bits::lemma_u64_pow2_no_overflow((width - 1) as nat);
            lemma_u64_shl_is_mul(1, (width - 1) as u64);
            lemma2_to64();
        }
        let test_bit: u64 = 1u64 << ((width - 1) as u64);
        let mut res: u128 = 0;
        let mut place: u128 = 1;
        let mut shift: usize = 0;
        assert(bits.subrange(start, bits.len() as int) == bits.subrange(self.pos(), bits.len() as int));
        loop
            invariant
                self.wf(),
                self.bytes() == old(self).bytes(),
                bits == self.bits(),
                bits == old(self).bits(),
                start == old(self).pos(),
                start <= self.pos(),
                1 <= width <= 32,
                w == width,
                test_bit == pow2((w - 1) as nat),
                shift < 64 + width,
                place == pow2(shift as nat),
                res < pow2(shift as nat),
                vbr_spec(bits, start, w) == vbr_tail(bits, self.pos(), w, shift as nat, res as nat),
            decreases bits.len() - self.pos(),
        {
            let ghost cur = self.pos();
            let next = match self.read(width) {
                Ok(v) => v,
                Err(e) => {
                    proof {
                        lemma_vbr_tail_short(bits, cur, w, shift as nat, res as nat);
                    }
                    return Err(e);
                },
            };
            if shift >= 64 {
                proof {
                    lemma_vbr_tail_overflow(bits, cur, w, shift as nat, res as nat);
                }
                return Err(Error::VbrOverflow);
            }
            proof {
                lemma_vbr_tail_step(bits, cur, w, shift as nat, res as nat, next as nat);
            }
            let more = next >= test_bit;
            let payload: u64 = if more {
                next - test_bit
            } else {
                next
            };
            proof {
                lemma_vbr_place(res as nat, payload as nat, shift as nat, w);
            }
            res = res + (payload as u128) * place;
            if !more {
                return Ok(res as u64);
            }
            shift = shift + width - 1;
            place = place * (test_bit as u128);
        }
    }

    /// The next `length_bytes` bytes, from a byte-aligned position; the cursor moves past them.
    pub fn read_bytes(&mut self, length_bytes: usize) -> (r: Result<&'input [u8], Error>)
        requires
            old(self).wf(),
        ensures
            final(self).wf(),
            final(self).bytes() == old(self).bytes(),
            final(self).pos() >= old(self).pos(),
            old(self).pos() % 8 != 0 ==> r == Err::<&[u8], Error>(Error::Alignment),
            old(self).pos() % 8 == 0 && old(self).pos() / 8 + length_bytes > old(self).bytes().len()
                ==> r == Err::<&[u8], Error>(Error::BufferOverflow),
            old(self).pos() % 8 == 0 && old(self).pos() / 8 + length_bytes <= old(self).bytes().len()
                ==> r.is_ok() && r.unwrap()@ == old(self).bytes().subrange(
                old(self).pos() / 8,
                old(self).pos() / 8 + length_bytes,
            ) && final(self).pos() == old(self).pos() + 8 * length_bytes,
            r.is_err() ==> final(self).pos() == old(self).pos(),
    {
        if self.offset % 8 != 0 {
            return Err(Error::Alignment);
        }
        let byte_start = self.offset / 8;
        if length_bytes > self.buffer.len() - byte_start {
            return Err(Error::BufferOverflow);
        }
        let byte_end = byte_start + length_bytes;
        let bytes = vstd::slice::slice_subrange(self.buffer, byte_start, byte_end);
        self.offset = byte_end * 8;
        Ok(bytes)
    }

    /// Moves past `count` bytes from a byte-aligned position.
    pub fn skip_bytes(&mut self, count: usize) -> (r: Result<(), Error>)
        requires
            old(self).wf(),
        ensures
            final(self).wf(),
            final(self).bytes() == old(self).bytes(),
            final(self).pos() >= old(self).pos(),
            old(self).pos() % 8 != 0 ==> r == Err::<(), Error>(Error::Alignment),
            old(self).pos() % 8 == 0 && old(self).pos() / 8 + count > old(self).bytes().len()
                ==> r == Err::<(), Error>(Error::BufferOverflow),
            old(self).pos() % 8 == 0 && old(self).pos() / 8 + count <= old(self).bytes().len()
                ==> r is Ok && final(self).pos() == old(self).pos() + 8 * count,
            r.is_err() ==> final(self).pos() == old(self).pos(),
    {
        if self.offset % 8 != 0 {
            return Err(Error::Alignment);
        }
        let byte_start = self.offset / 8;
        if count > self.buffer.len() - byte_start {
            return Err(Error::BufferOverflow);
        }
        self.offset = (byte_start + count) * 8;
        Ok(())
    }

    /// A cursor over the next `length_bytes` bytes, from a 32-bit aligned position; this
    /// cursor moves past them.
    pub fn take_slice(&mut self, length_bytes: usize) -> (r: Result<Self, Error>)
        requires
            old(self).wf(),
        ensures
            final(self).wf(),
            final(self).bytes() == old(self).bytes(),
            final(self).pos() >= old(self).pos(),
            old(self).pos() % 32 != 0 ==> r == Err::<Self, Error>(Error::Alignment),
            old(self).pos() % 32 == 0 && old(self).pos() / 8 + length_bytes > old(self).bytes().len()
                ==> r == Err::<Self, Error>(Error::BufferOverflow),
            old(self).pos() % 32 == 0 && old(self).pos() / 8 + length_bytes <= old(self).bytes().len()
                ==> r.is_ok() && r.unwrap().wf() && r.unwrap().pos() == 0 && r.unwrap().bytes()
                == old(self).bytes().subrange(
                old(self).pos() / 8,
                old(self).pos() / 8 + length_bytes,
            ) && final(self).pos() == old(self).pos() + 8 * length_bytes,
            r.is_err() ==> final(self).pos() == old(self).pos(),
    {
        if self.offset % 32 != 0 {
            return Err(Error::Alignment);
        }
        match self.read_bytes(length_bytes) {
            Ok(buffer) => Ok(Cursor { buffer, offset: 0 }),
            Err(e) => Err(e),
        }
    }

    /// Moves to the next multiple of 32 bits; no move if already there.
    pub fn align32(&mut self) -> (r: Result<(), Error>)
        requires
            old(self).wf(),
        ensures
            final(self).wf(),
            final(self).bytes() == old(self).bytes(),
            final(self).pos() >= old(self).pos(),
            align32_spec(old(self).pos()) > 8 * old(self).bytes().len() ==> r == Err::<(), Error>(
                Error::BufferOverflow,
            ) && final(self).pos() == old(self).pos(),
            align32_spec(old(self).pos()) <= 8 * old(self).bytes().len() ==> r is Ok
                && final(self).pos() == align32_spec(old(self).pos()),
    {
        let rem = self.offset % 32;
        if rem == 0 {
            return Ok(());
        }
        let gap = 32 - rem;
        if gap > self.buffer.len() * 8 - self.offset {
            return Err(Error::BufferOverflow);
        }
        self.offset = self.offset + gap;
        Ok(())
    }

    /// The number of bits left to read.
    pub fn unconsumed_bit_len(&self) -> (r: usize)
        requires
            self.wf(),
        ensures
            r == 8 * self.bytes().len() - self.pos(),
    {
        self.buffer.len() * 8 - self.offset
    }
}

} // verus!
