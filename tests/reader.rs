use llvm_bitcode::bitcode::{decode_signed, BitcodeElement, Payload, Record, Signature};
use llvm_bitcode::bits::Error as BitsError;
use llvm_bitcode::bitstream::{char6_decode, Abbreviation, Operand, PayloadOperand, ScalarOperand};
use llvm_bitcode::read::{lookup_abbrev, name_from_fields, BitStreamReader, BlockEntry, Error};
use llvm_bitcode::schema::blocks::BlockId;
use llvm_bitcode::schema::enums::CallConv;
use llvm_bitcode::visitor::{CollectingVisitor, TOP_LEVEL_BLOCK_ID};
use llvm_bitcode::{BitStreamVisitor, Bitcode, Cursor};

/// Writes bits least significant first, as the bitstream format lays them out.
struct BitWriter {
    bytes: Vec<u8>,
    nbits: usize,
}

impl BitWriter {
    fn new() -> Self {
        BitWriter { bytes: Vec::new(), nbits: 0 }
    }

    fn bit(&mut self, b: bool) {
        if self.nbits % 8 == 0 {
            self.bytes.push(0);
        }
        if b {
            let last = self.bytes.len() - 1;
            self.bytes[last] |= 1 << (self.nbits % 8);
        }
        self.nbits += 1;
    }

    fn write(&mut self, value: u64, width: u32) {
        for i in 0..width {
            self.bit((value >> i) & 1 == 1);
        }
    }

    fn vbr(&mut self, mut value: u64, width: u32) {
        let payload = width - 1;
        loop {
            let chunk = value & ((1u64 << payload) - 1);
            value >>= payload;
            if value == 0 {
                self.write(chunk, width);
                return;
            }
            self.write(chunk | (1u64 << payload), width);
        }
    }

    fn align32(&mut self) {
        while self.nbits % 32 != 0 {
            self.bit(false);
        }
    }

    /// Starts a block; returns the byte index of its length word.
    fn enter(&mut self, outer_width: u32, id: u64, width: u32) -> usize {
        self.write(1, outer_width);
        self.vbr(id, 8);
        self.vbr(width as u64, 4);
        self.align32();
        let at = self.nbits / 8;
        self.write(0, 32);
        at
    }

    /// Ends a block and fills in its length word.
    fn end(&mut self, width: u32, at: usize) {
        self.write(0, width);
        self.align32();
        let words = ((self.nbits / 8 - at - 4) / 4) as u32;
        self.bytes[at..at + 4].copy_from_slice(&words.to_le_bytes());
    }

    fn unabbrev(&mut self, width: u32, code: u64, fields: &[u64]) {
        self.write(3, width);
        self.vbr(code, 6);
        self.vbr(fields.len() as u64, 6);
        for &f in fields {
            self.vbr(f, 6);
        }
    }

    fn literal_op(&mut self, v: u64) {
        self.write(1, 1);
        self.vbr(v, 8);
    }

    fn kind_op(&mut self, kind: u64) {
        self.write(0, 1);
        self.write(kind, 3);
    }

    fn fixed_op(&mut self, w: u64) {
        self.kind_op(1);
        self.vbr(w, 5);
    }

    fn finish(mut self) -> Vec<u8> {
        self.align32();
        self.bytes
    }
}

/// A raw stream: the magic `BC` `C0DE` and then the bits.
fn with_magic(body: Vec<u8>) -> Vec<u8> {
    let mut v = vec![0x42, 0x43, 0xC0, 0xDE];
    v.extend(body);
    v
}

fn dump(record: &mut Record) -> String {
    let payload = match record.take_payload() {
        Some(Payload::Array(a)) => format!("array({} elements)", a.len()),
        Some(Payload::Blob(b)) => format!("blob({} bytes)", b.len()),
        Some(Payload::Char6String(s)) => s,
        None => "none".to_string(),
    };
    format!("Record (id: {}, fields: {:?}, payload: {}", record.id, record.fields(), payload)
}

struct LoggingVisitor {
    log: Vec<String>,
    skip: Option<u64>,
}

impl BitStreamVisitor for LoggingVisitor {
    fn validate(&self, _signature: Signature) -> bool {
        true
    }

    fn should_enter_block(&mut self, id: u64) -> bool {
        if Some(id) == self.skip {
            return false;
        }
        self.log.push(format!("entering block: {id}"));
        true
    }

    fn did_exit_block(&mut self, id: u64) {
        self.log.push(format!("exiting block: {id}"));
    }

    fn visit(&mut self, _block_id: u64, mut record: Record) {
        let line = dump(&mut record);
        self.log.push(line);
    }
}

struct Refusing;

impl BitStreamVisitor for Refusing {
    fn validate(&self, _signature: Signature) -> bool {
        false
    }

    fn should_enter_block(&mut self, _id: u64) -> bool {
        true
    }

    fn did_exit_block(&mut self, _id: u64) {}

    fn visit(&mut self, _block_id: u64, _record: Record) {}
}

fn top_elements(bc: &Bitcode) -> &Vec<BitcodeElement> {
    &bc.elements
}

#[test]
fn wrapper_header_parses() {
    let data = [
        0xDE, 0xC0, 0x17, 0x0B, 0x01, 0x00, 0x00, 0x00, 0x14, 0x00, 0x00, 0x00, 0x04, 0x00, 0x00,
        0x00, 0x00, 0x00, 0x00, 0x00, 0x42, 0x43, 0xC0, 0xDE,
    ];
    let (sig, rest) = Signature::parse(&data).unwrap();
    assert_eq!(
        sig,
        Signature { magic: 0x0B17C0DE, magic2: 0xDEC0_4342, version: 1, offset: 20, size: 4, cpu_type: 0 }
    );
    assert!(rest.is_empty());
}

#[test]
fn wrapper_header_fifth_word_is_cpu_type() {
    let data = [
        0xDE, 0xC0, 0x17, 0x0B, 0x01, 0x00, 0x00, 0x00, 0x14, 0x00, 0x00, 0x00, 0x04, 0x00, 0x00,
        0x00, 0x42, 0x43, 0xC0, 0xDE, 0x42, 0x43, 0xC0, 0xDE,
    ];
    let (sig, rest) = Signature::parse(&data).unwrap();
    assert_eq!(sig.cpu_type, 0xDEC0_4342);
    assert_eq!(sig.magic2, 0xDEC0_4342);
    assert!(rest.is_empty());
}

#[test]
fn wrapper_header_out_of_bounds() {
    let mut data = vec![0xDE, 0xC0, 0x17, 0x0B, 1, 0, 0, 0, 0x14, 0, 0, 0, 0x08, 0, 0, 0, 0, 0, 0, 0];
    data.extend([0x42, 0x43, 0xC0, 0xDE]);
    assert!(Signature::parse(&data).is_none());
    assert!(Signature::parse(&data[..19]).is_none());
    assert!(Signature::parse(&[1, 2, 3]).is_none());
    assert!(matches!(Bitcode::new(&[1, 2, 3]), Err(Error::InvalidSignature(0))));
}

#[test]
fn wrapped_and_raw_streams_agree() {
    let mut w = BitWriter::new();
    w.unabbrev(2, 5, &[1, 2, 3]);
    let raw = with_magic(w.finish());
    let mut wrapped = vec![0xDE, 0xC0, 0x17, 0x0B, 0, 0, 0, 0, 0x14, 0, 0, 0];
    wrapped.extend((raw.len() as u32).to_le_bytes());
    wrapped.extend([0, 0, 0, 0]);
    wrapped.extend(raw.iter());
    let (ws, wrest) = Signature::parse(&wrapped).unwrap();
    let (rs, rrest) = Signature::parse(&raw).unwrap();
    assert!(ws.offset + ws.size <= wrapped.len() as u32);
    assert_eq!(ws.magic2, rs.magic);
    assert_eq!(wrest, rrest);
    let a = Bitcode::new(&wrapped).unwrap();
    let b = Bitcode::new(&raw).unwrap();
    assert_eq!(format!("{:?}", a.elements), format!("{:?}", b.elements));
}

#[test]
fn raw_signature() {
    let data = [0x42, 0x43, 0xC0, 0xDE, 1, 2];
    let (sig, rest) = Signature::parse(&data).unwrap();
    assert_eq!(sig, Signature { magic: 0xDEC0_4342, magic2: 0, version: 0, offset: 4, size: 2, cpu_type: 0 });
    assert_eq!(rest, &[1, 2]);
}

#[test]
fn char6_array_payload() {
    let mut w = BitWriter::new();
    let at = w.enter(2, 8, 3);
    w.write(2, 3);
    w.vbr(3, 5);
    w.literal_op(7);
    w.kind_op(3);
    w.kind_op(4);
    w.write(4, 3);
    w.vbr(5, 6);
    for v in [7u64, 4, 11, 11, 14] {
        w.write(v, 6);
    }
    w.end(3, at);
    let mut v = LoggingVisitor { log: Vec::new(), skip: None };
    Bitcode::read(&with_magic(w.finish()), &mut v).unwrap();
    assert_eq!(
        v.log,
        vec!["entering block: 8", "Record (id: 7, fields: [], payload: hello", "exiting block: 8"]
    );
}

#[test]
fn char6_values_decode_distinctly() {
    let all: Vec<char> = (0..64).map(char6_decode).collect();
    let s: String = all.iter().collect();
    assert_eq!(s, "abcdefghijklmnopqrstuvwxyzABCDEFGHIJKLMNOPQRSTUVWXYZ0123456789._");
    assert_eq!(char6_decode(19), 't');
}

#[test]
fn blockinfo_names_block() {
    let mut w = BitWriter::new();
    let at = w.enter(2, 0, 2);
    w.unabbrev(2, 1, &[8]);
    w.unabbrev(2, 2, &[77, 79, 68, 85, 76, 69]);
    w.unabbrev(2, 3, &[1, 73, 68]);
    w.end(2, at);
    let bc = Bitcode::new(&with_magic(w.finish())).unwrap();
    let info = bc.block_info.get(&8).unwrap();
    assert_eq!(info.name, "MODULE");
    assert_eq!(info.record_names.get(&1).unwrap(), "ID");
    assert!(top_elements(&bc).is_empty());
}

#[test]
fn blockinfo_name_replaces_invalid_bytes() {
    let name = name_from_fields(&[0x41, 0xFF, 300, 0x42], 0);
    assert_eq!(name, "A\u{fffd}\u{fffd}B");
    assert_eq!(name_from_fields(&[0x41, 0x42], 1), "B");
}

fn global_then_local_stream(last_id: u64) -> Vec<u8> {
    let mut w = BitWriter::new();
    let info = w.enter(2, 0, 2);
    w.unabbrev(2, 1, &[8]);
    for code in [1u64, 2] {
        w.write(2, 2);
        w.vbr(2, 5);
        w.literal_op(code);
        w.fixed_op(4);
    }
    w.end(2, info);
    let at = w.enter(2, 8, 3);
    w.write(2, 3);
    w.vbr(2, 5);
    w.literal_op(3);
    w.fixed_op(4);
    for (id, v) in [(4u64, 10u64), (5, 11), (6, 12)] {
        w.write(id, 3);
        w.write(v, 4);
    }
    w.write(last_id, 3);
    w.write(13, 4);
    w.end(3, at);
    with_magic(w.finish())
}

#[test]
fn globals_come_before_locals() {
    let mut v = LoggingVisitor { log: Vec::new(), skip: None };
    Bitcode::read(&global_then_local_stream(6), &mut v).unwrap();
    assert_eq!(
        v.log,
        vec![
            "entering block: 8",
            "Record (id: 1, fields: [10], payload: none",
            "Record (id: 2, fields: [11], payload: none",
            "Record (id: 3, fields: [12], payload: none",
            "Record (id: 3, fields: [13], payload: none",
            "exiting block: 8",
        ]
    );
    let err = Bitcode::new(&global_then_local_stream(7)).unwrap_err();
    assert_eq!(err, Error::NoSuchAbbrev { block_id: 8, abbrev_id: 7 });
}

fn nested_stream() -> Vec<u8> {
    let mut w = BitWriter::new();
    let b8 = w.enter(2, 8, 3);
    w.unabbrev(3, 1, &[1]);
    let b9 = w.enter(3, 9, 2);
    w.unabbrev(2, 2, &[2, 3]);
    let b10 = w.enter(2, 10, 2);
    w.unabbrev(2, 4, &[]);
    w.end(2, b10);
    w.end(2, b9);
    w.unabbrev(3, 5, &[6]);
    let b9b = w.enter(3, 9, 2);
    w.end(2, b9b);
    w.end(3, b8);
    let b11 = w.enter(2, 11, 2);
    w.unabbrev(2, 7, &[]);
    w.end(2, b11);
    with_magic(w.finish())
}

#[test]
fn skipped_block_leaves_rest_unchanged() {
    let data = nested_stream();
    let mut all = LoggingVisitor { log: Vec::new(), skip: None };
    Bitcode::read(&data, &mut all).unwrap();
    let mut skipping = LoggingVisitor { log: Vec::new(), skip: Some(9) };
    Bitcode::read(&data, &mut skipping).unwrap();
    let mut pruned = Vec::new();
    let mut depth_in_skipped = 0;
    let mut depth = 0;
    for line in &all.log {
        if line.starts_with("entering block: ") {
            depth += 1;
            if depth_in_skipped == 0 && line == "entering block: 9" {
                depth_in_skipped = depth;
                continue;
            }
        }
        let exiting = line.starts_with("exiting block: ");
        if depth_in_skipped == 0 {
            pruned.push(line.clone());
        }
        if exiting {
            if depth_in_skipped == depth {
                depth_in_skipped = 0;
            }
            depth -= 1;
        }
    }
    assert_eq!(skipping.log, pruned);
    assert_eq!(
        all.log,
        vec![
            "entering block: 8",
            "Record (id: 1, fields: [1], payload: none",
            "entering block: 9",
            "Record (id: 2, fields: [2, 3], payload: none",
            "entering block: 10",
            "Record (id: 4, fields: [], payload: none",
            "exiting block: 10",
            "exiting block: 9",
            "Record (id: 5, fields: [6], payload: none",
            "entering block: 9",
            "exiting block: 9",
            "exiting block: 8",
            "entering block: 11",
            "Record (id: 7, fields: [], payload: none",
            "exiting block: 11",
        ]
    );
}

#[test]
fn collected_tree_matches_stream() {
    let bc = Bitcode::new(&nested_stream()).unwrap();
    assert_eq!(bc.elements.len(), 2);
    let b8 = bc.elements[0].as_block().unwrap();
    assert_eq!(b8.id, 8);
    assert_eq!(b8.elements.len(), 4);
    assert!(b8.elements[0].is_record());
    assert_eq!(b8.elements[0].as_record().unwrap().fields(), &[1]);
    let b9 = b8.elements[1].as_block().unwrap();
    assert_eq!(b9.id, 9);
    assert_eq!(b9.elements[0].as_record().unwrap().id, 2);
    assert!(b9.elements[1].is_block());
    assert_eq!(b9.elements[1].as_block().unwrap().id, 10);
    assert!(b8.elements[0].as_block().is_none());
    assert!(b8.elements[1].as_record().is_none());
    assert_eq!(bc.elements[1].as_block().unwrap().id, 11);
    assert_eq!(bc.signature.magic, 0xDEC0_4342);
}

#[test]
fn mutable_element_access() {
    let mut bc = Bitcode::new(&nested_stream()).unwrap();
    let b8 = bc.elements[0].as_block_mut().unwrap();
    b8.id = 42;
    let rec = b8.elements[0].as_record_mut().unwrap();
    assert!(rec.take_payload().is_none());
    assert!(bc.elements[0].as_record_mut().is_none());
    assert_eq!(bc.elements[0].as_block().unwrap().id, 42);
    assert!(bc.elements[1].as_block_mut().is_some());
}

#[test]
fn refused_signature_fails_with_magic() {
    let data = nested_stream();
    assert_eq!(Bitcode::read(&data, &mut Refusing), Err(Error::InvalidSignature(0xDEC0_4342)));
}

#[test]
fn block_without_end_fails() {
    let mut w = BitWriter::new();
    let at = w.enter(2, 8, 2);
    // Exactly 32 bits, so that no zero padding reads as END_BLOCK.
    w.unabbrev(2, 1, &[1, 2, 3]);
    assert_eq!(w.nbits % 32, 0);
    let words = ((w.nbits / 8 - at - 4) / 4) as u32;
    w.bytes[at..at + 4].copy_from_slice(&words.to_le_bytes());
    let data = with_magic(w.finish());
    assert_eq!(Bitcode::new(&data).unwrap_err(), Error::MissingEndBlock(8));
}

#[test]
fn block_longer_than_stream_fails() {
    let mut w = BitWriter::new();
    let at = w.enter(2, 8, 2);
    w.end(2, at);
    let mut data = with_magic(w.finish());
    data[4 + at] = 50;
    assert_eq!(Bitcode::new(&data).unwrap_err(), Error::ReadBits(BitsError::BufferOverflow));
}

#[test]
fn blockinfo_errors() {
    let mut w = BitWriter::new();
    let at = w.enter(2, 0, 2);
    w.unabbrev(2, 2, &[65]);
    w.end(2, at);
    assert_eq!(Bitcode::new(&with_magic(w.finish())).unwrap_err(), Error::MissingSetBid);

    let mut w = BitWriter::new();
    let at = w.enter(2, 0, 2);
    w.unabbrev(2, 1, &[8, 9]);
    w.end(2, at);
    assert_eq!(Bitcode::new(&with_magic(w.finish())).unwrap_err(), Error::InvalidBlockInfoRecord(1));

    let mut w = BitWriter::new();
    let at = w.enter(2, 0, 2);
    w.unabbrev(2, 9, &[]);
    w.end(2, at);
    assert_eq!(Bitcode::new(&with_magic(w.finish())).unwrap_err(), Error::InvalidBlockInfoRecord(9));

    let mut w = BitWriter::new();
    let at = w.enter(2, 0, 2);
    let inner = w.enter(2, 8, 2);
    w.end(2, inner);
    w.end(2, at);
    assert_eq!(Bitcode::new(&with_magic(w.finish())).unwrap_err(), Error::NestedBlockInBlockInfo);

    let mut w = BitWriter::new();
    let at = w.enter(2, 0, 2);
    w.write(2, 2);
    w.vbr(1, 5);
    w.literal_op(1);
    w.end(2, at);
    assert_eq!(Bitcode::new(&with_magic(w.finish())).unwrap_err(), Error::MissingSetBid);
}

#[test]
fn invalid_abbreviations_fail() {
    // A blob that is not the last operand.
    let mut w = BitWriter::new();
    let at = w.enter(2, 8, 2);
    w.write(2, 2);
    w.vbr(2, 5);
    w.kind_op(5);
    w.literal_op(1);
    w.end(2, at);
    assert_eq!(Bitcode::new(&with_magic(w.finish())).unwrap_err(), Error::InvalidAbbrev);

    // An array whose element is a blob.
    let mut w = BitWriter::new();
    let at = w.enter(2, 8, 2);
    w.write(2, 2);
    w.vbr(3, 5);
    w.literal_op(1);
    w.kind_op(3);
    w.kind_op(5);
    w.end(2, at);
    assert_eq!(Bitcode::new(&with_magic(w.finish())).unwrap_err(), Error::InvalidAbbrev);

    // No operands at all.
    let mut w = BitWriter::new();
    let at = w.enter(2, 8, 2);
    w.write(2, 2);
    w.vbr(0, 5);
    w.end(2, at);
    assert_eq!(Bitcode::new(&with_magic(w.finish())).unwrap_err(), Error::InvalidAbbrev);

    // An unknown operand kind.
    let mut w = BitWriter::new();
    let at = w.enter(2, 8, 2);
    w.write(2, 2);
    w.vbr(1, 5);
    w.kind_op(7);
    w.end(2, at);
    assert_eq!(Bitcode::new(&with_magic(w.finish())).unwrap_err(), Error::InvalidAbbrev);

    // Only a blob: no scalar for the record code.
    let mut w = BitWriter::new();
    let at = w.enter(2, 8, 2);
    w.write(2, 2);
    w.vbr(1, 5);
    w.kind_op(5);
    w.write(0, 2);
    w.end(2, at);
    let data = with_magic(w.finish());
    assert!(Bitcode::new(&data).is_ok());
    let mut w = BitWriter::new();
    let at = w.enter(2, 8, 3);
    w.write(2, 3);
    w.vbr(1, 5);
    w.kind_op(5);
    w.write(4, 3);
    w.end(3, at);
    assert_eq!(Bitcode::new(&with_magic(w.finish())).unwrap_err(), Error::InvalidAbbrev);
}

#[test]
fn blob_and_array_records() {
    let mut w = BitWriter::new();
    let at = w.enter(2, 8, 3);
    w.write(2, 3);
    w.vbr(3, 5);
    w.literal_op(6);
    w.fixed_op(3);
    w.kind_op(5);
    w.write(2, 3);
    w.vbr(3, 5);
    w.literal_op(9);
    w.kind_op(3);
    w.kind_op(2);
    w.vbr(4, 5);
    w.write(4, 3);
    w.write(5, 3);
    w.vbr(3, 6);
    w.align32();
    for b in [0xAAu8, 0xBB, 0xCC] {
        w.write(b as u64, 8);
    }
    w.align32();
    w.write(5, 3);
    w.vbr(2, 6);
    w.vbr(100, 4);
    w.vbr(3, 4);
    w.end(3, at);
    let bc = Bitcode::new(&with_magic(w.finish())).unwrap();
    let block = bc.elements[0].as_block().unwrap();
    let mut recs: Vec<Record> = block
        .elements
        .iter()
        .map(|e| e.as_record().unwrap().clone())
        .collect();
    assert_eq!(recs[0].id, 6);
    assert_eq!(recs[0].fields(), &[5]);
    match recs[0].take_payload() {
        Some(Payload::Blob(b)) => assert_eq!(b, vec![0xAA, 0xBB, 0xCC]),
        other => panic!("unexpected payload {:?}", other),
    }
    assert!(recs[0].take_payload().is_none());
    assert_eq!(recs[1].id, 9);
    match recs[1].take_payload() {
        Some(Payload::Array(a)) => assert_eq!(a, vec![100, 3]),
        other => panic!("unexpected payload {:?}", other),
    }
}

#[test]
fn unabbreviated_record_from_cursor() {
    let mut w = BitWriter::new();
    w.vbr(17, 6);
    w.vbr(3, 6);
    for v in [0u64, 31, 1000] {
        w.vbr(v, 6);
    }
    let nbits = w.nbits;
    let bytes = w.finish();
    let mut c = Cursor::new(&bytes);
    let rec = Record::from_cursor(&mut c).unwrap();
    assert_eq!(rec.id, 17);
    assert_eq!(rec.code(), 17);
    assert_eq!(rec.fields(), &[0, 31, 1000]);
    assert_eq!(c.unconsumed_bit_len(), bytes.len() * 8 - nbits);
}

#[test]
fn abbreviated_record_ends_after_payload() {
    let abbrev = Abbreviation {
        fields: vec![ScalarOperand::Literal(3), ScalarOperand::Char6, ScalarOperand::Vbr(4)],
        payload: Some(PayloadOperand::Array(ScalarOperand::Fixed(2))),
        id: 0,
    };
    let mut w = BitWriter::new();
    w.write(2, 6);
    w.vbr(9, 4);
    w.vbr(2, 6);
    w.write(1, 2);
    w.write(3, 2);
    let nbits = w.nbits;
    w.write(0x7F, 7);
    let bytes = w.finish();
    let mut c = Cursor::new(&bytes);
    let mut rec = Record::from_cursor_abbrev(&mut c, &abbrev).unwrap();
    assert_eq!(rec.id, 3);
    assert_eq!(rec.fields(), &[b'c' as u64, 9]);
    assert!(matches!(rec.take_payload(), Some(Payload::Array(a)) if a == vec![1, 3]));
    assert_eq!(c.unconsumed_bit_len(), bytes.len() * 8 - nbits);
    assert_eq!(c.read(7).unwrap(), 0x7F);
}

#[test]
fn record_string_replaces_non_characters() {
    let mut w = BitWriter::new();
    w.vbr(1, 6);
    w.vbr(4, 6);
    for v in [0x41u64, 0xD800, 0x1F600, 0x1_0000_0000] {
        w.vbr(v, 6);
    }
    let bytes = w.finish();
    let rec = Record::from_cursor(&mut Cursor::new(&bytes)).unwrap();
    assert_eq!(rec.string(0), "A\u{fffd}\u{1F600}\u{fffd}");
    assert_eq!(rec.string(2), "\u{1F600}\u{fffd}");
    assert_eq!(rec.string(9), "");
}

#[test]
fn abbrev_ids_index_globals_then_locals() {
    let mk = |id: u32| Abbreviation { fields: vec![ScalarOperand::Literal(id as u64)], payload: None, id };
    let globals = vec![mk(0), mk(1)];
    let locals = vec![mk(0)];
    assert_eq!(lookup_abbrev(&globals, &locals, 4).unwrap().fields, vec![ScalarOperand::Literal(0)]);
    assert_eq!(lookup_abbrev(&globals, &locals, 5).unwrap().fields, vec![ScalarOperand::Literal(1)]);
    assert_eq!(lookup_abbrev(&globals, &locals, 6).unwrap().id, 0);
    assert!(lookup_abbrev(&globals, &locals, 7).is_none());
    assert!(lookup_abbrev(&[], &locals, 4).is_some());
    assert!(lookup_abbrev(&[], &[], 4).is_none());
}

#[test]
fn operand_kinds() {
    let ops = [
        Operand::Scalar(ScalarOperand::Literal(1)),
        Operand::Scalar(ScalarOperand::Fixed(3)),
        Operand::Scalar(ScalarOperand::Vbr(6)),
        Operand::Payload(PayloadOperand::Array(ScalarOperand::Char6)),
        Operand::Scalar(ScalarOperand::Char6),
        Operand::Payload(PayloadOperand::Blob),
    ];
    let kinds: Vec<u8> = ops.iter().map(|o| o.encoded_kind()).collect();
    assert_eq!(kinds, vec![0, 1, 2, 3, 4, 5]);
    assert!(ops[0].is_literal() && !ops[1].is_literal());
    assert!(ops[3].is_payload() && ops[3].is_array() && !ops[3].is_blob());
    assert!(ops[5].is_blob() && !ops[4].is_payload());
}

#[test]
fn reader_starts_empty_and_reads_blockinfo() {
    let mut w = BitWriter::new();
    w.unabbrev(2, 1, &[12]);
    w.unabbrev(2, 2, &[70]);
    w.write(0, 2);
    let bytes = w.finish();
    let mut reader = BitStreamReader::new();
    assert!(reader.block_info().is_empty());
    reader.read_block_info_block(&mut Cursor::new(&bytes), 2).unwrap();
    assert_eq!(reader.block_info().get(&12).unwrap().name, "F");
    let mut v = CollectingVisitor::new();
    let mut empty = BitStreamReader::new();
    empty.read_block(&mut Cursor::new(&[]), TOP_LEVEL_BLOCK_ID, 2, &mut v).unwrap();
    assert!(v.finalize_top_level_elements().is_empty());
}

#[test]
fn schema_codes_round_trip() {
    assert_eq!(BlockId::from_code(8), Some(BlockId::Module));
    assert_eq!(BlockId::Type.code(), 17);
    assert_eq!(BlockId::from_code(17), Some(BlockId::Type));
    assert_eq!(BlockId::from_code(7), None);
    assert_eq!(CallConv::from_flags(8 << 1 | 1).unwrap(), CallConv::Fast);
    assert_eq!(CallConv::from_flags(0x800 | (64 << 1)).unwrap(), CallConv::X86StdCall);
    assert_eq!(CallConv::from_flags(7 << 1), Err(7));
    assert_eq!(CallConv::from_flags(1000 << 1), Err(1000));
}

fn record_from(code: u64, fields: &[u64]) -> Record {
    let mut w = BitWriter::new();
    w.vbr(code, 6);
    w.vbr(fields.len() as u64, 6);
    for &f in fields {
        w.vbr(f, 6);
    }
    let bytes = w.finish();
    Record::from_cursor(&mut Cursor::new(&bytes)).unwrap()
}

#[test]
fn blockinfo_records_update_names() {
    let mut reader = BitStreamReader::new();
    let mut current = None;
    assert_eq!(
        reader.apply_block_info_record(&mut current, &record_from(2, &[65])),
        Err(Error::MissingSetBid)
    );
    assert_eq!(
        reader.apply_block_info_record(&mut current, &record_from(1, &[])),
        Err(Error::InvalidBlockInfoRecord(1))
    );
    reader.apply_block_info_record(&mut current, &record_from(1, &[12])).unwrap();
    assert_eq!(current, Some(12));
    reader.apply_block_info_record(&mut current, &record_from(3, &[4, 88])).unwrap();
    reader.apply_block_info_record(&mut current, &record_from(2, &[70, 78])).unwrap();
    reader.apply_block_info_record(&mut current, &record_from(3, &[4, 89])).unwrap();
    assert_eq!(
        reader.apply_block_info_record(&mut current, &record_from(3, &[])),
        Err(Error::InvalidBlockInfoRecord(3))
    );
    assert_eq!(
        reader.apply_block_info_record(&mut current, &record_from(4, &[1])),
        Err(Error::InvalidBlockInfoRecord(4))
    );
    let info = reader.block_info().get(&12).unwrap();
    assert_eq!(info.name, "FN");
    assert_eq!(info.record_names.len(), 1);
    assert_eq!(info.record_names.get(&4).unwrap(), "Y");
}

#[test]
fn entries_of_a_block() {
    let mut w = BitWriter::new();
    w.write(2, 3);
    w.vbr(2, 5);
    w.literal_op(9);
    w.fixed_op(5);
    w.write(4, 3);
    w.write(21, 5);
    w.unabbrev(3, 6, &[7]);
    w.write(1, 3);
    w.write(5, 3);
    let bytes = w.finish();
    let reader = BitStreamReader::new();
    let mut c = Cursor::new(&bytes);
    let mut locals = Vec::new();
    assert!(matches!(reader.read_entry(&mut c, 8, 3, &mut locals), Ok(BlockEntry::Abbreviation)));
    assert_eq!(locals.len(), 1);
    assert_eq!(locals[0].fields, vec![ScalarOperand::Literal(9), ScalarOperand::Fixed(5)]);
    match reader.read_entry(&mut c, 8, 3, &mut locals) {
        Ok(BlockEntry::Record(r)) => {
            assert_eq!(r.id, 9);
            assert_eq!(r.fields(), &[21]);
        }
        other => panic!("unexpected entry {:?}", other),
    }
    match reader.read_entry(&mut c, 8, 3, &mut locals) {
        Ok(BlockEntry::Record(r)) => {
            assert_eq!(r.id, 6);
            assert_eq!(r.fields(), &[7]);
        }
        other => panic!("unexpected entry {:?}", other),
    }
    assert!(matches!(reader.read_entry(&mut c, 8, 3, &mut locals), Ok(BlockEntry::SubBlock)));
    assert_eq!(
        reader.read_entry(&mut c, 8, 3, &mut locals).unwrap_err(),
        Error::NoSuchAbbrev { block_id: 8, abbrev_id: 5 }
    );
    let mut c = Cursor::new(&[0u8, 0, 0, 0, 0xFF]);
    assert!(matches!(reader.read_entry(&mut c, 8, 3, &mut locals), Ok(BlockEntry::EndBlock)));
    assert_eq!(c.unconsumed_bit_len(), 8);
    assert_eq!(
        reader.read_entry(&mut c, 8, 65, &mut locals).unwrap_err(),
        Error::ReadBits(BitsError::VbrOverflow)
    );
}

#[test]
fn signed_field_values() {
    assert_eq!(decode_signed(0), 0);
    assert_eq!(decode_signed(2), 1);
    assert_eq!(decode_signed(3), -1);
    assert_eq!(decode_signed(1), i64::MIN);
    assert_eq!(decode_signed(u64::MAX), -(i64::MAX));
    assert_eq!(decode_signed(u64::MAX - 1), i64::MAX);
}

#[test]
fn skipping_a_block_skips_its_blockinfo() {
    // Block 9 holds a BLOCKINFO block that gives block 11 a global abbreviation,
    // which block 11 then uses.
    let mut w = BitWriter::new();
    let b9 = w.enter(2, 9, 2);
    let info = w.enter(2, 0, 2);
    w.unabbrev(2, 1, &[11]);
    w.write(2, 2);
    w.vbr(2, 5);
    w.literal_op(4);
    w.fixed_op(3);
    w.end(2, info);
    w.end(2, b9);
    let b11 = w.enter(2, 11, 3);
    w.write(4, 3);
    w.write(5, 3);
    w.end(3, b11);
    let data = with_magic(w.finish());
    let mut all = LoggingVisitor { log: Vec::new(), skip: None };
    Bitcode::read(&data, &mut all).unwrap();
    assert_eq!(
        all.log,
        vec![
            "entering block: 9",
            "exiting block: 9",
            "entering block: 11",
            "Record (id: 4, fields: [5], payload: none",
            "exiting block: 11",
        ]
    );
    let mut skipping = LoggingVisitor { log: Vec::new(), skip: Some(9) };
    assert_eq!(
        Bitcode::read(&data, &mut skipping),
        Err(Error::NoSuchAbbrev { block_id: 11, abbrev_id: 4 })
    );
    assert_eq!(BitStreamReader::TOP_LEVEL_BLOCK_ID, TOP_LEVEL_BLOCK_ID);
}

#[test]
fn nested_block_running_out_fails_with_its_id() {
    // Block 8 holds block 9, whose declared length ends before its END_BLOCK.
    let mut w = BitWriter::new();
    let b8 = w.enter(2, 8, 2);
    let b9 = w.enter(2, 9, 2);
    w.unabbrev(2, 1, &[1, 2, 3]);
    w.align32();
    let words = ((w.nbits / 8 - b9 - 4) / 4) as u32;
    w.bytes[b9..b9 + 4].copy_from_slice(&words.to_le_bytes());
    w.end(2, b8);
    let data = with_magic(w.finish());
    assert_eq!(Bitcode::new(&data).unwrap_err(), Error::MissingEndBlock(9));
    let mut skipping = LoggingVisitor { log: Vec::new(), skip: Some(9) };
    Bitcode::read(&data, &mut skipping).unwrap();
    assert_eq!(skipping.log, vec!["entering block: 8", "exiting block: 8"]);
}

#[test]
fn trees_clone() {
    let bc = Bitcode::new(&nested_stream()).unwrap();
    let copy = bc.clone();
    assert_eq!(format!("{:?}", copy.elements), format!("{:?}", bc.elements));
    let block = bc.elements[0].as_block().unwrap().clone();
    assert_eq!(block.id, 8);
    assert_eq!(block.elements.len(), 4);
    let element = bc.elements[1].clone();
    assert_eq!(element.as_block().unwrap().id, 11);
}

#[test]
fn read_after_validation() {
    let data = nested_stream();
    let mut reader = BitStreamReader::new();
    let mut v = LoggingVisitor { log: Vec::new(), skip: None };
    assert_eq!(reader.read_accepted(&data[4..], 0x1234, false, &mut v), Err(Error::InvalidSignature(0x1234)));
    assert!(v.log.is_empty());
    reader.read_accepted(&data[4..], 0x1234, true, &mut v).unwrap();
    assert_eq!(v.log.len(), 15);
    let mut refusing = Refusing;
    let mut reader = BitStreamReader::new();
    assert_eq!(reader.read_stream(&data, &mut refusing), Err(Error::InvalidSignature(0xDEC0_4342)));
    let mut collecting = CollectingVisitor::new();
    let mut reader = BitStreamReader::new();
    reader.read_stream(&data, &mut collecting).unwrap();
    assert_eq!(collecting.finalize_top_level_elements().len(), 2);
}
