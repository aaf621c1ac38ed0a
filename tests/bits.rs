use llvm_bitcode::bits::Error;
use llvm_bitcode::Cursor;

fn vbr_bytes(value: u64, width: u32) -> Vec<u8> {
    let mut bits: Vec<bool> = Vec::new();
    let payload = width - 1;
    let mut v = value;
    loop {
        let chunk = v & ((1u64 << payload) - 1);
        v >>= payload;
        for i in 0..payload {
            bits.push((chunk >> i) & 1 == 1);
        }
        bits.push(v != 0);
        if v == 0 {
            break;
        }
    }
    let mut bytes = vec![0u8; (bits.len() + 7) / 8 + 1];
    for (i, b) in bits.iter().enumerate() {
        if *b {
            bytes[i / 8] |= 1 << (i % 8);
        }
    }
    bytes
}

#[test]
fn vbr_values_read_back() {
    for width in 2..=32u32 {
        for value in [0u64, 1, 5, 31, 32, 1000, u32::MAX as u64, 1 << 40, u64::MAX - 1, u64::MAX] {
            let bytes = vbr_bytes(value, width);
            let mut c = Cursor::new(&bytes);
            assert_eq!(c.read_vbr(width as usize).unwrap(), value, "width {width}");
        }
    }
}

#[test]
fn vbr_exact_positions() {
    // 100 in VBR6: the chunk 100100 (payload 4, continuation set), then 000011.
    let bytes = [0b1110_0100, 0b0000_0000, 0];
    let mut c = Cursor::new(&bytes);
    assert_eq!(c.read_vbr(6).unwrap(), 100);
    assert_eq!(c.unconsumed_bit_len(), 24 - 12);
}

#[test]
fn vbr_errors() {
    let mut c = Cursor::new(&[0xFF; 40]);
    assert_eq!(c.read_vbr(0).unwrap_err(), Error::VbrOverflow);
    assert_eq!(c.read_vbr(33).unwrap_err(), Error::VbrOverflow);
    // Fourteen six-bit chunks all carrying on: the last would be placed past bit 64.
    let mut c = Cursor::new(&[0xFF; 40]);
    assert_eq!(c.read_vbr(6).unwrap_err(), Error::VbrOverflow);
    // Chunks that carry on until the buffer ends.
    let mut c = Cursor::new(&[0xFF, 0xFF]);
    assert_eq!(c.read_vbr(8).unwrap_err(), Error::BufferOverflow);
    // Width one carries no payload: the value is zero.
    let mut c = Cursor::new(&[0b0000_0111]);
    assert_eq!(c.read_vbr(1).unwrap(), 0);
    assert_eq!(c.unconsumed_bit_len(), 4);
}

#[test]
fn reads_in_pieces_rebuild_the_bits() {
    let bytes = [0x5A, 0xC3, 0x7E, 0x01, 0x99, 0xF0, 0x0F, 0x80, 0x12];
    let whole = u64::from_le_bytes(bytes[..8].try_into().unwrap());
    for widths in [vec![1usize, 7, 8, 16, 32], vec![3, 3, 3, 55], vec![64], vec![13, 51]] {
        let mut c = Cursor::new(&bytes);
        let mut acc: u128 = 0;
        let mut shift = 0;
        for w in widths {
            acc |= (c.read(w).unwrap() as u128) << shift;
            shift += w;
        }
        assert_eq!(acc as u64, whole);
    }
}

#[test]
fn alignment_and_bytes() {
    let bytes = [1u8, 2, 3, 4, 5, 6, 7, 8, 9, 10, 11, 12];
    let mut c = Cursor::new(&bytes);
    assert_eq!(c.read(3).unwrap(), 1);
    assert_eq!(c.read_bytes(1).unwrap_err(), Error::Alignment);
    assert_eq!(c.skip_bytes(1).unwrap_err(), Error::Alignment);
    assert_eq!(c.take_slice(1).unwrap_err(), Error::Alignment);
    c.align32().unwrap();
    assert_eq!(c.unconsumed_bit_len(), 64);
    let mut sub = c.take_slice(4).unwrap();
    assert_eq!(sub.read(32).unwrap(), 0x0807_0605);
    assert!(sub.is_at_end());
    assert_eq!(c.take_slice(5).unwrap_err(), Error::BufferOverflow);
    assert_eq!(c.skip_bytes(5).unwrap_err(), Error::BufferOverflow);
    c.skip_bytes(4).unwrap();
    assert!(c.is_at_end());
    assert!(c.align32().is_ok());
    assert_eq!(c.peek(1).unwrap_err(), Error::BufferOverflow);
    assert_eq!(c.peek(65).unwrap_err(), Error::VbrOverflow);
}

#[test]
fn bad_vbr_width_leaves_cursor_in_place() {
    let mut c = Cursor::new(&[0xFF, 0xFF, 0xFF, 0xFF]);
    c.read(3).unwrap();
    assert_eq!(c.read_vbr(0).unwrap_err(), Error::VbrOverflow);
    assert_eq!(c.read_vbr(40).unwrap_err(), Error::VbrOverflow);
    assert_eq!(c.unconsumed_bit_len(), 29);
    assert_eq!(c.read(30).unwrap_err(), Error::BufferOverflow);
    assert_eq!(c.unconsumed_bit_len(), 29);
}
