use llvm_stackmap_parser::stackmap::ByteParser;

#[test]
fn reads_little_endian_fields() {
    let bytes = [
        0xab, 0x34, 0x12, 0x78, 0x56, 0x34, 0x12, 0xfe, 0xff, 0xff, 0xff, 0x08, 0x07, 0x06, 0x05,
        0x04, 0x03, 0x02, 0x01,
    ];
    let mut p = ByteParser::new(&bytes);
    assert_eq!(p.get_u8(), 0xab);
    assert_eq!(p.get_u16(), 0x1234);
    assert_eq!(p.get_u32(), 0x1234_5678);
    assert_eq!(p.get_i32(), -2);
    assert_eq!(p.get_u64(), 0x0102_0304_0506_0708);
    assert_eq!(p.remaining(), 0);
}

#[test]
fn reads_extreme_i32() {
    let bytes = [0x00, 0x00, 0x00, 0x80, 0xff, 0xff, 0xff, 0x7f];
    let mut p = ByteParser::new(&bytes);
    assert_eq!(p.get_i32(), i32::MIN);
    assert_eq!(p.get_i32(), i32::MAX);
}

#[test]
fn align_moves_to_the_next_multiple() {
    let bytes = [0u8; 16];
    let mut p = ByteParser::new(&bytes);
    p.align(8);
    assert_eq!(p.remaining(), 16);
    p.get_u8();
    p.align(8);
    assert_eq!(p.remaining(), 8);
    p.align(8);
    assert_eq!(p.remaining(), 8);
    p.get_u16();
    p.align(4);
    assert_eq!(p.remaining(), 4);
}

#[test]
fn align_can_pass_the_end() {
    let bytes = [0u8; 3];
    let mut p = ByteParser::new(&bytes);
    p.get_u8();
    p.align(8);
    assert_eq!(p.remaining(), 0);
}

#[test]
fn snapshot_does_not_move_the_original() {
    let bytes = [1u8, 2, 3];
    let mut p = ByteParser::new(&bytes);
    let mut q = p.snapshot();
    assert_eq!(q.get_u8(), 1);
    assert_eq!(p.get_u8(), 1);
    assert_eq!(q.get_u16(), 0x0302);
}

#[test]
fn align_to_zero_at_the_start_does_nothing() {
    let bytes = [5u8, 6];
    let mut p = ByteParser::new(&bytes);
    p.align(0);
    assert_eq!(p.remaining(), 2);
    assert_eq!(p.get_u8(), 5);
}
