use llvm_stackmap_parser::stackmap::{
    parse_header, parse_live_out, parse_location, parse_stack_map_record, parse_stack_size_record,
    try_parse_location, try_parse_stack_map_record, ByteParser, Header, LiveOut, Location,
    LocationType, ParseError, StackMap, StkSizeRecord,
};

fn put_u16(v: &mut Vec<u8>, x: u16) {
    v.extend_from_slice(&x.to_le_bytes());
}

fn put_u32(v: &mut Vec<u8>, x: u32) {
    v.extend_from_slice(&x.to_le_bytes());
}

fn put_u64(v: &mut Vec<u8>, x: u64) {
    v.extend_from_slice(&x.to_le_bytes());
}

fn put_location(v: &mut Vec<u8>, typ: u8, size: u16, reg: u16, offset: i32) {
    v.push(typ);
    v.push(0);
    put_u16(v, size);
    put_u16(v, reg);
    put_u16(v, 0);
    v.extend_from_slice(&offset.to_le_bytes());
}

fn pad8(v: &mut Vec<u8>) {
    while v.len() % 8 != 0 {
        v.push(0);
    }
}

/// A record with the given locations and live-outs.
fn put_record(v: &mut Vec<u8>, id: u64, offset: u32, locs: &[(u8, u16, u16, i32)], live: &[(u16, u8)]) {
    put_u64(v, id);
    put_u32(v, offset);
    put_u16(v, 0);
    put_u16(v, locs.len() as u16);
    for &(t, s, r, o) in locs {
        put_location(v, t, s, r, o);
    }
    pad8(v);
    put_u16(v, 0);
    put_u16(v, live.len() as u16);
    for &(r, s) in live {
        put_u16(v, r);
        v.push(0);
        v.push(s);
    }
    pad8(v);
}

/// A Stack Map with two functions (one record, then two), one constant
/// and three records.
fn sample() -> Vec<u8> {
    let mut v = vec![3, 0, 0, 0];
    put_u32(&mut v, 2);
    put_u32(&mut v, 1);
    put_u32(&mut v, 3);
    put_u64(&mut v, 0x1000);
    put_u64(&mut v, 24);
    put_u64(&mut v, 1);
    put_u64(&mut v, 0x2000);
    put_u64(&mut v, 40);
    put_u64(&mut v, 2);
    put_u64(&mut v, 0xdead_beef_0000_0001);
    put_record(
        &mut v,
        7,
        0x10,
        &[(4, 8, 0, 0), (4, 8, 0, 0), (4, 8, 0, 0), (3, 8, 7, -8), (3, 8, 7, 16)],
        &[(6, 8)],
    );
    put_record(&mut v, 8, 0x24, &[(1, 8, 3, 0), (2, 8, 6, -16), (5, 8, 0, 0)], &[]);
    put_record(&mut v, 9, 0x30, &[], &[(0, 4), (1, 8)]);
    v
}

#[test]
fn parses_every_field() {
    let bytes = sample();
    let m = StackMap::parse(&bytes).unwrap();
    assert_eq!(m.header, Header { version: 3 });
    assert_eq!(m.num_functions, 2);
    assert_eq!(m.num_constants, 1);
    assert_eq!(m.num_records, 3);
    assert_eq!(
        m.stack_size_records,
        vec![
            StkSizeRecord { function_addr: 0x1000, stack_size: 24, record_count: 1 },
            StkSizeRecord { function_addr: 0x2000, stack_size: 40, record_count: 2 },
        ]
    );
    assert_eq!(m.large_constants, vec![0xdead_beef_0000_0001]);
    let r0 = &m.stack_map_records[0];
    assert_eq!(r0.patchpoint_id, 7);
    assert_eq!(r0.instruction_offset, 0x10);
    assert_eq!(r0.locations.len(), 5);
    assert_eq!(r0.locations[0], Location { size: 8, typ: LocationType::Constant(0) });
    assert_eq!(r0.locations[3], Location { size: 8, typ: LocationType::Indirect(7, -8) });
    assert_eq!(r0.locations[4], Location { size: 8, typ: LocationType::Indirect(7, 16) });
    assert_eq!(r0.live_outs, vec![LiveOut { reg_num: 6, size: 8 }]);
    let r1 = &m.stack_map_records[1];
    assert_eq!(r1.patchpoint_id, 8);
    assert_eq!(
        r1.locations,
        vec![
            Location { size: 8, typ: LocationType::Register(3) },
            Location { size: 8, typ: LocationType::Direct(6, -16) },
            Location { size: 8, typ: LocationType::ConstIndex(0) },
        ]
    );
    assert!(r1.live_outs.is_empty());
    let r2 = &m.stack_map_records[2];
    assert!(r2.locations.is_empty());
    assert_eq!(
        r2.live_outs,
        vec![LiveOut { reg_num: 0, size: 4 }, LiveOut { reg_num: 1, size: 8 }]
    );
}

#[test]
fn counts_match_the_parsed_items() {
    let bytes = sample();
    let m = StackMap::from(&bytes[..]);
    assert_eq!(m.stack_size_records.len(), m.num_functions as usize);
    assert_eq!(m.large_constants.len(), m.num_constants as usize);
    assert_eq!(m.stack_map_records.len(), m.num_records as usize);
}

#[test]
fn from_agrees_with_parse() {
    let bytes = sample();
    let a = StackMap::from(&bytes[..]);
    let b = StackMap::parse(&bytes).unwrap();
    assert_eq!(format!("{:?}", a), format!("{:?}", b));
}

#[test]
fn empty_stack_map() {
    let mut v = vec![3, 0, 0, 0];
    put_u32(&mut v, 0);
    put_u32(&mut v, 0);
    put_u32(&mut v, 0);
    let m = StackMap::parse(&v).unwrap();
    assert_eq!(m.header.version, 3);
    assert!(m.stack_size_records.is_empty());
    assert!(m.large_constants.is_empty());
    assert!(m.stack_map_records.is_empty());
}

#[test]
fn trailing_bytes_change_nothing() {
    let bytes = sample();
    let mut longer = bytes.clone();
    longer.extend_from_slice(&[0xff; 37]);
    let a = StackMap::parse(&bytes).unwrap();
    let b = StackMap::parse(&longer).unwrap();
    assert_eq!(format!("{:?}", a), format!("{:?}", b));
}

#[test]
fn missing_final_padding_is_accepted() {
    let mut v = vec![3, 0, 0, 0];
    put_u32(&mut v, 0);
    put_u32(&mut v, 0);
    put_u32(&mut v, 1);
    put_record(&mut v, 1, 2, &[], &[(5, 8), (6, 8)]);
    let full = StackMap::parse(&v).unwrap();
    // The record ends with 4 bytes of padding; without them it still parses.
    v.truncate(v.len() - 4);
    let cut = StackMap::parse(&v).unwrap();
    assert_eq!(format!("{:?}", full), format!("{:?}", cut));
}

#[test]
fn every_truncation_is_an_end_of_input_error() {
    let bytes = sample();
    // The last record ends with 4 bytes of padding that nothing reads.
    for n in 0..bytes.len() - 4 {
        assert_eq!(
            StackMap::parse(&bytes[..n]).unwrap_err(),
            ParseError::UnexpectedEndOfInput,
            "prefix of {} bytes",
            n
        );
    }
}

#[test]
fn unknown_location_type() {
    let mut v = vec![3, 0, 0, 0];
    put_u32(&mut v, 0);
    put_u32(&mut v, 0);
    put_u32(&mut v, 1);
    put_record(&mut v, 1, 2, &[(4, 8, 0, 0), (9, 8, 0, 0)], &[]);
    assert_eq!(StackMap::parse(&v).unwrap_err(), ParseError::UnknownLocationType(9));
    let mut w = v.clone();
    w[16 + 16 + 12] = 0;
    assert_eq!(StackMap::parse(&w).unwrap_err(), ParseError::UnknownLocationType(0));
}

#[test]
fn truncated_location_reports_end_before_its_type() {
    let mut v = vec![3, 0, 0, 0];
    put_u32(&mut v, 0);
    put_u32(&mut v, 0);
    put_u32(&mut v, 1);
    put_record(&mut v, 1, 2, &[(9, 8, 0, 0)], &[]);
    v.truncate(16 + 16 + 6);
    assert_eq!(StackMap::parse(&v).unwrap_err(), ParseError::UnexpectedEndOfInput);
}

#[test]
fn item_parsers() {
    let mut v = vec![3, 9, 0, 0];
    put_u64(&mut v, 1);
    put_u64(&mut v, 2);
    put_u64(&mut v, 3);
    put_location(&mut v, 2, 4, 6, -12);
    put_u16(&mut v, 17);
    v.push(0);
    v.push(16);
    let mut p = ByteParser::new(&v);
    assert_eq!(parse_header(&mut p), Header { version: 3 });
    assert_eq!(
        parse_stack_size_record(&mut p),
        StkSizeRecord { function_addr: 1, stack_size: 2, record_count: 3 }
    );
    assert_eq!(parse_location(&mut p), Location { size: 4, typ: LocationType::Direct(6, -12) });
    assert_eq!(parse_live_out(&mut p), LiveOut { reg_num: 17, size: 16 });
    assert_eq!(p.remaining(), 0);
}

#[test]
fn try_parse_location_reports_errors() {
    let mut v = Vec::new();
    put_location(&mut v, 6, 4, 6, -12);
    let mut p = ByteParser::new(&v);
    assert_eq!(try_parse_location(&mut p), Err(ParseError::UnknownLocationType(6)));
    let mut q = ByteParser::new(&v[..11]);
    assert_eq!(try_parse_location(&mut q), Err(ParseError::UnexpectedEndOfInput));
    let mut w = Vec::new();
    put_location(&mut w, 1, 8, 5, 0);
    let mut r = ByteParser::new(&w);
    assert_eq!(try_parse_location(&mut r), Ok(Location { size: 8, typ: LocationType::Register(5) }));
}

#[test]
fn record_parsers() {
    let mut v = Vec::new();
    put_record(&mut v, 42, 0x99, &[(4, 8, 0, 5)], &[(3, 8)]);
    let mut p = ByteParser::new(&v);
    let r = parse_stack_map_record(&mut p);
    assert_eq!(r.patchpoint_id, 42);
    assert_eq!(r.instruction_offset, 0x99);
    assert_eq!(r.locations, vec![Location { size: 8, typ: LocationType::Constant(5) }]);
    assert_eq!(r.live_outs, vec![LiveOut { reg_num: 3, size: 8 }]);
    assert_eq!(p.remaining(), 0);
    let mut q = ByteParser::new(&v[..20]);
    assert_eq!(try_parse_stack_map_record(&mut q).unwrap_err(), ParseError::UnexpectedEndOfInput);
}
