//! The parsed Stack Map and the parser that reads it from the raw section.
use vstd::prelude::*;
use crate::stackmap_laws::lemma_stack_map_counts;
use crate::stackmap_format::{
    align_up, has_bytes, le_i32, le_u16, le_u32, le_u64, lemma_repeat_err_stays, live_out_item,
    location_item, repeat, spec_header, spec_live_out, spec_location, spec_stack_map,
    spec_stack_map_record, spec_stack_size_record, stack_map_record_item, stack_size_record_item,
    constant_item,
};

verus! {

/// A parsed Stack Map section.
#[derive(Debug)]
pub struct StackMap {
    pub header: Header,
    pub num_functions: u32,
    pub num_constants: u32,
    pub num_records: u32,
    pub stack_size_records: Vec<StkSizeRecord>,
    pub large_constants: Vec<u64>,
    pub stack_map_records: Vec<StkMapRecord>,
}

/// The section header; only the format version is kept.
#[derive(Debug, Clone, Copy, PartialEq, Eq, Structural)]
pub struct Header {
    pub version: u8,
}

/// The stack frame of one function that holds records.
#[derive(Debug, Clone, Copy, PartialEq, Eq, Structural)]
pub struct StkSizeRecord {
    pub function_addr: u64,
    pub stack_size: u64,
    pub record_count: u64,
}

/// One stack map record: the live values at one call site.
#[derive(Debug)]
pub struct StkMapRecord {
    pub patchpoint_id: u64,
    pub instruction_offset: u32,
    pub locations: Vec<Location>,
    pub live_outs: Vec<LiveOut>,
}

/// Where one live value is held.
#[derive(Debug, Clone, Copy, PartialEq, Eq, Structural)]
pub struct Location {
    pub size: u16,
    pub typ: LocationType,
}

/// The kinds of location, with their register number and offset.
#[derive(Debug, Clone, Copy, PartialEq, Eq, Structural)]
pub enum LocationType {
    Register(u16),
    Direct(u16, i32),
    Indirect(u16, i32),
    Constant(i32),
    ConstIndex(i32),
}

/// A register that is live out of a call site.
#[derive(Debug, Clone, Copy, PartialEq, Eq, Structural)]
pub struct LiveOut {
    pub reg_num: u16,
    pub size: u8,
}

/// Why a byte sequence is not a Stack Map.
#[derive(Debug, Clone, Copy, PartialEq, Eq, Structural)]
pub enum ParseError {
    /// A field reaches past the end of the bytes.
    UnexpectedEndOfInput,
    /// A location carries a type tag other than 1 to 5.
    UnknownLocationType(u8),
}

/// The model of a [`StkMapRecord`].
pub struct StkMapRecordView {
    pub patchpoint_id: u64,
    pub instruction_offset: u32,
    pub locations: Seq<Location>,
    pub live_outs: Seq<LiveOut>,
}

/// The model of a [`StackMap`].
pub struct StackMapView {
    pub header: Header,
    pub num_functions: u32,
    pub num_constants: u32,
    pub num_records: u32,
    pub stack_size_records: Seq<StkSizeRecord>,
    pub large_constants: Seq<u64>,
    pub stack_map_records: Seq<StkMapRecordView>,
}

impl View for StkMapRecord {
    type V = StkMapRecordView;

    open spec fn view(&self) -> StkMapRecordView {
        StkMapRecordView {
            patchpoint_id: self.patchpoint_id,
            instruction_offset: self.instruction_offset,
            locations: self.locations@,
            live_outs: self.live_outs@,
        }
    }
}

impl View for StackMap {
    type V = StackMapView;

    open spec fn view(&self) -> StackMapView {
        StackMapView {
            header: self.header,
            num_functions: self.num_functions,
            num_constants: self.num_constants,
            num_records: self.num_records,
            stack_size_records: self.stack_size_records@,
            large_constants: self.large_constants@,
            stack_map_records: self.stack_map_records@.map_values(|r: StkMapRecord| r@),
        }
    }
}

impl StackMap {
    /// Parses a Stack Map section, or tells why the bytes are not one.
    #[verifier::loop_isolation(false)]
    pub fn parse(bytes: &[u8]) -> (r: Result<StackMap, ParseError>)
        requires
            bytes@.len() <= isize::MAX,
        ensures
            match r {
                Ok(m) => spec_stack_map(bytes@) == Ok::<StackMapView, ParseError>(m@),
                Err(e) => spec_stack_map(bytes@) == Err::<StackMapView, ParseError>(e),
            },
    {
        let mut parser = ByteParser::new(bytes);
        let ghost b = bytes@;
        if parser.remaining() < 16 {
            return Err(ParseError::UnexpectedEndOfInput);
        }
        let header = parse_header(&mut parser);
        let num_functions = parser.get_u32();
        let num_constants = parser.get_u32();
        let num_records = parser.get_u32();
        let mut stack_size_records: Vec<StkSizeRecord> = Vec::new();
        let mut large_constants: Vec<u64> = Vec::new();
        let mut stack_map_records: Vec<StkMapRecord> = Vec::new();

        let mut i: u32 = 0;
        while i < num_functions
            invariant
                parser.wf(),
                parser.data() == b,
                i <= num_functions,
                repeat(stack_size_record_item(), b, 16, i as nat) == Ok::<
                    (Seq<StkSizeRecord>, int),
                    ParseError,
                >((stack_size_records@, parser.pos())),
            decreases num_functions - i,
        {
            if parser.remaining() < 24 {
                proof {
                    lemma_repeat_err_stays(
                        stack_size_record_item(),
                        b,
                        16,
                        (i + 1) as nat,
                        num_functions as nat,
                    );
                }
                return Err(ParseError::UnexpectedEndOfInput);
            }
            stack_size_records.push(parse_stack_size_record(&mut parser));
            i += 1;
        }
        let ghost p1 = parser.pos();

        let mut i: u32 = 0;
        while i < num_constants
            invariant
                parser.wf(),
                parser.data() == b,
                i <= num_constants,
                repeat(stack_size_record_item(), b, 16, num_functions as nat) == Ok::<
                    (Seq<StkSizeRecord>, int),
                    ParseError,
                >((stack_size_records@, p1)),
                repeat(constant_item(), b, p1, i as nat) == Ok::<(Seq<u64>, int), ParseError>(
                    (large_constants@, parser.pos()),
                ),
            decreases num_constants - i,
        {
            if parser.remaining() < 8 {
                proof {
                    lemma_repeat_err_stays(
                        constant_item(),
                        b,
                        p1,
                        (i + 1) as nat,
                        num_constants as nat,
                    );
                }
                return Err(ParseError::UnexpectedEndOfInput);
            }
            large_constants.push(parser.get_u64());
            i += 1;
        }
        let ghost p2 = parser.pos();
        assert(stack_map_records@.map_values(|r: StkMapRecord| r@) =~= Seq::<StkMapRecordView>::empty());

        let mut i: u32 = 0;
        while i < num_records
            invariant
                parser.wf(),
                parser.data() == b,
                i <= num_records,
                repeat(stack_size_record_item(), b, 16, num_functions as nat) == Ok::<
                    (Seq<StkSizeRecord>, int),
                    ParseError,
                >((stack_size_records@, p1)),
                repeat(constant_item(), b, p1, num_constants as nat) == Ok::<
                    (Seq<u64>, int),
                    ParseError,
                >((large_constants@, p2)),
                repeat(stack_map_record_item(), b, p2, i as nat) == Ok::<
                    (Seq<StkMapRecordView>, int),
                    ParseError,
                >((stack_map_records@.map_values(|r: StkMapRecord| r@), parser.pos())),
            decreases num_records - i,
        {
            match try_parse_stack_map_record(&mut parser) {
                Ok(record) => {
                    let ghost before = stack_map_records@;
                    stack_map_records.push(record);
                    assert(stack_map_records@.map_values(|r: StkMapRecord| r@) =~= before.map_values(
                        |r: StkMapRecord| r@,
                    ).push(record@));
                },
                Err(e) => {
                    proof {
                        lemma_repeat_err_stays(
                            stack_map_record_item(),
                            b,
                            p2,
                            (i + 1) as nat,
                            num_records as nat,
                        );
                    }
                    return Err(e);
                },
            }
            i += 1;
        }

        Ok(
            StackMap {
                header,
                num_functions,
                num_constants,
                num_records,
                stack_size_records,
                large_constants,
                stack_map_records,
            },
        )
    }

    /// Parses a Stack Map section that is well formed.
    pub fn from(bytes: &[u8]) -> (m: StackMap)
        requires
            bytes@.len() <= isize::MAX,
            spec_stack_map(bytes@) is Ok,
        ensures
            spec_stack_map(bytes@) == Ok::<StackMapView, ParseError>(m@),
            m.stack_size_records@.len() == m.num_functions,
            m.large_constants@.len() == m.num_constants,
            m.stack_map_records@.len() == m.num_records,
    {
        let m = StackMap::parse(bytes).unwrap();
        proof {
            lemma_stack_map_counts(bytes@);
        }
        m
    }
}

/// Reads the header.
pub fn parse_header(parser: &mut ByteParser) -> (h: Header)
    requires
        old(parser).wf(),
        spec_header(old(parser).data(), old(parser).pos()) is Ok,
    ensures
        final(parser).wf(),
        final(parser).data() == old(parser).data(),
        spec_header(old(parser).data(), old(parser).pos()) == Ok::<(Header, int), ParseError>(
            (h, final(parser).pos()),
        ),
{
    let version = parser.get_u8();
    parser.get_u8();
    parser.get_u16();
    Header { version }
}

/// Reads one stack size record.
pub fn parse_stack_size_record(parser: &mut ByteParser) -> (r: StkSizeRecord)
    requires
        old(parser).wf(),
        spec_stack_size_record(old(parser).data(), old(parser).pos()) is Ok,
    ensures
        final(parser).wf(),
        final(parser).data() == old(parser).data(),
        spec_stack_size_record(old(parser).data(), old(parser).pos()) == Ok::<
            (StkSizeRecord, int),
            ParseError,
        >((r, final(parser).pos())),
{
    StkSizeRecord {
        function_addr: parser.get_u64(),
        stack_size: parser.get_u64(),
        record_count: parser.get_u64(),
    }
}

/// Reads one stack map record that is well formed.
pub fn parse_stack_map_record(parser: &mut ByteParser) -> (r: StkMapRecord)
    requires
        old(parser).wf(),
        spec_stack_map_record(old(parser).data(), old(parser).pos()) is Ok,
    ensures
        final(parser).wf(),
        final(parser).data() == old(parser).data(),
        spec_stack_map_record(old(parser).data(), old(parser).pos()) == Ok::<
            (StkMapRecordView, int),
            ParseError,
        >((r@, final(parser).pos())),
{
    try_parse_stack_map_record(parser).unwrap()
}

/// Reads one stack map record, or tells why the bytes there are not one.
#[verifier::loop_isolation(false)]
pub fn try_parse_stack_map_record(parser: &mut ByteParser) -> (r: Result<StkMapRecord, ParseError>)
    requires
        old(parser).wf(),
    ensures
        final(parser).wf(),
        final(parser).data() == old(parser).data(),
        match r {
            Ok(rec) => spec_stack_map_record(old(parser).data(), old(parser).pos()) == Ok::<
                (StkMapRecordView, int),
                ParseError,
            >((rec@, final(parser).pos())),
            Err(e) => spec_stack_map_record(old(parser).data(), old(parser).pos()) == Err::<
                (StkMapRecordView, int),
                ParseError,
            >(e),
        },
{
    let ghost b = parser.data();
    let ghost p = parser.pos();
    if parser.remaining() < 16 {
        return Err(ParseError::UnexpectedEndOfInput);
    }
    let patchpoint_id = parser.get_u64();
    let instruction_offset = parser.get_u32();
    parser.get_u16();

    let num_locations = parser.get_u16();
    let mut locations: Vec<Location> = Vec::new();
    let mut i: u16 = 0;
    while i < num_locations
        invariant
            parser.wf(),
            parser.data() == b,
            has_bytes(b, p, 16),
            num_locations == le_u16(b, p + 14),
            i <= num_locations,
            parser.pos() <= b.len(),
            repeat(location_item(), b, p + 16, i as nat) == Ok::<(Seq<Location>, int), ParseError>(
                (locations@, parser.pos()),
            ),
        decreases num_locations - i,
    {
        match try_parse_location(parser) {
            Ok(location) => {
                locations.push(location);
            },
            Err(e) => {
                proof {
                    lemma_repeat_err_stays(
                        location_item(),
                        b,
                        p + 16,
                        (i + 1) as nat,
                        num_locations as nat,
                    );
                }
                return Err(e);
            },
        }
        i += 1;
    }
    parser.align(8);
    let ghost q2 = parser.pos();

    if parser.remaining() < 4 {
        return Err(ParseError::UnexpectedEndOfInput);
    }
    parser.get_u16();

    let num_live_outs = parser.get_u16();
    let mut live_outs: Vec<LiveOut> = Vec::new();
    let mut i: u16 = 0;
    while i < num_live_outs
        invariant
            parser.wf(),
            parser.data() == b,
            has_bytes(b, q2, 4),
            num_live_outs == le_u16(b, q2 + 2),
            i <= num_live_outs,
            parser.pos() <= b.len(),
            repeat(live_out_item(), b, q2 + 4, i as nat) == Ok::<(Seq<LiveOut>, int), ParseError>(
                (live_outs@, parser.pos()),
            ),
        decreases num_live_outs - i,
    {
        if parser.remaining() < 4 {
            proof {
                lemma_repeat_err_stays(
                    live_out_item(),
                    b,
                    q2 + 4,
                    (i + 1) as nat,
                    num_live_outs as nat,
                );
            }
            return Err(ParseError::UnexpectedEndOfInput);
        }
        live_outs.push(parse_live_out(parser));
        i += 1;
    }
    parser.align(8);

    Ok(StkMapRecord { patchpoint_id, instruction_offset, locations, live_outs })
}

/// Reads one location whose type tag is known.
pub fn parse_location(parser: &mut ByteParser) -> (loc: Location)
    requires
        old(parser).wf(),
        spec_location(old(parser).data(), old(parser).pos()) is Ok,
    ensures
        final(parser).wf(),
        final(parser).data() == old(parser).data(),
        spec_location(old(parser).data(), old(parser).pos()) == Ok::<(Location, int), ParseError>(
            (loc, final(parser).pos()),
        ),
{
    let typ = parser.get_u8();
    parser.get_u8();
    let size = parser.get_u16();
    let reg_num = parser.get_u16();
    parser.get_u16();
    let offset = parser.get_i32();

    let typ = match typ {
        1 => LocationType::Register(reg_num),
        2 => LocationType::Direct(reg_num, offset),
        3 => LocationType::Indirect(reg_num, offset),
        4 => LocationType::Constant(offset),
        _ => LocationType::ConstIndex(offset),
    };

    Location { size, typ }
}

/// Reads one location, or tells why the bytes there are not one.
pub fn try_parse_location(parser: &mut ByteParser) -> (r: Result<Location, ParseError>)
    requires
        old(parser).wf(),
    ensures
        final(parser).wf(),
        final(parser).data() == old(parser).data(),
        match r {
            Ok(loc) => spec_location(old(parser).data(), old(parser).pos()) == Ok::<
                (Location, int),
                ParseError,
            >((loc, final(parser).pos())),
            Err(e) => spec_location(old(parser).data(), old(parser).pos()) == Err::<
                (Location, int),
                ParseError,
            >(e),
        },
{
    if parser.remaining() < 12 {
        return Err(ParseError::UnexpectedEndOfInput);
    }
    let mut probe = parser.snapshot();
    let typ = probe.get_u8();
    if typ < 1 || typ > 5 {
        return Err(ParseError::UnknownLocationType(typ));
    }
    Ok(parse_location(parser))
}

/// Reads one live-out register.
pub fn parse_live_out(parser: &mut ByteParser) -> (l: LiveOut)
    requires
        old(parser).wf(),
        spec_live_out(old(parser).data(), old(parser).pos()) is Ok,
    ensures
        final(parser).wf(),
        final(parser).data() == old(parser).data(),
        spec_live_out(old(parser).data(), old(parser).pos()) == Ok::<(LiveOut, int), ParseError>(
            (l, final(parser).pos()),
        ),
{
    let reg_num = parser.get_u16();
    parser.get_u8();
    let size = parser.get_u8();

    LiveOut { size, reg_num }
}

/// A little-endian reader over a byte slice.
pub struct ByteParser<'a> {
    bytes: &'a [u8],
    start: usize,
}

impl<'a> ByteParser<'a> {
    /// The bytes being read.
    pub closed spec fn data(&self) -> Seq<u8> {
        self.bytes@
    }

    /// The position of the next byte to read.
    pub closed spec fn pos(&self) -> int {
        self.start as int
    }

    /// The slice is no longer than Rust allows any slice to be.
    pub open spec fn wf(&self) -> bool {
        &&& self.data().len() <= isize::MAX
        &&& 0 <= self.pos()
    }

    /// A second reader at the same position over the same bytes.
    pub fn snapshot(&self) -> (r: Self)
        ensures
            r.data() == self.data(),
            r.pos() == self.pos(),
    {
        ByteParser { bytes: self.bytes, start: self.start }
    }

    /// A reader at the start of `bytes`.
    pub fn new(bytes: &'a [u8]) -> (r: Self)
        requires
            bytes@.len() <= isize::MAX,
        ensures
            r.wf(),
            r.data() == bytes@,
            r.pos() == 0,
    {
        ByteParser { bytes, start: 0 }
    }

    /// The number of bytes left after the position (zero past the end).
    pub fn remaining(&self) -> (n: usize)
        ensures
            n == if self.pos() <= self.data().len() { self.data().len() - self.pos() } else { 0 },
    {
        if self.start <= self.bytes.len() {
            self.bytes.len() - self.start
        } else {
            0
        }
    }

    /// Reads one byte.
    pub fn get_u8(&mut self) -> (v: u8)
        requires
            old(self).wf(),
            has_bytes(old(self).data(), old(self).pos(), 1),
        ensures
            final(self).wf(),
            final(self).data() == old(self).data(),
            final(self).pos() == old(self).pos() + 1,
            v == old(self).data()[old(self).pos()],
    {
        let value = self.bytes[self.start];
        self.start += 1;
        value
    }

    /// Reads a little-endian `u16`.
    pub fn get_u16(&mut self) -> (v: u16)
        requires
            old(self).wf(),
            has_bytes(old(self).data(), old(self).pos(), 2),
        ensures
            final(self).wf(),
            final(self).data() == old(self).data(),
            final(self).pos() == old(self).pos() + 2,
            v == le_u16(old(self).data(), old(self).pos()),
    {
        let b0 = self.bytes[self.start] as u16;
        let b1 = self.bytes[self.start + 1] as u16;
        self.start += 2;
        b0 + 256 * b1
    }

    /// Reads a little-endian `u32`.
    pub fn get_u32(&mut self) -> (v: u32)
        requires
            old(self).wf(),
            has_bytes(old(self).data(), old(self).pos(), 4),
        ensures
            final(self).wf(),
            final(self).data() == old(self).data(),
            final(self).pos() == old(self).pos() + 4,
            v == le_u32(old(self).data(), old(self).pos()),
    {
        let lo = self.get_u16() as u32;
        let hi = self.get_u16() as u32;
        lo + 65536 * hi
    }

    /// Reads a little-endian two's-complement `i32`.
    pub fn get_i32(&mut self) -> (v: i32)
        requires
            old(self).wf(),
            has_bytes(old(self).data(), old(self).pos(), 4),
        ensures
            final(self).wf(),
            final(self).data() == old(self).data(),
            final(self).pos() == old(self).pos() + 4,
            v == le_i32(old(self).data(), old(self).pos()),
    {
        let u = self.get_u32();
        if u < 0x8000_0000 {
            u as i32
        } else {
            ((u - 0x8000_0000) as i32) - 0x7fff_ffff - 1
        }
    }

    /// Reads a little-endian `u64`.
    pub fn get_u64(&mut self) -> (v: u64)
        requires
            old(self).wf(),
            has_bytes(old(self).data(), old(self).pos(), 8),
        ensures
            final(self).wf(),
            final(self).data() == old(self).data(),
            final(self).pos() == old(self).pos() + 8,
            v == le_u64(old(self).data(), old(self).pos()),
    {
        let lo = self.get_u32() as u64;
        let hi = self.get_u32() as u64;
        lo + 4294967296 * hi
    }

    /// Moves the position up to the next multiple of `alignment`. Position 0
    /// is a multiple of every alignment, 0 included.
    pub fn align(&mut self, alignment: usize)
        requires
            alignment > 0 || old(self).pos() == 0,
            alignment > 0 ==> (old(self).pos() % (alignment as int) == 0 || old(self).pos() + (
            alignment - old(self).pos() % (alignment as int)) <= usize::MAX),
        ensures
            final(self).wf() == old(self).wf(),
            final(self).data() == old(self).data(),
            final(self).pos() == if alignment == 0 {
                old(self).pos()
            } else {
                align_up(old(self).pos(), alignment as int)
            },
    {
        let multiple = if alignment == 0 {
            self.start == 0
        } else {
            self.start % alignment == 0
        };
        if !multiple {
            self.start += alignment - (self.start % alignment);
        }
    }
}

} // verus!
