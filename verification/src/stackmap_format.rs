//! Mathematical model of the LLVM Stack Map byte format.
//!
//! Every multi-byte field is little-endian. A parser state is a byte
//! sequence and a position in it; each item parser maps a state to the value
//! read and the position after it, or to the error that stops parsing.
use vstd::prelude::*;
use crate::stackmap::{
    Header, LiveOut, Location, LocationType, ParseError, StackMapView, StkMapRecordView,
    StkSizeRecord,
};

verus! {

/// Whether `n` bytes starting at `p` lie inside `b`.
pub open spec fn has_bytes(b: Seq<u8>, p: int, n: int) -> bool {
    0 <= p && p + n <= b.len()
}

/// The little-endian `u16` stored at `b[p..p + 2]`.
pub open spec fn le_u16(b: Seq<u8>, p: int) -> u16 {
    (b[p] + 256 * b[p + 1]) as u16
}

/// The little-endian `u32` stored at `b[p..p + 4]`.
pub open spec fn le_u32(b: Seq<u8>, p: int) -> u32 {
    (le_u16(b, p) + 65536 * le_u16(b, p + 2)) as u32
}

/// The little-endian `u64` stored at `b[p..p + 8]`.
pub open spec fn le_u64(b: Seq<u8>, p: int) -> u64 {
    (le_u32(b, p) + 4294967296 * le_u32(b, p + 4)) as u64
}

/// The little-endian two's-complement `i32` stored at `b[p..p + 4]`.
pub open spec fn le_i32(b: Seq<u8>, p: int) -> i32 {
    let u = le_u32(b, p);
    if u < 0x8000_0000 {
        u as i32
    } else {
        (u - 0x1_0000_0000) as i32
    }
}

/// The least multiple of `a` that is at least `p`.
pub open spec fn align_up(p: int, a: int) -> int {
    if p % a == 0 {
        p
    } else {
        p + (a - p % a)
    }
}

/// The result of an item parser: the value and the position after it.
pub type Parsed<T> = Result<(T, int), ParseError>;

/// Reads `n` items one after another with `item`, starting at `p`.
pub open spec fn repeat<T>(
    item: spec_fn(Seq<u8>, int) -> Parsed<T>,
    b: Seq<u8>,
    p: int,
    n: nat,
) -> Parsed<Seq<T>>
    decreases n,
{
    if n == 0 {
        Ok((Seq::empty(), p))
    } else {
        match repeat(item, b, p, (n - 1) as nat) {
            Ok((xs, q)) => match item(b, q) {
                Ok((x, r)) => Ok((xs.push(x), r)),
                Err(e) => Err(e),
            },
            Err(e) => Err(e),
        }
    }
}

/// Header: version (u8), reserved (u8), reserved (u16).
pub open spec fn spec_header(b: Seq<u8>, p: int) -> Parsed<Header> {
    if has_bytes(b, p, 4) {
        Ok((Header { version: b[p] }, p + 4))
    } else {
        Err(ParseError::UnexpectedEndOfInput)
    }
}

/// StkSizeRecord: function address, stack size, record count (each u64).
pub open spec fn spec_stack_size_record(b: Seq<u8>, p: int) -> Parsed<StkSizeRecord> {
    if has_bytes(b, p, 24) {
        Ok(
            (
                StkSizeRecord {
                    function_addr: le_u64(b, p),
                    stack_size: le_u64(b, p + 8),
                    record_count: le_u64(b, p + 16),
                },
                p + 24,
            ),
        )
    } else {
        Err(ParseError::UnexpectedEndOfInput)
    }
}

/// A large constant (u64).
pub open spec fn spec_constant(b: Seq<u8>, p: int) -> Parsed<u64> {
    if has_bytes(b, p, 8) {
        Ok((le_u64(b, p), p + 8))
    } else {
        Err(ParseError::UnexpectedEndOfInput)
    }
}

/// The location kind that a type tag and the register and offset fields give.
pub open spec fn location_type(tag: u8, reg: u16, offset: i32) -> Option<LocationType> {
    if tag == 1 {
        Some(LocationType::Register(reg))
    } else if tag == 2 {
        Some(LocationType::Direct(reg, offset))
    } else if tag == 3 {
        Some(LocationType::Indirect(reg, offset))
    } else if tag == 4 {
        Some(LocationType::Constant(offset))
    } else if tag == 5 {
        Some(LocationType::ConstIndex(offset))
    } else {
        None
    }
}

/// Location: type (u8), reserved (u8), size (u16), register (u16),
/// reserved (u16), offset or small constant (i32).
pub open spec fn spec_location(b: Seq<u8>, p: int) -> Parsed<Location> {
    if !has_bytes(b, p, 12) {
        Err(ParseError::UnexpectedEndOfInput)
    } else {
        match location_type(b[p], le_u16(b, p + 4), le_i32(b, p + 8)) {
            Some(typ) => Ok((Location { size: le_u16(b, p + 2), typ }, p + 12)),
            None => Err(ParseError::UnknownLocationType(b[p])),
        }
    }
}

/// LiveOut: register (u16), reserved (u8), size (u8).
pub open spec fn spec_live_out(b: Seq<u8>, p: int) -> Parsed<LiveOut> {
    if has_bytes(b, p, 4) {
        Ok((LiveOut { reg_num: le_u16(b, p), size: b[p + 3] }, p + 4))
    } else {
        Err(ParseError::UnexpectedEndOfInput)
    }
}

pub open spec fn stack_size_record_item() -> spec_fn(Seq<u8>, int) -> Parsed<StkSizeRecord> {
    |b: Seq<u8>, p: int| spec_stack_size_record(b, p)
}

pub open spec fn constant_item() -> spec_fn(Seq<u8>, int) -> Parsed<u64> {
    |b: Seq<u8>, p: int| spec_constant(b, p)
}

pub open spec fn location_item() -> spec_fn(Seq<u8>, int) -> Parsed<Location> {
    |b: Seq<u8>, p: int| spec_location(b, p)
}

pub open spec fn live_out_item() -> spec_fn(Seq<u8>, int) -> Parsed<LiveOut> {
    |b: Seq<u8>, p: int| spec_live_out(b, p)
}

pub open spec fn stack_map_record_item() -> spec_fn(Seq<u8>, int) -> Parsed<StkMapRecordView> {
    |b: Seq<u8>, p: int| spec_stack_map_record(b, p)
}

/// StkMapRecord: patchpoint id (u64), instruction offset (u32), reserved
/// (u16), location count (u16), the locations, padding to 8 bytes, padding
/// (u16), live-out count (u16), the live-outs, padding to 8 bytes.
pub open spec fn spec_stack_map_record(b: Seq<u8>, p: int) -> Parsed<StkMapRecordView> {
    if !has_bytes(b, p, 16) {
        Err(ParseError::UnexpectedEndOfInput)
    } else {
        match repeat(location_item(), b, p + 16, le_u16(b, p + 14) as nat) {
            Err(e) => Err(e),
            Ok((locations, q)) => {
                let q2 = align_up(q, 8);
                if !has_bytes(b, q2, 4) {
                    Err(ParseError::UnexpectedEndOfInput)
                } else {
                    match repeat(live_out_item(), b, q2 + 4, le_u16(b, q2 + 2) as nat) {
                        Err(e) => Err(e),
                        Ok((live_outs, r)) => Ok(
                            (
                                StkMapRecordView {
                                    patchpoint_id: le_u64(b, p),
                                    instruction_offset: le_u32(b, p + 8),
                                    locations,
                                    live_outs,
                                },
                                align_up(r, 8),
                            ),
                        ),
                    }
                }
            },
        }
    }
}

/// The whole section: header, the three counts (u32 each), then the
/// stack size records, the large constants and the stack map records.
pub open spec fn spec_stack_map(b: Seq<u8>) -> Result<StackMapView, ParseError> {
    if !has_bytes(b, 0, 16) {
        Err(ParseError::UnexpectedEndOfInput)
    } else {
        let num_functions = le_u32(b, 4);
        let num_constants = le_u32(b, 8);
        let num_records = le_u32(b, 12);
        match repeat(stack_size_record_item(), b, 16, num_functions as nat) {
            Err(e) => Err(e),
            Ok((stack_size_records, p1)) => match repeat(
                constant_item(),
                b,
                p1,
                num_constants as nat,
            ) {
                Err(e) => Err(e),
                Ok((large_constants, p2)) => match repeat(
                    stack_map_record_item(),
                    b,
                    p2,
                    num_records as nat,
                ) {
                    Err(e) => Err(e),
                    Ok((stack_map_records, _)) => Ok(
                        StackMapView {
                            header: Header { version: b[0] },
                            num_functions,
                            num_constants,
                            num_records,
                            stack_size_records,
                            large_constants,
                            stack_map_records,
                        },
                    ),
                },
            },
        }
    }
}

/// A prefix of a successful repetition succeeds, and the item after it too.
pub proof fn lemma_repeat_prefix_ok<T>(
    item: spec_fn(Seq<u8>, int) -> Parsed<T>,
    b: Seq<u8>,
    p: int,
    i: nat,
    n: nat,
)
    requires
        i < n,
        repeat(item, b, p, n) is Ok,
    ensures
        repeat(item, b, p, i) is Ok,
        item(b, repeat(item, b, p, i)->Ok_0.1) is Ok,
    decreases n,
{
    if i + 1 < n {
        assert(repeat(item, b, p, (n - 1) as nat) is Ok);
        lemma_repeat_prefix_ok(item, b, p, i, (n - 1) as nat);
    }
}

/// Once a repetition fails, every longer one fails with the same error.
pub proof fn lemma_repeat_err_stays<T>(
    item: spec_fn(Seq<u8>, int) -> Parsed<T>,
    b: Seq<u8>,
    p: int,
    i: nat,
    n: nat,
)
    requires
        i <= n,
        repeat(item, b, p, i) is Err,
    ensures
        repeat(item, b, p, n) == repeat(item, b, p, i),
    decreases n,
{
    if i < n {
        lemma_repeat_err_stays(item, b, p, i, (n - 1) as nat);
    }
}

} // verus!
