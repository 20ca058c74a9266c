//! What each parsed field is, stated directly over the bytes of the section:
//! the number that its bytes spell out in little-endian order.
use vstd::prelude::*;
use crate::stackmap::{Header, LiveOut, LocationType, ParseError, StkSizeRecord};
use crate::stackmap_format::{
    align_up, constant_item, le_i32, le_u16, le_u32, le_u64, live_out_item, location_item, repeat,
    spec_constant, spec_header, spec_live_out, spec_location, spec_stack_map,
    spec_stack_map_record, spec_stack_size_record, stack_size_record_item, Parsed,
};

verus! {

/// The unsigned number that the `n` bytes at `b[p..p + n]` spell out, least
/// significant byte first.
pub open spec fn little_endian(b: Seq<u8>, p: int, n: nat) -> int
    decreases n,
{
    if n == 0 {
        0
    } else {
        b[p] + 256 * little_endian(b, p + 1, (n - 1) as nat)
    }
}

/// The two's-complement reading of the 4 bytes at `b[p..p + 4]`.
pub open spec fn little_endian_signed32(b: Seq<u8>, p: int) -> int {
    let u = little_endian(b, p, 4);
    if u < 0x8000_0000 {
        u
    } else {
        u - 0x1_0000_0000
    }
}

/// The integer readers give the number that the bytes spell out.
pub proof fn lemma_readers_are_little_endian(b: Seq<u8>, p: int)
    requires
        0 <= p,
        p + 8 <= b.len(),
    ensures
        le_u16(b, p) == little_endian(b, p, 2),
        le_u32(b, p) == little_endian(b, p, 4),
        le_u64(b, p) == little_endian(b, p, 8),
        le_i32(b, p) == little_endian_signed32(b, p),
{
    reveal_with_fuel(little_endian, 9);
    assert(little_endian(b, p + 2, 2) == b[p + 2] + 256 * b[p + 3]);
    assert(little_endian(b, p, 4) == little_endian(b, p, 2) + 65536 * little_endian(b, p + 2, 2));
    assert(little_endian(b, p + 4, 4) == b[p + 4] + 256 * (b[p + 5] + 256 * (b[p + 6] + 256
        * b[p + 7])));
    assert(little_endian(b, p, 8) == little_endian(b, p, 4) + 4294967296 * little_endian(
        b,
        p + 4,
        4,
    ));
}

proof fn lemma_readers_in_short_data(b: Seq<u8>, p: int, n: nat)
    requires
        0 <= p,
        p + n <= b.len(),
        n == 2 || n == 4,
    ensures
        le_u16(b, p) == little_endian(b, p, 2),
        n == 4 ==> le_u32(b, p) == little_endian(b, p, 4),
        n == 4 ==> le_i32(b, p) == little_endian_signed32(b, p),
{
    reveal_with_fuel(little_endian, 5);
    if n == 4 {
        assert(little_endian(b, p + 2, 2) == b[p + 2] + 256 * b[p + 3]);
        assert(little_endian(b, p, 4) == little_endian(b, p, 2) + 65536 * little_endian(
            b,
            p + 2,
            2,
        ));
    }
}

/// A location is read from 12 bytes: the type tag at offset 0, the size at
/// 2, the register at 4 and the offset or small constant at 8. Tags 1 to 5
/// give a register, a direct, an indirect, a constant and a constant index
/// location; a constant index is the offset field, not the register.
pub proof fn lemma_location_fields(b: Seq<u8>, p: int)
    ensures
        !(0 <= p && p + 12 <= b.len()) ==> spec_location(b, p) == Err::<
            (crate::stackmap::Location, int),
            ParseError,
        >(ParseError::UnexpectedEndOfInput),
        0 <= p && p + 12 <= b.len() && !(1 <= b[p] <= 5) ==> spec_location(b, p) == Err::<
            (crate::stackmap::Location, int),
            ParseError,
        >(ParseError::UnknownLocationType(b[p])),
        0 <= p && p + 12 <= b.len() && 1 <= b[p] <= 5 ==> (spec_location(b, p) is Ok),
        spec_location(b, p) matches Ok((loc, q)) ==> {
            let reg = little_endian(b, p + 4, 2);
            let off = little_endian_signed32(b, p + 8);
            &&& q == p + 12
            &&& loc.size == little_endian(b, p + 2, 2)
            &&& b[p] == 1 ==> (loc.typ matches LocationType::Register(r) && r == reg)
            &&& b[p] == 2 ==> (loc.typ matches LocationType::Direct(r, o) && r == reg && o == off)
            &&& b[p] == 3 ==> (loc.typ matches LocationType::Indirect(r, o) && r == reg && o
                == off)
            &&& b[p] == 4 ==> (loc.typ matches LocationType::Constant(c) && c == off)
            &&& b[p] == 5 ==> (loc.typ matches LocationType::ConstIndex(k) && k == off)
        },
{
    if 0 <= p && p + 12 <= b.len() {
        lemma_readers_in_short_data(b, p + 2, 2);
        lemma_readers_in_short_data(b, p + 4, 2);
        lemma_readers_in_short_data(b, p + 8, 4);
    }
}

/// The header keeps its first byte as the version and spans 4 bytes.
pub proof fn lemma_header_fields(b: Seq<u8>, p: int)
    ensures
        0 <= p && p + 4 <= b.len() <==> (spec_header(b, p) is Ok),
        spec_header(b, p) matches Ok((h, q)) ==> (h == (Header { version: b[p] }) && q == p + 4),
{
}

/// A stack size record is three little-endian 8-byte numbers: the
/// function address, the stack size and the record count.
pub proof fn lemma_stack_size_record_fields(b: Seq<u8>, p: int)
    ensures
        0 <= p && p + 24 <= b.len() <==> (spec_stack_size_record(b, p) is Ok),
        spec_stack_size_record(b, p) matches Ok((r, q)) ==> {
            &&& q == p + 24
            &&& r.function_addr == little_endian(b, p, 8)
            &&& r.stack_size == little_endian(b, p + 8, 8)
            &&& r.record_count == little_endian(b, p + 16, 8)
        },
{
    if 0 <= p && p + 24 <= b.len() {
        lemma_readers_are_little_endian(b, p);
        lemma_readers_are_little_endian(b, p + 8);
        lemma_readers_are_little_endian(b, p + 16);
    }
}

/// A large constant is a little-endian 8-byte number.
pub proof fn lemma_constant_fields(b: Seq<u8>, p: int)
    ensures
        0 <= p && p + 8 <= b.len() <==> (spec_constant(b, p) is Ok),
        spec_constant(b, p) matches Ok((c, q)) ==> c == little_endian(b, p, 8) && q == p + 8,
{
    if 0 <= p && p + 8 <= b.len() {
        lemma_readers_are_little_endian(b, p);
    }
}

/// A live-out is read from 4 bytes: the register at offset 0 and the size
/// at 3.
pub proof fn lemma_live_out_fields(b: Seq<u8>, p: int)
    ensures
        0 <= p && p + 4 <= b.len() <==> (spec_live_out(b, p) is Ok),
        spec_live_out(b, p) matches Ok((l, q)) ==> {
            &&& q == p + 4
            &&& l.reg_num == little_endian(b, p, 2)
            &&& l.size == b[p + 3]
        },
{
    if 0 <= p && p + 4 <= b.len() {
        lemma_readers_in_short_data(b, p, 2);
    }
}

/// Padding moves a position to the least multiple of 8 at or after it.
pub proof fn lemma_align_up_8(p: int)
    ensures
        align_up(p, 8) % 8 == 0,
        p <= align_up(p, 8) < p + 8,
{
}

/// Items of a fixed size, read one after another from `p`: item `k` is the
/// one that starts at `p + size * k`, and the last ends at `p + size * n`.
pub proof fn lemma_repeat_fixed_size<T>(
    item: spec_fn(Seq<u8>, int) -> Parsed<T>,
    b: Seq<u8>,
    p: int,
    n: nat,
    size: int,
)
    requires
        forall|q: int| #[trigger] item(b, q) is Ok ==> item(b, q)->Ok_0.1 == q + size,
        repeat(item, b, p, n) is Ok,
    ensures
        repeat(item, b, p, n)->Ok_0.0.len() == n,
        repeat(item, b, p, n)->Ok_0.1 == p + size * n,
        forall|k: int|
            0 <= k < n ==> #[trigger] item(b, p + size * k) is Ok && item(b, p + size * k)->Ok_0.0
                == repeat(item, b, p, n)->Ok_0.0[k],
    decreases n,
{
    if n > 0 {
        let m = (n - 1) as nat;
        lemma_repeat_fixed_size(item, b, p, m, size);
        let (xs, e) = repeat(item, b, p, m)->Ok_0;
        assert(item(b, e) is Ok);
        assert(p + size * m + size == p + size * n) by (nonlinear_arith)
            requires
                m + 1 == n,
        ;
        let all = repeat(item, b, p, n)->Ok_0.0;
        assert forall|k: int| 0 <= k < n implies #[trigger] item(b, p + size * k) is Ok && item(
            b,
            p + size * k,
        )->Ok_0.0 == all[k] by {
            if k < m {
                assert(all[k] == xs[k]);
            } else {
                assert(k == m);
            }
        }
    }
}

/// A stack map record: the patchpoint id is the 8 bytes at its start, the
/// instruction offset the 4 bytes after them, the location count the 2
/// bytes at 14; location `k` is the one encoded at `16 + 12 k`. After the
/// locations, padded to 8 bytes, come 2 bytes of padding and the live-out
/// count, then live-out `k` at 4 bytes each; the record ends padded to 8.
pub proof fn lemma_stack_map_record_layout(b: Seq<u8>, p: int)
    requires
        spec_stack_map_record(b, p) is Ok,
    ensures
        ({
            let (r, end) = spec_stack_map_record(b, p)->Ok_0;
            let nloc = little_endian(b, p + 14, 2);
            let q = align_up(p + 16 + 12 * nloc, 8);
            let nlive = little_endian(b, q + 2, 2);
            &&& 0 <= p && p + 16 <= b.len()
            &&& r.patchpoint_id == little_endian(b, p, 8)
            &&& r.instruction_offset == little_endian(b, p + 8, 4)
            &&& r.locations.len() == nloc
            &&& forall|k: int|
                0 <= k < nloc ==> #[trigger] spec_location(b, p + 16 + 12 * k) is Ok
                    && spec_location(b, p + 16 + 12 * k)->Ok_0.0 == r.locations[k]
            &&& 0 <= q && q + 4 <= b.len()
            &&& r.live_outs.len() == nlive
            &&& forall|k: int|
                0 <= k < nlive ==> #[trigger] spec_live_out(b, q + 4 + 4 * k) is Ok
                    && spec_live_out(b, q + 4 + 4 * k)->Ok_0.0 == r.live_outs[k]
            &&& end == align_up(q + 4 + 4 * nlive, 8)
        }),
{
    lemma_readers_are_little_endian(b, p);
    lemma_readers_in_short_data(b, p + 8, 4);
    lemma_readers_in_short_data(b, p + 14, 2);
    let nloc = le_u16(b, p + 14) as nat;
    assert forall|q: int| #[trigger] location_item()(b, q) is Ok implies location_item()(
        b,
        q,
    )->Ok_0.1 == q + 12 by {
        lemma_location_fields(b, q);
    }
    lemma_repeat_fixed_size(location_item(), b, p + 16, nloc, 12);
    assert forall|k: int| 0 <= k < nloc implies #[trigger] spec_location(b, p + 16 + 12 * k) is Ok
        && spec_location(b, p + 16 + 12 * k)->Ok_0.0 == spec_stack_map_record(
        b,
        p,
    )->Ok_0.0.locations[k] by {
        assert(location_item()(b, p + 16 + 12 * k) is Ok);
    }
    let q = align_up(p + 16 + 12 * nloc, 8);
    lemma_readers_in_short_data(b, q + 2, 2);
    let nlive = le_u16(b, q + 2) as nat;
    assert forall|x: int| #[trigger] live_out_item()(b, x) is Ok implies live_out_item()(
        b,
        x,
    )->Ok_0.1 == x + 4 by {
        lemma_live_out_fields(b, x);
    }
    lemma_repeat_fixed_size(live_out_item(), b, q + 4, nlive, 4);
    assert forall|k: int| 0 <= k < nlive implies #[trigger] spec_live_out(b, q + 4 + 4 * k) is Ok
        && spec_live_out(b, q + 4 + 4 * k)->Ok_0.0 == spec_stack_map_record(
        b,
        p,
    )->Ok_0.0.live_outs[k] by {
        assert(live_out_item()(b, q + 4 + 4 * k) is Ok);
    }
}

/// The section: the version is its first byte; the function, constant and
/// record counts are the 4-byte numbers at 4, 8 and 12; stack size record
/// `k` is the one encoded at `16 + 24 k`, and large constant `k` is the
/// 8-byte number at `16 + 24 f + 8 k` for `f` functions.
pub proof fn lemma_stack_map_layout(b: Seq<u8>)
    requires
        spec_stack_map(b) is Ok,
    ensures
        ({
            let m = spec_stack_map(b)->Ok_0;
            let f = little_endian(b, 4, 4);
            &&& m.header.version == b[0]
            &&& m.num_functions == f
            &&& m.num_constants == little_endian(b, 8, 4)
            &&& m.num_records == little_endian(b, 12, 4)
            &&& forall|k: int|
                0 <= k < f ==> #[trigger] spec_stack_size_record(b, 16 + 24 * k) is Ok
                    && spec_stack_size_record(b, 16 + 24 * k)->Ok_0.0 == m.stack_size_records[k]
            &&& forall|k: int|
                0 <= k < m.num_constants ==> #[trigger] spec_constant(b, 16 + 24 * f + 8 * k) is Ok
                    && m.large_constants[k] == little_endian(b, 16 + 24 * f + 8 * k, 8)
        }),
{
    lemma_readers_are_little_endian(b, 4);
    lemma_readers_in_short_data(b, 8, 4);
    lemma_readers_in_short_data(b, 12, 4);
    let m = spec_stack_map(b)->Ok_0;
    let f = m.num_functions as nat;
    assert forall|q: int| #[trigger] stack_size_record_item()(b, q) is Ok implies stack_size_record_item()(
        b,
        q,
    )->Ok_0.1 == q + 24 by {
        lemma_stack_size_record_fields(b, q);
    }
    lemma_repeat_fixed_size(stack_size_record_item(), b, 16, f, 24);
    assert forall|k: int| 0 <= k < f implies #[trigger] spec_stack_size_record(b, 16 + 24 * k) is Ok
        && spec_stack_size_record(b, 16 + 24 * k)->Ok_0.0 == m.stack_size_records[k] by {
        assert(stack_size_record_item()(b, 16 + 24 * k) is Ok);
    }
    let p1: int = 16 + 24 * (f as int);
    assert forall|q: int| #[trigger] constant_item()(b, q) is Ok implies constant_item()(
        b,
        q,
    )->Ok_0.1 == q + 8 by {
        lemma_constant_fields(b, q);
    }
    lemma_repeat_fixed_size(constant_item(), b, p1, m.num_constants as nat, 8);
    assert forall|k: int| 0 <= k < m.num_constants implies #[trigger] spec_constant(b, p1 + 8 * k) is Ok
        && m.large_constants[k] == little_endian(b, p1 + 8 * k, 8) by {
        assert(constant_item()(b, p1 + 8 * k) is Ok);
        lemma_constant_fields(b, p1 + 8 * k);
    }
}

} // verus!
