//! Properties of the Stack Map format that hold of every input.
use vstd::prelude::*;
use crate::stackmap_format::{
    align_up, constant_item, has_bytes, le_u16, le_u32, live_out_item, location_item, repeat,
    spec_constant, spec_live_out, spec_location, spec_stack_map, spec_stack_map_record,
    spec_stack_size_record, stack_map_record_item, stack_size_record_item, Parsed,
};

verus! {

/// A successful repetition of `n` items yields exactly `n` items.
pub proof fn lemma_repeat_len<T>(
    item: spec_fn(Seq<u8>, int) -> Parsed<T>,
    b: Seq<u8>,
    p: int,
    n: nat,
)
    requires
        repeat(item, b, p, n) is Ok,
    ensures
        repeat(item, b, p, n)->Ok_0.0.len() == n,
    decreases n,
{
    if n > 0 {
        lemma_repeat_len(item, b, p, (n - 1) as nat);
    }
}

/// A successful parse holds exactly as many stack size records, large
/// constants and stack map records as the section's counts announce.
pub proof fn lemma_stack_map_counts(b: Seq<u8>)
    requires
        spec_stack_map(b) is Ok,
    ensures
        spec_stack_map(b)->Ok_0.stack_size_records.len() == spec_stack_map(b)->Ok_0.num_functions,
        spec_stack_map(b)->Ok_0.large_constants.len() == spec_stack_map(b)->Ok_0.num_constants,
        spec_stack_map(b)->Ok_0.stack_map_records.len() == spec_stack_map(b)->Ok_0.num_records,
{
    let m = spec_stack_map(b)->Ok_0;
    lemma_repeat_len(stack_size_record_item(), b, 16, m.num_functions as nat);
    let p1 = repeat(stack_size_record_item(), b, 16, m.num_functions as nat)->Ok_0.1;
    lemma_repeat_len(constant_item(), b, p1, m.num_constants as nat);
    let p2 = repeat(constant_item(), b, p1, m.num_constants as nat)->Ok_0.1;
    lemma_repeat_len(stack_map_record_item(), b, p2, m.num_records as nat);
}

/// An item parser that reads only bytes below the end: appending bytes
/// does not change any of its successful results.
pub open spec fn item_ignores_suffix<T>(
    item: spec_fn(Seq<u8>, int) -> Parsed<T>,
    b: Seq<u8>,
    extra: Seq<u8>,
) -> bool {
    forall|q: int| #[trigger] item(b, q) is Ok ==> item(b + extra, q) == item(b, q)
}

/// A repetition of such items does not depend on appended bytes either.
pub proof fn lemma_repeat_ignores_suffix<T>(
    item: spec_fn(Seq<u8>, int) -> Parsed<T>,
    b: Seq<u8>,
    extra: Seq<u8>,
    p: int,
    n: nat,
)
    requires
        item_ignores_suffix(item, b, extra),
        repeat(item, b, p, n) is Ok,
    ensures
        repeat(item, b + extra, p, n) == repeat(item, b, p, n),
    decreases n,
{
    if n > 0 {
        assert(repeat(item, b, p, (n - 1) as nat) is Ok);
        lemma_repeat_ignores_suffix(item, b, extra, p, (n - 1) as nat);
        let q = repeat(item, b, p, (n - 1) as nat)->Ok_0.1;
        assert(item(b, q) is Ok);
    }
}

proof fn lemma_items_ignore_suffix(b: Seq<u8>, extra: Seq<u8>)
    ensures
        item_ignores_suffix(stack_size_record_item(), b, extra),
        item_ignores_suffix(constant_item(), b, extra),
        item_ignores_suffix(location_item(), b, extra),
        item_ignores_suffix(live_out_item(), b, extra),
{
    assert forall|q: int| #[trigger] stack_size_record_item()(b, q) is Ok implies stack_size_record_item()(
        b + extra,
        q,
    ) == stack_size_record_item()(b, q) by {
        assert(spec_stack_size_record(b + extra, q) == spec_stack_size_record(b, q));
    }
    assert forall|q: int| #[trigger] constant_item()(b, q) is Ok implies constant_item()(
        b + extra,
        q,
    ) == constant_item()(b, q) by {
        assert(spec_constant(b + extra, q) == spec_constant(b, q));
    }
    assert forall|q: int| #[trigger] location_item()(b, q) is Ok implies location_item()(
        b + extra,
        q,
    ) == location_item()(b, q) by {
        assert(spec_location(b + extra, q) == spec_location(b, q));
    }
    assert forall|q: int| #[trigger] live_out_item()(b, q) is Ok implies live_out_item()(
        b + extra,
        q,
    ) == live_out_item()(b, q) by {
        assert(spec_live_out(b + extra, q) == spec_live_out(b, q));
    }
}

proof fn lemma_record_ignores_suffix(b: Seq<u8>, extra: Seq<u8>)
    ensures
        item_ignores_suffix(stack_map_record_item(), b, extra),
{
    lemma_items_ignore_suffix(b, extra);
    assert forall|q: int| #[trigger] stack_map_record_item()(b, q) is Ok implies stack_map_record_item()(
        b + extra,
        q,
    ) == stack_map_record_item()(b, q) by {
        let n = le_u16(b, q + 14) as nat;
        assert(le_u16(b + extra, q + 14) == le_u16(b, q + 14));
        lemma_repeat_ignores_suffix(location_item(), b, extra, q + 16, n);
        let r = repeat(location_item(), b, q + 16, n)->Ok_0.1;
        let q2 = align_up(r, 8);
        assert(has_bytes(b, q2, 4));
        assert(le_u16(b + extra, q2 + 2) == le_u16(b, q2 + 2));
        lemma_repeat_ignores_suffix(
            live_out_item(),
            b,
            extra,
            q2 + 4,
            le_u16(b, q2 + 2) as nat,
        );
        assert(spec_stack_map_record(b + extra, q) == spec_stack_map_record(b, q));
    }
}

/// Parsing reads nothing past what it needs: bytes appended after a
/// well-formed Stack Map do not change what it parses to.
pub proof fn lemma_stack_map_ignores_suffix(b: Seq<u8>, extra: Seq<u8>)
    requires
        spec_stack_map(b) is Ok,
    ensures
        spec_stack_map(b + extra) == spec_stack_map(b),
{
    lemma_items_ignore_suffix(b, extra);
    lemma_record_ignores_suffix(b, extra);
    let m = spec_stack_map(b)->Ok_0;
    let bb = b + extra;
    assert(le_u32(bb, 4) == le_u32(b, 4));
    assert(le_u32(bb, 8) == le_u32(b, 8));
    assert(le_u32(bb, 12) == le_u32(b, 12));
    assert(bb[0] == b[0]);
    lemma_repeat_ignores_suffix(stack_size_record_item(), b, extra, 16, m.num_functions as nat);
    let p1 = repeat(stack_size_record_item(), b, 16, m.num_functions as nat)->Ok_0.1;
    lemma_repeat_ignores_suffix(constant_item(), b, extra, p1, m.num_constants as nat);
    let p2 = repeat(constant_item(), b, p1, m.num_constants as nat)->Ok_0.1;
    lemma_repeat_ignores_suffix(stack_map_record_item(), b, extra, p2, m.num_records as nat);
}

} // verus!
