//! The C source that lists the safepoints of a Stack Map, and the header
//! that declares them.
use vstd::prelude::*;
use crate::stackmap::{Location, LocationType, StackMap, StkMapRecordView, StkSizeRecord};
use crate::text::{
    decimal, push_decimal, push_signed_decimal, signed_decimal, spec_transform_name,
    transform_name,
};

verus! {

/// The header that declares the generated table.
pub const SAFEPOINTS_HEADER: &'static str = "#ifndef __LLVM_STACK_MAP_H
#define __LLVM_STACK_MAP_H

#include <stddef.h>
#include <stdint.h>

enum LocationType { DIRECT, INDIRECT, CONSTANT };

struct Location {
  enum LocationType type;
  uint16_t reg;
  int32_t offset;
  size_t constant;
};

struct Safepoint {
  void *ip;
  uint64_t stack_size;
  uint32_t num_of_locations;
  struct Location *obj_locations;
};

extern struct Safepoint safepoints[];

extern int safepoints_len;

extern void *global_gcroots[];

extern int global_gcroots_len;

#endif // __LLVM_STACK_MAP_H
";

/// The text of the header file `safepoints.h`.
pub fn gen_header_file_text() -> (r: String)
    ensures
        r@ == SAFEPOINTS_HEADER@,
{
    String::from_str(SAFEPOINTS_HEADER)
}

/// The names of the relocations, as character sequences.
pub open spec fn names_view(names: Seq<String>) -> Seq<Seq<char>> {
    names.map_values(|s: String| s@)
}

// ---------------------------------------------------------------- prologue

pub open spec fn spec_gen_header() -> Seq<char> {
    "#include \"safepoints.h\"\n"@ + "\n"@
}

/// The include line that opens the source, and an empty line.
pub fn gen_header() -> (r: String)
    ensures
        r@ == spec_gen_header(),
{
    let mut out = String::new();
    out.append("#include \"safepoints.h\"\n");
    out.append("\n");
    out
}

// ----------------------------------------------------------------- externs

/// The declaration of the function that a relocation names.
pub open spec fn extern_line(name: Seq<char>) -> Seq<char> {
    if name == "main"@ {
        "extern int main();\n"@
    } else {
        "extern char "@ + spec_transform_name(name) + "[] __asm__(\""@ + name + "\");\n"@
    }
}

/// The declarations of the first `n` names.
pub open spec fn extern_lines(names: Seq<Seq<char>>, n: nat) -> Seq<char>
    decreases n,
{
    if n == 0 {
        Seq::empty()
    } else {
        extern_lines(names, (n - 1) as nat) + extern_line(names[n - 1])
    }
}

/// The declarations of the functions that the relocations name, then of
/// the global roots, then an empty line.
pub open spec fn spec_gen_externs(names: Seq<Seq<char>>, gcroots: Seq<Seq<char>>) -> Seq<char> {
    extern_lines(names, names.len()) + extern_lines(gcroots, gcroots.len()) + "\n"@
}

fn push_extern_lines(out: &mut String, names: &[String])
    ensures
        final(out)@ == old(out)@ + extern_lines(names_view(names@), names@.len()),
{
    let ghost start = out@;
    let ghost nv = names_view(names@);
    let main_name = String::from_str("main");
    let mut i: usize = 0;
    while i < names.len()
        invariant
            nv == names_view(names@),
            main_name@ == "main"@,
            i <= names.len(),
            out@ == start + extern_lines(nv, i as nat),
        decreases names.len() - i,
    {
        let name = &names[i];
        let ghost before = out@;
        if *name == main_name {
            out.append("extern int main();\n");
        } else {
            out.append("extern char ");
            let t = transform_name(name.as_str());
            out.append(t.as_str());
            out.append("[] __asm__(\"");
            out.append(name.as_str());
            out.append("\");\n");
        }
        assert(nv[i as int] == name@);
        assert(out@ =~= start + extern_lines(nv, (i + 1) as nat));
        i += 1;
    }
}

/// One declaration per relocation name and per global root, then an empty
/// line.
pub fn gen_externs(reloc_names: &[String], gcroot_names: &[String]) -> (r: String)
    ensures
        r@ == spec_gen_externs(names_view(reloc_names@), names_view(gcroot_names@)),
{
    let mut out = String::new();
    push_extern_lines(&mut out, reloc_names);
    push_extern_lines(&mut out, gcroot_names);
    out.append("\n");
    assert(out@ =~= spec_gen_externs(names_view(reloc_names@), names_view(gcroot_names@)));
    out
}

// --------------------------------------------------------------- locations

/// The number of object locations of a record with `n` locations: those
/// after the three constants that open every statepoint record.
pub open spec fn num_obj_locations(n: nat) -> nat {
    if n > 3 {
        (n - 3) as nat
    } else {
        0
    }
}

/// Whether location `j` has a place in the table: the first three are the
/// constant 0 (the statepoint's calling convention, flags and deopt count);
/// a later one is direct, indirect, a small constant, or the index of one of
/// the `n_constants` large constants.
pub open spec fn location_supported(locations: Seq<Location>, n_constants: nat, j: int) -> bool {
    if j < 3 {
        locations[j].typ == LocationType::Constant(0)
    } else {
        obj_location_supported(locations[j], n_constants)
    }
}

pub open spec fn obj_location_supported(location: Location, n_constants: nat) -> bool {
    match location.typ {
        LocationType::Register(_) => false,
        LocationType::ConstIndex(k) => 0 <= k < n_constants,
        _ => true,
    }
}

pub open spec fn locations_supported(records: Seq<StkMapRecordView>, n_constants: nat) -> bool {
    forall|i: int, j: int|
        0 <= i < records.len() && 0 <= j < records[i].locations.len()
            ==> #[trigger] location_supported(records[i].locations, n_constants, j)
}

/// The table entry of one object location: its type, register, offset and
/// constant (a large constant is looked up by its index).
pub open spec fn location_entry(location: Location, constants: Seq<u64>) -> Seq<char> {
    match location.typ {
        LocationType::Direct(reg, offset) => "{DIRECT, "@ + decimal(reg as nat) + ", "@
            + signed_decimal(offset as int) + ", 0}, "@,
        LocationType::Indirect(reg, offset) => "{INDIRECT, "@ + decimal(reg as nat) + ", "@
            + signed_decimal(offset as int) + ", 0}, "@,
        LocationType::Constant(value) => "{CONSTANT, 0, 0, "@ + signed_decimal(value as int)
            + "}, "@,
        LocationType::ConstIndex(k) => "{CONSTANT, 0, 0, "@ + decimal(constants[k as int] as nat)
            + "}, "@,
        LocationType::Register(_) => Seq::empty(),
    }
}

/// The entries of the locations from the fourth up to the `n`-th.
pub open spec fn location_entries(locations: Seq<Location>, constants: Seq<u64>, n: nat) -> Seq<
    char,
>
    decreases n,
{
    if n <= 3 {
        Seq::empty()
    } else {
        location_entries(locations, constants, (n - 1) as nat) + location_entry(
            locations[n - 1],
            constants,
        )
    }
}

/// The object locations table of record `i`.
pub open spec fn locations_line(i: nat, record: StkMapRecordView, constants: Seq<u64>) -> Seq<
    char,
> {
    "static struct Location locations_"@ + decimal(i) + "[] = {"@ + location_entries(
        record.locations,
        constants,
        record.locations.len(),
    ) + "};\n"@
}

pub open spec fn locations_lines(
    records: Seq<StkMapRecordView>,
    constants: Seq<u64>,
    n: nat,
) -> Seq<char>
    decreases n,
{
    if n == 0 {
        Seq::empty()
    } else {
        locations_lines(records, constants, (n - 1) as nat) + locations_line(
            (n - 1) as nat,
            records[n - 1],
            constants,
        )
    }
}

pub open spec fn spec_gen_locations(records: Seq<StkMapRecordView>, constants: Seq<u64>) -> Seq<
    char,
> {
    locations_lines(records, constants, records.len()) + "\n"@
}

/// Whether every record's locations have a place in the table.
pub fn check_locations_supported(stack_map: &StackMap) -> (b: bool)
    ensures
        b == locations_supported(
            stack_map@.stack_map_records,
            stack_map@.large_constants.len(),
        ),
{
    let ghost records = stack_map@.stack_map_records;
    let n_constants = stack_map.large_constants.len();
    let mut i: usize = 0;
    while i < stack_map.stack_map_records.len()
        invariant
            records == stack_map@.stack_map_records,
            n_constants == stack_map@.large_constants.len(),
            i <= records.len(),
            forall|k: int, j: int|
                0 <= k < i && 0 <= j < records[k].locations.len()
                    ==> #[trigger] location_supported(records[k].locations, n_constants as nat, j),
        decreases records.len() - i,
    {
        let locations = &stack_map.stack_map_records[i].locations;
        assert(locations@ == records[i as int].locations);
        let mut j: usize = 0;
        while j < locations.len()
            invariant
                records == stack_map@.stack_map_records,
                n_constants == stack_map@.large_constants.len(),
                i < records.len(),
                locations@ == records[i as int].locations,
                j <= locations.len(),
                forall|k: int, j: int|
                    0 <= k < i && 0 <= j < records[k].locations.len()
                        ==> #[trigger] location_supported(records[k].locations, n_constants as nat, j),
                forall|jj: int|
                    0 <= jj < j ==> location_supported(records[i as int].locations, n_constants as nat, jj),
            decreases locations.len() - j,
        {
            let ok = if j < 3 {
                match locations[j].typ {
                    LocationType::Constant(c) => c == 0,
                    _ => false,
                }
            } else {
                match locations[j].typ {
                    LocationType::Register(_) => false,
                    LocationType::ConstIndex(k) => 0 <= k && (k as usize) < n_constants,
                    _ => true,
                }
            };
            if !ok {
                assert(!location_supported(records[i as int].locations, n_constants as nat, j as int));
                return false;
            }
            j += 1;
        }
        i += 1;
    }
    true
}

fn push_location_entry(out: &mut String, location: &Location, constants: &[u64])
    requires
        obj_location_supported(*location, constants@.len()),
    ensures
        final(out)@ == old(out)@ + location_entry(*location, constants@),
{
    let ghost start = out@;
    match location.typ {
        LocationType::Direct(reg, offset) => {
            out.append("{DIRECT, ");
            push_decimal(out, reg as u64);
            out.append(", ");
            push_signed_decimal(out, offset as i64);
            out.append(", 0}, ");
        },
        LocationType::Indirect(reg, offset) => {
            out.append("{INDIRECT, ");
            push_decimal(out, reg as u64);
            out.append(", ");
            push_signed_decimal(out, offset as i64);
            out.append(", 0}, ");
        },
        LocationType::Constant(value) => {
            out.append("{CONSTANT, 0, 0, ");
            push_signed_decimal(out, value as i64);
            out.append("}, ");
        },
        LocationType::ConstIndex(k) => {
            out.append("{CONSTANT, 0, 0, ");
            push_decimal(out, constants[k as usize]);
            out.append("}, ");
        },
        LocationType::Register(_) => {},
    }
    assert(out@ =~= start + location_entry(*location, constants@));
}

/// One table of object locations per record, then an empty line.
pub fn gen_locations(stack_map: &StackMap) -> (r: String)
    requires
        locations_supported(stack_map@.stack_map_records, stack_map@.large_constants.len()),
    ensures
        r@ == spec_gen_locations(stack_map@.stack_map_records, stack_map@.large_constants),
{
    let ghost records = stack_map@.stack_map_records;
    let ghost constants = stack_map@.large_constants;
    let mut out = String::new();
    let mut i: usize = 0;
    while i < stack_map.stack_map_records.len()
        invariant
            records == stack_map@.stack_map_records,
            constants == stack_map@.large_constants,
            locations_supported(records, constants.len()),
            i <= records.len(),
            out@ == locations_lines(records, constants, i as nat),
        decreases records.len() - i,
    {
        let record = &stack_map.stack_map_records[i];
        let ghost before = out@;
        assert(record@ == records[i as int]);
        out.append("static struct Location locations_");
        push_decimal(&mut out, i as u64);
        out.append("[] = {");
        let ghost head = out@;
        assert(head =~= before + "static struct Location locations_"@ + decimal(i as nat)
            + "[] = {"@);
        let mut j: usize = 3;
        while j < record.locations.len()
            invariant
                records == stack_map@.stack_map_records,
                constants == stack_map@.large_constants,
                locations_supported(records, constants.len()),
                i < records.len(),
                record@ == records[i as int],
                3 <= j,
                j <= record.locations.len() || j == 3,
                out@ == head + location_entries(record.locations@, constants, j as nat),
            decreases record.locations.len() - j,
        {
            assert(location_supported(records[i as int].locations, constants.len(), j as int));
            push_location_entry(&mut out, &record.locations[j], stack_map.large_constants.as_slice());
            j += 1;
        }
        proof {
            if record.locations.len() < 3 {
                assert(location_entries(record.locations@, constants, record.locations.len() as nat)
                    =~= Seq::empty());
                assert(location_entries(record.locations@, constants, 3) =~= Seq::empty());
            }
        }
        assert(out@ == head + location_entries(record.locations@, constants, record.locations@.len()));
        out.append("};\n");
        assert(out@ =~= before + locations_line(i as nat, records[i as int], constants));
        i += 1;
    }
    out.append("\n");
    out
}

// -------------------------------------------------------------- safepoints

/// The generator's walk over the records: its state is the index of the
/// current function and the index of the record that starts the next one.
/// At record `i` equal to that index it moves on to the next function.
pub open spec fn advance(sizes: Seq<StkSizeRecord>, state: (int, int), i: int) -> (int, int) {
    if i == state.1 {
        (state.0 + 1, state.1 + sizes[state.0 + 1].record_count)
    } else {
        state
    }
}

/// The state with which record `i` is written.
pub open spec fn cursor(sizes: Seq<StkSizeRecord>, i: nat) -> (int, int)
    decreases i,
{
    if i == 0 {
        advance(sizes, (0, sizes[0].record_count as int), 0)
    } else {
        advance(sizes, cursor(sizes, (i - 1) as nat), i as int)
    }
}

/// The state before record `i` is reached.
pub open spec fn cursor_before(sizes: Seq<StkSizeRecord>, i: nat) -> (int, int) {
    if i == 0 {
        (0, sizes[0].record_count as int)
    } else {
        cursor(sizes, (i - 1) as nat)
    }
}

/// The number of records of the functions before function `f`.
pub open spec fn records_before(sizes: Seq<StkSizeRecord>, f: nat) -> int
    decreases f,
{
    if f == 0 {
        0
    } else {
        records_before(sizes, (f - 1) as nat) + sizes[f - 1].record_count
    }
}

proof fn lemma_records_before_monotonic(sizes: Seq<StkSizeRecord>, f: nat, g: nat)
    requires
        f <= g,
    ensures
        records_before(sizes, f) <= records_before(sizes, g),
    decreases g,
{
    if f < g {
        lemma_records_before_monotonic(sizes, f, (g - 1) as nat);
    }
}

/// When every function holds at least one record, the generator attributes
/// record `i` to the function among whose records it lies: the one whose
/// records start at or before `i` and end after it.
pub proof fn lemma_cursor_attributes_records(sizes: Seq<StkSizeRecord>, i: nat)
    requires
        forall|f: int| 0 <= f < sizes.len() ==> (#[trigger] sizes[f]).record_count >= 1,
        i < records_before(sizes, sizes.len()),
    ensures
        0 <= cursor(sizes, i).0 < sizes.len(),
        records_before(sizes, cursor(sizes, i).0 as nat) <= i < records_before(
            sizes,
            (cursor(sizes, i).0 + 1) as nat,
        ),
        cursor(sizes, i).1 == records_before(sizes, (cursor(sizes, i).0 + 1) as nat),
    decreases i,
{
    if sizes.len() == 0 {
        assert(records_before(sizes, 0) == 0);
    }
    if i == 0 {
        assert(records_before(sizes, 0) == 0);
        assert(sizes.len() > 0);
        assert(sizes[0].record_count >= 1);
        assert(records_before(sizes, 1) == sizes[0].record_count);
    } else {
        lemma_cursor_attributes_records(sizes, (i - 1) as nat);
        let f = cursor(sizes, (i - 1) as nat).0;
        if i == records_before(sizes, (f + 1) as nat) {
            if f + 1 >= sizes.len() {
                lemma_records_before_monotonic(sizes, sizes.len(), (f + 1) as nat);
            }
            assert(sizes[f + 1].record_count >= 1);
        }
    }
}

/// Record `i` can be written: moving on finds a next function whose first
/// record index fits in a `u64`, and the current function has a name.
pub open spec fn safepoint_step_ok(sizes: Seq<StkSizeRecord>, n_names: nat, i: nat) -> bool {
    let s = cursor_before(sizes, i);
    &&& i == s.1 ==> s.0 + 1 < sizes.len() && s.1 + sizes[s.0 + 1].record_count <= u64::MAX
    &&& cursor(sizes, i).0 < n_names
}

/// Every record can be attributed to a function with a name.
pub open spec fn safepoints_resolvable(
    sizes: Seq<StkSizeRecord>,
    n_names: nat,
    n_records: nat,
) -> bool {
    &&& sizes.len() > 0
    &&& forall|i: nat| i < n_records ==> #[trigger] safepoint_step_ok(sizes, n_names, i)
}

/// The table entry of record `i`: the address of the call site, the
/// stack size of its function, the number of its object locations and its
/// locations table.
pub open spec fn safepoint_line(
    i: nat,
    instruction_offset: u32,
    num_locations: nat,
    name: Seq<char>,
    size: StkSizeRecord,
) -> Seq<char> {
    "    {"@ + "(void *)"@ + spec_transform_name(name) + " + "@ + decimal(
        instruction_offset as nat,
    ) + ", "@ + decimal(size.stack_size as nat) + ", "@ + decimal(
        num_obj_locations(num_locations),
    ) + ", "@ + "locations_"@ + decimal(i) + "},\n"@
}

pub open spec fn safepoint_lines(
    records: Seq<StkMapRecordView>,
    sizes: Seq<StkSizeRecord>,
    names: Seq<Seq<char>>,
    n: nat,
) -> Seq<char>
    decreases n,
{
    if n == 0 {
        Seq::empty()
    } else {
        let f = cursor(sizes, (n - 1) as nat).0;
        safepoint_lines(records, sizes, names, (n - 1) as nat) + safepoint_line(
            (n - 1) as nat,
            records[n - 1].instruction_offset,
            records[n - 1].locations.len(),
            names[f],
            sizes[f],
        )
    }
}

pub open spec fn spec_gen_safepoints(
    records: Seq<StkMapRecordView>,
    sizes: Seq<StkSizeRecord>,
    names: Seq<Seq<char>>,
) -> Seq<char> {
    "struct Safepoint safepoints[] = {\n"@ + safepoint_lines(records, sizes, names, records.len())
        + "};\n"@ + "\n"@ + "int safepoints_len = "@ + decimal(records.len()) + ";\n"@
}

/// Whether every record can be attributed to a function with a name.
pub fn check_safepoints_resolvable(stack_map: &StackMap, reloc_names: &[String]) -> (b: bool)
    ensures
        b == safepoints_resolvable(
            stack_map@.stack_size_records,
            reloc_names@.len(),
            stack_map@.stack_map_records.len(),
        ),
{
    let ghost sizes = stack_map@.stack_size_records;
    let ghost n_names = reloc_names@.len();
    let n = stack_map.stack_map_records.len();
    if stack_map.stack_size_records.len() == 0 {
        return false;
    }
    let mut curr: usize = 0;
    let mut next: u64 = stack_map.stack_size_records[0].record_count;
    let mut i: usize = 0;
    while i < n
        invariant
            sizes == stack_map@.stack_size_records,
            n_names == reloc_names@.len(),
            n == stack_map@.stack_map_records.len(),
            sizes.len() > 0,
            i <= n,
            curr < sizes.len(),
            (curr as int, next as int) == cursor_before(sizes, i as nat),
            forall|k: nat| k < i ==> #[trigger] safepoint_step_ok(sizes, n_names, k),
        decreases n - i,
    {
        if i as u64 == next {
            if curr >= stack_map.stack_size_records.len() - 1 {
                assert(!safepoint_step_ok(sizes, n_names, i as nat));
                return false;
            }
            let count = stack_map.stack_size_records[curr + 1].record_count;
            if next > u64::MAX - count {
                assert(!safepoint_step_ok(sizes, n_names, i as nat));
                return false;
            }
            curr += 1;
            next += count;
        }
        if curr >= reloc_names.len() {
            assert(!safepoint_step_ok(sizes, n_names, i as nat));
            return false;
        }
        assert(safepoint_step_ok(sizes, n_names, i as nat));
        i += 1;
    }
    true
}

fn push_safepoint_line(
    out: &mut String,
    i: usize,
    instruction_offset: u32,
    num_locations: usize,
    name: &String,
    size: &StkSizeRecord,
)
    ensures
        final(out)@ == old(out)@ + safepoint_line(
            i as nat,
            instruction_offset,
            num_locations as nat,
            name@,
            *size,
        ),
{
    out.append("    {");
    out.append("(void *)");
    let t = transform_name(name.as_str());
    out.append(t.as_str());
    out.append(" + ");
    push_decimal(out, instruction_offset as u64);
    out.append(", ");
    push_decimal(out, size.stack_size);
    out.append(", ");
    let num: u64 = if num_locations > 3 { (num_locations - 3) as u64 } else { 0 };
    push_decimal(out, num);
    out.append(", ");
    out.append("locations_");
    push_decimal(out, i as u64);
    out.append("},\n");
    assert(final(out)@ =~= old(out)@ + safepoint_line(
        i as nat,
        instruction_offset,
        num_locations as nat,
        name@,
        *size,
    ));
}

/// The safepoint table: one entry per record, attributed to the function
/// whose records it falls among.
pub fn gen_safepoints(stack_map: &StackMap, reloc_names: &[String]) -> (r: String)
    requires
        safepoints_resolvable(
            stack_map@.stack_size_records,
            reloc_names@.len(),
            stack_map@.stack_map_records.len(),
        ),
    ensures
        r@ == spec_gen_safepoints(
            stack_map@.stack_map_records,
            stack_map@.stack_size_records,
            names_view(reloc_names@),
        ),
{
    let ghost records = stack_map@.stack_map_records;
    let ghost sizes = stack_map@.stack_size_records;
    let ghost names = names_view(reloc_names@);
    let n = stack_map.stack_map_records.len();
    let mut out = String::new();
    out.append("struct Safepoint safepoints[] = {\n");
    let ghost head = out@;
    let mut curr: usize = 0;
    let mut next: u64 = stack_map.stack_size_records[0].record_count;
    let mut i: usize = 0;
    while i < n
        invariant
            records == stack_map@.stack_map_records,
            sizes == stack_map@.stack_size_records,
            names == names_view(reloc_names@),
            n == records.len(),
            safepoints_resolvable(sizes, reloc_names@.len(), records.len()),
            i <= n,
            curr < sizes.len(),
            (curr as int, next as int) == cursor_before(sizes, i as nat),
            out@ == head + safepoint_lines(records, sizes, names, i as nat),
        decreases n - i,
    {
        assert(safepoint_step_ok(sizes, reloc_names@.len(), i as nat));
        if i as u64 == next {
            assert(curr + 1 < stack_map.stack_size_records.len());
            curr += 1;
            next += stack_map.stack_size_records[curr].record_count;
        }
        let ghost before = out@;
        let record = &stack_map.stack_map_records[i];
        assert(record@ == records[i as int]);
        assert(reloc_names@[curr as int]@ == names[curr as int]);
        push_safepoint_line(
            &mut out,
            i,
            record.instruction_offset,
            record.locations.len(),
            &reloc_names[curr],
            &stack_map.stack_size_records[curr],
        );
        assert(head + safepoint_lines(records, sizes, names, (i + 1) as nat) =~= before
            + safepoint_line(
            i as nat,
            records[i as int].instruction_offset,
            records[i as int].locations.len(),
            names[curr as int],
            sizes[curr as int],
        ));
        i += 1;
    }
    out.append("};\n");
    out.append("\n");
    out.append("int safepoints_len = ");
    push_decimal(&mut out, n as u64);
    out.append(";\n");
    assert(out@ =~= spec_gen_safepoints(records, sizes, names));
    out
}

// ------------------------------------------------------------ global roots

pub open spec fn gcroot_entries(gcroots: Seq<Seq<char>>, n: nat) -> Seq<char>
    decreases n,
{
    if n == 0 {
        Seq::empty()
    } else {
        gcroot_entries(gcroots, (n - 1) as nat) + spec_transform_name(gcroots[n - 1]) + ", "@
    }
}

/// The table of the global roots and its length, after an empty line.
pub open spec fn spec_gen_gcroots(gcroots: Seq<Seq<char>>) -> Seq<char> {
    "\n"@ + "void *global_gcroots[] = {"@ + gcroot_entries(gcroots, gcroots.len()) + "};\n"@
        + "\n"@ + "int global_gcroots_len = "@ + decimal(gcroots.len()) + ";\n"@
}

/// The table of the global roots, the symbols of the `.gcroots` section,
/// and its length.
pub fn gen_gcroots(gcroot_names: &[String]) -> (r: String)
    ensures
        r@ == spec_gen_gcroots(names_view(gcroot_names@)),
{
    let ghost roots = names_view(gcroot_names@);
    let mut out = String::new();
    out.append("\n");
    out.append("void *global_gcroots[] = {");
    let ghost head = out@;
    let mut i: usize = 0;
    while i < gcroot_names.len()
        invariant
            roots == names_view(gcroot_names@),
            i <= gcroot_names.len(),
            out@ == head + gcroot_entries(roots, i as nat),
        decreases gcroot_names.len() - i,
    {
        let t = transform_name(gcroot_names[i].as_str());
        out.append(t.as_str());
        out.append(", ");
        assert(roots[i as int] == gcroot_names@[i as int]@);
        assert(out@ =~= head + gcroot_entries(roots, (i + 1) as nat));
        i += 1;
    }
    out.append("};\n");
    out.append("\n");
    out.append("int global_gcroots_len = ");
    push_decimal(&mut out, gcroot_names.len() as u64);
    out.append(";\n");
    assert(out@ =~= spec_gen_gcroots(roots));
    out
}

/// The whole C source: the include, the declarations, the locations tables,
/// the safepoint table and the table of global roots.
pub open spec fn spec_safepoints_source(
    records: Seq<StkMapRecordView>,
    sizes: Seq<StkSizeRecord>,
    constants: Seq<u64>,
    names: Seq<Seq<char>>,
    gcroots: Seq<Seq<char>>,
) -> Seq<char> {
    spec_gen_header() + spec_gen_externs(names, gcroots) + spec_gen_locations(records, constants)
        + spec_gen_safepoints(records, sizes, names) + spec_gen_gcroots(gcroots)
}

/// The C source of the safepoints library.
pub fn gen_safepoints_text(
    stack_map: &StackMap,
    reloc_names: &[String],
    gcroot_names: &[String],
) -> (r: String)
    requires
        locations_supported(stack_map@.stack_map_records, stack_map@.large_constants.len()),
        safepoints_resolvable(
            stack_map@.stack_size_records,
            reloc_names@.len(),
            stack_map@.stack_map_records.len(),
        ),
    ensures
        r@ == spec_safepoints_source(
            stack_map@.stack_map_records,
            stack_map@.stack_size_records,
            stack_map@.large_constants,
            names_view(reloc_names@),
            names_view(gcroot_names@),
        ),
{
    let mut out = gen_header();
    let externs = gen_externs(reloc_names, gcroot_names);
    out.append(externs.as_str());
    let locations = gen_locations(stack_map);
    out.append(locations.as_str());
    let safepoints = gen_safepoints(stack_map, reloc_names);
    out.append(safepoints.as_str());
    let gcroots = gen_gcroots(gcroot_names);
    out.append(gcroots.as_str());
    out
}

} // verus!
