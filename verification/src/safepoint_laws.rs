//! Properties of the generated C source that hold of every input.
use vstd::prelude::*;
use crate::safepoint_gen::{
    cursor, extern_line, extern_lines, gcroot_entries, location_entries, location_entry,
    location_supported, obj_location_supported, safepoint_line, safepoint_lines,
};
use crate::stackmap::{Location, LocationType, StkMapRecordView, StkSizeRecord};
use crate::text::{decimal, signed_decimal, spec_transform_name};

verus! {

/// Only the name `main` itself is declared as `extern int main();`; any
/// other name is declared as an `extern char` array whose assembler name,
/// between the quotes of `__asm__("...")`, is the name itself.
pub proof fn lemma_extern_line_names_the_symbol(name: Seq<char>)
    ensures
        name == "main"@ ==> extern_line(name) == "extern int main();\n"@,
        name != "main"@ ==> ({
            let k: int = ("extern char "@.len() + name.len() + "[] __asm__(\""@.len()) as int;
            &&& extern_line(name).subrange(0, "extern char "@.len() as int) == "extern char "@
            &&& extern_line(name).subrange(k, k + name.len()) == name
            &&& extern_line(name).len() == k + name.len() + "\");\n"@.len()
        }),
{
    if name != "main"@ {
        let k: int = ("extern char "@.len() + name.len() + "[] __asm__(\""@.len()) as int;
        let line = extern_line(name);
        assert(line.subrange(0, "extern char "@.len() as int) =~= "extern char "@);
        assert(line.subrange(k, k + name.len()) =~= name);
    }
}

/// Two different names get two different declarations.
pub proof fn lemma_extern_line_injective(a: Seq<char>, b: Seq<char>)
    requires
        extern_line(a) == extern_line(b),
    ensures
        a == b,
{
    reveal_strlit("extern int main();\n");
    reveal_strlit("extern char ");
    lemma_extern_line_names_the_symbol(a);
    lemma_extern_line_names_the_symbol(b);
    if a != "main"@ && b != "main"@ {
        assert(a.len() == b.len());
    } else if a != "main"@ {
        assert(extern_line(a)[7] == 'c');
        assert(extern_line(b)[7] == 'i');
    } else if b != "main"@ {
        assert(extern_line(b)[7] == 'c');
        assert(extern_line(a)[7] == 'i');
    }
}

proof fn lemma_extern_lines_prefix(names: Seq<Seq<char>>, x: Seq<char>, n: nat)
    requires
        n <= names.len(),
    ensures
        extern_lines(names.push(x), n) == extern_lines(names, n),
    decreases n,
{
    if n > 0 {
        lemma_extern_lines_prefix(names, x, (n - 1) as nat);
        assert(names.push(x)[n - 1] == names[n - 1]);
    }
}

/// Declaring one more name appends its declaration, and nothing else.
pub proof fn lemma_extern_lines_push(names: Seq<Seq<char>>, x: Seq<char>)
    ensures
        extern_lines(names.push(x), names.len() + 1) == extern_lines(names, names.len())
            + extern_line(x),
{
    lemma_extern_lines_prefix(names, x, names.len());
    assert(names.push(x)[names.len() as int] == x);
}

proof fn lemma_gcroot_entries_prefix(roots: Seq<Seq<char>>, x: Seq<char>, n: nat)
    requires
        n <= roots.len(),
    ensures
        gcroot_entries(roots.push(x), n) == gcroot_entries(roots, n),
    decreases n,
{
    if n > 0 {
        lemma_gcroot_entries_prefix(roots, x, (n - 1) as nat);
        assert(roots.push(x)[n - 1] == roots[n - 1]);
    }
}

/// One more global root appends its identifier and a comma to the table.
pub proof fn lemma_gcroot_entries_push(roots: Seq<Seq<char>>, x: Seq<char>)
    ensures
        gcroot_entries(roots.push(x), roots.len() + 1) == gcroot_entries(roots, roots.len())
            + spec_transform_name(x) + ", "@,
{
    lemma_gcroot_entries_prefix(roots, x, roots.len());
    assert(roots.push(x)[roots.len() as int] == x);
}

proof fn lemma_location_entries_prefix(
    locations: Seq<Location>,
    constants: Seq<u64>,
    x: Location,
    n: nat,
)
    requires
        n <= locations.len(),
    ensures
        location_entries(locations.push(x), constants, n) == location_entries(
            locations,
            constants,
            n,
        ),
    decreases n,
{
    if n > 3 {
        lemma_location_entries_prefix(locations, constants, x, (n - 1) as nat);
        assert(locations.push(x)[n - 1] == locations[n - 1]);
    }
}

/// The table of a record has one entry per location after the first
/// three: none while there are at most three, and one more location after
/// them appends exactly its own entry, whatever the locations before it.
pub proof fn lemma_location_entries_push(
    locations: Seq<Location>,
    constants: Seq<u64>,
    x: Location,
)
    ensures
        locations.len() < 3 ==> location_entries(locations.push(x), constants, locations.len()
            + 1) == Seq::<char>::empty(),
        locations.len() >= 3 ==> location_entries(locations.push(x), constants, locations.len()
            + 1) == location_entries(locations, constants, locations.len()) + location_entry(
            x,
            constants,
        ),
{
    lemma_location_entries_prefix(locations, constants, x, locations.len());
    assert(locations.push(x)[locations.len() as int] == x);
}

/// Whether a location after the first three has a place in the table
/// depends on that location alone, wherever it stands and whatever stands
/// beside it.
pub proof fn lemma_location_supported_is_local(
    a: Seq<Location>,
    i: int,
    b: Seq<Location>,
    j: int,
    n_constants: nat,
)
    requires
        3 <= i < a.len(),
        3 <= j < b.len(),
        a[i] == b[j],
    ensures
        location_supported(a, n_constants, i) == location_supported(b, n_constants, j),
        location_supported(a, n_constants, i) == obj_location_supported(a[i], n_constants),
{
}

/// Direct, indirect and constant locations after the first three always
/// have a place; register locations never do; a constant index has one
/// when it indexes one of the large constants.
pub proof fn lemma_obj_location_kinds(location: Location, n_constants: nat)
    ensures
        location.typ is Direct ==> obj_location_supported(location, n_constants),
        location.typ is Indirect ==> obj_location_supported(location, n_constants),
        location.typ is Constant ==> obj_location_supported(location, n_constants),
        location.typ is Register ==> !obj_location_supported(location, n_constants),
        location.typ matches LocationType::ConstIndex(k) ==> (obj_location_supported(
            location,
            n_constants,
        ) <==> 0 <= k < n_constants),
{
}

proof fn lemma_safepoint_lines_prefix(
    records: Seq<StkMapRecordView>,
    sizes: Seq<StkSizeRecord>,
    names: Seq<Seq<char>>,
    r: StkMapRecordView,
    n: nat,
)
    requires
        n <= records.len(),
    ensures
        safepoint_lines(records.push(r), sizes, names, n) == safepoint_lines(
            records,
            sizes,
            names,
            n,
        ),
    decreases n,
{
    if n > 0 {
        lemma_safepoint_lines_prefix(records, sizes, names, r, (n - 1) as nat);
        assert(records.push(r)[n - 1] == records[n - 1]);
    }
}

/// One more record appends exactly one safepoint entry, for that record,
/// written with the function that the walk over the stack size records
/// gives it; the entries before it do not change.
pub proof fn lemma_safepoint_lines_push(
    records: Seq<StkMapRecordView>,
    sizes: Seq<StkSizeRecord>,
    names: Seq<Seq<char>>,
    r: StkMapRecordView,
)
    ensures
        ({
            let n = records.len();
            let f = cursor(sizes, n).0;
            safepoint_lines(records.push(r), sizes, names, n + 1) == safepoint_lines(
                records,
                sizes,
                names,
                n,
            ) + safepoint_line(n, r.instruction_offset, r.locations.len(), names[f], sizes[f])
        }),
{
    lemma_safepoint_lines_prefix(records, sizes, names, r, records.len());
    assert(records.push(r)[records.len() as int] == r);
}

/// An entry of the locations table names the kind of its location as the
/// header's `enum LocationType` does, and carries its register, its offset
/// or its constant; the constant of a constant index is the large constant
/// at that index.
pub proof fn lemma_location_entry_fields(location: Location, constants: Seq<u64>)
    ensures
        location.typ matches LocationType::Direct(r, o) ==> location_entry(location, constants)
            == "{DIRECT, "@ + decimal(r as nat) + ", "@ + signed_decimal(o as int) + ", 0}, "@,
        location.typ matches LocationType::Indirect(r, o) ==> location_entry(location, constants)
            == "{INDIRECT, "@ + decimal(r as nat) + ", "@ + signed_decimal(o as int) + ", 0}, "@,
        location.typ matches LocationType::Constant(c) ==> location_entry(location, constants)
            == "{CONSTANT, 0, 0, "@ + signed_decimal(c as int) + "}, "@,
        location.typ matches LocationType::ConstIndex(k) ==> location_entry(location, constants)
            == "{CONSTANT, 0, 0, "@ + decimal(constants[k as int] as nat) + "}, "@,
        location.typ is Register ==> location_entry(location, constants).len() == 0,
{
}

} // verus!
