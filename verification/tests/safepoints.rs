use llvm_stackmap_parser::safepoint_gen::{
    check_locations_supported, check_safepoints_resolvable, gen_externs, gen_gcroots, gen_header,
    gen_header_file_text, gen_locations, gen_safepoints, gen_safepoints_text, SAFEPOINTS_HEADER,
};
use llvm_stackmap_parser::stackmap::{
    Header, LiveOut, Location, LocationType, StackMap, StkMapRecord, StkSizeRecord,
};

fn loc(typ: LocationType) -> Location {
    Location { size: 8, typ }
}

fn record(offset: u32, slots: &[i32]) -> StkMapRecord {
    let mut locations = vec![
        loc(LocationType::Constant(0)),
        loc(LocationType::Constant(0)),
        loc(LocationType::Constant(0)),
    ];
    for &s in slots {
        locations.push(loc(LocationType::Indirect(7, s)));
    }
    StkMapRecord {
        patchpoint_id: 0xabcd,
        instruction_offset: offset,
        locations,
        live_outs: vec![LiveOut { reg_num: 0, size: 8 }],
    }
}

fn size(count: u64, stack: u64) -> StkSizeRecord {
    StkSizeRecord { function_addr: 0, stack_size: stack, record_count: count }
}

fn map(sizes: Vec<StkSizeRecord>, records: Vec<StkMapRecord>) -> StackMap {
    StackMap {
        header: Header { version: 3 },
        num_functions: sizes.len() as u32,
        num_constants: 0,
        num_records: records.len() as u32,
        stack_size_records: sizes,
        large_constants: vec![],
        stack_map_records: records,
    }
}

fn names(v: &[&str]) -> Vec<String> {
    v.iter().map(|s| s.to_string()).collect()
}

#[test]
fn header_line() {
    assert_eq!(gen_header(), "#include \"safepoints.h\"\n\n");
}

#[test]
fn extern_declarations() {
    assert_eq!(
        gen_externs(&names(&["foo.bar", "main", "baz"]), &names(&["gc.a"])),
        "extern char foo_bar[] __asm__(\"foo.bar\");\nextern int main();\nextern char baz[] __asm__(\"baz\");\nextern char gc_a[] __asm__(\"gc.a\");\n\n"
    );
    assert_eq!(gen_externs(&[], &[]), "\n");
}

#[test]
fn locations_tables() {
    let m = map(vec![size(2, 8)], vec![record(4, &[-8, 16]), record(9, &[])]);
    assert!(check_locations_supported(&m));
    assert_eq!(
        gen_locations(&m),
        "static struct Location locations_0[] = {{INDIRECT, 7, -8, 0}, {INDIRECT, 7, 16, 0}, };\nstatic struct Location locations_1[] = {};\n\n"
    );
}

#[test]
fn every_kind_of_object_location() {
    let mut r = record(4, &[]);
    r.locations.push(loc(LocationType::Direct(6, -24)));
    r.locations.push(loc(LocationType::Constant(-5)));
    r.locations.push(loc(LocationType::ConstIndex(1)));
    let mut m = map(vec![size(1, 8)], vec![r]);
    m.large_constants = vec![11, 0xffff_ffff_ffff];
    assert!(check_locations_supported(&m));
    assert_eq!(
        gen_locations(&m),
        "static struct Location locations_0[] = {{DIRECT, 6, -24, 0}, {CONSTANT, 0, 0, -5}, {CONSTANT, 0, 0, 281474976710655}, };\n\n"
    );
}

#[test]
fn locations_of_short_records() {
    let short = StkMapRecord {
        patchpoint_id: 0,
        instruction_offset: 0,
        locations: vec![loc(LocationType::Constant(0))],
        live_outs: vec![],
    };
    let m = map(vec![size(1, 8)], vec![short]);
    assert!(check_locations_supported(&m));
    assert_eq!(gen_locations(&m), "static struct Location locations_0[] = {};\n\n");
}

#[test]
fn unsupported_locations_are_detected() {
    let mut r = record(4, &[-8]);
    r.locations[1] = loc(LocationType::Constant(1));
    assert!(!check_locations_supported(&map(vec![size(1, 8)], vec![r])));
    let mut r = record(4, &[-8]);
    r.locations[3] = loc(LocationType::Register(7));
    assert!(!check_locations_supported(&map(vec![size(1, 8)], vec![r])));
    let mut r = record(4, &[-8]);
    r.locations[3] = loc(LocationType::ConstIndex(0));
    assert!(!check_locations_supported(&map(vec![size(1, 8)], vec![r])));
    let mut r = record(4, &[-8]);
    r.locations[3] = loc(LocationType::ConstIndex(-1));
    let mut m = map(vec![size(1, 8)], vec![r]);
    m.large_constants = vec![1];
    assert!(!check_locations_supported(&m));
}

#[test]
fn safepoint_table_attributes_records_to_functions() {
    let m = map(
        vec![size(1, 24), size(2, 40)],
        vec![record(16, &[-8]), record(36, &[]), record(44, &[8, 16])],
    );
    let n = names(&["f.a", "main"]);
    assert!(check_safepoints_resolvable(&m, &n));
    assert_eq!(
        gen_safepoints(&m, &n),
        "struct Safepoint safepoints[] = {\n    {(void *)f_a + 16, 24, 1, locations_0},\n    {(void *)main + 36, 40, 0, locations_1},\n    {(void *)main + 44, 40, 2, locations_2},\n};\n\nint safepoints_len = 3;\n"
    );
}

#[test]
fn safepoint_table_with_a_function_without_records() {
    // A first function without records is skipped at once.
    let m = map(vec![size(0, 8), size(2, 16)], vec![record(1, &[]), record(2, &[])]);
    let n = names(&["a", "b"]);
    assert!(check_safepoints_resolvable(&m, &n));
    assert_eq!(
        gen_safepoints(&m, &n),
        "struct Safepoint safepoints[] = {\n    {(void *)b + 1, 16, 0, locations_0},\n    {(void *)b + 2, 16, 0, locations_1},\n};\n\nint safepoints_len = 2;\n"
    );
}

#[test]
fn unresolvable_safepoints_are_detected() {
    let m = map(vec![size(1, 24), size(2, 40)], vec![record(16, &[]), record(36, &[])]);
    assert!(!check_safepoints_resolvable(&m, &names(&["only_one"])));
    let m = map(vec![], vec![]);
    assert!(!check_safepoints_resolvable(&m, &names(&["f"])));
    let m = map(vec![size(1, 24)], vec![record(16, &[]), record(36, &[])]);
    assert!(!check_safepoints_resolvable(&m, &names(&["f", "g"])));
    let m = map(vec![size(0, 24)], vec![]);
    assert!(check_safepoints_resolvable(&m, &names(&[])));
    assert_eq!(
        gen_safepoints(&m, &[]),
        "struct Safepoint safepoints[] = {\n};\n\nint safepoints_len = 0;\n"
    );
}

#[test]
fn global_roots_table() {
    assert_eq!(
        gen_gcroots(&names(&["gc_a", "gc.b"])),
        "\nvoid *global_gcroots[] = {gc_a, gc_b, };\n\nint global_gcroots_len = 2;\n"
    );
    assert_eq!(gen_gcroots(&[]), "\nvoid *global_gcroots[] = {};\n\nint global_gcroots_len = 0;\n");
}

#[test]
fn whole_source() {
    let m = map(vec![size(1, 24)], vec![record(16, &[-8])]);
    let n = names(&["foo"]);
    assert_eq!(
        gen_safepoints_text(&m, &n, &names(&["root"])),
        "#include \"safepoints.h\"\n\nextern char foo[] __asm__(\"foo\");\nextern char root[] __asm__(\"root\");\n\nstatic struct Location locations_0[] = {{INDIRECT, 7, -8, 0}, };\n\nstruct Safepoint safepoints[] = {\n    {(void *)foo + 16, 24, 1, locations_0},\n};\n\nint safepoints_len = 1;\n\nvoid *global_gcroots[] = {root, };\n\nint global_gcroots_len = 1;\n"
    );
}

#[test]
fn header_file() {
    let text = gen_header_file_text();
    assert_eq!(text, SAFEPOINTS_HEADER);
    assert!(text.starts_with("#ifndef __LLVM_STACK_MAP_H\n"));
    assert!(text.contains("enum LocationType { DIRECT, INDIRECT, CONSTANT };"));
    assert!(text.contains("struct Location {\n  enum LocationType type;\n  uint16_t reg;\n  int32_t offset;\n  size_t constant;\n};"));
    assert!(text.contains("struct Safepoint {\n  void *ip;\n  uint64_t stack_size;\n  uint32_t num_of_locations;\n  struct Location *obj_locations;\n};"));
    assert!(text.contains("extern struct Safepoint safepoints[];"));
    assert!(text.contains("extern int safepoints_len;"));
    assert!(text.contains("extern void *global_gcroots[];"));
    assert!(text.contains("extern int global_gcroots_len;"));
}
