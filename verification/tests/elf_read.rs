use llvm_stackmap_parser::elf::{elf_reloc_names, elf_section_bytes, elf_section_syms};

fn u16le(v: &mut Vec<u8>, x: u16) {
    v.extend_from_slice(&x.to_le_bytes());
}
fn u32le(v: &mut Vec<u8>, x: u32) {
    v.extend_from_slice(&x.to_le_bytes());
}
fn u64le(v: &mut Vec<u8>, x: u64) {
    v.extend_from_slice(&x.to_le_bytes());
}

struct Shdr {
    name: u32,
    typ: u32,
    offset: u64,
    size: u64,
    link: u32,
    info: u32,
    entsize: u64,
}

fn name_offset(table: &[u8], name: &str) -> u32 {
    let mut needle = name.as_bytes().to_vec();
    needle.push(0);
    table.windows(needle.len()).position(|w| w == needle.as_slice()).unwrap() as u32
}

fn symbol(v: &mut Vec<u8>, name: u32, shndx: u16) {
    u32le(v, name);
    v.push(0x10); // global, no type
    v.push(0);
    u16le(v, shndx);
    u64le(v, 0);
    u64le(v, 0);
}

fn rela(v: &mut Vec<u8>, sym: u64) {
    u64le(v, 0);
    u64le(v, (sym << 32) | 1);
    u64le(v, 0);
}

/// A relocatable x86-64 ELF object with a `.llvm_stackmaps` section, its
/// relocations (against `foo` and `main`), and a `.gcroots` section that
/// defines `gc_a` and `gc_b`.
fn object(stackmap: &[u8]) -> Vec<u8> {
    let shstrtab = b"\0.shstrtab\0.llvm_stackmaps\0.symtab\0.strtab\0.rela.llvm_stackmaps\0.gcroots\0".to_vec();
    let strtab = b"\0foo\0main\0gc_a\0gc_b\0".to_vec();
    let mut symtab = Vec::new();
    symbol(&mut symtab, 0, 0);
    symbol(&mut symtab, name_offset(&strtab, "foo"), 0);
    symbol(&mut symtab, name_offset(&strtab, "main"), 0);
    symbol(&mut symtab, name_offset(&strtab, "gc_a"), 6);
    symbol(&mut symtab, name_offset(&strtab, "gc_b"), 6);
    let mut relas = Vec::new();
    rela(&mut relas, 1);
    rela(&mut relas, 2);
    let gcroots = vec![0u8; 16];

    let mut body: Vec<u8> = Vec::new();
    let mut place = |body: &mut Vec<u8>, bytes: &[u8]| -> u64 {
        while body.len() % 8 != 0 {
            body.push(0);
        }
        let off = 64 + body.len() as u64;
        body.extend_from_slice(bytes);
        off
    };
    let o_shstr = place(&mut body, &shstrtab);
    let o_map = place(&mut body, stackmap);
    let o_sym = place(&mut body, &symtab);
    let o_str = place(&mut body, &strtab);
    let o_rela = place(&mut body, &relas);
    let o_gc = place(&mut body, &gcroots);
    while body.len() % 8 != 0 {
        body.push(0);
    }
    let shoff = 64 + body.len() as u64;

    let shdrs = [
        Shdr { name: 0, typ: 0, offset: 0, size: 0, link: 0, info: 0, entsize: 0 },
        Shdr { name: name_offset(&shstrtab, ".shstrtab"), typ: 3, offset: o_shstr, size: shstrtab.len() as u64, link: 0, info: 0, entsize: 0 },
        Shdr { name: name_offset(&shstrtab, ".llvm_stackmaps"), typ: 1, offset: o_map, size: stackmap.len() as u64, link: 0, info: 0, entsize: 0 },
        Shdr { name: name_offset(&shstrtab, ".symtab"), typ: 2, offset: o_sym, size: symtab.len() as u64, link: 4, info: 1, entsize: 24 },
        Shdr { name: name_offset(&shstrtab, ".strtab"), typ: 3, offset: o_str, size: strtab.len() as u64, link: 0, info: 0, entsize: 0 },
        Shdr { name: name_offset(&shstrtab, ".rela.llvm_stackmaps"), typ: 4, offset: o_rela, size: relas.len() as u64, link: 3, info: 2, entsize: 24 },
        Shdr { name: name_offset(&shstrtab, ".gcroots"), typ: 1, offset: o_gc, size: gcroots.len() as u64, link: 0, info: 0, entsize: 0 },
    ];

    let mut out = vec![0x7f, b'E', b'L', b'F', 2, 1, 1, 0, 0, 0, 0, 0, 0, 0, 0, 0];
    u16le(&mut out, 1); // ET_REL
    u16le(&mut out, 62); // x86-64
    u32le(&mut out, 1);
    u64le(&mut out, 0); // entry
    u64le(&mut out, 0); // phoff
    u64le(&mut out, shoff);
    u32le(&mut out, 0); // flags
    u16le(&mut out, 64);
    u16le(&mut out, 56);
    u16le(&mut out, 0);
    u16le(&mut out, 64);
    u16le(&mut out, shdrs.len() as u16);
    u16le(&mut out, 1);
    assert_eq!(out.len(), 64);
    out.extend_from_slice(&body);
    for s in &shdrs {
        u32le(&mut out, s.name);
        u32le(&mut out, s.typ);
        u64le(&mut out, 0);
        u64le(&mut out, 0);
        u64le(&mut out, s.offset);
        u64le(&mut out, s.size);
        u32le(&mut out, s.link);
        u32le(&mut out, s.info);
        u64le(&mut out, 8);
        u64le(&mut out, s.entsize);
    }
    out
}

#[test]
fn reads_the_stack_map_section() {
    let map = [3u8, 0, 0, 0, 1, 2, 3, 4, 5, 6, 7, 8, 9, 10, 11, 12];
    let data = object(&map);
    assert_eq!(elf_section_bytes(&data, ".llvm_stackmaps"), Some(Ok(map.to_vec())));
    assert_eq!(elf_section_bytes(&data, ".gcroots"), Some(Ok(vec![0u8; 16])));
}

#[test]
fn missing_section_is_an_error() {
    let data = object(&[3, 0, 0, 0]);
    assert_eq!(
        elf_section_bytes(&data, ".nope"),
        Some(Err(String::from("Section .nope not found in ELF file")))
    );
}

#[test]
fn empty_name_matches_the_null_section() {
    let data = object(&[3, 0, 0, 0]);
    assert_eq!(elf_section_bytes(&data, ""), Some(Ok(vec![])));
}

#[test]
fn not_an_elf_file() {
    let data = vec![0u8; 100];
    let detail = goblin::elf::Elf::parse(&data).unwrap_err().to_string();
    assert!(!detail.is_empty());
    assert_eq!(
        elf_section_bytes(&data, ".llvm_stackmaps"),
        Some(Err(format!("Failed to parse ELF file: {detail}")))
    );
    assert_eq!(elf_reloc_names(&data, ".rela.llvm_stackmaps"), None);
    assert_eq!(elf_section_syms(&data, ".gcroots"), None);
}

#[test]
fn section_out_of_bounds_is_reported() {
    let mut data = object(&[3, 0, 0, 0, 0, 0, 0, 0]);
    // Enlarge the size of `.llvm_stackmaps` (section 2) past the end.
    let shoff = u64::from_le_bytes(data[40..48].try_into().unwrap()) as usize;
    let size_at = shoff + 2 * 64 + 32;
    data[size_at..size_at + 8].copy_from_slice(&(1u64 << 40).to_le_bytes());
    assert_eq!(elf_section_bytes(&data, ".llvm_stackmaps"), None);
}

#[test]
fn reads_relocation_symbol_names() {
    let data = object(&[3, 0, 0, 0]);
    assert_eq!(
        elf_reloc_names(&data, ".rela.llvm_stackmaps"),
        Some(vec![String::from("foo"), String::from("main")])
    );
    assert_eq!(elf_reloc_names(&data, ".rela.text"), Some(vec![]));
}

#[test]
fn reads_symbols_of_a_section() {
    let data = object(&[3, 0, 0, 0]);
    assert_eq!(
        elf_section_syms(&data, ".gcroots"),
        Some(vec![String::from("gc_a"), String::from("gc_b")])
    );
    assert_eq!(elf_section_syms(&data, ".missing"), Some(vec![]));
}
