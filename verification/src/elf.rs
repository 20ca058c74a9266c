//! Reading sections, relocations and symbols of an ELF object file.
//!
//! The ELF container itself is decoded by `goblin`; the library keeps, as
//! plain values, what it reads of the result: the section table, the symbol
//! table and the relocation sections.
use vstd::prelude::*;
use goblin::elf::Elf;
use vstd::slice::{slice_subrange, slice_to_vec};

verus! {

/// A section header: its name (when the section string table has one at
/// its name offset), its file offset and its size.
pub struct ElfSection {
    pub name: Option<String>,
    pub offset: u64,
    pub size: u64,
}

/// A symbol: its name (when the string table has one at its name offset)
/// and the index of the section it is defined in.
pub struct ElfSymbol {
    pub name: Option<String>,
    pub section_index: usize,
}

/// A relocation section: the index of its section header and the symbol
/// index of each of its relocations, in order.
pub struct ElfRelocSection {
    pub section_index: usize,
    pub symbol_indices: Vec<usize>,
}

pub open spec fn name_view(name: Option<String>) -> Option<Seq<char>> {
    match name {
        Some(s) => Some(s@),
        None => None,
    }
}

/// A section as plain values: name, offset, size.
pub type SectionView = (Option<Seq<char>>, u64, u64);

/// A symbol as plain values: name, section index.
pub type SymbolView = (Option<Seq<char>>, usize);

/// A relocation section as plain values: section index, symbol indices.
pub type RelocView = (usize, Seq<usize>);

pub open spec fn sections_view(v: Seq<ElfSection>) -> Seq<SectionView> {
    v.map_values(|s: ElfSection| (name_view(s.name), s.offset, s.size))
}

pub open spec fn symbols_view(v: Seq<ElfSymbol>) -> Seq<SymbolView> {
    v.map_values(|s: ElfSymbol| (name_view(s.name), s.section_index))
}

pub open spec fn relocs_view(v: Seq<ElfRelocSection>) -> Seq<RelocView> {
    v.map_values(|r: ElfRelocSection| (r.section_index, r.symbol_indices@))
}

/// What the library reads of a parsed ELF file.
pub struct ElfObject {
    pub sections: Vec<ElfSection>,
    pub symbols: Vec<ElfSymbol>,
    pub relocs: Vec<ElfRelocSection>,
}

/// An ELF file as plain values: its sections, symbols and relocation
/// sections.
pub type ElfObjectView = (Seq<SectionView>, Seq<SymbolView>, Seq<RelocView>);

pub open spec fn object_view(o: ElfObject) -> ElfObjectView {
    (sections_view(o.sections@), symbols_view(o.symbols@), relocs_view(o.relocs@))
}

/// What `goblin::elf::Elf::parse` makes of the bytes: when it rejects them,
/// the text that its error's `Display` writes; else the section headers with the names that
/// `Strtab::get_at` finds for them in the section header string table, the
/// `.symtab` symbols with the names it finds in their string table, and
/// the relocation sections.
pub uninterp spec fn elf_object(data: Seq<u8>) -> Result<ElfObjectView, Seq<char>>;

/// Whether goblin accepts the bytes as an ELF file.
pub open spec fn elf_parses(data: Seq<u8>) -> bool {
    elf_object(data) is Ok
}

/// The text of goblin's error when it rejects the bytes.
pub open spec fn elf_error_text(data: Seq<u8>) -> Seq<char> {
    elf_object(data)->Err_0
}

pub open spec fn elf_section_table(data: Seq<u8>) -> Seq<SectionView> {
    elf_object(data)->Ok_0.0
}

pub open spec fn elf_symbol_table(data: Seq<u8>) -> Seq<SymbolView> {
    elf_object(data)->Ok_0.1
}

pub open spec fn elf_reloc_table(data: Seq<u8>) -> Seq<RelocView> {
    elf_object(data)->Ok_0.2
}

/// Calls `goblin::elf::Elf::parse`; when it fails, returns the text that
/// the error's `Display` writes. Otherwise keeps, in order: each section
/// header's name (looked up with `Strtab::get_at` in `shdr_strtab`), offset
/// and size; each entry of `syms` with its name (looked up in `strtab`) and
/// section index; and `shdr_relocs`, each relocation section as its section
/// header index and the `r_sym` of each relocation. What goblin computes is
/// named, not stated, except one fact of its source: it builds
/// `shdr_relocs` while enumerating the section headers, so each index held
/// there is below the number of section headers.
#[verifier::external_body]
fn parse_elf(data: &[u8]) -> (r: Result<ElfObject, String>)
    ensures
        r is Ok <==> elf_object(data@) is Ok,
        r matches Ok(o) ==> elf_object(data@)->Ok_0 == object_view(o),
        r matches Err(m) ==> elf_object(data@)->Err_0 == m@,
        r matches Ok(o) ==> forall|k: int|
            0 <= k < o.relocs@.len() ==> (#[trigger] o.relocs@[k]).section_index < o.sections@.len(),
{
    let elf = Elf::parse(data).map_err(|e| e.to_string())?;
    let sections = elf.section_headers.iter().map(|sh| ElfSection {
        name: elf.shdr_strtab.get_at(sh.sh_name).map(String::from), offset: sh.sh_offset, size: sh.sh_size,
    }).collect();
    let symbols = elf.syms.iter().map(|sym| ElfSymbol {
        name: elf.strtab.get_at(sym.st_name).map(String::from), section_index: sym.st_shndx,
    }).collect();
    let relocs = elf.shdr_relocs.iter().map(|(idx, rs)| ElfRelocSection {
        section_index: *idx, symbol_indices: rs.iter().map(|reloc| reloc.r_sym).collect(),
    }).collect();
    Ok(ElfObject { sections, symbols, relocs })
}

// ------------------------------------------------------------- by name

/// Whether a section bears `name`; a section whose name cannot be found
/// bears the empty name.
pub open spec fn section_named(s: SectionView, name: Seq<char>) -> bool {
    match s.0 {
        Some(n) => n == name,
        None => name.len() == 0,
    }
}

/// The first among the first `n` sections that bears `name`.
pub open spec fn first_section_named(sections: Seq<SectionView>, name: Seq<char>, n: nat) -> Option<
    int,
>
    decreases n,
{
    if n == 0 {
        None
    } else {
        match first_section_named(sections, name, (n - 1) as nat) {
            Some(i) => Some(i),
            None => if section_named(sections[n - 1], name) {
                Some(n - 1)
            } else {
                None
            },
        }
    }
}

/// Once found, the first section with the name stays the first one; it is
/// always one of the sections searched.
pub proof fn lemma_first_section_named(sections: Seq<SectionView>, name: Seq<char>, i: nat, n: nat)
    requires
        i <= n,
    ensures
        first_section_named(sections, name, i) is Some ==> first_section_named(sections, name, n)
            == first_section_named(sections, name, i),
        first_section_named(sections, name, n) matches Some(k) ==> 0 <= k < n && section_named(
            sections[k],
            name,
        ),
    decreases n,
{
    if n > 0 {
        if i < n {
            lemma_first_section_named(sections, name, i, (n - 1) as nat);
        } else {
            lemma_first_section_named(sections, name, (n - 1) as nat, (n - 1) as nat);
        }
    }
}

/// The first section that bears `name`.
pub open spec fn spec_find_section(sections: Seq<SectionView>, name: Seq<char>) -> Option<int> {
    first_section_named(sections, name, sections.len())
}

fn section_has_name(section_name: &Option<String>, name: &String) -> (b: bool)
    ensures
        b == section_named((name_view(*section_name), 0, 0), name@),
{
    match section_name {
        Some(n) => *n == *name,
        None => name.as_str().unicode_len() == 0,
    }
}

/// The index of the first section that bears `section_name`.
pub fn find_section(sections: &[ElfSection], section_name: &str) -> (r: Option<usize>)
    ensures
        match r {
            Some(i) => i < sections@.len() && spec_find_section(sections_view(sections@), section_name@)
                == Some(i as int),
            None => spec_find_section(sections_view(sections@), section_name@) is None,
        },
{
    let ghost secs = sections_view(sections@);
    let name = String::from_str(section_name);
    let mut i: usize = 0;
    while i < sections.len()
        invariant
            secs == sections_view(sections@),
            name@ == section_name@,
            i <= sections.len(),
            first_section_named(secs, name@, i as nat) is None,
        decreases sections.len() - i,
    {
        let found = section_has_name(&sections[i].name, &name);
        assert(secs[i as int].0 == name_view(sections@[i as int].name));
        if found {
            proof {
                lemma_first_section_named(secs, name@, (i + 1) as nat, secs.len());
            }
            return Some(i);
        }
        i += 1;
    }
    None
}

// ------------------------------------------------------------ section bytes

/// The bytes of the section named `name`, or the message that it is missing.
pub open spec fn spec_section_bytes(
    data: Seq<u8>,
    sections: Seq<SectionView>,
    name: Seq<char>,
) -> Result<Seq<u8>, Seq<char>> {
    match spec_find_section(sections, name) {
        None => Err("Section "@ + name + " not found in ELF file"@),
        Some(i) => Ok(data.subrange(sections[i].1 as int, sections[i].1 + sections[i].2)),
    }
}

/// The section named `name`, if there is one, lies inside the data.
pub open spec fn section_in_bounds(
    data_len: nat,
    sections: Seq<SectionView>,
    name: Seq<char>,
) -> bool {
    match spec_find_section(sections, name) {
        None => true,
        Some(i) => sections[i].1 + sections[i].2 <= data_len,
    }
}

pub open spec fn bytes_result_view(r: Result<Vec<u8>, String>) -> Result<Seq<u8>, Seq<char>> {
    match r {
        Ok(v) => Ok(v@),
        Err(m) => Err(m@),
    }
}

/// The bytes of the section named `section_name`.
pub fn section_bytes(data: &[u8], sections: &[ElfSection], section_name: &str) -> (r: Result<
    Vec<u8>,
    String,
>)
    requires
        section_in_bounds(data@.len(), sections_view(sections@), section_name@),
    ensures
        bytes_result_view(r) == spec_section_bytes(
            data@,
            sections_view(sections@),
            section_name@,
        ),
{
    match find_section(sections, section_name) {
        Some(i) => {
            assert(sections_view(sections@)[i as int] == (
                name_view(sections@[i as int].name),
                sections@[i as int].offset,
                sections@[i as int].size,
            ));
            assert(spec_find_section(sections_view(sections@), section_name@) == Some(i as int));
            let data_len = data.len();
            assert(sections@[i as int].offset + sections@[i as int].size <= data_len);
            let start = sections[i].offset as usize;
            let end = (sections[i].offset + sections[i].size) as usize;
            Ok(slice_to_vec(slice_subrange(data, start, end)))
        },
        None => {
            let mut message = String::from_str("Section ");
            message.append(section_name);
            message.append(" not found in ELF file");
            Err(message)
        },
    }
}

/// Whether the section named `section_name`, if there is one, lies inside
/// the data.
pub fn check_section_in_bounds(data: &[u8], sections: &[ElfSection], section_name: &str) -> (b:
    bool)
    ensures
        b == section_in_bounds(data@.len(), sections_view(sections@), section_name@),
{
    match find_section(sections, section_name) {
        Some(i) => {
            assert(sections_view(sections@)[i as int] == (
                name_view(sections@[i as int].name),
                sections@[i as int].offset,
                sections@[i as int].size,
            ));
            let len = data.len() as u64;
            sections[i].offset <= len && sections[i].size <= len - sections[i].offset
        },
        None => true,
    }
}

/// Reads the bytes of the section named `section_name` from an ELF file.
/// When the file is not ELF the error says so; when the section is missing
/// the error names it. The result is `None` when the section reaches past
/// the end of the data.
pub fn elf_section_bytes(data: &[u8], section_name: &str) -> (r: Option<Result<Vec<u8>, String>>)
    ensures
        !elf_parses(data@) ==> (r matches Some(Err(m)) && m@ == "Failed to parse ELF file: "@
            + elf_error_text(data@)),
        elf_parses(data@) ==> (r is Some <==> section_in_bounds(
            data@.len(),
            elf_section_table(data@),
            section_name@,
        )),
        elf_parses(data@) ==> (r matches Some(x) ==> bytes_result_view(x) == spec_section_bytes(
            data@,
            elf_section_table(data@),
            section_name@,
        )),
{
    match parse_elf(data) {
        Err(detail) => {
            let mut message = String::from_str("Failed to parse ELF file: ");
            message.append(detail.as_str());
            Some(Err(message))
        },
        Ok(elf) => {
            if check_section_in_bounds(data, elf.sections.as_slice(), section_name) {
                Some(section_bytes(data, elf.sections.as_slice(), section_name))
            } else {
                None
            }
        },
    }
}

// ------------------------------------------------------------ relocations

/// Whether relocation section `k` applies to the section that bears `name`.
pub open spec fn reloc_named(
    relocs: Seq<RelocView>,
    sections: Seq<SectionView>,
    name: Seq<char>,
    k: int,
) -> bool {
    section_named(sections[relocs[k].0 as int], name)
}

/// The first among the first `n` relocation sections that applies to the
/// section bearing `name`.
pub open spec fn first_reloc_named(
    relocs: Seq<RelocView>,
    sections: Seq<SectionView>,
    name: Seq<char>,
    n: nat,
) -> Option<int>
    decreases n,
{
    if n == 0 {
        None
    } else {
        match first_reloc_named(relocs, sections, name, (n - 1) as nat) {
            Some(k) => Some(k),
            None => if reloc_named(relocs, sections, name, n - 1) {
                Some(n - 1)
            } else {
                None
            },
        }
    }
}

/// Once found, the first relocation section for the name stays the first
/// one; it is always one of the relocation sections searched.
pub proof fn lemma_first_reloc_named(
    relocs: Seq<RelocView>,
    sections: Seq<SectionView>,
    name: Seq<char>,
    i: nat,
    n: nat,
)
    requires
        i <= n,
    ensures
        first_reloc_named(relocs, sections, name, i) is Some ==> first_reloc_named(
            relocs,
            sections,
            name,
            n,
        ) == first_reloc_named(relocs, sections, name, i),
        first_reloc_named(relocs, sections, name, n) matches Some(k) ==> 0 <= k < n && reloc_named(
            relocs,
            sections,
            name,
            k,
        ) && first_reloc_named(relocs, sections, name, k as nat) is None,
    decreases n,
{
    if n > 0 {
        if i < n {
            lemma_first_reloc_named(relocs, sections, name, i, (n - 1) as nat);
        } else {
            lemma_first_reloc_named(relocs, sections, name, (n - 1) as nat, (n - 1) as nat);
        }
    }
}

pub open spec fn spec_find_reloc(
    relocs: Seq<RelocView>,
    sections: Seq<SectionView>,
    name: Seq<char>,
) -> Option<int> {
    first_reloc_named(relocs, sections, name, relocs.len())
}

/// The names of the symbols that the relocations for the section bearing
/// `name` refer to, in order; none when no relocation section applies.
pub open spec fn spec_reloc_names(
    sections: Seq<SectionView>,
    relocs: Seq<RelocView>,
    syms: Seq<SymbolView>,
    name: Seq<char>,
) -> Seq<Seq<char>> {
    match spec_find_reloc(relocs, sections, name) {
        None => Seq::empty(),
        Some(k) => relocs[k].1.map_values(|s: usize| syms[s as int].0->Some_0),
    }
}

/// The lookups succeed: each relocation section searched refers to a
/// section header, and each relocation of the one found refers to a
/// symbol that has a name.
pub open spec fn reloc_names_resolvable(
    sections: Seq<SectionView>,
    relocs: Seq<RelocView>,
    syms: Seq<SymbolView>,
    name: Seq<char>,
) -> bool {
    let searched = match spec_find_reloc(relocs, sections, name) {
        Some(k) => k + 1,
        None => relocs.len() as int,
    };
    &&& forall|k: int| 0 <= k < searched ==> (#[trigger] relocs[k]).0 < sections.len()
    &&& spec_find_reloc(relocs, sections, name) matches Some(k) ==> symbols_named(
        relocs[k].1,
        syms,
    )
}

/// Each of the symbol indices refers to a symbol that has a name.
pub open spec fn symbols_named(indices: Seq<usize>, syms: Seq<SymbolView>) -> bool {
    forall|j: int|
        0 <= j < indices.len() ==> #[trigger] indices[j] < syms.len() && syms[indices[j] as int].0 is Some
}

pub open spec fn names_view(v: Seq<String>) -> Seq<Seq<char>> {
    v.map_values(|s: String| s@)
}

/// Finds the relocation section for the section named `section_name`, and
/// whether its relocations all name symbols with names.
fn find_reloc(
    sections: &[ElfSection],
    relocs: &[ElfRelocSection],
    syms: &[ElfSymbol],
    section_name: &str,
) -> (r: Result<Option<usize>, ()>)
    ensures
        r is Ok <==> reloc_names_resolvable(
            sections_view(sections@),
            relocs_view(relocs@),
            symbols_view(syms@),
            section_name@,
        ),
        r matches Ok(found) ==> match found {
            Some(k) => k < relocs@.len() && spec_find_reloc(
                relocs_view(relocs@),
                sections_view(sections@),
                section_name@,
            ) == Some(k as int),
            None => spec_find_reloc(
                relocs_view(relocs@),
                sections_view(sections@),
                section_name@,
            ) is None,
        },
{
    let ghost secs = sections_view(sections@);
    let ghost rels = relocs_view(relocs@);
    let ghost sy = symbols_view(syms@);
    let name = String::from_str(section_name);
    let mut k: usize = 0;
    while k < relocs.len()
        invariant
            secs == sections_view(sections@),
            rels == relocs_view(relocs@),
            sy == symbols_view(syms@),
            name@ == section_name@,
            k <= relocs.len(),
            first_reloc_named(rels, secs, name@, k as nat) is None,
            forall|kk: int| 0 <= kk < k ==> (#[trigger] rels[kk]).0 < secs.len(),
        decreases relocs.len() - k,
    {
        let idx = relocs[k].section_index;
        assert(rels[k as int].0 == idx);
        if idx >= sections.len() {
            proof {
                lemma_first_reloc_named(rels, secs, name@, k as nat, rels.len());
                if let Some(k0) = first_reloc_named(rels, secs, name@, rels.len()) {
                    if k0 < k {
                        lemma_first_reloc_named(rels, secs, name@, (k0 + 1) as nat, k as nat);
                        assert(first_reloc_named(rels, secs, name@, (k0 + 1) as nat) == Some(k0));
                    }
                }
                assert(rels[k as int].0 >= secs.len());
            }
            return Err(());
        }
        assert(secs[idx as int].0 == name_view(sections@[idx as int].name));
        if section_has_name(&sections[idx].name, &name) {
            proof {
                lemma_first_reloc_named(rels, secs, name@, (k + 1) as nat, rels.len());
            }
            let indices = &relocs[k].symbol_indices;
            assert(indices@ == rels[k as int].1);
            assert(first_reloc_named(rels, secs, name@, (k + 1) as nat) == Some(k as int));
            let mut j: usize = 0;
            while j < indices.len()
                invariant
                    sy == symbols_view(syms@),
                    rels == relocs_view(relocs@),
                    secs == sections_view(sections@),
                    name@ == section_name@,
                    spec_find_reloc(rels, secs, name@) == Some(k as int),
                    indices@ == rels[k as int].1,
                    j <= indices.len(),
                    symbols_named(rels[k as int].1.take(j as int), sy),
                decreases indices.len() - j,
            {
                let s = indices[j];
                assert(rels[k as int].1[j as int] == s);
                if s >= syms.len() {
                    assert(!symbols_named(rels[k as int].1, sy));
                    return Err(());
                }
                assert(sy[s as int].0 == name_view(syms@[s as int].name));
                if syms[s].name.is_none() {
                    assert(!symbols_named(rels[k as int].1, sy));
                    return Err(());
                }
                assert(rels[k as int].1.take(j + 1) =~= rels[k as int].1.take(j as int).push(s));
                j += 1;
            }
            assert(rels[k as int].1.take(indices@.len() as int) =~= rels[k as int].1);
            return Ok(Some(k));
        }
        k += 1;
    }
    Ok(None)
}

/// Whether the lookups of `reloc_names` succeed.
pub fn check_reloc_names_resolvable(
    sections: &[ElfSection],
    relocs: &[ElfRelocSection],
    syms: &[ElfSymbol],
    section_name: &str,
) -> (b: bool)
    ensures
        b == reloc_names_resolvable(
            sections_view(sections@),
            relocs_view(relocs@),
            symbols_view(syms@),
            section_name@,
        ),
{
    find_reloc(sections, relocs, syms, section_name).is_ok()
}

/// The names of the symbols that the relocations for the section named
/// `section_name` refer to, in order.
pub fn reloc_names(
    sections: &[ElfSection],
    relocs: &[ElfRelocSection],
    syms: &[ElfSymbol],
    section_name: &str,
) -> (r: Vec<String>)
    requires
        reloc_names_resolvable(
            sections_view(sections@),
            relocs_view(relocs@),
            symbols_view(syms@),
            section_name@,
        ),
    ensures
        names_view(r@) == spec_reloc_names(
            sections_view(sections@),
            relocs_view(relocs@),
            symbols_view(syms@),
            section_name@,
        ),
{
    let ghost rels = relocs_view(relocs@);
    let ghost sy = symbols_view(syms@);
    let mut names: Vec<String> = Vec::new();
    match find_reloc(sections, relocs, syms, section_name) {
        Ok(Some(k)) => {
            let indices = &relocs[k].symbol_indices;
            assert(indices@ == rels[k as int].1);
            let mut j: usize = 0;
            while j < indices.len()
                invariant
                    sy == symbols_view(syms@),
                    rels == relocs_view(relocs@),
                    k < rels.len(),
                    indices@ == rels[k as int].1,
                    j <= indices.len(),
                    symbols_named(rels[k as int].1, sy),
                    names_view(names@) == rels[k as int].1.take(j as int).map_values(
                        |s: usize| sy[s as int].0->Some_0,
                    ),
                decreases indices.len() - j,
            {
                let s = indices[j];
                assert(rels[k as int].1[j as int] == s);
                assert(sy[s as int].0 == name_view(syms@[s as int].name));
                if let Some(name) = &syms[s].name {
                    let ghost before = names@;
                    names.push(name.clone());
                    assert(names_view(names@) =~= names_view(before).push(name@));
                }
                assert(rels[k as int].1.take(j + 1) =~= rels[k as int].1.take(j as int).push(s));
                j += 1;
            }
            assert(rels[k as int].1.take(indices@.len() as int) =~= rels[k as int].1);
        },
        _ => {
            assert(names_view(names@) =~= Seq::<Seq<char>>::empty());
        },
    }
    names
}

/// Reads the names of the symbols that the relocations for the section
/// named `section_name` refer to, from an ELF file. The result is `None`
/// when the data is not ELF or a lookup fails.
pub fn elf_reloc_names(data: &[u8], section_name: &str) -> (r: Option<Vec<String>>)
    ensures
        r is Some <==> elf_parses(data@) && reloc_names_resolvable(
            elf_section_table(data@),
            elf_reloc_table(data@),
            elf_symbol_table(data@),
            section_name@,
        ),
        r matches Some(v) ==> names_view(v@) == spec_reloc_names(
            elf_section_table(data@),
            elf_reloc_table(data@),
            elf_symbol_table(data@),
            section_name@,
        ),
        elf_parses(data@) ==> forall|k: int|
            0 <= k < elf_reloc_table(data@).len() ==> (#[trigger] elf_reloc_table(data@)[k]).0
                < elf_section_table(data@).len(),
{
    let elf = match parse_elf(data) {
        Ok(elf) => elf,
        Err(_) => return None,
    };
    assert forall|k: int|
        0 <= k < elf_reloc_table(data@).len() implies (#[trigger] elf_reloc_table(
        data@,
    )[k]).0 < elf_section_table(data@).len() by {
        assert(elf_reloc_table(data@)[k].0 == elf.relocs@[k].section_index);
    }
    let (sections, relocs, syms) = (
        elf.sections.as_slice(),
        elf.relocs.as_slice(),
        elf.symbols.as_slice(),
    );
    if check_reloc_names_resolvable(sections, relocs, syms, section_name) {
        Some(reloc_names(sections, relocs, syms, section_name))
    } else {
        None
    }
}

// ---------------------------------------------------------------- symbols

/// The names of the first `n` symbols that are defined in section `idx`.
pub open spec fn syms_in_section(syms: Seq<SymbolView>, idx: int, n: nat) -> Seq<Seq<char>>
    decreases n,
{
    if n == 0 {
        Seq::empty()
    } else if syms[n - 1].1 == idx {
        syms_in_section(syms, idx, (n - 1) as nat).push(syms[n - 1].0->Some_0)
    } else {
        syms_in_section(syms, idx, (n - 1) as nat)
    }
}

/// The names of the symbols defined in the section bearing `name`, in
/// symbol table order; none when no section bears it.
pub open spec fn spec_section_syms(
    sections: Seq<SectionView>,
    syms: Seq<SymbolView>,
    name: Seq<char>,
) -> Seq<Seq<char>> {
    match spec_find_section(sections, name) {
        None => Seq::empty(),
        Some(i) => syms_in_section(syms, i, syms.len()),
    }
}

/// Every symbol defined in the section bearing `name` has a name.
pub open spec fn section_syms_resolvable(
    sections: Seq<SectionView>,
    syms: Seq<SymbolView>,
    name: Seq<char>,
) -> bool {
    spec_find_section(sections, name) matches Some(i) ==> forall|j: int|
        0 <= j < syms.len() && (#[trigger] syms[j]).1 == i ==> syms[j].0 is Some
}

/// Whether every symbol defined in the section named `section_name` has a
/// name.
pub fn check_section_syms_resolvable(
    sections: &[ElfSection],
    syms: &[ElfSymbol],
    section_name: &str,
) -> (b: bool)
    ensures
        b == section_syms_resolvable(sections_view(sections@), symbols_view(syms@), section_name@),
{
    let ghost sy = symbols_view(syms@);
    match find_section(sections, section_name) {
        None => true,
        Some(i) => {
            let mut j: usize = 0;
            while j < syms.len()
                invariant
                    sy == symbols_view(syms@),
                    spec_find_section(sections_view(sections@), section_name@) == Some(i as int),
                    j <= syms.len(),
                    forall|jj: int|
                        0 <= jj < j && (#[trigger] sy[jj]).1 == i ==> sy[jj].0 is Some,
                decreases syms.len() - j,
            {
                assert(sy[j as int] == (name_view(syms@[j as int].name), syms@[j as int].section_index));
                if syms[j].section_index == i && syms[j].name.is_none() {
                    assert(sy[j as int].1 == i && sy[j as int].0 is None);
                    return false;
                }
                j += 1;
            }
            true
        },
    }
}

/// The names of the symbols defined in the section named `section_name`.
pub fn section_syms(sections: &[ElfSection], syms: &[ElfSymbol], section_name: &str) -> (r: Vec<
    String,
>)
    requires
        section_syms_resolvable(sections_view(sections@), symbols_view(syms@), section_name@),
    ensures
        names_view(r@) == spec_section_syms(
            sections_view(sections@),
            symbols_view(syms@),
            section_name@,
        ),
{
    let ghost sy = symbols_view(syms@);
    let mut names: Vec<String> = Vec::new();
    match find_section(sections, section_name) {
        None => {
            assert(names_view(names@) =~= Seq::<Seq<char>>::empty());
        },
        Some(i) => {
            let mut j: usize = 0;
            while j < syms.len()
                invariant
                    sy == symbols_view(syms@),
                    j <= syms.len(),
                    forall|jj: int|
                        0 <= jj < sy.len() && (#[trigger] sy[jj]).1 == i ==> sy[jj].0 is Some,
                    names_view(names@) == syms_in_section(sy, i as int, j as nat),
                decreases syms.len() - j,
            {
                assert(sy[j as int] == (name_view(syms@[j as int].name), syms@[j as int].section_index));
                if syms[j].section_index == i {
                    if let Some(name) = &syms[j].name {
                        let ghost before = names@;
                        names.push(name.clone());
                        assert(names_view(names@) =~= names_view(before).push(name@));
                    }
                }
                j += 1;
            }
        },
    }
    names
}

/// Reads the names of the symbols defined in the section named
/// `section_name`, from an ELF file. The result is `None` when the data is
/// not ELF or one of those symbols has no name.
pub fn elf_section_syms(data: &[u8], section_name: &str) -> (r: Option<Vec<String>>)
    ensures
        r is Some <==> elf_parses(data@) && section_syms_resolvable(
            elf_section_table(data@),
            elf_symbol_table(data@),
            section_name@,
        ),
        r matches Some(v) ==> names_view(v@) == spec_section_syms(
            elf_section_table(data@),
            elf_symbol_table(data@),
            section_name@,
        ),
{
    let elf = match parse_elf(data) {
        Ok(elf) => elf,
        Err(_) => return None,
    };
    let (sections, syms) = (elf.sections.as_slice(), elf.symbols.as_slice());
    if check_section_syms_resolvable(sections, syms, section_name) {
        Some(section_syms(sections, syms, section_name))
    } else {
        None
    }
}

} // verus!
