use std::rc::Rc;

use blazesym::dwarf::DebugFn;
use blazesym::dwarf::DebugInfo;
use blazesym::dwarf::DwarfResolver;
use blazesym::dwarf::InlinedCall;
use blazesym::dwarf::LineRow;
use blazesym::elf::ElfBackend;
use blazesym::elf::ElfParser;
use blazesym::elf::ElfResolver;
use blazesym::inspect::FindAddrOpts;
use blazesym::inspect::SymInfo;
use blazesym::inspect::SymType;
use blazesym::symbolize::AddrCodeInfo;
use blazesym::symbolize::CodeInfo;
use blazesym::symbolize::InlinedFn;
use blazesym::symbolize::IntSym;
use blazesym::symbolize::SrcLang;
use blazesym::Error;
use blazesym::SymResolver;

const SHT_PROGBITS: u32 = 1;
const SHT_SYMTAB: u32 = 2;
const SHT_STRTAB: u32 = 3;
const SHT_NOBITS: u32 = 8;
const SHT_DYNSYM: u32 = 11;
const SHF_ALLOC: u64 = 2;
const SHF_EXECINSTR: u64 = 4;
const STT_OBJECT: u8 = 1;
const STT_FUNC: u8 = 2;
const STB_GLOBAL: u8 = 1 << 4;

/// One section of an image under construction.
struct Section {
    name: &'static str,
    kind: u32,
    flags: u64,
    addr: u64,
    body: Vec<u8>,
    link: u32,
    entsize: u64,
}

impl Section {
    fn new(name: &'static str, kind: u32, body: Vec<u8>) -> Section {
        Section { name, kind, flags: 0, addr: 0, body, link: 0, entsize: 0 }
    }
}

/// One entry of a symbol table under construction.
struct Symbol {
    name: &'static [u8],
    info: u8,
    shndx: u16,
    value: u64,
    size: u64,
}

fn func(name: &'static str, value: u64, size: u64) -> Symbol {
    Symbol { name: name.as_bytes(), info: STB_GLOBAL | STT_FUNC, shndx: 1, value, size }
}

/// A string table that holds the given strings, and the offset of each.
fn string_table(strings: &[&[u8]]) -> (Vec<u8>, Vec<u32>) {
    let mut body = vec![0u8];
    let mut offsets = Vec::new();
    for s in strings {
        offsets.push(body.len() as u32);
        body.extend_from_slice(s);
        body.push(0);
    }
    (body, offsets)
}

/// The bytes of a symbol table and of the string table that names its entries.
fn symbol_tables(syms: &[Symbol]) -> (Vec<u8>, Vec<u8>) {
    let names: Vec<&[u8]> = syms.iter().map(|s| s.name).collect();
    let (strtab, offsets) = string_table(&names);
    let mut symtab = vec![0u8; 24];
    for (sym, name) in syms.iter().zip(offsets) {
        symtab.extend_from_slice(&name.to_le_bytes());
        symtab.push(sym.info);
        symtab.push(0);
        symtab.extend_from_slice(&sym.shndx.to_le_bytes());
        symtab.extend_from_slice(&sym.value.to_le_bytes());
        symtab.extend_from_slice(&sym.size.to_le_bytes());
    }
    (symtab, strtab)
}

/// A 64-bit little-endian ELF image with a null section, the given sections
/// and, last, the table of section names.
fn image(sections: Vec<Section>) -> Vec<u8> {
    let mut names: Vec<&[u8]> = vec![b""];
    for sec in &sections {
        names.push(sec.name.as_bytes());
    }
    names.push(b".shstrtab");
    let (shstrtab, name_offsets) = string_table(&names);

    let mut all = vec![Section::new("", 0, Vec::new())];
    all.extend(sections);
    all.push(Section::new(".shstrtab", SHT_STRTAB, shstrtab));

    let mut out = vec![0u8; 64];
    let mut offsets = Vec::new();
    for sec in &all {
        offsets.push(out.len() as u64);
        if sec.kind != SHT_NOBITS {
            out.extend_from_slice(&sec.body);
        }
    }
    let shoff = out.len() as u64;
    for (i, sec) in all.iter().enumerate() {
        out.extend_from_slice(&name_offsets[i].to_le_bytes());
        out.extend_from_slice(&sec.kind.to_le_bytes());
        out.extend_from_slice(&sec.flags.to_le_bytes());
        out.extend_from_slice(&sec.addr.to_le_bytes());
        out.extend_from_slice(&offsets[i].to_le_bytes());
        out.extend_from_slice(&(sec.body.len() as u64).to_le_bytes());
        out.extend_from_slice(&sec.link.to_le_bytes());
        out.extend_from_slice(&0u32.to_le_bytes());
        out.extend_from_slice(&1u64.to_le_bytes());
        out.extend_from_slice(&sec.entsize.to_le_bytes());
    }
    out[0..4].copy_from_slice(b"\x7fELF");
    out[4] = 2;
    out[5] = 1;
    out[6] = 1;
    out[16..18].copy_from_slice(&2u16.to_le_bytes());
    out[18..20].copy_from_slice(&62u16.to_le_bytes());
    out[20..24].copy_from_slice(&1u32.to_le_bytes());
    out[40..48].copy_from_slice(&shoff.to_le_bytes());
    out[52..54].copy_from_slice(&64u16.to_le_bytes());
    out[58..60].copy_from_slice(&64u16.to_le_bytes());
    out[60..62].copy_from_slice(&(all.len() as u16).to_le_bytes());
    out[62..64].copy_from_slice(&((all.len() - 1) as u16).to_le_bytes());
    out
}

/// The text section of the test objects: 0x100 bytes loaded at 0x1000.
fn text_section() -> Section {
    Section {
        flags: SHF_ALLOC | SHF_EXECINSTR,
        addr: 0x1000,
        ..Section::new(".text", SHT_PROGBITS, vec![0x90; 0x100])
    }
}

/// The sections of an object with the given symbols: `.text` is section 1,
/// `.symtab` section 2 and `.strtab` section 3.
fn plain_sections(syms: &[Symbol]) -> Vec<Section> {
    let (symtab, strtab) = symbol_tables(syms);
    vec![
        text_section(),
        Section { link: 3, entsize: 24, ..Section::new(".symtab", SHT_SYMTAB, symtab) },
        Section::new(".strtab", SHT_STRTAB, strtab),
    ]
}

/// An object with the given symbols and no debug sections.
fn object(syms: &[Symbol]) -> Vec<u8> {
    image(plain_sections(syms))
}

/// An object with the given symbols and with debug sections; `strings` is the
/// body of `.debug_str`.
fn debug_object(syms: &[Symbol], strings: Vec<u8>) -> Vec<u8> {
    let mut sections = plain_sections(syms);
    sections.push(Section::new(".debug_info", SHT_PROGBITS, vec![0; 8]));
    sections.push(Section::new(".debug_str", SHT_PROGBITS, strings));
    image(sections)
}

/// The object of the end-to-end scenario: one function `f` at 0x1000 of
/// size 0x10.
fn minimal_object() -> Vec<u8> {
    object(&[func("f", 0x1000, 0x10)])
}

/// What a test does with an error that it did not expect.
fn fail<T>(err: Error) -> T {
    panic!("{:?}", err)
}

fn parser_of(image: Vec<u8>) -> Rc<ElfParser> {
    Rc::new(ElfParser::from_bytes(image).unwrap_or_else(fail))
}

fn elf_resolver(path: &str, image: Vec<u8>) -> ElfResolver {
    ElfResolver::with_backend(path, ElfBackend::Elf(parser_of(image)))
        .unwrap_or_else(fail)
}

fn dwarf_resolver(path: &str, image: Vec<u8>, info: DebugInfo) -> ElfResolver {
    let dwarf = DwarfResolver::from_parser(parser_of(image), info)
        .unwrap_or_else(fail);
    ElfResolver::with_backend(path, ElfBackend::Dwarf(Rc::new(dwarf)))
        .unwrap_or_else(fail)
}

fn sym(name: &str, addr: u64, size: u64) -> IntSym {
    IntSym { name: name.to_string(), addr, size: Some(size), lang: SrcLang::Unknown }
}

fn functions_only() -> FindAddrOpts {
    FindAddrOpts { offset_in_file: false, sym_type: SymType::Function }
}

/// Strings for the debug records, and the offset of each.
fn debug_strings() -> (Vec<u8>, Vec<u32>) {
    string_table(&[b"main", b"helper", b"src/main.rs", b"src/util.rs", b"leaf"])
}

const MAIN: usize = 0;
const HELPER: usize = 1;
const MAIN_RS: usize = 2;
const UTIL_RS: usize = 3;
const LEAF: usize = 4;

/// Debug records for `main` at [0x1000, 0x1040), written in Rust, and
/// `helper` at [0x1040, 0x1060), written in C++. `helper` is inlined into
/// `main` at [0x1010, 0x1030), and `leaf` into that copy of `helper` at
/// [0x1018, 0x1020).
fn debug_records(at: &[u32]) -> DebugInfo {
    let at = |i: usize| at[i] as u64;
    DebugInfo {
        functions: vec![
            DebugFn { name: at(MAIN), addr: 0x1000, size: Some(0x40), lang: SrcLang::Rust },
            DebugFn { name: at(HELPER), addr: 0x1040, size: Some(0x20), lang: SrcLang::Cpp },
        ],
        lines: vec![
            LineRow { addr: 0x1000, file: at(MAIN_RS), line: Some(10), column: Some(1) },
            LineRow { addr: 0x1010, file: at(UTIL_RS), line: Some(20), column: Some(5) },
            LineRow { addr: 0x1018, file: at(UTIL_RS), line: Some(30), column: None },
            LineRow { addr: 0x1020, file: at(UTIL_RS), line: Some(21), column: Some(5) },
            LineRow { addr: 0x1030, file: at(MAIN_RS), line: Some(12), column: Some(1) },
            LineRow { addr: 0x1040, file: at(UTIL_RS), line: Some(19), column: Some(1) },
        ],
        inlined: vec![
            InlinedCall {
                name: at(HELPER),
                addr: 0x1010,
                size: 0x20,
                call_file: at(MAIN_RS),
                call_line: Some(11),
                call_column: Some(9),
            },
            InlinedCall {
                name: at(LEAF),
                addr: 0x1018,
                size: 0x8,
                call_file: at(UTIL_RS),
                call_line: Some(20),
                call_column: Some(13),
            },
        ],
    }
}

fn code(file: &str, line: u32, column: Option<u16>) -> CodeInfo {
    CodeInfo { file: file.to_string(), line: Some(line), column }
}

/// Exercise the diagnostic representation of the resolver.
#[test]
fn debug_repr() {
    let path = "data/test-stable-addresses.bin";
    let (strings, at) = debug_strings();
    let parser = parser_of(debug_object(&[func("f", 0x1000, 0x10)], strings));
    let backend = ElfBackend::Elf(parser.clone());
    let resolver = ElfResolver::with_backend(path, backend).unwrap_or_else(fail);
    let dbg = resolver.describe();
    assert!(dbg.starts_with("ELF"), "{dbg}");
    assert!(dbg.ends_with("test-stable-addresses.bin"), "{dbg}");

    let dwarf =
        DwarfResolver::from_parser(parser, debug_records(&at)).unwrap_or_else(fail);
    let backend = ElfBackend::Dwarf(Rc::new(dwarf));
    let resolver = ElfResolver::with_backend(path, backend).unwrap_or_else(fail);
    let dbg = resolver.describe();
    assert!(dbg.starts_with("DWARF"), "{dbg}");
    assert!(dbg.ends_with("test-stable-addresses.bin"), "{dbg}");
}

/// Check that we fail finding an offset for an address not
/// representing a symbol in an ELF file.
#[test]
fn addr_without_offset() {
    let parser = ElfParser::from_bytes(minimal_object()).unwrap_or_else(fail);

    assert_eq!(parser.find_file_offset(0x0).unwrap(), None);
    assert_eq!(parser.find_file_offset(0xffffffffffffffff).unwrap(), None);
}

#[test]
fn describe_is_tag_then_path() {
    let resolver = elf_resolver("/usr/lib/libc.so.6", minimal_object());
    assert_eq!(resolver.describe(), "ELF /usr/lib/libc.so.6");
    assert_eq!(resolver.file_name(), "/usr/lib/libc.so.6");

    let (strings, at) = debug_strings();
    let resolver = dwarf_resolver("a.out", debug_object(&[], strings), debug_records(&at));
    assert_eq!(resolver.describe(), "DWARF a.out");
    assert_eq!(resolver.file_name(), "a.out");
}

#[test]
fn find_sym_in_minimal_object() {
    let resolver = elf_resolver("min.o", minimal_object());
    assert_eq!(resolver.find_sym(0x1005), Ok(Some(sym("f", 0x1000, 0x10))));
    assert_eq!(resolver.find_sym(0x1020), Ok(None));
}

#[test]
fn find_sym_outside_all_symbols() {
    let resolver = elf_resolver(
        "three.o",
        object(&[func("c", 0x1080, 0x20), func("a", 0x1010, 0x10), func("b", 0x1040, 0x8)]),
    );
    // Below the lowest start.
    assert_eq!(resolver.find_sym(0x100f), Ok(None));
    assert_eq!(resolver.find_sym(0x1), Ok(None));
    // At and above the end of the last range.
    assert_eq!(resolver.find_sym(0x10a0), Ok(None));
    assert_eq!(resolver.find_sym(0x2000), Ok(None));
    // In the gaps between the ranges.
    assert_eq!(resolver.find_sym(0x1020), Ok(None));
    assert_eq!(resolver.find_sym(0x1048), Ok(None));
}

#[test]
fn find_sym_at_zero_and_at_max() {
    let resolver = elf_resolver("min.o", minimal_object());
    assert_eq!(resolver.find_sym(0), Ok(None));
    assert_eq!(resolver.find_sym(u64::MAX), Ok(None));
    assert_eq!(resolver.parser().find_file_offset(0), Ok(None));
    assert_eq!(resolver.parser().find_file_offset(u64::MAX), Ok(None));
}

#[test]
fn find_sym_inside_each_symbol() {
    // The table is not in address order; the index is.
    let resolver = elf_resolver(
        "three.o",
        object(&[func("c", 0x1080, 0x20), func("a", 0x1010, 0x10), func("b", 0x1040, 0x8)]),
    );
    assert_eq!(resolver.find_sym(0x1010), Ok(Some(sym("a", 0x1010, 0x10))));
    assert_eq!(resolver.find_sym(0x101f), Ok(Some(sym("a", 0x1010, 0x10))));
    assert_eq!(resolver.find_sym(0x1040), Ok(Some(sym("b", 0x1040, 0x8))));
    assert_eq!(resolver.find_sym(0x1047), Ok(Some(sym("b", 0x1040, 0x8))));
    assert_eq!(resolver.find_sym(0x1080), Ok(Some(sym("c", 0x1080, 0x20))));
    assert_eq!(resolver.find_sym(0x109f), Ok(Some(sym("c", 0x1080, 0x20))));
}

#[test]
fn find_sym_result_covers_address() {
    let resolver = elf_resolver(
        "three.o",
        object(&[func("c", 0x1080, 0x20), func("a", 0x1010, 0x10), func("b", 0x1040, 0x8)]),
    );
    for addr in 0x1000u64..0x10c0 {
        if let Some(sym) = resolver.find_sym(addr).unwrap() {
            assert!(sym.addr <= addr && addr - sym.addr < sym.size.unwrap());
            assert_eq!(sym.lang, SrcLang::Unknown);
        }
    }
}

#[test]
fn find_sym_asks_only_the_nearest_symbol() {
    // `inner` starts inside `outer`. Behind the end of `inner` the nearest
    // symbol from below is still `inner`, which does not reach that far.
    let resolver =
        elf_resolver("nested.o", object(&[func("outer", 0x1000, 0x100), func("inner", 0x1010, 0x10)]));
    assert_eq!(resolver.find_sym(0x1008), Ok(Some(sym("outer", 0x1000, 0x100))));
    assert_eq!(resolver.find_sym(0x1018), Ok(Some(sym("inner", 0x1010, 0x10))));
    assert_eq!(resolver.find_sym(0x1050), Ok(None));
}

#[test]
fn find_sym_takes_the_later_of_two_at_one_address() {
    let resolver =
        elf_resolver("alias.o", object(&[func("first", 0x1000, 0x10), func("second", 0x1000, 0x10)]));
    assert_eq!(resolver.find_sym(0x1004), Ok(Some(sym("second", 0x1000, 0x10))));
}

#[test]
fn find_sym_skips_what_is_no_defined_function() {
    let resolver = elf_resolver(
        "mixed.o",
        object(&[
            Symbol { name: b"var", info: STB_GLOBAL | STT_OBJECT, shndx: 1, value: 0x1000, size: 8 },
            Symbol { name: b"ext", info: STB_GLOBAL | STT_FUNC, shndx: 0, value: 0x1020, size: 8 },
            func("f", 0x1040, 8),
        ]),
    );
    assert_eq!(resolver.find_sym(0x1000), Ok(None));
    assert_eq!(resolver.find_sym(0x1020), Ok(None));
    assert_eq!(resolver.find_sym(0x1040), Ok(Some(sym("f", 0x1040, 8))));
    assert_eq!(resolver.find_addr("var", &functions_only()), Ok(vec![]));
    assert_eq!(resolver.find_addr("ext", &functions_only()), Ok(vec![]));
}

#[test]
fn find_sym_of_zero_sized_symbol() {
    let resolver = elf_resolver("empty.o", object(&[func("f", 0x1000, 0)]));
    assert_eq!(resolver.find_sym(0x1000), Ok(None));
}

#[test]
fn find_sym_decodes_utf8_names() {
    let name = "größe";
    let resolver = elf_resolver(
        "utf8.o",
        object(&[Symbol {
            name: "größe".as_bytes(),
            info: STT_FUNC,
            shndx: 1,
            value: 0x1000,
            size: 4,
        }]),
    );
    assert_eq!(resolver.find_sym(0x1001), Ok(Some(sym(name, 0x1000, 4))));
    let found = resolver.find_addr(name, &functions_only()).unwrap();
    assert_eq!(found.len(), 1);
    assert_eq!(found[0].name, name);
    assert_eq!(found[0].addr, 0x1000);
}

#[test]
fn find_sym_fails_on_name_that_is_not_utf8() {
    let resolver = elf_resolver(
        "bad.o",
        object(&[
            Symbol { name: b"\xff\xfe", info: STT_FUNC, shndx: 1, value: 0x1000, size: 4 },
            func("good", 0x1010, 4),
        ]),
    );
    assert_eq!(resolver.find_sym(0x1001), Err(Error::InvalidData));
    // Only the symbol that is asked for is decoded.
    assert_eq!(resolver.find_sym(0x1011), Ok(Some(sym("good", 0x1010, 4))));
    assert_eq!(resolver.find_sym(0x1005), Ok(None));
}

/// An object whose only symbol has a name offset behind the string table.
fn object_with_name_out_of_table() -> Vec<u8> {
    let mut sections = plain_sections(&[func("f", 0x1000, 0x10)]);
    sections[1].body[24..28].copy_from_slice(&1000u32.to_le_bytes());
    image(sections)
}

#[test]
fn queries_fail_on_name_outside_the_string_table() {
    let resolver = elf_resolver("bad.o", object_with_name_out_of_table());
    assert_eq!(resolver.find_sym(0x1001), Err(Error::InvalidData));
    assert_eq!(resolver.find_sym(0x2000), Ok(None));
    assert_eq!(resolver.find_addr("f", &functions_only()), Err(Error::InvalidData));
}

#[test]
fn queries_fail_on_name_without_terminator() {
    let mut sections = plain_sections(&[func("f", 0x1000, 0x10)]);
    let last = sections[2].body.len() - 1;
    sections[2].body[last] = b'g';
    let resolver = elf_resolver("bad.o", image(sections));
    assert_eq!(resolver.find_sym(0x1001), Err(Error::InvalidData));
    assert_eq!(resolver.find_addr("fg", &functions_only()), Err(Error::InvalidData));
}

#[test]
fn find_file_offset_inside_section() {
    let parser = parser_of(minimal_object());
    // `.text` is the first section with a body, right behind the header.
    assert_eq!(parser.find_file_offset(0x1000), Ok(Some(64)));
    assert_eq!(parser.find_file_offset(0x1005), Ok(Some(69)));
    assert_eq!(parser.find_file_offset(0x10ff), Ok(Some(64 + 0xff)));
    assert_eq!(parser.find_file_offset(0x1100), Ok(None));
    assert_eq!(parser.find_file_offset(0xfff), Ok(None));
}

#[test]
fn find_file_offset_skips_sections_that_are_not_loaded() {
    let sections = vec![
        // Not allocated: no address of the process lies in it.
        Section { addr: 0x1000, ..Section::new(".comment", SHT_PROGBITS, vec![0; 0x10]) },
        // Allocated, but without bytes in the file.
        Section {
            flags: SHF_ALLOC,
            addr: 0x2000,
            ..Section::new(".bss", SHT_NOBITS, vec![0; 0x10])
        },
        Section {
            flags: SHF_ALLOC,
            addr: 0x3000,
            ..Section::new(".data", SHT_PROGBITS, vec![0; 0x10])
        },
    ];
    let parser = parser_of(image(sections));
    assert_eq!(parser.find_file_offset(0x1004), Ok(None));
    assert_eq!(parser.find_file_offset(0x2004), Ok(None));
    assert_eq!(parser.find_file_offset(0x3004), Ok(Some(64 + 0x10 + 4)));
}

#[test]
fn find_file_offset_takes_the_first_section_that_holds_the_address() {
    let sections = vec![
        Section { flags: SHF_ALLOC, addr: 0x1000, ..Section::new(".a", SHT_PROGBITS, vec![0; 0x20]) },
        Section { flags: SHF_ALLOC, addr: 0x1010, ..Section::new(".b", SHT_PROGBITS, vec![0; 0x20]) },
    ];
    let parser = parser_of(image(sections));
    assert_eq!(parser.find_file_offset(0x1018), Ok(Some(64 + 0x18)));
    assert_eq!(parser.find_file_offset(0x1028), Ok(Some(64 + 0x20 + 0x18)));
}

#[test]
fn find_file_offset_fails_on_offset_that_does_not_fit() {
    let mut bytes = image(vec![Section {
        flags: SHF_ALLOC,
        addr: 0x1000,
        ..Section::new(".a", SHT_PROGBITS, vec![0; 0x20])
    }]);
    // Section 1 is the second header of the table; its file offset is at 24.
    let shoff = u64::from_le_bytes(bytes[40..48].try_into().unwrap()) as usize;
    bytes[shoff + 64 + 24..shoff + 64 + 32].copy_from_slice(&(u64::MAX - 4).to_le_bytes());
    let parser = parser_of(bytes);
    assert_eq!(parser.find_file_offset(0x1004), Ok(Some(u64::MAX)));
    assert_eq!(parser.find_file_offset(0x1005), Err(Error::InvalidData));
}

#[test]
fn find_addr_lists_places_by_address() {
    let resolver = elf_resolver(
        "dup.o",
        object(&[func("f", 0x1080, 0x20), func("g", 0x1040, 0x10), func("f", 0x1000, 0x8)]),
    );
    let found = resolver.find_addr("f", &functions_only()).unwrap();
    let place = |addr: u64, size: u64| SymInfo {
        name: "f".to_string(),
        addr,
        size,
        sym_type: SymType::Function,
        file_offset: None,
        obj_file_name: Some("dup.o".to_string()),
    };
    assert_eq!(found, vec![place(0x1000, 0x8), place(0x1080, 0x20)]);
    assert_eq!(resolver.find_addr("h", &functions_only()), Ok(vec![]));
    assert_eq!(resolver.find_addr("", &functions_only()), Ok(vec![]));
    // A name is matched as a whole.
    assert_eq!(resolver.find_addr("ff", &functions_only()), Ok(vec![]));
}

#[test]
fn find_addr_reports_file_offsets_on_request() {
    let resolver = elf_resolver("min.o", object(&[func("f", 0x1008, 0x10), func("far", 0x5000, 4)]));
    let opts = FindAddrOpts { offset_in_file: true, sym_type: SymType::Unknown };
    let found = resolver.find_addr("f", &opts).unwrap();
    assert_eq!(found.len(), 1);
    assert_eq!(found[0].file_offset, Some(64 + 8));
    // No section holds the address of `far`.
    let found = resolver.find_addr("far", &opts).unwrap();
    assert_eq!(found.len(), 1);
    assert_eq!(found[0].file_offset, None);
    let found = resolver.find_addr("f", &functions_only()).unwrap();
    assert_eq!(found[0].file_offset, None);
}

#[test]
fn find_addr_of_variables_is_unsupported() {
    let opts = FindAddrOpts { offset_in_file: false, sym_type: SymType::Variable };
    let resolver = elf_resolver("min.o", minimal_object());
    assert_eq!(resolver.find_addr("f", &opts), Err(Error::Unsupported));
    let (strings, at) = debug_strings();
    let resolver = dwarf_resolver("a.out", debug_object(&[], strings), debug_records(&at));
    assert_eq!(resolver.find_addr("main", &opts), Err(Error::Unsupported));
}

#[test]
fn find_addr_stamps_own_path_on_shared_parser() {
    let parser = parser_of(minimal_object());
    let one = ElfResolver::with_backend("/one/min.o", ElfBackend::Elf(parser.clone())).unwrap_or_else(fail);
    let two = ElfResolver::with_backend("/two/min.o", ElfBackend::Elf(parser.clone())).unwrap_or_else(fail);
    // What the parser itself knows of the object: nothing.
    assert_eq!(parser.find_addr("f", &functions_only()).unwrap()[0].obj_file_name, None);
    let found_one = one.find_addr("f", &functions_only()).unwrap();
    let found_two = two.find_addr("f", &functions_only()).unwrap();
    assert_eq!(found_one.len(), 1);
    assert_eq!(found_two.len(), 1);
    assert_eq!(found_one[0].obj_file_name.as_deref(), Some("/one/min.o"));
    assert_eq!(found_two[0].obj_file_name.as_deref(), Some("/two/min.o"));
    assert_eq!(found_one[0].addr, found_two[0].addr);
    assert!(Rc::ptr_eq(one.parser(), two.parser()));
}

#[test]
fn find_code_info_without_debug_records() {
    let resolver = elf_resolver("min.o", minimal_object());
    for addr in [0, 0x1000, 0x1005, 0x1020, u64::MAX] {
        assert_eq!(resolver.find_code_info(addr, false), Ok(None));
        assert_eq!(resolver.find_code_info(addr, true), Ok(None));
    }
}

#[test]
fn debug_symbol_carries_language() {
    let (strings, at) = debug_strings();
    let resolver = dwarf_resolver(
        "a.out",
        debug_object(&[func("main", 0x1000, 0x40), func("helper", 0x1040, 0x20)], strings),
        debug_records(&at),
    );
    assert_eq!(
        resolver.find_sym(0x1004),
        Ok(Some(IntSym {
            name: "main".to_string(),
            addr: 0x1000,
            size: Some(0x40),
            lang: SrcLang::Rust
        }))
    );
    assert_eq!(
        resolver.find_sym(0x1050),
        Ok(Some(IntSym {
            name: "helper".to_string(),
            addr: 0x1040,
            size: Some(0x20),
            lang: SrcLang::Cpp
        }))
    );
}

#[test]
fn find_sym_falls_back_to_symbol_table() {
    let (strings, at) = debug_strings();
    let resolver = dwarf_resolver(
        "a.out",
        debug_object(&[func("main", 0x1000, 0x40), func("stub", 0x1080, 0x10)], strings),
        debug_records(&at),
    );
    // The debug records know nothing at 0x1084; the symbol table does.
    assert_eq!(resolver.find_sym(0x1084), Ok(Some(sym("stub", 0x1080, 0x10))));
    // Neither knows anything at 0x1070.
    assert_eq!(resolver.find_sym(0x1070), Ok(None));
}

#[test]
fn debug_symbol_without_size_covers_all_above() {
    let (strings, at) = debug_strings();
    let info = DebugInfo {
        functions: vec![DebugFn {
            name: at[MAIN] as u64,
            addr: 0x1000,
            size: None,
            lang: SrcLang::Rust,
        }],
        lines: vec![],
        inlined: vec![],
    };
    let resolver = dwarf_resolver("a.out", debug_object(&[func("f", 0x1000, 0x10)], strings), info);
    let main = IntSym { name: "main".to_string(), addr: 0x1000, size: None, lang: SrcLang::Rust };
    assert_eq!(resolver.find_sym(0x1000), Ok(Some(main.clone())));
    assert_eq!(resolver.find_sym(0x9000), Ok(Some(main)));
    assert_eq!(resolver.find_sym(0xfff), Ok(None));
}

#[test]
fn debug_failure_is_not_covered_up() {
    let (strings, _) = debug_strings();
    let info = DebugInfo {
        functions: vec![DebugFn { name: 10_000, addr: 0x1000, size: Some(0x10), lang: SrcLang::Rust }],
        lines: vec![],
        inlined: vec![],
    };
    let resolver = dwarf_resolver("a.out", debug_object(&[func("f", 0x1000, 0x10)], strings), info);
    // The symbol table could answer, but the debug records failed.
    assert_eq!(resolver.find_sym(0x1004), Err(Error::InvalidData));
    assert_eq!(resolver.find_addr("f", &functions_only()), Err(Error::InvalidData));
    // Behind the function of the debug records nothing fails.
    assert_eq!(resolver.find_sym(0x1010), Ok(None));
}

#[test]
fn find_addr_prefers_debug_records() {
    let (strings, at) = debug_strings();
    let resolver = dwarf_resolver(
        "a.out",
        debug_object(
            &[func("main", 0x1000, 0x44), func("main", 0x2000, 0x10), func("stub", 0x1080, 0x10)],
            strings,
        ),
        debug_records(&at),
    );
    let place = |name: &str, addr: u64, size: u64| SymInfo {
        name: name.to_string(),
        addr,
        size,
        sym_type: SymType::Function,
        file_offset: None,
        obj_file_name: Some("a.out".to_string()),
    };
    // The debug records know one `main`; the second one of the symbol
    // table is not added.
    assert_eq!(resolver.find_addr("main", &functions_only()), Ok(vec![place("main", 0x1000, 0x40)]));
    // They know no `stub`: the symbol table answers.
    assert_eq!(resolver.find_addr("stub", &functions_only()), Ok(vec![place("stub", 0x1080, 0x10)]));
    assert_eq!(resolver.find_addr("none", &functions_only()), Ok(vec![]));
}

#[test]
fn find_code_info_of_plain_code() {
    let (strings, at) = debug_strings();
    let resolver = dwarf_resolver("a.out", debug_object(&[], strings), debug_records(&at));
    for inlined_fns in [false, true] {
        assert_eq!(
            resolver.find_code_info(0x1004, inlined_fns),
            Ok(Some(AddrCodeInfo { direct: code("src/main.rs", 10, Some(1)), inlined: vec![] }))
        );
        assert_eq!(
            resolver.find_code_info(0x1044, inlined_fns),
            Ok(Some(AddrCodeInfo { direct: code("src/util.rs", 19, Some(1)), inlined: vec![] }))
        );
        // No function owns the address.
        assert_eq!(resolver.find_code_info(0x1060, inlined_fns), Ok(None));
        assert_eq!(resolver.find_code_info(0xfff, inlined_fns), Ok(None));
    }
}

#[test]
fn find_code_info_of_inlined_code() {
    let (strings, at) = debug_strings();
    let resolver = dwarf_resolver("a.out", debug_object(&[], strings), debug_records(&at));
    // Without the inlined functions: the position inside `main` alone.
    assert_eq!(
        resolver.find_code_info(0x1019, false),
        Ok(Some(AddrCodeInfo { direct: code("src/main.rs", 11, Some(9)), inlined: vec![] }))
    );
    // With them, innermost first: `leaf`, inlined into `helper`, inlined
    // into `main`.
    assert_eq!(
        resolver.find_code_info(0x1019, true),
        Ok(Some(AddrCodeInfo {
            direct: code("src/main.rs", 11, Some(9)),
            inlined: vec![
                InlinedFn { name: "leaf".to_string(), code_info: code("src/util.rs", 30, None) },
                InlinedFn {
                    name: "helper".to_string(),
                    code_info: code("src/util.rs", 20, Some(13))
                },
            ],
        }))
    );
    // One level only.
    assert_eq!(
        resolver.find_code_info(0x1024, true),
        Ok(Some(AddrCodeInfo {
            direct: code("src/main.rs", 11, Some(9)),
            inlined: vec![InlinedFn {
                name: "helper".to_string(),
                code_info: code("src/util.rs", 21, Some(5))
            }],
        }))
    );
}

#[test]
fn find_code_info_needs_row_inside_function() {
    let (strings, at) = debug_strings();
    let info = DebugInfo {
        functions: vec![
            DebugFn { name: at[MAIN] as u64, addr: 0x1000, size: Some(0x10), lang: SrcLang::Rust },
            DebugFn { name: at[HELPER] as u64, addr: 0x1040, size: Some(0x10), lang: SrcLang::Rust },
        ],
        lines: vec![LineRow { addr: 0x1008, file: at[MAIN_RS] as u64, line: Some(3), column: None }],
        inlined: vec![],
    };
    let resolver = dwarf_resolver("a.out", debug_object(&[], strings), info);
    // No row at or below the address.
    assert_eq!(resolver.find_code_info(0x1004, true), Ok(None));
    assert_eq!(
        resolver.find_code_info(0x100c, true),
        Ok(Some(AddrCodeInfo { direct: code("src/main.rs", 3, None), inlined: vec![] }))
    );
    // The nearest row belongs to another function.
    assert_eq!(resolver.find_code_info(0x1044, true), Ok(None));
}

#[test]
fn find_code_info_fails_on_unreadable_path() {
    let (strings, at) = debug_strings();
    let info = DebugInfo {
        functions: vec![DebugFn {
            name: at[MAIN] as u64,
            addr: 0x1000,
            size: Some(0x10),
            lang: SrcLang::Rust,
        }],
        lines: vec![LineRow { addr: 0x1000, file: 9999, line: Some(3), column: None }],
        inlined: vec![],
    };
    let resolver = dwarf_resolver("a.out", debug_object(&[], strings), info);
    assert_eq!(resolver.find_code_info(0x1004, false), Err(Error::InvalidData));
    assert_eq!(resolver.find_sym(0x1004).map(|s| s.map(|s| s.name)), Ok(Some("main".to_string())));
}

#[test]
fn parse_rejects_what_is_no_elf_file() {
    assert_eq!(ElfParser::from_bytes(Vec::new()).err(), Some(Error::NotElf));
    assert_eq!(ElfParser::from_bytes(b"\x7fEL".to_vec()).err(), Some(Error::NotElf));
    let script = b"#!/bin/sh\necho no object file, sixty-four bytes or more of text\n";
    assert!(script.len() >= 64);
    assert_eq!(ElfParser::from_bytes(script.to_vec()).err(), Some(Error::NotElf));
    let mut bytes = minimal_object();
    bytes[1] = b'e';
    assert_eq!(ElfParser::from_bytes(bytes).err(), Some(Error::NotElf));
}

#[test]
fn parse_rejects_truncated_file() {
    let bytes = minimal_object();
    assert_eq!(ElfParser::from_bytes(bytes[..4].to_vec()).err(), Some(Error::Truncated));
    assert_eq!(ElfParser::from_bytes(bytes[..63].to_vec()).err(), Some(Error::Truncated));
    // The section header table is cut short by one byte.
    assert_eq!(ElfParser::from_bytes(bytes[..bytes.len() - 1].to_vec()).err(), Some(Error::Truncated));
    assert!(ElfParser::from_bytes(bytes).is_ok());
}

#[test]
fn parse_rejects_symbol_table_behind_end_of_file() {
    let mut bytes = minimal_object();
    let shoff = u64::from_le_bytes(bytes[40..48].try_into().unwrap()) as usize;
    // Section 2 is the symbol table; its size is at 32.
    let size = shoff + 2 * 64 + 32;
    bytes[size..size + 8].copy_from_slice(&(24u64 * 1_000_000).to_le_bytes());
    assert_eq!(ElfParser::from_bytes(bytes).err(), Some(Error::Truncated));
}

#[test]
fn parse_rejects_unsupported_class() {
    let mut bytes = minimal_object();
    bytes[4] = 1;
    assert_eq!(ElfParser::from_bytes(bytes).err(), Some(Error::UnsupportedClass));
    let mut bytes = minimal_object();
    bytes[5] = 2;
    assert_eq!(ElfParser::from_bytes(bytes).err(), Some(Error::UnsupportedClass));
}

#[test]
fn parse_rejects_inconsistent_tables() {
    // A section header size other than 64.
    let mut bytes = minimal_object();
    bytes[58] = 40;
    assert_eq!(ElfParser::from_bytes(bytes).err(), Some(Error::InvalidData));
    // A symbol size other than 24.
    let mut sections = plain_sections(&[func("f", 0x1000, 0x10)]);
    sections[1].entsize = 16;
    assert_eq!(ElfParser::from_bytes(image(sections)).err(), Some(Error::InvalidData));
    // A symbol table that does not hold a whole number of symbols.
    let mut sections = plain_sections(&[func("f", 0x1000, 0x10)]);
    sections[1].body.push(0);
    assert_eq!(ElfParser::from_bytes(image(sections)).err(), Some(Error::InvalidData));
    // A string table that is no section of the file.
    let mut sections = plain_sections(&[func("f", 0x1000, 0x10)]);
    sections[1].link = 17;
    assert_eq!(ElfParser::from_bytes(image(sections)).err(), Some(Error::InvalidData));
}

#[test]
fn parse_accepts_object_without_symbols() {
    let resolver = elf_resolver("text.o", image(vec![text_section()]));
    assert_eq!(resolver.find_sym(0x1000), Ok(None));
    assert_eq!(resolver.find_addr("f", &functions_only()), Ok(vec![]));
    assert_eq!(resolver.parser().find_file_offset(0x1001), Ok(Some(65)));

    // Not even sections.
    let mut bytes = vec![0u8; 64];
    bytes[0..4].copy_from_slice(b"\x7fELF");
    bytes[4] = 2;
    bytes[5] = 1;
    let resolver = elf_resolver("bare.o", bytes);
    assert_eq!(resolver.find_sym(0x1000), Ok(None));
    assert_eq!(resolver.parser().find_file_offset(0x1000), Ok(None));
    assert_eq!(resolver.parser().section_count(), 0);
    assert_eq!(resolver.parser().find_section(".text"), Ok(None));

    // A symbol table with the null symbol alone.
    let resolver = elf_resolver("null.o", object(&[]));
    assert_eq!(resolver.find_sym(0), Ok(None));
}

#[test]
fn parse_falls_back_to_dynamic_symbols() {
    let (symtab, strtab) = symbol_tables(&[func("dyn", 0x1000, 0x10)]);
    let dynamic = vec![
        text_section(),
        Section { link: 3, entsize: 24, ..Section::new(".dynsym", SHT_DYNSYM, symtab) },
        Section::new(".dynstr", SHT_STRTAB, strtab),
    ];
    let resolver = elf_resolver("lib.so", image(dynamic));
    assert_eq!(resolver.find_sym(0x1001), Ok(Some(sym("dyn", 0x1000, 0x10))));

    // The full table wins where both are there, whatever their order.
    let (dynsym, dynstr) = symbol_tables(&[func("dyn", 0x1000, 0x10)]);
    let (symtab, strtab) = symbol_tables(&[func("full", 0x1000, 0x10)]);
    let both = vec![
        text_section(),
        Section { link: 3, entsize: 24, ..Section::new(".dynsym", SHT_DYNSYM, dynsym) },
        Section::new(".dynstr", SHT_STRTAB, dynstr),
        Section { link: 5, entsize: 24, ..Section::new(".symtab", SHT_SYMTAB, symtab) },
        Section::new(".strtab", SHT_STRTAB, strtab),
    ];
    let resolver = elf_resolver("lib.so", image(both));
    assert_eq!(resolver.find_sym(0x1001), Ok(Some(sym("full", 0x1000, 0x10))));
}

#[test]
fn find_section_by_name() {
    let (strings, _) = debug_strings();
    let parser = parser_of(debug_object(&[func("f", 0x1000, 0x10)], strings));
    assert_eq!(parser.section_count(), 7);
    assert_eq!(parser.find_section(".text"), Ok(Some(1)));
    assert_eq!(parser.find_section(".symtab"), Ok(Some(2)));
    assert_eq!(parser.find_section(".debug_str"), Ok(Some(5)));
    assert_eq!(parser.find_section(".shstrtab"), Ok(Some(6)));
    assert_eq!(parser.find_section(""), Ok(Some(0)));
    assert_eq!(parser.find_section(".data"), Ok(None));
    assert_eq!(parser.find_section(".tex"), Ok(None));
    let text = parser.section(1);
    assert_eq!(text.addr, 0x1000);
    assert_eq!(text.size, 0x100);
    assert_eq!(text.offset, 64);
    assert_eq!(parser.bytes(), &debug_object(&[func("f", 0x1000, 0x10)], debug_strings().0)[..]);
}

#[test]
fn find_section_fails_without_name_table() {
    let mut bytes = minimal_object();
    // The file header names a section that does not exist.
    bytes[62..64].copy_from_slice(&99u16.to_le_bytes());
    let parser = parser_of(bytes);
    assert_eq!(parser.find_section(".text"), Err(Error::InvalidData));
    // Symbols do not need the names of the sections.
    assert_eq!(parser.find_sym(0x1005).map(|s| s.map(|s| s.name)), Ok(Some("f".to_string())));
    let info = DebugInfo::new();
    assert_eq!(DwarfResolver::from_parser(parser, info).err(), Some(Error::InvalidData));
}

#[test]
fn debug_index_needs_debug_sections() {
    let parser = parser_of(minimal_object());
    assert_eq!(DwarfResolver::from_parser(parser, DebugInfo::new()).err(), Some(Error::NoDebugInfo));

    // `.debug_info` alone is not enough.
    let mut sections = plain_sections(&[]);
    sections.push(Section::new(".debug_info", SHT_PROGBITS, vec![0; 8]));
    let parser = parser_of(image(sections));
    assert_eq!(DwarfResolver::from_parser(parser, DebugInfo::new()).err(), Some(Error::NoDebugInfo));

    let (strings, _) = debug_strings();
    let parser = parser_of(debug_object(&[], strings));
    assert!(DwarfResolver::from_parser(parser, DebugInfo::new()).is_ok());
}

#[test]
fn debug_index_needs_sorted_records() {
    let (strings, at) = debug_strings();
    let mut info = debug_records(&at);
    info.functions.swap(0, 1);
    let parser = parser_of(debug_object(&[], strings.clone()));
    assert_eq!(DwarfResolver::from_parser(parser, info).err(), Some(Error::InvalidInput));

    let mut info = debug_records(&at);
    info.lines.swap(2, 4);
    let parser = parser_of(debug_object(&[], strings.clone()));
    assert_eq!(DwarfResolver::from_parser(parser, info).err(), Some(Error::InvalidInput));

    let mut info = debug_records(&at);
    info.inlined.swap(0, 1);
    let parser = parser_of(debug_object(&[], strings.clone()));
    assert_eq!(DwarfResolver::from_parser(parser, info).err(), Some(Error::InvalidInput));

    // Equal addresses are in order.
    let mut info = debug_records(&at);
    info.functions[1].addr = info.functions[0].addr;
    let parser = parser_of(debug_object(&[], strings));
    assert!(DwarfResolver::from_parser(parser, info).is_ok());
}

#[test]
fn debug_index_shares_the_parser() {
    let (strings, at) = debug_strings();
    let parser = parser_of(debug_object(&[func("f", 0x1000, 0x10)], strings));
    let dwarf = DwarfResolver::from_parser(parser.clone(), debug_records(&at)).unwrap_or_else(fail);
    assert!(Rc::ptr_eq(dwarf.parser(), &parser));
    let resolver = ElfResolver::with_backend("a.out", ElfBackend::Dwarf(Rc::new(dwarf))).unwrap_or_else(fail);
    assert!(Rc::ptr_eq(resolver.parser(), &parser));
    assert_eq!(resolver.find_addr("f", &functions_only()).unwrap()[0].addr, 0x1000);
}

#[test]
fn select_prefers_debug_records_where_available() {
    let (strings, at) = debug_strings();
    let with_debug = debug_object(&[func("f", 0x1000, 0x10)], strings);
    let without_debug = minimal_object();

    // Records and debug sections: the debug index.
    let backend = ElfBackend::select(parser_of(with_debug.clone()), Some(debug_records(&at)));
    assert!(matches!(backend, Ok(ElfBackend::Dwarf(_))));
    // No records: the symbol table.
    let backend = ElfBackend::select(parser_of(with_debug.clone()), None);
    assert!(matches!(backend, Ok(ElfBackend::Elf(_))));
    // Records, but an object without debug sections: the symbol table.
    let backend = ElfBackend::select(parser_of(without_debug), Some(debug_records(&at)));
    assert!(matches!(backend, Ok(ElfBackend::Elf(_))));
    // Records that are not sorted.
    let mut info = debug_records(&at);
    info.functions.swap(0, 1);
    let backend = ElfBackend::select(parser_of(with_debug), Some(info));
    assert_eq!(backend.err(), Some(Error::InvalidInput));
    // Section names that cannot be read.
    let mut bytes = minimal_object();
    bytes[62..64].copy_from_slice(&99u16.to_le_bytes());
    let backend = ElfBackend::select(parser_of(bytes.clone()), Some(DebugInfo::new()));
    assert_eq!(backend.err(), Some(Error::InvalidData));
    assert!(matches!(ElfBackend::select(parser_of(bytes), None), Ok(ElfBackend::Elf(_))));
}

#[test]
fn debug_information_is_told_by_sections() {
    let (strings, _) = debug_strings();
    assert_eq!(DwarfResolver::available(&parser_of(debug_object(&[], strings))), Ok(true));
    assert_eq!(DwarfResolver::available(&parser_of(minimal_object())), Ok(false));
    let mut sections = plain_sections(&[]);
    sections.push(Section::new(".debug_str", SHT_PROGBITS, vec![0; 8]));
    assert_eq!(DwarfResolver::available(&parser_of(image(sections))), Ok(false));
}

#[test]
fn resolver_from_bytes() {
    let (strings, at) = debug_strings();
    let object = debug_object(&[func("f", 0x1050, 0x10)], strings);

    let resolver = ElfResolver::from_bytes("a.out", object.clone(), None)
        .unwrap_or_else(fail);
    assert_eq!(resolver.describe(), "ELF a.out");
    assert_eq!(resolver.find_sym(0x1004), Ok(None));
    assert_eq!(resolver.find_sym(0x1054), Ok(Some(sym("f", 0x1050, 0x10))));
    assert_eq!(resolver.parser().bytes(), &object[..]);

    let resolver = ElfResolver::from_bytes("a.out", object.clone(), Some(debug_records(&at)))
        .unwrap_or_else(fail);
    assert_eq!(resolver.describe(), "DWARF a.out");
    assert_eq!(resolver.find_sym(0x1004).map(|s| s.map(|s| s.lang)), Ok(Some(SrcLang::Rust)));
    assert_eq!(resolver.parser().bytes(), &object[..]);

    let resolver = ElfResolver::from_bytes("min.o", minimal_object(), Some(debug_records(&at)))
        .unwrap_or_else(fail);
    assert_eq!(resolver.describe(), "ELF min.o");

    assert_eq!(ElfResolver::from_bytes("x", b"no object".to_vec(), None).err(), Some(Error::NotElf));
    assert_eq!(
        ElfResolver::from_bytes("x", object[..100].to_vec(), Some(debug_records(&at))).err(),
        Some(Error::Truncated)
    );
    let mut info = debug_records(&at);
    info.lines.swap(0, 1);
    assert_eq!(ElfResolver::from_bytes("x", object, Some(info)).err(), Some(Error::InvalidInput));
}

/// Queries through the trait, as a caller does that holds resolvers of
/// several kinds.
fn names_through_trait(resolver: &dyn SymResolver, addrs: &[u64]) -> Vec<Option<String>> {
    addrs.iter().map(|addr| resolver.find_sym(*addr).unwrap().map(|sym| sym.name)).collect()
}

#[test]
fn resolver_answers_through_trait() {
    let resolver = elf_resolver("min.o", minimal_object());
    assert_eq!(
        names_through_trait(&resolver, &[0xfff, 0x1000, 0x100f, 0x1010]),
        vec![None, Some("f".to_string()), Some("f".to_string()), None]
    );
}

#[test]
fn index_is_sorted_whatever_the_order_of_the_table() {
    // 997 functions of 8 bytes, 16 bytes apart, in a scrambled order.
    let count: u64 = 997;
    let mut syms = Vec::new();
    for i in 0..count {
        let slot = (i * 389 + 17) % count;
        let name: &'static str = Box::leak(format!("fn_{slot}").into_boxed_str());
        syms.push(func(name, 0x10000 + slot * 16, 8));
    }
    let resolver = elf_resolver("big.o", object(&syms));
    for slot in 0..count {
        let start = 0x10000 + slot * 16;
        let name = format!("fn_{slot}");
        assert_eq!(resolver.find_sym(start), Ok(Some(sym(&name, start, 8))));
        assert_eq!(resolver.find_sym(start + 7), Ok(Some(sym(&name, start, 8))));
        assert_eq!(resolver.find_sym(start + 8), Ok(None));
        assert_eq!(resolver.find_sym(start + 15), Ok(None));
    }
    assert_eq!(resolver.find_sym(0xffff), Ok(None));
    let found = resolver.find_addr("fn_500", &functions_only()).unwrap();
    assert_eq!(found.len(), 1);
    assert_eq!(found[0].addr, 0x10000 + 500 * 16);
}

#[test]
fn functions_at_one_address_keep_the_order_of_the_table() {
    let resolver = elf_resolver(
        "alias.o",
        object(&[
            func("high", 0x1040, 4),
            func("a", 0x1000, 4),
            func("low", 0x0800, 4),
            func("b", 0x1000, 4),
            func("mid", 0x1020, 4),
            func("c", 0x1000, 4),
        ]),
    );
    // The nearest function from below is the last of those at 0x1000.
    assert_eq!(resolver.find_sym(0x1002), Ok(Some(sym("c", 0x1000, 4))));
    assert_eq!(resolver.find_sym(0x0801), Ok(Some(sym("low", 0x0800, 4))));
    assert_eq!(resolver.find_sym(0x1021), Ok(Some(sym("mid", 0x1020, 4))));
    assert_eq!(resolver.find_sym(0x1043), Ok(Some(sym("high", 0x1040, 4))));
}

#[test]
fn find_code_info_follows_calls_inside_the_owner_only() {
    let (strings, at) = debug_strings();
    let mut info = debug_records(&at);
    // A call that reaches from `main` into `helper`: at 0x1044 it covers
    // the address, but it starts before the function that owns it.
    info.inlined.push(InlinedCall {
        name: at[LEAF] as u64,
        addr: 0x1030,
        size: 0x20,
        call_file: at[MAIN_RS] as u64,
        call_line: Some(13),
        call_column: None,
    });
    let resolver = dwarf_resolver("a.out", debug_object(&[], strings), info);
    assert_eq!(
        resolver.find_code_info(0x1044, true),
        Ok(Some(AddrCodeInfo { direct: code("src/util.rs", 19, Some(1)), inlined: vec![] }))
    );
    // Inside `main` the call is followed.
    assert_eq!(
        resolver.find_code_info(0x1034, true),
        Ok(Some(AddrCodeInfo {
            direct: code("src/main.rs", 13, None),
            inlined: vec![InlinedFn {
                name: "leaf".to_string(),
                code_info: code("src/main.rs", 12, Some(1))
            }],
        }))
    );
}

#[test]
fn find_code_info_reads_names_only_on_request() {
    let (strings, at) = debug_strings();
    let mut info = debug_records(&at);
    info.inlined[1].name = 5000;
    let resolver = dwarf_resolver("a.out", debug_object(&[], strings), info);
    // The name of the inlined function cannot be read, but nobody asks.
    assert_eq!(
        resolver.find_code_info(0x1019, false),
        Ok(Some(AddrCodeInfo { direct: code("src/main.rs", 11, Some(9)), inlined: vec![] }))
    );
    assert_eq!(resolver.find_code_info(0x1019, true), Err(Error::InvalidData));
    // Outside the call whose name is broken nothing fails.
    assert!(resolver.find_code_info(0x1024, true).is_ok());
}
