//! The parser of an ELF image.
//!
//! The first part of the file says what the tables of an image are and what
//! each query answers, as functions of the bytes. The second part states
//! what follows from these definitions. The third part is the parser, whose
//! contracts refer to the first.

use vstd::prelude::*;
use vstd::utf8::encode_utf8;

use crate::Addr;
use crate::elf::types::EHDR_SIZE;
use crate::elf::types::ELFCLASS64;
use crate::elf::types::ELFDATA2LSB;
use crate::elf::types::RawSym;
use crate::elf::types::SHDR_SIZE;
use crate::elf::types::SHT_DYNSYM;
use crate::elf::types::SHT_SYMTAB;
use crate::elf::types::SYM_SIZE;
use crate::elf::types::Shdr;
use crate::elf::types::find_cstr;
use crate::elf::types::le_u16;
use crate::elf::types::le_u64;
use crate::elf::types::range_eq;
use crate::elf::types::read_shdr;
use crate::elf::types::read_sym;
use crate::elf::types::read_u16;
use crate::elf::types::read_u64;
use crate::elf::types::section_cstr;
use crate::elf::types::shdr_at;
use crate::elf::types::sym_at;
use crate::error::Error;
use crate::inspect::FindAddrOpts;
use crate::inspect::SymInfo;
use crate::inspect::SymInfoView;
use crate::inspect::SymType;
use crate::inspect::addr_result_view;
use crate::inspect::syms_view;
use crate::search::Entry;
use crate::search::Located;
use crate::search::covers;
use crate::search::find_owner;
use crate::search::lemma_no_owner_past_last;
use crate::search::lemma_no_owner_where_uncovered;
use crate::search::lemma_owner_of_covered;
use crate::search::nearest_owner;
use crate::search::sorted;
use crate::sort::lemma_sort_keeps_members;
use crate::sort::lemma_sorted_by_start;
use crate::sort::sort_by_start;
use crate::sort::sorted_by_start;
use crate::symbolize::IntSym;
use crate::symbolize::IntSymView;
use crate::symbolize::SrcLang;
use crate::symbolize::sym_result_view;
use crate::text::read_text;
use crate::text::section_text;

verus! {

/// A function of the symbol table, as the index keeps it.
#[derive(Clone, Copy, Debug, PartialEq, Eq, Structural)]
pub struct FuncSym {
    /// The address at which the function starts.
    pub addr: Addr,
    /// The size of the function in bytes.
    pub size: u64,
    /// Offset of the function's name in the symbol string table.
    pub name: u32,
}

impl Located for FuncSym {
    open spec fn start(&self) -> u64 {
        self.addr
    }

    fn start_addr(&self) -> (r: u64) {
        self.addr
    }
}

impl Entry for FuncSym {
    open spec fn name_ref(&self) -> u64 {
        self.name as u64
    }

    open spec fn extent(&self) -> Option<u64> {
        Some(self.size)
    }

    fn name_offset(&self) -> (r: u64) {
        self.name as u64
    }

    fn size(&self) -> (r: Option<u64>) {
        Some(self.size)
    }
}

/// The image starts with the four bytes that mark an ELF file.
pub open spec fn has_magic(image: Seq<u8>) -> bool {
    image.len() >= 4 && image[0] == 0x7f && image[1] == 0x45 && image[2] == 0x4c && image[3]
        == 0x46
}

/// The file offset of the section header table.
pub open spec fn sh_off(image: Seq<u8>) -> u64 {
    le_u64(image, 40)
}

/// The size that the file header gives for one section header.
pub open spec fn sh_entsize(image: Seq<u8>) -> u16 {
    le_u16(image, 58)
}

/// The number of section headers.
pub open spec fn sh_num(image: Seq<u8>) -> u16 {
    le_u16(image, 60)
}

/// The index of the section that holds the names of the sections.
pub open spec fn sh_strndx(image: Seq<u8>) -> u16 {
    le_u16(image, 62)
}

/// What is wrong with the file header or with the place of the section
/// header table, if anything is.
pub open spec fn header_error(image: Seq<u8>) -> Option<Error> {
    if !has_magic(image) {
        Some(Error::NotElf)
    } else if image.len() < EHDR_SIZE {
        Some(Error::Truncated)
    } else if image[4] != ELFCLASS64 || image[5] != ELFDATA2LSB {
        Some(Error::UnsupportedClass)
    } else if sh_num(image) == 0 {
        None
    } else if sh_entsize(image) != SHDR_SIZE {
        Some(Error::InvalidData)
    } else if sh_off(image) + sh_num(image) * 64 > image.len() {
        Some(Error::Truncated)
    } else {
        None
    }
}

/// The section headers of the image, in the order of the table. They stand
/// one behind the other, 64 bytes each.
pub open spec fn sections(image: Seq<u8>) -> Seq<Shdr> {
    Seq::new(sh_num(image) as nat, |i: int| shdr_at(image, sh_off(image) + i * 64))
}

/// The index of the first section of the given type at or behind `from`.
pub open spec fn first_of_kind(secs: Seq<Shdr>, kind: u32, from: int) -> Option<int>
    decreases secs.len() - from,
{
    if from >= secs.len() {
        None
    } else if secs[from].kind == kind {
        Some(from)
    } else {
        first_of_kind(secs, kind, from + 1)
    }
}

/// The index of the section that holds the symbols: the first full symbol
/// table, or else the first dynamic one.
pub open spec fn symtab_section(secs: Seq<Shdr>) -> Option<int> {
    match first_of_kind(secs, SHT_SYMTAB, 0) {
        Some(i) => Some(i),
        None => first_of_kind(secs, SHT_DYNSYM, 0),
    }
}

/// What is wrong with the symbol table, if there is one and anything is.
pub open spec fn symtab_error(image: Seq<u8>) -> Option<Error> {
    let secs = sections(image);
    match symtab_section(secs) {
        None => None,
        Some(i) => {
            let sec = secs[i];
            if sec.entsize != SYM_SIZE || sec.size % 24 != 0 {
                Some(Error::InvalidData)
            } else if !sec.in_file(image.len()) {
                Some(Error::Truncated)
            } else if sec.link >= secs.len() {
                Some(Error::InvalidData)
            } else {
                None
            }
        },
    }
}

/// Why no parser can be built on the image; `None` where one can.
pub open spec fn parse_error(image: Seq<u8>) -> Option<Error> {
    match header_error(image) {
        Some(e) => Some(e),
        None => symtab_error(image),
    }
}

/// The header of the section that holds the symbols.
pub open spec fn symtab(image: Seq<u8>) -> Shdr {
    sections(image)[symtab_section(sections(image))->0]
}

/// The header of the section that holds the names of the symbols.
pub open spec fn strtab(image: Seq<u8>) -> Shdr {
    sections(image)[symtab(image).link as int]
}

/// The number of entries of the symbol table.
pub open spec fn symbol_count(image: Seq<u8>) -> nat {
    match symtab_section(sections(image)) {
        None => 0,
        Some(_) => (symtab(image).size / 24) as nat,
    }
}

/// Entry `i` of the symbol table. The entries stand one behind the other, 24
/// bytes each.
pub open spec fn symbol(image: Seq<u8>, i: int) -> RawSym {
    sym_at(image, symtab(image).offset + i * 24)
}

/// What the index keeps of a symbol table entry.
pub open spec fn func_sym(raw: RawSym) -> FuncSym {
    FuncSym { addr: raw.value, size: raw.size, name: raw.name }
}

/// The functions among the first `n` entries of the symbol table, in the
/// order of the table.
pub open spec fn functions_upto(image: Seq<u8>, n: nat) -> Seq<FuncSym>
    decreases n,
{
    if n == 0 {
        Seq::empty()
    } else {
        let rest = functions_upto(image, (n - 1) as nat);
        let raw = symbol(image, n - 1);
        if raw.is_function() {
            rest.push(func_sym(raw))
        } else {
            rest
        }
    }
}

/// The functions of the symbol table in ascending order of their addresses.
/// Functions that start at the same address stand in the order of the table.
pub open spec fn symbol_index(image: Seq<u8>) -> Seq<FuncSym> {
    sorted_by_start(functions_upto(image, symbol_count(image)))
}

/// What a query for the owner of an address answers where function `sym` of
/// the symbol table is the owner.
pub open spec fn owner_is(image: Seq<u8>, sym: FuncSym) -> Result<Option<IntSymView>, Error> {
    match section_text(image, strtab(image), sym.name as int) {
        Ok(name) => Ok(
            Some(IntSymView { name, addr: sym.addr, size: Some(sym.size), lang: SrcLang::Unknown }),
        ),
        Err(e) => Err(e),
    }
}

/// The symbol that owns `addr`, as the symbol table tells it: the function
/// of the index nearest to `addr` from below, if its range holds the address.
/// The language of a symbol table's function is never known.
pub open spec fn owner_of(image: Seq<u8>, addr: u64) -> Result<Option<IntSymView>, Error> {
    match nearest_owner(symbol_index(image), addr) {
        None => Ok(None),
        Some(sym) => owner_is(image, sym),
    }
}

/// The file offset of `addr` by the first loadable section, at or behind
/// `from`, that holds the address. An offset that does not fit 64 bits shows
/// a corrupt section header.
pub open spec fn offset_from(secs: Seq<Shdr>, addr: u64, from: int) -> Result<Option<u64>, Error>
    decreases secs.len() - from,
{
    if from >= secs.len() {
        Ok(None)
    } else if secs[from].is_loadable() && secs[from].holds_addr(addr) {
        let offset = secs[from].offset + (addr - secs[from].addr);
        if offset <= u64::MAX {
            Ok(Some(offset as u64))
        } else {
            Err(Error::InvalidData)
        }
    } else {
        offset_from(secs, addr, from + 1)
    }
}

/// The offset in the file of the byte that is loaded to `addr`.
pub open spec fn file_offset_of(image: Seq<u8>, addr: u64) -> Result<Option<u64>, Error> {
    offset_from(sections(image), addr, 0)
}

/// What a lookup reports of a record of an index.
pub open spec fn place_of<T: Entry>(entry: T, name: Seq<char>, file_offset: Option<u64>) -> SymInfoView {
    SymInfoView {
        name,
        addr: entry.start(),
        size: match entry.extent() {
            Some(size) => size,
            None => 0,
        },
        sym_type: SymType::Function,
        file_offset,
        obj_file_name: None,
    }
}

/// The file offset that a lookup reports for a record.
pub open spec fn reported_offset<T: Entry>(image: Seq<u8>, entry: T, with_offset: bool) -> Option<u64> {
    if with_offset {
        match file_offset_of(image, entry.start()) {
            Ok(offset) => offset,
            Err(_) => None,
        }
    } else {
        None
    }
}

/// The record bears the name: the string at its name offset is the UTF-8
/// encoding of `name`.
pub open spec fn is_named<T: Entry>(image: Seq<u8>, strings: Shdr, entry: T, name: Seq<char>) -> bool {
    section_cstr(image, strings, entry.name_ref() as int) == Some(encode_utf8(name))
}

/// A lookup cannot get past the record: its name cannot be read, or it bears
/// the name and its file offset is asked for and cannot be told.
pub open spec fn stops_lookup<T: Entry>(
    image: Seq<u8>,
    strings: Shdr,
    entry: T,
    name: Seq<char>,
    with_offset: bool,
) -> bool {
    section_cstr(image, strings, entry.name_ref() as int) is None || (with_offset && is_named(
        image,
        strings,
        entry,
        name,
    ) && file_offset_of(image, entry.start()) is Err)
}

/// The records named `name` among those of an index at or behind `from`, in
/// the order of the index. Names are read from the section `strings`. A
/// record whose name cannot be read makes the lookup fail.
pub open spec fn places_from<T: Entry>(
    image: Seq<u8>,
    strings: Shdr,
    entries: Seq<T>,
    name: Seq<char>,
    with_offset: bool,
    from: int,
) -> Result<Seq<SymInfoView>, Error>
    decreases entries.len() - from,
{
    if from >= entries.len() {
        Ok(Seq::empty())
    } else {
        let entry = entries[from];
        match section_cstr(image, strings, entry.name_ref() as int) {
            None => Err(Error::InvalidData),
            Some(bytes) => if bytes != encode_utf8(name) {
                places_from(image, strings, entries, name, with_offset, from + 1)
            } else {
                let offset = if with_offset {
                    file_offset_of(image, entry.start())
                } else {
                    Ok(None)
                };
                match (offset, places_from(image, strings, entries, name, with_offset, from + 1)) {
                    (Err(e), _) => Err(e),
                    (Ok(_), Err(e)) => Err(e),
                    (Ok(offset), Ok(rest)) => Ok(seq![place_of(entry, name, offset)] + rest),
                }
            },
        }
    }
}

/// The places at which the symbol table defines a function named `name`, in
/// ascending order of their addresses. Variables cannot be looked up.
pub open spec fn places_of(image: Seq<u8>, name: Seq<char>, opts: FindAddrOpts) -> Result<
    Seq<SymInfoView>,
    Error,
> {
    if opts.sym_type == SymType::Variable {
        Err(Error::Unsupported)
    } else {
        places_from(image, strtab(image), symbol_index(image), name, opts.offset_in_file, 0)
    }
}

/// The name of section `i`, read from the section that the file header names
/// for it.
pub open spec fn section_name(image: Seq<u8>, i: int) -> Option<Seq<u8>> {
    let secs = sections(image);
    if sh_strndx(image) < secs.len() {
        section_cstr(image, secs[sh_strndx(image) as int], secs[i].name as int)
    } else {
        None
    }
}

/// The index of the first section named `name` at or behind `from`. A section
/// before it whose name cannot be read makes the search fail.
pub open spec fn section_from(image: Seq<u8>, name: Seq<char>, from: int) -> Result<
    Option<int>,
    Error,
>
    decreases sections(image).len() - from,
{
    if from >= sections(image).len() {
        Ok(None)
    } else {
        match section_name(image, from) {
            None => Err(Error::InvalidData),
            Some(bytes) => if bytes == encode_utf8(name) {
                Ok(Some(from))
            } else {
                section_from(image, name, from + 1)
            },
        }
    }
}

/// The index of the first section named `name`.
pub open spec fn section_named(image: Seq<u8>, name: Seq<char>) -> Result<Option<int>, Error> {
    section_from(image, name, 0)
}

/// The outcome of a search for a section as a mathematical value.
pub open spec fn index_result_view(r: Result<Option<usize>, Error>) -> Result<Option<int>, Error> {
    match r {
        Ok(Some(i)) => Ok(Some(i as int)),
        Ok(None) => Ok(None),
        Err(e) => Err(e),
    }
}

/// The index is sorted.
pub proof fn lemma_index_sorted(image: Seq<u8>)
    ensures
        sorted(symbol_index(image)),
{
    lemma_sorted_by_start(functions_upto(image, symbol_count(image)));
}

/// Every function among the first `n` entries of the symbol table is among
/// the functions that are taken from them.
proof fn lemma_functions_complete(image: Seq<u8>, n: nat, i: int)
    requires
        0 <= i < n,
        symbol(image, i).is_function(),
    ensures
        functions_upto(image, n).contains(func_sym(symbol(image, i))),
    decreases n,
{
    let rest = functions_upto(image, (n - 1) as nat);
    let all = functions_upto(image, n);
    if i < n - 1 {
        lemma_functions_complete(image, (n - 1) as nat, i);
        let at = choose|at: int| 0 <= at < rest.len() && rest[at] == func_sym(symbol(image, i));
        assert(all[at] == rest[at]);
    } else {
        assert(all[all.len() - 1] == func_sym(symbol(image, i)));
    }
}

/// What is taken from the first `n` entries of the symbol table are
/// functions among them.
proof fn lemma_functions_sound(image: Seq<u8>, n: nat, k: int)
    requires
        0 <= k < functions_upto(image, n).len(),
    ensures
        exists|i: int|
            0 <= i < n && (#[trigger] symbol(image, i)).is_function() && functions_upto(image, n)[k]
                == func_sym(symbol(image, i)),
    decreases n,
{
    if n > 0 {
        let rest = functions_upto(image, (n - 1) as nat);
        if symbol(image, n - 1).is_function() && k == rest.len() {
            assert(symbol(image, n - 1).is_function());
        } else {
            lemma_functions_sound(image, (n - 1) as nat, k);
        }
    }
}

/// Every function of the symbol table is in the index.
pub proof fn lemma_index_complete(image: Seq<u8>, i: int)
    requires
        0 <= i < symbol_count(image),
        symbol(image, i).is_function(),
    ensures
        symbol_index(image).contains(func_sym(symbol(image, i))),
{
    lemma_functions_complete(image, symbol_count(image), i);
    lemma_sort_keeps_members(functions_upto(image, symbol_count(image)), func_sym(symbol(image, i)));
}

/// The index holds nothing but functions of the symbol table: each of its
/// records is what the index keeps of an entry that is a function.
pub proof fn lemma_index_sound(image: Seq<u8>, k: int)
    requires
        0 <= k < symbol_index(image).len(),
    ensures
        exists|i: int|
            0 <= i < symbol_count(image) && (#[trigger] symbol(image, i)).is_function()
                && symbol_index(image)[k] == func_sym(symbol(image, i)),
{
    let taken = functions_upto(image, symbol_count(image));
    let record = symbol_index(image)[k];
    assert(symbol_index(image).contains(record));
    lemma_sort_keeps_members(taken, record);
    let at = choose|at: int| 0 <= at < taken.len() && taken[at] == record;
    lemma_functions_sound(image, symbol_count(image), at);
}

/// An address that no function of the symbol table covers has no owner, and
/// the query for it does not fail. This is so, above all, for an address
/// below the start of every function.
pub proof fn lemma_no_owner_of_uncovered(image: Seq<u8>, addr: u64)
    requires
        forall|i: int|
            0 <= i < symbol_count(image) && (#[trigger] symbol(image, i)).is_function() ==> !covers(
                func_sym(symbol(image, i)),
                addr,
            ),
    ensures
        owner_of(image, addr) == Ok::<Option<IntSymView>, Error>(None),
{
    let index = symbol_index(image);
    lemma_index_sorted(image);
    assert forall|k: int| 0 <= k < index.len() implies !covers(#[trigger] index[k], addr) by {
        lemma_index_sound(image, k);
    }
    lemma_no_owner_where_uncovered(index, addr);
}

/// An address at or above the end of the last function has no owner, and the
/// query for it does not fail. The last function is one that no function
/// starts above; where several start with it, the address lies at or above
/// the end of each of them.
pub proof fn lemma_no_owner_past_last_symbol(image: Seq<u8>, last: int, addr: u64)
    requires
        0 <= last < symbol_count(image),
        symbol(image, last).is_function(),
        forall|i: int|
            0 <= i < symbol_count(image) && (#[trigger] symbol(image, i)).is_function() ==> symbol(
                image,
                i,
            ).value <= symbol(image, last).value,
        forall|i: int|
            0 <= i < symbol_count(image) && (#[trigger] symbol(image, i)).is_function() && symbol(
                image,
                i,
            ).value == symbol(image, last).value ==> addr >= symbol(image, i).value + symbol(
                image,
                i,
            ).size,
    ensures
        owner_of(image, addr) == Ok::<Option<IntSymView>, Error>(None),
{
    let index = symbol_index(image);
    lemma_index_sorted(image);
    lemma_index_complete(image, last);
    let at = choose|at: int| 0 <= at < index.len() && index[at] == func_sym(symbol(image, last));
    assert(index[at].start() <= index[index.len() - 1].start());
    lemma_index_sound(image, index.len() - 1);
    lemma_no_owner_past_last(index, addr);
}

/// Function `i` of the symbol table owns every address inside its range,
/// provided that no function that differs from it in start, size or name
/// starts between its own start and the address, both included. The query
/// then answers with the name and the start of that function, and fails only
/// where the name cannot be read.
pub proof fn lemma_owner_of_covered_symbol(image: Seq<u8>, i: int, addr: u64)
    requires
        0 <= i < symbol_count(image),
        symbol(image, i).is_function(),
        covers(func_sym(symbol(image, i)), addr),
        forall|j: int|
            0 <= j < symbol_count(image) && (#[trigger] symbol(image, j)).is_function() ==> func_sym(
                symbol(image, j),
            ) == func_sym(symbol(image, i)) || symbol(image, j).value < symbol(image, i).value
                || addr < symbol(image, j).value,
    ensures
        owner_of(image, addr) == owner_is(image, func_sym(symbol(image, i))),
{
    let index = symbol_index(image);
    let owner = func_sym(symbol(image, i));
    lemma_index_sorted(image);
    lemma_index_complete(image, i);
    assert forall|k: int| 0 <= k < index.len() implies (#[trigger] index[k]) == owner || index[k].start()
        < owner.start() || addr < index[k].start() by {
        lemma_index_sound(image, k);
    }
    lemma_owner_of_covered(index, owner, addr);
}

/// Behind `from`, an address that no loadable section holds has no offset.
proof fn lemma_no_offset_from(secs: Seq<Shdr>, addr: u64, from: int)
    requires
        0 <= from,
        forall|i: int|
            0 <= i < secs.len() ==> !((#[trigger] secs[i]).is_loadable() && secs[i].holds_addr(addr)),
    ensures
        offset_from(secs, addr, from) == Ok::<Option<u64>, Error>(None),
    decreases secs.len() - from,
{
    if from < secs.len() {
        lemma_no_offset_from(secs, addr, from + 1);
    }
}

/// An address that no loadable section holds has no offset in the file, and
/// the query for it does not fail. This is so for every address, the lowest
/// and the highest included.
pub proof fn lemma_no_offset_where_unmapped(image: Seq<u8>, addr: u64)
    requires
        forall|i: int|
            0 <= i < sections(image).len() ==> !((#[trigger] sections(image)[i]).is_loadable()
                && sections(image)[i].holds_addr(addr)),
    ensures
        file_offset_of(image, addr) == Ok::<Option<u64>, Error>(None),
{
    lemma_no_offset_from(sections(image), addr, 0);
}

/// At or behind `from`, an offset that is found is the offset of the address
/// inside a loadable section that holds it.
proof fn lemma_offset_from_section(secs: Seq<Shdr>, addr: u64, from: int)
    requires
        0 <= from,
    ensures
        offset_from(secs, addr, from) matches Ok(Some(offset)) ==> exists|i: int|
            from <= i < secs.len() && (#[trigger] secs[i]).is_loadable() && secs[i].holds_addr(addr)
                && offset == secs[i].offset + (addr - secs[i].addr),
    decreases secs.len() - from,
{
    if from < secs.len() {
        if secs[from].is_loadable() && secs[from].holds_addr(addr) {
        } else {
            lemma_offset_from_section(secs, addr, from + 1);
        }
    }
}

/// An offset that is found for an address lies as far behind the start of a
/// loadable section in the file as the address lies behind the start of
/// that section in memory.
pub proof fn lemma_offset_lies_in_section(image: Seq<u8>, addr: u64)
    ensures
        file_offset_of(image, addr) matches Ok(Some(offset)) ==> exists|i: int|
            0 <= i < sections(image).len() && (#[trigger] sections(image)[i]).is_loadable()
                && sections(image)[i].holds_addr(addr) && offset == sections(image)[i].offset + (
            addr - sections(image)[i].addr),
{
    lemma_offset_from_section(sections(image), addr, 0);
}

/// Every place that a lookup returns is what it reports of a record, at or
/// behind `from`, that bears the name.
pub proof fn lemma_places_sound<T: Entry>(
    image: Seq<u8>,
    strings: Shdr,
    entries: Seq<T>,
    name: Seq<char>,
    with_offset: bool,
    from: int,
    i: int,
)
    requires
        0 <= from,
        places_from(image, strings, entries, name, with_offset, from) matches Ok(places) && 0 <= i
            < places.len(),
    ensures
        places_from(image, strings, entries, name, with_offset, from) matches Ok(places) && exists|
            k: int,
        |
            from <= k < entries.len() && is_named(image, strings, #[trigger] entries[k], name)
                && places[i] == place_of(
                entries[k],
                name,
                reported_offset(image, entries[k], with_offset),
            ),
    decreases entries.len() - from,
{
    if from < entries.len() {
        let entry = entries[from];
        let rest = places_from(image, strings, entries, name, with_offset, from + 1);
        if is_named(image, strings, entry, name) {
            if i == 0 {
                assert(is_named(image, strings, entries[from], name));
            } else {
                lemma_places_sound(image, strings, entries, name, with_offset, from + 1, i - 1);
            }
        } else {
            lemma_places_sound(image, strings, entries, name, with_offset, from + 1, i);
        }
    }
}

/// Every record at or behind `from` that bears the name is among the places
/// that a lookup returns.
pub proof fn lemma_places_complete<T: Entry>(
    image: Seq<u8>,
    strings: Shdr,
    entries: Seq<T>,
    name: Seq<char>,
    with_offset: bool,
    from: int,
    k: int,
)
    requires
        0 <= from <= k < entries.len(),
        places_from(image, strings, entries, name, with_offset, from) is Ok,
        is_named(image, strings, entries[k], name),
    ensures
        places_from(image, strings, entries, name, with_offset, from) matches Ok(places)
            && places.contains(
            place_of(entries[k], name, reported_offset(image, entries[k], with_offset)),
        ),
    decreases entries.len() - from,
{
    let places = places_from(image, strings, entries, name, with_offset, from)->Ok_0;
    let entry = entries[from];
    if from == k {
        assert(places[0] == place_of(entry, name, reported_offset(image, entry, with_offset)));
    } else {
        lemma_places_complete(image, strings, entries, name, with_offset, from + 1, k);
        let rest = places_from(image, strings, entries, name, with_offset, from + 1)->Ok_0;
        let wanted = place_of(entries[k], name, reported_offset(image, entries[k], with_offset));
        let at = choose|at: int| 0 <= at < rest.len() && rest[at] == wanted;
        if is_named(image, strings, entry, name) {
            assert(places[at + 1] == rest[at]);
        } else {
            assert(places[at] == rest[at]);
        }
    }
}

/// A lookup in a sorted index returns the places in ascending order of their
/// addresses.
pub proof fn lemma_places_ascend<T: Entry>(
    image: Seq<u8>,
    strings: Shdr,
    entries: Seq<T>,
    name: Seq<char>,
    with_offset: bool,
    from: int,
)
    requires
        0 <= from,
        sorted(entries),
    ensures
        places_from(image, strings, entries, name, with_offset, from) matches Ok(places) ==> forall|
            i: int,
            j: int,
        | 0 <= i <= j < places.len() ==> (#[trigger] places[i]).addr <= (#[trigger] places[j]).addr,
    decreases entries.len() - from,
{
    if from < entries.len() {
        lemma_places_ascend(image, strings, entries, name, with_offset, from + 1);
        if let Ok(places) = places_from(image, strings, entries, name, with_offset, from) {
            let rest = places_from(image, strings, entries, name, with_offset, from + 1)->Ok_0;
            if is_named(image, strings, entries[from], name) {
                assert forall|i: int, j: int| 0 <= i <= j < places.len() implies (#[trigger] places[i]).addr
                    <= (#[trigger] places[j]).addr by {
                    if i == 0 && j > 0 {
                        lemma_places_sound(
                            image,
                            strings,
                            entries,
                            name,
                            with_offset,
                            from + 1,
                            j - 1,
                        );
                        let k = choose|k: int|
                            from + 1 <= k < entries.len() && is_named(
                                image,
                                strings,
                                #[trigger] entries[k],
                                name,
                            ) && rest[j - 1] == place_of(
                                entries[k],
                                name,
                                reported_offset(image, entries[k], with_offset),
                            );
                        assert(entries[from].start() <= entries[k].start());
                        assert(places[j] == rest[j - 1]);
                    } else if i > 0 {
                        assert(places[i] == rest[i - 1]);
                        assert(places[j] == rest[j - 1]);
                    }
                }
            }
        }
    }
}

/// A lookup fails exactly where it cannot get past one of the records at or
/// behind `from`.
pub proof fn lemma_places_fail<T: Entry>(
    image: Seq<u8>,
    strings: Shdr,
    entries: Seq<T>,
    name: Seq<char>,
    with_offset: bool,
    from: int,
)
    requires
        0 <= from,
    ensures
        places_from(image, strings, entries, name, with_offset, from) is Err <==> exists|k: int|
            from <= k < entries.len() && stops_lookup(
                image,
                strings,
                #[trigger] entries[k],
                name,
                with_offset,
            ),
    decreases entries.len() - from,
{
    if from < entries.len() {
        lemma_places_fail(image, strings, entries, name, with_offset, from + 1);
        if places_from(image, strings, entries, name, with_offset, from) is Err {
            if places_from(image, strings, entries, name, with_offset, from + 1) is Err {
                let k = choose|k: int|
                    from + 1 <= k < entries.len() && stops_lookup(
                        image,
                        strings,
                        #[trigger] entries[k],
                        name,
                        with_offset,
                    );
                assert(stops_lookup(image, strings, entries[k], name, with_offset));
            } else {
                assert(stops_lookup(image, strings, entries[from], name, with_offset));
            }
        } else {
            assert forall|k: int| from <= k < entries.len() implies !stops_lookup(
                image,
                strings,
                #[trigger] entries[k],
                name,
                with_offset,
            ) by {
                if k > from {
                    assert(from + 1 <= k);
                }
            }
        }
    }
}

/// Checks the file header and decodes the section header table.
fn read_sections(data: &[u8]) -> (r: Result<Vec<Shdr>, Error>)
    ensures
        match r {
            Ok(shdrs) => header_error(data@) is None && shdrs@ == sections(data@),
            Err(e) => header_error(data@) == Some(e),
        },
{
    let len: usize = data.len();
    if len < 4 || data[0] != 0x7f || data[1] != 0x45 || data[2] != 0x4c || data[3] != 0x46 {
        return Err(Error::NotElf);
    }
    if len < EHDR_SIZE {
        return Err(Error::Truncated);
    }
    if data[4] != ELFCLASS64 || data[5] != ELFDATA2LSB {
        return Err(Error::UnsupportedClass);
    }
    let shoff: u64 = read_u64(data, 40);
    let shentsize: u16 = read_u16(data, 58);
    let shnum: u16 = read_u16(data, 60);
    let mut shdrs: Vec<Shdr> = Vec::new();
    if shnum == 0 {
        assert(shdrs@ =~= sections(data@));
        return Ok(shdrs);
    }
    if shentsize as usize != SHDR_SIZE {
        return Err(Error::InvalidData);
    }
    let table: u64 = shnum as u64 * 64;
    if table > len as u64 || shoff > len as u64 - table {
        return Err(Error::Truncated);
    }
    let mut i: u16 = 0;
    while i < shnum
        invariant
            i <= shnum,
            shnum == sh_num(data@),
            shoff == sh_off(data@),
            shoff + shnum * 64 <= data.len(),
            shdrs@.len() == i,
            forall|k: int| 0 <= k < i ==> shdrs@[k] == shdr_at(data@, shoff + k * 64),
        decreases shnum - i,
    {
        let at: usize = (shoff + i as u64 * 64) as usize;
        shdrs.push(read_shdr(data, at));
        i += 1;
    }
    assert(shdrs@ =~= sections(data@));
    Ok(shdrs)
}

/// Finds the first section of the given type.
fn find_kind(shdrs: &Vec<Shdr>, kind: u32) -> (r: Option<usize>)
    ensures
        match r {
            Some(i) => first_of_kind(shdrs@, kind, 0) == Some(i as int) && i < shdrs.len(),
            None => first_of_kind(shdrs@, kind, 0) is None,
        },
{
    let mut i: usize = 0;
    while i < shdrs.len()
        invariant
            i <= shdrs.len(),
            first_of_kind(shdrs@, kind, 0) == first_of_kind(shdrs@, kind, i as int),
        decreases shdrs.len() - i,
    {
        if shdrs[i].kind == kind {
            return Some(i);
        }
        i += 1;
    }
    None
}

/// Finds the section that holds the symbols.
fn find_symtab(shdrs: &Vec<Shdr>) -> (r: Option<usize>)
    ensures
        match r {
            Some(i) => symtab_section(shdrs@) == Some(i as int) && i < shdrs.len(),
            None => symtab_section(shdrs@) is None,
        },
{
    match find_kind(shdrs, SHT_SYMTAB) {
        Some(i) => Some(i),
        None => find_kind(shdrs, SHT_DYNSYM),
    }
}

/// Checks the symbol table in section `st` and builds the index of its
/// functions.
fn read_symbols(data: &[u8], shdrs: &Vec<Shdr>, st: usize) -> (r: Result<Vec<FuncSym>, Error>)
    requires
        shdrs@ == sections(data@),
        symtab_section(shdrs@) == Some(st as int),
        st < shdrs.len(),
    ensures
        match r {
            Ok(funcs) => symtab_error(data@) is None && funcs@ == symbol_index(data@) && sorted(
                funcs@,
            ),
            Err(e) => symtab_error(data@) == Some(e),
        },
{
    let sec: Shdr = shdrs[st];
    if sec.entsize != SYM_SIZE as u64 || sec.size % 24 != 0 {
        return Err(Error::InvalidData);
    }
    let len: u64 = data.len() as u64;
    if sec.size > len || sec.offset > len - sec.size {
        return Err(Error::Truncated);
    }
    if sec.link as usize >= shdrs.len() {
        return Err(Error::InvalidData);
    }
    let count: u64 = sec.size / 24;
    let mut found: Vec<FuncSym> = Vec::new();
    let mut i: u64 = 0;
    while i < count
        invariant
            i <= count,
            count == symbol_count(data@),
            count * 24 <= sec.size,
            sec == symtab(data@),
            sec.offset + sec.size <= data.len(),
            found@ == functions_upto(data@, i as nat),
        decreases count - i,
    {
        let at: usize = (sec.offset + i * 24) as usize;
        let raw: RawSym = read_sym(data, at);
        if raw.function() {
            found.push(FuncSym { addr: raw.value, size: raw.size, name: raw.name });
        }
        i += 1;
    }
    Ok(sort_by_start(&found))
}

/// A parser for one ELF object.
///
/// It owns the bytes of the file. The section headers are decoded and the
/// functions of the symbol table are sorted by address once, when the parser
/// is built; names are read from the bytes when a query needs them.
pub struct ElfParser {
    data: Vec<u8>,
    shdrs: Vec<Shdr>,
    symtab: Option<usize>,
    funcs: Vec<FuncSym>,
}

impl ElfParser {
    /// The bytes of the object file.
    pub closed spec fn image(&self) -> Seq<u8> {
        self.data@
    }

    /// What holds of every parser: its tables are those of its image.
    #[verifier::type_invariant]
    pub closed spec fn wf(&self) -> bool {
        &&& parse_error(self.data@) is None
        &&& self.shdrs@ == sections(self.data@)
        &&& match self.symtab {
            Some(i) => symtab_section(self.shdrs@) == Some(i as int) && i < self.shdrs.len(),
            None => symtab_section(self.shdrs@) is None,
        }
        &&& self.funcs@ == symbol_index(self.data@)
        &&& sorted(self.funcs@)
    }

    /// A parser exists only for an image that `parse_error` finds no fault
    /// with.
    pub proof fn lemma_image_parses(&self)
        requires
            self.wf(),
        ensures
            parse_error(self.image()) is None,
    {
    }

    /// Builds a parser on the bytes of an object file.
    ///
    /// Fails, with the error that `parse_error` names, where the bytes are
    /// not a 64-bit little-endian ELF file or end before one of its tables.
    /// An object without symbols is no failure.
    pub fn from_bytes(data: Vec<u8>) -> (r: Result<ElfParser, Error>)
        ensures
            match r {
                Ok(parser) => parse_error(data@) is None && parser.wf() && parser.image() == data@,
                Err(e) => parse_error(data@) == Some(e),
            },
    {
        let shdrs = match read_sections(data.as_slice()) {
            Ok(shdrs) => shdrs,
            Err(e) => {
                return Err(e);
            },
        };
        let symtab = find_symtab(&shdrs);
        let funcs = match symtab {
            None => Vec::new(),
            Some(st) => match read_symbols(data.as_slice(), &shdrs, st) {
                Ok(funcs) => funcs,
                Err(e) => {
                    return Err(e);
                },
            },
        };
        Ok(ElfParser { data, shdrs, symtab, funcs })
    }

    /// The bytes of the object file.
    pub fn bytes(&self) -> (r: &[u8])
        ensures
            r@ == self.image(),
    {
        self.data.as_slice()
    }

    /// The number of sections of the object.
    pub fn section_count(&self) -> (r: usize)
        ensures
            r == sections(self.image()).len(),
    {
        proof {
            use_type_invariant(self);
        }
        self.shdrs.len()
    }

    /// The header of section `i`.
    pub fn section(&self, i: usize) -> (r: Shdr)
        requires
            i < sections(self.image()).len(),
        ensures
            r == sections(self.image())[i as int],
    {
        proof {
            use_type_invariant(self);
        }
        self.shdrs[i]
    }

    /// Finds the function that owns `addr`.
    ///
    /// Returns `Ok(None)` where the nearest function at or below `addr` does
    /// not reach it, or there is no such function. Fails only where the name
    /// of the owner cannot be read.
    pub fn find_sym(&self, addr: Addr) -> (r: Result<Option<IntSym>, Error>)
        ensures
            sym_result_view(r) == owner_of(self.image(), addr),
    {
        proof {
            use_type_invariant(self);
        }
        let st: usize = match self.symtab {
            Some(st) => st,
            None => {
                return Ok(None);
            },
        };
        let sym: FuncSym = match find_owner(&self.funcs, addr) {
            Some(sym) => *sym,
            None => {
                return Ok(None);
            },
        };
        let strtab: Shdr = self.shdrs[self.shdrs[st].link as usize];
        match read_text(self.data.as_slice(), &strtab, sym.name as u64) {
            Ok(name) => Ok(
                Some(IntSym { name, addr: sym.addr, size: Some(sym.size), lang: SrcLang::Unknown }),
            ),
            Err(e) => Err(e),
        }
    }

    /// Finds the offset in the file of the byte that is loaded to `addr`.
    ///
    /// Returns `Ok(None)` where no loadable section holds the address.
    pub fn find_file_offset(&self, addr: Addr) -> (r: Result<Option<u64>, Error>)
        ensures
            r == file_offset_of(self.image(), addr),
    {
        proof {
            use_type_invariant(self);
        }
        let mut i: usize = 0;
        while i < self.shdrs.len()
            invariant
                self.wf(),
                i <= self.shdrs.len(),
                offset_from(self.shdrs@, addr, 0) == offset_from(self.shdrs@, addr, i as int),
            decreases self.shdrs.len() - i,
        {
            let sec: Shdr = self.shdrs[i];
            assert(sec.holds_addr(addr) == (sec.addr <= addr && addr - sec.addr < sec.size));
            if sec.loadable() && sec.addr <= addr && addr - sec.addr < sec.size {
                let delta: u64 = addr - sec.addr;
                if delta > u64::MAX - sec.offset {
                    return Err(Error::InvalidData);
                }
                return Ok(Some(sec.offset + delta));
            }
            i += 1;
        }
        Ok(None)
    }

    /// Finds the records of an index that are named `name`, reading the
    /// names from the section `strings` of this object.
    ///
    /// The list is in the order of the index. Each place carries its file
    /// offset where `with_offset` asks for it.
    pub fn find_places<T: Entry>(
        &self,
        strings: &Shdr,
        entries: &Vec<T>,
        name: &str,
        with_offset: bool,
    ) -> (r: Result<Vec<SymInfo>, Error>)
        ensures
            addr_result_view(r) == places_from(
                self.image(),
                *strings,
                entries@,
                name@,
                with_offset,
                0,
            ),
    {
        proof {
            use_type_invariant(self);
        }
        let mut found: Vec<SymInfo> = Vec::new();
        let wanted: &[u8] = name.as_bytes();
        let ghost image = self.data@;
        assert(syms_view(found@) =~= Seq::empty());
        let mut i: usize = 0;
        while i < entries.len()
            invariant
                self.wf(),
                i <= entries.len(),
                image == self.data@,
                wanted@ == encode_utf8(name@),
                places_from(image, *strings, entries@, name@, with_offset, 0) == match places_from(
                    image,
                    *strings,
                    entries@,
                    name@,
                    with_offset,
                    i as int,
                ) {
                    Ok(rest) => Ok::<Seq<SymInfoView>, Error>(syms_view(found@) + rest),
                    Err(e) => Err(e),
                },
            decreases entries.len() - i,
        {
            let entry: &T = &entries[i];
            match find_cstr(self.data.as_slice(), strings, entry.name_offset()) {
                None => {
                    return Err(Error::InvalidData);
                },
                Some((begin, end)) => {
                    if range_eq(self.data.as_slice(), begin, end, wanted) {
                        let addr: u64 = entry.start_addr();
                        let file_offset: Option<u64> = if with_offset {
                            match self.find_file_offset(addr) {
                                Ok(offset) => offset,
                                Err(e) => {
                                    return Err(e);
                                },
                            }
                        } else {
                            None
                        };
                        let size: u64 = match entry.size() {
                            Some(size) => size,
                            None => 0,
                        };
                        let place = SymInfo {
                            name: name.to_owned(),
                            addr,
                            size,
                            sym_type: SymType::Function,
                            file_offset,
                            obj_file_name: None,
                        };
                        proof {
                            let before = syms_view(found@);
                            let after = syms_view(found@.push(place));
                            assert(after =~= before.push(place@));
                            assert(place@ == place_of(*entry, name@, file_offset));
                            match places_from(image, *strings, entries@, name@, with_offset, i + 1) {
                                Ok(rest) => {
                                    assert(after + rest =~= before + (seq![place@] + rest));
                                },
                                Err(_) => {},
                            }
                        }
                        found.push(place);
                    }
                },
            }
            i += 1;
        }
        assert(syms_view(found@) + Seq::<SymInfoView>::empty() =~= syms_view(found@));
        Ok(found)
    }

    /// Finds the places at which a function named `name` is defined.
    ///
    /// The list is in ascending order of the addresses and is empty where no
    /// function has the name. Each place carries its file offset where
    /// `opts` asks for it. Fails where `opts` asks for variables, or where
    /// the name of a function cannot be read.
    pub fn find_addr(&self, name: &str, opts: &FindAddrOpts) -> (r: Result<Vec<SymInfo>, Error>)
        ensures
            addr_result_view(r) == places_of(self.image(), name@, *opts),
    {
        proof {
            use_type_invariant(self);
        }
        if let SymType::Variable = opts.sym_type {
            return Err(Error::Unsupported);
        }
        match self.symtab {
            Some(st) => {
                let strtab: Shdr = self.shdrs[self.shdrs[st].link as usize];
                self.find_places(&strtab, &self.funcs, name, opts.offset_in_file)
            },
            None => {
                let found: Vec<SymInfo> = Vec::new();
                assert(syms_view(found@) =~= Seq::empty());
                Ok(found)
            },
        }
    }

    /// Finds the first section named `name`.
    ///
    /// Fails where the name of a section before it cannot be read.
    pub fn find_section(&self, name: &str) -> (r: Result<Option<usize>, Error>)
        ensures
            index_result_view(r) == section_named(self.image(), name@),
            r matches Ok(Some(i)) ==> i < sections(self.image()).len(),
    {
        proof {
            use_type_invariant(self);
        }
        let data: &[u8] = self.data.as_slice();
        let wanted: &[u8] = name.as_bytes();
        let strndx: usize = read_u16(data, 62) as usize;
        let mut i: usize = 0;
        while i < self.shdrs.len()
            invariant
                self.wf(),
                i <= self.shdrs.len(),
                data@ == self.data@,
                wanted@ == encode_utf8(name@),
                strndx == sh_strndx(self.data@),
                section_from(self.data@, name@, 0) == section_from(self.data@, name@, i as int),
            decreases self.shdrs.len() - i,
        {
            if strndx >= self.shdrs.len() {
                return Err(Error::InvalidData);
            }
            let names: Shdr = self.shdrs[strndx];
            match find_cstr(data, &names, self.shdrs[i].name as u64) {
                None => {
                    return Err(Error::InvalidData);
                },
                Some((begin, end)) => {
                    if range_eq(data, begin, end, wanted) {
                        return Ok(Some(i));
                    }
                },
            }
            i += 1;
        }
        Ok(None)
    }
}

} // verus!
