//! The layout of the structures of a 64-bit little-endian ELF file, and
//! the reading of numbers, table entries and strings from its bytes.

use vstd::prelude::*;

verus! {

/// Size of the ELF file header.
pub const EHDR_SIZE: usize = 64;

/// Size of one section header.
pub const SHDR_SIZE: usize = 64;

/// Size of one symbol table entry.
pub const SYM_SIZE: usize = 24;

/// The class byte of a 64-bit object.
pub const ELFCLASS64: u8 = 2;

/// The data encoding byte of a little-endian object.
pub const ELFDATA2LSB: u8 = 1;

/// The type of a section that holds the full symbol table.
pub const SHT_SYMTAB: u32 = 2;

/// The type of a section that takes up memory but no bytes of the file.
pub const SHT_NOBITS: u32 = 8;

/// The type of a section that holds the symbols for dynamic linking.
pub const SHT_DYNSYM: u32 = 11;

/// The flag of a section that is loaded into memory.
pub const SHF_ALLOC: u64 = 2;

/// The section index of a symbol that the object does not define.
pub const SHN_UNDEF: u16 = 0;

/// The type of a symbol that is a function.
pub const STT_FUNC: u8 = 2;

/// The 16-bit little-endian number stored at `at`.
pub open spec fn le_u16(s: Seq<u8>, at: int) -> u16 {
    (s[at] as int + s[at + 1] as int * 0x100) as u16
}

/// The 32-bit little-endian number stored at `at`.
pub open spec fn le_u32(s: Seq<u8>, at: int) -> u32 {
    (le_u16(s, at) as int + le_u16(s, at + 2) as int * 0x1_0000) as u32
}

/// The 64-bit little-endian number stored at `at`.
pub open spec fn le_u64(s: Seq<u8>, at: int) -> u64 {
    (le_u32(s, at) as int + le_u32(s, at + 4) as int * 0x1_0000_0000) as u64
}

/// Reads the 16-bit little-endian number stored at `at`.
pub fn read_u16(data: &[u8], at: usize) -> (r: u16)
    requires
        at + 2 <= data.len(),
    ensures
        r == le_u16(data@, at as int),
{
    let lo: u16 = data[at] as u16;
    let hi: u16 = data[at + 1] as u16;
    lo + hi * 0x100
}

/// Reads the 32-bit little-endian number stored at `at`.
pub fn read_u32(data: &[u8], at: usize) -> (r: u32)
    requires
        at + 4 <= data.len(),
    ensures
        r == le_u32(data@, at as int),
{
    let lo: u32 = read_u16(data, at) as u32;
    let hi: u32 = read_u16(data, at + 2) as u32;
    lo + hi * 0x1_0000
}

/// Reads the 64-bit little-endian number stored at `at`.
pub fn read_u64(data: &[u8], at: usize) -> (r: u64)
    requires
        at + 8 <= data.len(),
    ensures
        r == le_u64(data@, at as int),
{
    let lo: u64 = read_u32(data, at) as u64;
    let hi: u64 = read_u32(data, at + 4) as u64;
    lo + hi * 0x1_0000_0000
}

} // verus!

verus! {

/// The fields of a section header that the parser reads.
#[derive(Clone, Copy, Debug, PartialEq, Eq, Structural)]
pub struct Shdr {
    /// Offset of the section's name in the section name string table.
    pub name: u32,
    /// The section's type.
    pub kind: u32,
    /// The section's attributes, one bit each.
    pub flags: u64,
    /// The address of the section's first byte in memory.
    pub addr: u64,
    /// The offset of the section's first byte in the file.
    pub offset: u64,
    /// The section's size in bytes.
    pub size: u64,
    /// The index of an associated section.
    pub link: u32,
    /// The size of one entry, for a section that holds a table.
    pub entsize: u64,
}

/// The section header stored at `at`.
pub open spec fn shdr_at(image: Seq<u8>, at: int) -> Shdr {
    Shdr {
        name: le_u32(image, at),
        kind: le_u32(image, at + 4),
        flags: le_u64(image, at + 8),
        addr: le_u64(image, at + 16),
        offset: le_u64(image, at + 24),
        size: le_u64(image, at + 32),
        link: le_u32(image, at + 40),
        entsize: le_u64(image, at + 56),
    }
}

/// Reads the section header stored at `at`.
pub fn read_shdr(data: &[u8], at: usize) -> (r: Shdr)
    requires
        at + SHDR_SIZE <= data.len(),
    ensures
        r == shdr_at(data@, at as int),
{
    Shdr {
        name: read_u32(data, at),
        kind: read_u32(data, at + 4),
        flags: read_u64(data, at + 8),
        addr: read_u64(data, at + 16),
        offset: read_u64(data, at + 24),
        size: read_u64(data, at + 32),
        link: read_u32(data, at + 40),
        entsize: read_u64(data, at + 56),
    }
}

impl Shdr {
    /// The section holds bytes of the file that are loaded into memory.
    pub open spec fn is_loadable(self) -> bool {
        self.flags & SHF_ALLOC != 0 && self.kind != SHT_NOBITS
    }

    /// Tells whether the section holds bytes of the file that are loaded
    /// into memory.
    pub fn loadable(&self) -> (r: bool)
        ensures
            r == self.is_loadable(),
    {
        self.flags & SHF_ALLOC != 0 && self.kind != SHT_NOBITS
    }

    /// The section's bytes lie inside a file of `len` bytes.
    pub open spec fn in_file(self, len: nat) -> bool {
        self.offset + self.size <= len
    }

    /// The address lies in the memory that the section is loaded to.
    pub open spec fn holds_addr(self, addr: u64) -> bool {
        self.addr <= addr && addr - self.addr < self.size
    }
}

/// The fields of a symbol table entry that the parser reads.
#[derive(Clone, Copy, Debug, PartialEq, Eq, Structural)]
pub struct RawSym {
    /// Offset of the symbol's name in the symbol string table.
    pub name: u32,
    /// The symbol's type in the low four bits, its binding above.
    pub info: u8,
    /// The index of the section that defines the symbol.
    pub shndx: u16,
    /// The address of what the symbol names.
    pub value: u64,
    /// The size in bytes of what the symbol names.
    pub size: u64,
}

/// The symbol table entry stored at `at`.
pub open spec fn sym_at(image: Seq<u8>, at: int) -> RawSym {
    RawSym {
        name: le_u32(image, at),
        info: image[at + 4],
        shndx: le_u16(image, at + 6),
        value: le_u64(image, at + 8),
        size: le_u64(image, at + 16),
    }
}

/// Reads the symbol table entry stored at `at`.
pub fn read_sym(data: &[u8], at: usize) -> (r: RawSym)
    requires
        at + SYM_SIZE <= data.len(),
    ensures
        r == sym_at(data@, at as int),
{
    RawSym {
        name: read_u32(data, at),
        info: data[at + 4],
        shndx: read_u16(data, at + 6),
        value: read_u64(data, at + 8),
        size: read_u64(data, at + 16),
    }
}

impl RawSym {
    /// The entry is a function that this object defines.
    pub open spec fn is_function(self) -> bool {
        self.info & 0xf == STT_FUNC && self.shndx != SHN_UNDEF
    }

    /// Tells whether the entry is a function that this object defines.
    pub fn function(&self) -> (r: bool)
        ensures
            r == self.is_function(),
    {
        self.info & 0xf == STT_FUNC && self.shndx != SHN_UNDEF
    }
}

/// The index of the first zero byte at or behind `from` and before `limit`;
/// `limit` where there is none.
pub open spec fn nul_from(image: Seq<u8>, from: int, limit: int) -> int
    decreases limit - from,
{
    if from >= limit {
        limit
    } else if image[from] == 0 {
        from
    } else {
        nul_from(image, from + 1, limit)
    }
}

/// The zero-terminated string at offset `off` of the `size` bytes that start
/// at `base`, without its terminator. `None` where the offset lies outside
/// the bytes or no terminator follows it inside them.
pub open spec fn cstr_at(image: Seq<u8>, base: int, size: int, off: int) -> Option<Seq<u8>> {
    let end = nul_from(image, base + off, base + size);
    if 0 <= off < size && end < base + size {
        Some(image.subrange(base + off, end))
    } else {
        None
    }
}

/// The zero-terminated string at offset `off` of a section. `None` where the
/// section does not lie inside the file or holds no such string.
pub open spec fn section_cstr(image: Seq<u8>, sec: Shdr, off: int) -> Option<Seq<u8>> {
    if sec.in_file(image.len()) {
        cstr_at(image, sec.offset as int, sec.size as int, off)
    } else {
        None
    }
}

/// Finds the string at offset `off` of a section and returns where its bytes
/// start and end in `data`.
pub fn find_cstr(data: &[u8], sec: &Shdr, off: u64) -> (r: Option<(usize, usize)>)
    ensures
        match r {
            Some((begin, end)) => begin <= end <= data.len() && section_cstr(
                data@,
                *sec,
                off as int,
            ) == Some(data@.subrange(begin as int, end as int)),
            None => section_cstr(data@, *sec, off as int) is None,
        },
{
    let len: u64 = data.len() as u64;
    if sec.size > len || sec.offset > len - sec.size || off >= sec.size {
        return None;
    }
    let begin: usize = (sec.offset + off) as usize;
    let limit: usize = (sec.offset + sec.size) as usize;
    let mut i: usize = begin;
    while i < limit
        invariant
            begin <= i <= limit <= data.len(),
            begin == sec.offset + off,
            limit == sec.offset + sec.size,
            off < sec.size,
            nul_from(data@, begin as int, limit as int) == nul_from(data@, i as int, limit as int),
        decreases limit - i,
    {
        if data[i] == 0 {
            assert(nul_from(data@, i as int, limit as int) == i);
            return Some((begin, i));
        }
        i += 1;
    }
    None
}

/// Whether the bytes of `data` between `begin` and `end` are the bytes of
/// `other`.
pub fn range_eq(data: &[u8], begin: usize, end: usize, other: &[u8]) -> (r: bool)
    requires
        begin <= end <= data.len(),
    ensures
        r == (data@.subrange(begin as int, end as int) == other@),
{
    if end - begin != other.len() {
        return false;
    }
    let mut i: usize = 0;
    while i < other.len()
        invariant
            begin <= end <= data.len(),
            end - begin == other.len(),
            i <= other.len(),
            forall|k: int| 0 <= k < i ==> data@[begin + k] == other@[k],
        decreases other.len() - i,
    {
        if data[begin + i] != other[i] {
            assert(data@.subrange(begin as int, end as int)[i as int] != other@[i as int]);
            return false;
        }
        i += 1;
    }
    assert(data@.subrange(begin as int, end as int) =~= other@);
    true
}

} // verus!
