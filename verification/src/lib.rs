//! Resolution of addresses to symbols, and of symbol names to addresses, for a
//! single ELF object file.
//!
//! An [`elf::ElfParser`] decodes the section headers and the symbol table of
//! an ELF image. A [`dwarf::DwarfResolver`] is an address-ordered index of
//! debug records over the same image. An [`elf::ElfResolver`] binds one of the
//! two to the path of the object and answers the queries of [`SymResolver`]
//! by asking the debug index first and the symbol table second.
//!
//! What a query returns is stated over the bytes of the image: each query has
//! a specification function, and the contract of the query says that its
//! result is the value of that function. [`search`] holds the search in an
//! address-ordered index, [`sort`] the sort that builds one, and [`text`] the
//! reading of names.

use vstd::prelude::*;

pub mod dwarf;
pub mod elf;
pub mod error;
pub mod inspect;
pub mod resolver;
pub mod search;
pub mod sort;
pub mod symbolize;
pub mod text;

pub use error::Error;
pub use resolver::SymResolver;

verus! {

/// An address in the object's virtual address space.
pub type Addr = u64;

} // verus!
