//! The errors of the library.

use vstd::prelude::*;

verus! {

/// The ways in which building a parser or answering a query can fail.
///
/// "Nothing found" is never an error: queries report it as `Ok(None)` or as
/// an empty list.
#[derive(Clone, Copy, Debug, PartialEq, Eq, Structural)]
pub enum Error {
    /// The data does not start with the ELF magic number.
    NotElf,
    /// The data ends before a structure that its headers announce.
    Truncated,
    /// The object is not a 64-bit little-endian ELF file.
    UnsupportedClass,
    /// A table or a reference inside the object contradicts itself.
    InvalidData,
    /// The object carries no debug information sections.
    NoDebugInfo,
    /// Records handed to a constructor are not in the order it asks for.
    InvalidInput,
    /// The query asks for something that is not implemented.
    Unsupported,
}

} // verus!
