//! What a lookup by name takes and returns.

use vstd::prelude::*;

use crate::Addr;
use crate::error::Error;

verus! {

/// The kind of a symbol.
#[derive(Clone, Copy, Debug, PartialEq, Eq, Structural)]
pub enum SymType {
    /// Any kind: the lookup looks for functions.
    Unknown,
    /// A function.
    Function,
    /// A variable. Lookups of variables are not supported.
    Variable,
}

/// What a lookup by name is to look for and to report.
#[derive(Clone, Copy, Debug, PartialEq, Eq, Structural)]
pub struct FindAddrOpts {
    /// Report the offset in the file that each address is stored at.
    pub offset_in_file: bool,
    /// The kind of symbol to look for.
    pub sym_type: SymType,
}

/// One place at which a name is defined.
#[derive(Clone, Debug, PartialEq, Eq)]
pub struct SymInfo {
    /// The name that was looked up.
    pub name: String,
    /// The address of the symbol.
    pub addr: Addr,
    /// The size of the symbol in bytes; zero where it is not known.
    pub size: u64,
    /// The kind of the symbol.
    pub sym_type: SymType,
    /// The offset in the file at which the address is stored, where the query
    /// asked for it and a section of the file holds the address.
    pub file_offset: Option<u64>,
    /// The path of the object that defines the symbol.
    pub obj_file_name: Option<String>,
}

/// A [`SymInfo`] as a mathematical value.
pub struct SymInfoView {
    pub name: Seq<char>,
    pub addr: Addr,
    pub size: u64,
    pub sym_type: SymType,
    pub file_offset: Option<u64>,
    pub obj_file_name: Option<Seq<char>>,
}

impl View for SymInfo {
    type V = SymInfoView;

    open spec fn view(&self) -> SymInfoView {
        SymInfoView {
            name: self.name@,
            addr: self.addr,
            size: self.size,
            sym_type: self.sym_type,
            file_offset: self.file_offset,
            obj_file_name: match self.obj_file_name {
                Some(path) => Some(path@),
                None => None,
            },
        }
    }
}

/// A list of lookup results as a mathematical value.
pub open spec fn syms_view(syms: Seq<SymInfo>) -> Seq<SymInfoView> {
    syms.map_values(|sym: SymInfo| sym@)
}

/// The outcome of a lookup by name as a mathematical value.
pub open spec fn addr_result_view(r: Result<Vec<SymInfo>, Error>) -> Result<
    Seq<SymInfoView>,
    Error,
> {
    match r {
        Ok(syms) => Ok(syms_view(syms@)),
        Err(e) => Err(e),
    }
}

} // verus!
