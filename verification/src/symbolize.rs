//! What the queries for the symbol and for the source position of an
//! address return.

use vstd::prelude::*;

use crate::Addr;
use crate::error::Error;

verus! {

/// The source language that a symbol was written in.
#[derive(Clone, Copy, Debug, PartialEq, Eq, Structural)]
pub enum SrcLang {
    /// The language is not known. A symbol table carries no language, so this
    /// is the tag of every symbol that comes from one.
    Unknown,
    /// C++.
    Cpp,
    /// Rust.
    Rust,
}

/// The symbol that owns an address.
#[derive(Clone, Debug, PartialEq, Eq)]
pub struct IntSym {
    /// The name of the symbol.
    pub name: String,
    /// The address at which the symbol starts.
    pub addr: Addr,
    /// The size of the symbol in bytes, where the format gives one.
    pub size: Option<u64>,
    /// The source language of the symbol.
    pub lang: SrcLang,
}

/// An [`IntSym`] as a mathematical value.
pub struct IntSymView {
    pub name: Seq<char>,
    pub addr: Addr,
    pub size: Option<u64>,
    pub lang: SrcLang,
}

impl View for IntSym {
    type V = IntSymView;

    open spec fn view(&self) -> IntSymView {
        IntSymView { name: self.name@, addr: self.addr, size: self.size, lang: self.lang }
    }
}

impl IntSymView {
    /// The symbol starts at or below `addr` and, where its size is known,
    /// ends above it.
    pub open spec fn covers(self, addr: u64) -> bool {
        self.addr <= addr && (self.size matches Some(size) ==> addr - self.addr < size)
    }
}

/// A position in a source file.
#[derive(Clone, Debug, PartialEq, Eq)]
pub struct CodeInfo {
    /// The path of the source file, as the debug information spells it.
    pub file: String,
    /// The line, counted from one, where it is known.
    pub line: Option<u32>,
    /// The column, counted from one, where it is known.
    pub column: Option<u16>,
}

/// A [`CodeInfo`] as a mathematical value.
pub struct CodeInfoView {
    pub file: Seq<char>,
    pub line: Option<u32>,
    pub column: Option<u16>,
}

impl View for CodeInfo {
    type V = CodeInfoView;

    open spec fn view(&self) -> CodeInfoView {
        CodeInfoView { file: self.file@, line: self.line, column: self.column }
    }
}

/// A function whose body was inlined at the queried address.
#[derive(Clone, Debug, PartialEq, Eq)]
pub struct InlinedFn {
    /// The name of the inlined function.
    pub name: String,
    /// The position inside the inlined function that the address belongs to.
    pub code_info: CodeInfo,
}

/// An [`InlinedFn`] as a mathematical value.
pub struct InlinedFnView {
    pub name: Seq<char>,
    pub code_info: CodeInfoView,
}

impl View for InlinedFn {
    type V = InlinedFnView;

    open spec fn view(&self) -> InlinedFnView {
        InlinedFnView { name: self.name@, code_info: self.code_info@ }
    }
}

/// The source position of an address.
#[derive(Clone, Debug, PartialEq, Eq)]
pub struct AddrCodeInfo {
    /// The position inside the function that owns the address. Where calls
    /// were inlined at the address, this is the place of the outermost such
    /// call.
    pub direct: CodeInfo,
    /// The functions inlined at the address, innermost first. Empty where the
    /// query did not ask for them.
    pub inlined: Vec<InlinedFn>,
}

/// An [`AddrCodeInfo`] as a mathematical value.
pub struct AddrCodeInfoView {
    pub direct: CodeInfoView,
    pub inlined: Seq<InlinedFnView>,
}

impl View for AddrCodeInfo {
    type V = AddrCodeInfoView;

    open spec fn view(&self) -> AddrCodeInfoView {
        AddrCodeInfoView {
            direct: self.direct@,
            inlined: self.inlined@.map_values(|f: InlinedFn| f@),
        }
    }
}

/// The outcome of a symbol query as a mathematical value.
pub open spec fn sym_result_view(r: Result<Option<IntSym>, Error>) -> Result<
    Option<IntSymView>,
    Error,
> {
    match r {
        Ok(Some(sym)) => Ok(Some(sym@)),
        Ok(None) => Ok(None),
        Err(e) => Err(e),
    }
}

/// The outcome of a source position query as a mathematical value.
pub open spec fn code_result_view(r: Result<Option<AddrCodeInfo>, Error>) -> Result<
    Option<AddrCodeInfoView>,
    Error,
> {
    match r {
        Ok(Some(info)) => Ok(Some(info@)),
        Ok(None) => Ok(None),
        Err(e) => Err(e),
    }
}

} // verus!
