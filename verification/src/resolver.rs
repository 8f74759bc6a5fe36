//! The queries that every resolver answers.

use vstd::prelude::*;

use crate::Addr;
use crate::error::Error;
use crate::inspect::FindAddrOpts;
use crate::inspect::SymInfo;
use crate::inspect::SymInfoView;
use crate::inspect::addr_result_view;
use crate::symbolize::AddrCodeInfo;
use crate::symbolize::AddrCodeInfoView;
use crate::symbolize::IntSym;
use crate::symbolize::IntSymView;
use crate::symbolize::code_result_view;
use crate::symbolize::sym_result_view;

verus! {

/// The queries that the resolver of one object answers.
///
/// Each query has a model: a function of the resolver that says what the
/// answer is. "Nothing found" is an answer, `Ok(None)` or an empty list; an
/// error says that looking itself failed.
pub trait SymResolver {
    /// The symbol that owns `addr`.
    spec fn sym_of(&self, addr: u64) -> Result<Option<IntSymView>, Error>;

    /// The places at which a symbol named `name` is defined.
    spec fn addrs_of(&self, name: Seq<char>, opts: FindAddrOpts) -> Result<Seq<SymInfoView>, Error>;

    /// The source position of `addr`, with the functions inlined there where
    /// `inlined_fns` asks for them.
    spec fn location_of(&self, addr: u64, inlined_fns: bool) -> Result<
        Option<AddrCodeInfoView>,
        Error,
    >;

    /// Finds the symbol that owns `addr`.
    fn find_sym(&self, addr: Addr) -> (r: Result<Option<IntSym>, Error>)
        ensures
            sym_result_view(r) == self.sym_of(addr),
    ;

    /// Finds the places at which a symbol named `name` is defined.
    fn find_addr(&self, name: &str, opts: &FindAddrOpts) -> (r: Result<Vec<SymInfo>, Error>)
        ensures
            addr_result_view(r) == self.addrs_of(name@, *opts),
    ;

    /// Finds the source position of `addr`.
    fn find_code_info(&self, addr: Addr, inlined_fns: bool) -> (r: Result<
        Option<AddrCodeInfo>,
        Error,
    >)
        ensures
            code_result_view(r) == self.location_of(addr, inlined_fns),
    ;
}

} // verus!
