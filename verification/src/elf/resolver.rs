//! The resolver of one ELF file: a backend bound to the path of the file.
//!
//! A query goes to the debug records first, where the resolver has any, and
//! to the symbol table where they find nothing. A failure of the debug
//! records is the answer; the symbol table is not asked then.

use std::rc::Rc;

use vstd::prelude::*;

use crate::Addr;
use crate::dwarf::DebugInfo;
use crate::dwarf::DwarfResolver;
use crate::dwarf::debug_error;
use crate::dwarf::debug_strings;
use crate::dwarf::has_debug_sections;
use crate::elf::parser::ElfParser;
use crate::elf::parser::func_sym;
use crate::elf::parser::lemma_index_sorted;
use crate::elf::parser::lemma_no_owner_of_uncovered;
use crate::elf::parser::lemma_no_owner_past_last_symbol;
use crate::elf::parser::lemma_owner_of_covered_symbol;
use crate::elf::parser::owner_of;
use crate::elf::parser::parse_error;
use crate::elf::parser::places_of;
use crate::elf::parser::strtab;
use crate::elf::parser::symbol;
use crate::elf::parser::symbol_count;
use crate::elf::parser::symbol_index;
use crate::error::Error;
use crate::inspect::FindAddrOpts;
use crate::inspect::SymInfo;
use crate::inspect::SymInfoView;
use crate::inspect::addr_result_view;
use crate::inspect::syms_view;
use crate::resolver::SymResolver;
use crate::search::covers;
use crate::search::lemma_owner_covers;
use crate::search::lemma_owner_of_covered;
use crate::search::nearest_owner;
use crate::symbolize::AddrCodeInfo;
use crate::symbolize::AddrCodeInfoView;
use crate::symbolize::IntSym;
use crate::symbolize::IntSymView;
use crate::symbolize::SrcLang;
use crate::symbolize::code_result_view;
use crate::symbolize::sym_result_view;
use crate::text::section_text;

verus! {

/// What a resolver asks: either the symbol table alone, or the debug records
/// first and the symbol table behind them. The debug index holds the parser
/// of the symbol table itself, so both see one parse of the object.
pub enum ElfBackend {
    /// The debug records, with the parser that they share.
    Dwarf(Rc<DwarfResolver>),
    /// The symbol table alone.
    Elf(Rc<ElfParser>),
}

impl ElfBackend {
    /// The backend is well-formed.
    pub open spec fn wf(&self) -> bool {
        match self {
            ElfBackend::Dwarf(dwarf) => dwarf.wf(),
            ElfBackend::Elf(parser) => parser.wf(),
        }
    }

    /// The parser of the symbol table, which every backend has.
    pub open spec fn spec_parser(&self) -> &Rc<ElfParser> {
        match self {
            ElfBackend::Dwarf(dwarf) => dwarf.spec_parser(),
            ElfBackend::Elf(parser) => parser,
        }
    }

    /// The backend is the one to choose for an object with these debug
    /// records: the symbol table alone where no records were handed over or
    /// the object carries no debug information, and else the index of the
    /// records, which shares the parser.
    pub open spec fn chosen_for(&self, parser: Rc<ElfParser>, info: Option<DebugInfo>) -> bool {
        if info is Some && has_debug_sections(parser.image()) == Ok::<bool, Error>(true) {
            &&& self matches ElfBackend::Dwarf(dwarf)
            &&& dwarf.wf()
            &&& *dwarf.spec_parser() == parser
            &&& dwarf.functions() == info->0.functions@
            &&& dwarf.lines() == info->0.lines@
            &&& dwarf.inlined() == info->0.inlined@
        } else {
            *self == ElfBackend::Elf(parser)
        }
    }

    /// Why no backend can be chosen for an object with these debug records;
    /// `None` where one can. That the object carries no debug information is
    /// no fault: the records are then left aside.
    pub open spec fn choice_error(image: Seq<u8>, info: Option<DebugInfo>) -> Option<Error> {
        match info {
            None => None,
            Some(info) => match has_debug_sections(image) {
                Err(e) => Some(e),
                Ok(false) => None,
                Ok(true) => debug_error(image, info),
            },
        }
    }

    /// Chooses the backend for an object: the index of the debug records
    /// where records were handed over and the object carries debug
    /// information, the symbol table alone where not.
    pub fn select(parser: Rc<ElfParser>, info: Option<DebugInfo>) -> (r: Result<ElfBackend, Error>)
        ensures
            match r {
                Ok(backend) => Self::choice_error(parser.image(), info) is None
                    && backend.chosen_for(parser, info) && backend.wf(),
                Err(e) => Self::choice_error(parser.image(), info) == Some(e),
            },
    {
        proof {
            use_type_invariant(&parser);
        }
        let records: DebugInfo = match info {
            Some(records) => records,
            None => {
                return Ok(ElfBackend::Elf(parser));
            },
        };
        match DwarfResolver::available(&parser) {
            Err(e) => Err(e),
            Ok(false) => Ok(ElfBackend::Elf(parser)),
            Ok(true) => match DwarfResolver::from_parser(parser, records) {
                Ok(dwarf) => Ok(ElfBackend::Dwarf(Rc::new(dwarf))),
                Err(e) => Err(e),
            },
        }
    }
}

/// `places` with the path of the object put on each of them, in place of
/// whatever they carried.
pub open spec fn stamped(places: Seq<SymInfoView>, path: Seq<char>) -> Seq<SymInfoView> {
    places.map_values(
        |place: SymInfoView|
            SymInfoView {
                name: place.name,
                addr: place.addr,
                size: place.size,
                sym_type: place.sym_type,
                file_offset: place.file_offset,
                obj_file_name: Some(path),
            },
    )
}

/// The symbol resolver for a single ELF file.
///
/// It is bound to the path of the file when it is made and never changes.
pub struct ElfResolver {
    backend: ElfBackend,
    file_name: String,
}

impl ElfResolver {
    /// The backend that the resolver asks.
    pub closed spec fn backend(&self) -> ElfBackend {
        self.backend
    }

    /// The path of the ELF file that the resolver is bound to.
    pub closed spec fn path(&self) -> Seq<char> {
        self.file_name@
    }

    /// The parser of the symbol table.
    pub open spec fn spec_parser(&self) -> &Rc<ElfParser> {
        self.backend().spec_parser()
    }

    /// The bytes of the ELF file.
    pub open spec fn image(&self) -> Seq<u8> {
        self.spec_parser().image()
    }

    /// What holds of every resolver: its backend is well-formed.
    #[verifier::type_invariant]
    pub open spec fn wf(&self) -> bool {
        self.backend().wf()
    }

    /// Binds a backend to the path of the file that it was built on.
    pub fn with_backend(file_name: &str, backend: ElfBackend) -> (r: Result<ElfResolver, Error>)
        ensures
            r matches Ok(resolver) && resolver.wf() && resolver.backend() == backend
                && resolver.path() == file_name@,
    {
        proof {
            match &backend {
                ElfBackend::Dwarf(dwarf) => {
                    use_type_invariant(dwarf);
                },
                ElfBackend::Elf(parser) => {
                    use_type_invariant(parser);
                },
            }
        }
        Ok(ElfResolver { backend, file_name: file_name.to_owned() })
    }

    /// Builds a resolver on the bytes of the ELF file at `file_name`.
    ///
    /// The bytes are parsed once. Debug records that are handed over are
    /// asked first, where the object carries debug information. Fails where
    /// the bytes are no ELF file that the parser reads, or where the records
    /// are not sorted.
    pub fn from_bytes(file_name: &str, data: Vec<u8>, info: Option<DebugInfo>) -> (r: Result<
        ElfResolver,
        Error,
    >)
        ensures
            match r {
                Ok(resolver) => {
                    &&& parse_error(data@) is None
                    &&& ElfBackend::choice_error(data@, info) is None
                    &&& resolver.wf()
                    &&& resolver.image() == data@
                    &&& resolver.path() == file_name@
                    &&& resolver.backend().chosen_for(*resolver.spec_parser(), info)
                },
                Err(e) => match parse_error(data@) {
                    Some(fault) => e == fault,
                    None => ElfBackend::choice_error(data@, info) == Some(e),
                },
            },
    {
        let parser: ElfParser = match ElfParser::from_bytes(data) {
            Ok(parser) => parser,
            Err(e) => {
                return Err(e);
            },
        };
        let backend: ElfBackend = match ElfBackend::select(Rc::new(parser), info) {
            Ok(backend) => backend,
            Err(e) => {
                return Err(e);
            },
        };
        ElfResolver::with_backend(file_name, backend)
    }

    /// The parser of the symbol table: the backend itself, or the one that
    /// the debug index shares.
    #[verifier::when_used_as_spec(spec_parser)]
    pub fn parser(&self) -> (r: &Rc<ElfParser>)
        ensures
            r == self.spec_parser(),
    {
        match &self.backend {
            ElfBackend::Dwarf(dwarf) => dwarf.parser(),
            ElfBackend::Elf(parser) => parser,
        }
    }

    /// Retrieve the path to the ELF file represented by this resolver.
    pub fn file_name(&self) -> (r: &str)
        ensures
            r@ == self.path(),
    {
        self.file_name.as_str()
    }

    /// The places at which a function named `name` is defined, before the
    /// path of the object is put on them.
    ///
    /// The debug records are asked first, where there are any. A list of
    /// theirs that is not empty is the answer as it stands, and so is their
    /// failure. Only where their list is empty is the symbol table asked.
    pub open spec fn unstamped_addrs_of(&self, name: Seq<char>, opts: FindAddrOpts) -> Result<
        Seq<SymInfoView>,
        Error,
    > {
        match self.backend() {
            ElfBackend::Dwarf(dwarf) => match dwarf.places_of(name, opts) {
                Err(e) => Err(e),
                Ok(places) => if places.len() > 0 {
                    Ok(places)
                } else {
                    places_of(dwarf.image(), name, opts)
                },
            },
            ElfBackend::Elf(parser) => places_of(parser.image(), name, opts),
        }
    }

    /// Asks the backends for the places of `name`.
    fn find_addr_impl(&self, name: &str, opts: &FindAddrOpts) -> (r: Result<Vec<SymInfo>, Error>)
        ensures
            addr_result_view(r) == self.unstamped_addrs_of(name@, *opts),
    {
        match &self.backend {
            ElfBackend::Dwarf(dwarf) => {
                let syms: Vec<SymInfo> = match dwarf.find_addr(name, opts) {
                    Ok(syms) => syms,
                    Err(e) => {
                        return Err(e);
                    },
                };
                if syms.len() > 0 {
                    return Ok(syms);
                }
                dwarf.parser().find_addr(name, opts)
            },
            ElfBackend::Elf(parser) => parser.find_addr(name, opts),
        }
    }

    /// The tag that tells the two kinds of backend apart.
    pub open spec fn tag(&self) -> Seq<char> {
        match self.backend() {
            ElfBackend::Dwarf(_) => "DWARF "@,
            ElfBackend::Elf(_) => "ELF "@,
        }
    }

    /// How the resolver shows itself in diagnostics: the tag of its backend,
    /// then the path of its file.
    pub open spec fn label(&self) -> Seq<char> {
        self.tag() + self.path()
    }

    /// A text for diagnostics that tells the kind of the backend and the path
    /// of the file.
    pub fn describe(&self) -> (r: String)
        ensures
            r@ == self.label(),
    {
        let tag: &str = match &self.backend {
            ElfBackend::Dwarf(_) => "DWARF ",
            ElfBackend::Elf(_) => "ELF ",
        };
        tag.to_owned().concat(self.file_name.as_str())
    }
}

impl SymResolver for ElfResolver {
    /// The symbol that owns `addr`.
    ///
    /// The debug records are asked first, where there are any. What they
    /// find is the answer, and so is their failure. Only where they find
    /// nothing is the symbol table asked.
    open spec fn sym_of(&self, addr: u64) -> Result<Option<IntSymView>, Error> {
        match self.backend() {
            ElfBackend::Dwarf(dwarf) => match dwarf.owner_of(addr) {
                Err(e) => Err(e),
                Ok(Some(sym)) => Ok(Some(sym)),
                Ok(None) => owner_of(dwarf.image(), addr),
            },
            ElfBackend::Elf(parser) => owner_of(parser.image(), addr),
        }
    }

    /// Finds the symbol that owns `addr`.
    ///
    /// Returns `Ok(None)` where no function holds the address. Fails only
    /// where the name of the owner cannot be read.
    fn find_sym(&self, addr: Addr) -> (r: Result<Option<IntSym>, Error>)
        ensures
            sym_result_view(r) == self.sym_of(addr),
    {
        match &self.backend {
            ElfBackend::Dwarf(dwarf) => match dwarf.find_sym(addr) {
                Err(e) => Err(e),
                Ok(Some(sym)) => Ok(Some(sym)),
                Ok(None) => dwarf.parser().find_sym(addr),
            },
            ElfBackend::Elf(parser) => parser.find_sym(addr),
        }
    }

    /// The places at which a function named `name` is defined, each with
    /// the path of this resolver's object.
    open spec fn addrs_of(&self, name: Seq<char>, opts: FindAddrOpts) -> Result<
        Seq<SymInfoView>,
        Error,
    > {
        match self.unstamped_addrs_of(name, opts) {
            Ok(places) => Ok(stamped(places, self.path())),
            Err(e) => Err(e),
        }
    }

    /// Finds the places at which a function named `name` is defined.
    ///
    /// The list is empty where no function has the name. Every place names
    /// the file of this resolver as its object, whatever the backend put
    /// there.
    fn find_addr(&self, name: &str, opts: &FindAddrOpts) -> (r: Result<Vec<SymInfo>, Error>)
        ensures
            addr_result_view(r) == self.addrs_of(name@, *opts),
    {
        let syms: Vec<SymInfo> = match self.find_addr_impl(name, opts) {
            Ok(syms) => syms,
            Err(e) => {
                return Err(e);
            },
        };
        let mut out: Vec<SymInfo> = Vec::new();
        let mut i: usize = 0;
        while i < syms.len()
            invariant
                i <= syms.len(),
                out.len() == i,
                forall|k: int|
                    0 <= k < i ==> (#[trigger] out@[k])@ == stamped(syms_view(syms@), self.path())[k],
            decreases syms.len() - i,
        {
            let sym: &SymInfo = &syms[i];
            out.push(
                SymInfo {
                    name: sym.name.clone(),
                    addr: sym.addr,
                    size: sym.size,
                    sym_type: sym.sym_type,
                    file_offset: sym.file_offset,
                    obj_file_name: Some(self.file_name.clone()),
                },
            );
            i += 1;
        }
        assert(syms_view(out@) =~= stamped(syms_view(syms@), self.path()));
        Ok(out)
    }

    /// The source position of `addr`: what the debug records tell, and
    /// nothing where there are none.
    open spec fn location_of(&self, addr: u64, inlined_fns: bool) -> Result<
        Option<AddrCodeInfoView>,
        Error,
    > {
        match self.backend() {
            ElfBackend::Dwarf(dwarf) => dwarf.code_info_of(addr, inlined_fns),
            ElfBackend::Elf(_) => Ok(None),
        }
    }

    /// Finds the source position of `addr`.
    ///
    /// A symbol table knows no source positions: without debug records the
    /// answer is `Ok(None)` for every address.
    fn find_code_info(&self, addr: Addr, inlined_fns: bool) -> (r: Result<
        Option<AddrCodeInfo>,
        Error,
    >)
        ensures
            code_result_view(r) == self.location_of(addr, inlined_fns),
    {
        match &self.backend {
            ElfBackend::Dwarf(dwarf) => dwarf.find_code_info(addr, inlined_fns),
            ElfBackend::Elf(_) => Ok(None),
        }
    }
}

impl ElfResolver {
    /// The debug records own nothing at `addr`: there are none, or the
    /// function of their index nearest to `addr` from below does not cover
    /// it.
    pub open spec fn debug_owns_nothing(&self, addr: u64) -> bool {
        self.backend() matches ElfBackend::Dwarf(dwarf) ==> nearest_owner(dwarf.functions(), addr)
            is None
    }

    /// An address below the start of every function of the symbol table, at
    /// which the debug records own nothing, has no symbol, and the query
    /// does not fail.
    pub proof fn lemma_no_symbol_below_first(&self, addr: u64)
        requires
            self.wf(),
            self.debug_owns_nothing(addr),
            forall|i: int|
                0 <= i < symbol_count(self.image()) && (#[trigger] symbol(
                    self.image(),
                    i,
                )).is_function() ==> addr < symbol(self.image(), i).value,
        ensures
            self.sym_of(addr) == Ok::<Option<IntSymView>, Error>(None),
    {
        lemma_no_owner_of_uncovered(self.image(), addr);
    }

    /// An address at or above the end of the last function of the symbol
    /// table, at which the debug records own nothing, has no symbol, and the
    /// query does not fail. The last function is one that no function
    /// starts above; where several start with it, the address lies at or
    /// above the end of each.
    pub proof fn lemma_no_symbol_past_last(&self, last: int, addr: u64)
        requires
            self.wf(),
            self.debug_owns_nothing(addr),
            0 <= last < symbol_count(self.image()),
            symbol(self.image(), last).is_function(),
            forall|i: int|
                0 <= i < symbol_count(self.image()) && (#[trigger] symbol(
                    self.image(),
                    i,
                )).is_function() ==> symbol(self.image(), i).value <= symbol(
                    self.image(),
                    last,
                ).value,
            forall|i: int|
                0 <= i < symbol_count(self.image()) && (#[trigger] symbol(
                    self.image(),
                    i,
                )).is_function() && symbol(self.image(), i).value == symbol(
                    self.image(),
                    last,
                ).value ==> addr >= symbol(self.image(), i).value + symbol(self.image(), i).size,
        ensures
            self.sym_of(addr) == Ok::<Option<IntSymView>, Error>(None),
    {
        lemma_no_owner_past_last_symbol(self.image(), last, addr);
    }

    /// An address that no function of the symbol table covers, and at which
    /// the debug records own nothing, has no symbol, and the query does not
    /// fail.
    pub proof fn lemma_no_symbol_where_uncovered(&self, addr: u64)
        requires
            self.wf(),
            self.debug_owns_nothing(addr),
            forall|i: int|
                0 <= i < symbol_count(self.image()) && (#[trigger] symbol(
                    self.image(),
                    i,
                )).is_function() ==> !covers(func_sym(symbol(self.image(), i)), addr),
        ensures
            self.sym_of(addr) == Ok::<Option<IntSymView>, Error>(None),
    {
        lemma_no_owner_of_uncovered(self.image(), addr);
    }

    /// An address inside the range of function `i` of the symbol table, at
    /// which the debug records own nothing, resolves to the name and the
    /// start of that function, provided that no function that differs from
    /// it in start, size or name starts between its start and the address.
    /// The query fails only where the name cannot be read.
    pub proof fn lemma_symbol_of_covered(&self, i: int, addr: u64)
        requires
            self.wf(),
            self.debug_owns_nothing(addr),
            0 <= i < symbol_count(self.image()),
            symbol(self.image(), i).is_function(),
            covers(func_sym(symbol(self.image(), i)), addr),
            forall|j: int|
                0 <= j < symbol_count(self.image()) && (#[trigger] symbol(
                    self.image(),
                    j,
                )).is_function() ==> func_sym(symbol(self.image(), j)) == func_sym(
                    symbol(self.image(), i),
                ) || symbol(self.image(), j).value < symbol(self.image(), i).value || addr < symbol(
                    self.image(),
                    j,
                ).value,
        ensures
            self.sym_of(addr) == match section_text(
                self.image(),
                strtab(self.image()),
                symbol(self.image(), i).name as int,
            ) {
                Ok(name) => Ok::<Option<IntSymView>, Error>(
                    Some(
                        IntSymView {
                            name,
                            addr: symbol(self.image(), i).value,
                            size: Some(symbol(self.image(), i).size),
                            lang: SrcLang::Unknown,
                        },
                    ),
                ),
                Err(e) => Err(e),
            },
    {
        lemma_owner_of_covered_symbol(self.image(), i, addr);
    }

    /// A symbol that is returned for an address covers the address: it
    /// starts at or below it and, where its size is known, ends above it.
    pub proof fn lemma_symbol_covers_addr(&self, addr: u64)
        requires
            self.wf(),
        ensures
            self.sym_of(addr) matches Ok(Some(sym)) ==> sym.covers(addr),
    {
        lemma_index_sorted(self.image());
        lemma_owner_covers(symbol_index(self.image()), addr);
        match self.backend() {
            ElfBackend::Dwarf(dwarf) => {
                dwarf.lemma_index_is_sound();
                lemma_owner_covers(dwarf.functions(), addr);
            },
            ElfBackend::Elf(_) => {},
        }
    }

    /// With debug records, an address that function `k` of their index
    /// covers resolves to the name, the start and the language of that
    /// function, provided that no function of the index that differs from
    /// it starts between its start and the address. The symbol table is not
    /// asked. The query fails only where the name cannot be read.
    pub proof fn lemma_debug_symbol_of_covered(&self, dwarf: Rc<DwarfResolver>, k: int, addr: u64)
        requires
            self.wf(),
            self.backend() == ElfBackend::Dwarf(dwarf),
            0 <= k < dwarf.functions().len(),
            covers(dwarf.functions()[k], addr),
            forall|j: int|
                0 <= j < dwarf.functions().len() ==> (#[trigger] dwarf.functions()[j])
                    == dwarf.functions()[k] || dwarf.functions()[j].addr < dwarf.functions()[k].addr
                    || addr < dwarf.functions()[j].addr,
        ensures
            self.sym_of(addr) == match section_text(
                self.image(),
                debug_strings(self.image()),
                dwarf.functions()[k].name as int,
            ) {
                Ok(name) => Ok::<Option<IntSymView>, Error>(
                    Some(
                        IntSymView {
                            name,
                            addr: dwarf.functions()[k].addr,
                            size: dwarf.functions()[k].size,
                            lang: dwarf.functions()[k].lang,
                        },
                    ),
                ),
                Err(e) => Err(e),
            },
    {
        dwarf.lemma_index_is_sound();
        lemma_owner_of_covered(dwarf.functions(), dwarf.functions()[k], addr);
    }

    /// Where the debug records own an address, their symbol is the answer:
    /// it carries the language that the debug records declare for the
    /// function, and the symbol table is not asked.
    pub proof fn lemma_debug_symbol_wins(&self, dwarf: Rc<DwarfResolver>, sym: IntSymView, addr: u64)
        requires
            self.wf(),
            self.backend() == ElfBackend::Dwarf(dwarf),
            dwarf.owner_of(addr) == Ok::<Option<IntSymView>, Error>(Some(sym)),
        ensures
            self.sym_of(addr) == Ok::<Option<IntSymView>, Error>(Some(sym)),
            nearest_owner(dwarf.functions(), addr) matches Some(func) && sym.lang == func.lang,
    {
    }

    /// A failure of the debug records is the answer: the symbol table does
    /// not cover it up.
    pub proof fn lemma_debug_failure_surfaces(
        &self,
        dwarf: Rc<DwarfResolver>,
        addr: u64,
        inlined_fns: bool,
        name: Seq<char>,
        opts: FindAddrOpts,
    )
        requires
            self.wf(),
            self.backend() == ElfBackend::Dwarf(dwarf),
        ensures
            dwarf.owner_of(addr) matches Err(e) ==> self.sym_of(addr) == Err::<
                Option<IntSymView>,
                Error,
            >(e),
            dwarf.places_of(name, opts) matches Err(e) ==> self.addrs_of(name, opts) == Err::<
                Seq<SymInfoView>,
                Error,
            >(e),
            dwarf.code_info_of(addr, inlined_fns) matches Err(e) ==> self.location_of(
                addr,
                inlined_fns,
            ) == Err::<Option<AddrCodeInfoView>, Error>(e),
    {
    }

    /// A list of places that the debug records find is the answer as it
    /// stands: places that only the symbol table knows are not added.
    pub proof fn lemma_debug_places_win(
        &self,
        dwarf: Rc<DwarfResolver>,
        places: Seq<SymInfoView>,
        name: Seq<char>,
        opts: FindAddrOpts,
    )
        requires
            self.wf(),
            self.backend() == ElfBackend::Dwarf(dwarf),
            dwarf.places_of(name, opts) == Ok::<Seq<SymInfoView>, Error>(places),
            places.len() > 0,
        ensures
            self.addrs_of(name, opts) == Ok::<Seq<SymInfoView>, Error>(
                stamped(places, self.path()),
            ),
    {
    }

    /// Without debug records, the language of every symbol is unknown.
    pub proof fn lemma_baseline_language_unknown(&self, addr: u64)
        requires
            self.wf(),
            self.backend() is Elf,
        ensures
            self.sym_of(addr) matches Ok(Some(sym)) ==> sym.lang == SrcLang::Unknown,
    {
    }

    /// Every place that a lookup by name returns names the file of this
    /// resolver as its object.
    pub proof fn lemma_places_name_own_file(&self, name: Seq<char>, opts: FindAddrOpts)
        requires
            self.wf(),
        ensures
            self.addrs_of(name, opts) matches Ok(places) ==> forall|i: int|
                0 <= i < places.len() ==> (#[trigger] places[i]).obj_file_name == Some(self.path()),
    {
    }

    /// Two resolvers on one backend, bound to different paths, find the same
    /// places, and each puts its own path on them.
    pub proof fn lemma_shared_backend_own_stamp(
        &self,
        other: &ElfResolver,
        name: Seq<char>,
        opts: FindAddrOpts,
    )
        requires
            self.wf(),
            other.wf(),
            self.backend() == other.backend(),
        ensures
            match (self.addrs_of(name, opts), other.addrs_of(name, opts)) {
                (Ok(mine), Ok(theirs)) => {
                    &&& mine.len() == theirs.len()
                    &&& forall|i: int|
                        0 <= i < mine.len() ==> {
                            &&& (#[trigger] mine[i]).obj_file_name == Some(self.path())
                            &&& theirs[i].obj_file_name == Some(other.path())
                            &&& mine[i].name == theirs[i].name
                            &&& mine[i].addr == theirs[i].addr
                            &&& mine[i].size == theirs[i].size
                            &&& mine[i].file_offset == theirs[i].file_offset
                        }
                },
                (Err(mine), Err(theirs)) => mine == theirs,
                _ => false,
            },
    {
    }

    /// The text for diagnostics starts with the tag of the backend and ends
    /// with the path of the file. The tag of a symbol table starts with `E`,
    /// that of debug records with `D`.
    pub proof fn lemma_label_shape(&self)
        ensures
            self.tag().is_prefix_of(self.label()),
            self.path().is_suffix_of(self.label()),
            self.backend() is Elf ==> self.tag() == "ELF "@ && self.label()[0] == 'E',
            self.backend() is Dwarf ==> self.tag() == "DWARF "@ && self.label()[0] == 'D',
    {
        reveal_strlit("ELF ");
        reveal_strlit("DWARF ");
        let label = self.label();
        assert(label.subrange(0, self.tag().len() as int) =~= self.tag());
        assert(label.subrange(label.len() - self.path().len(), label.len() as int) =~= self.path());
    }

    /// Without debug records, no address has a source position, and the
    /// query does not fail.
    pub proof fn lemma_no_code_info_without_debug(&self, addr: u64, inlined_fns: bool)
        requires
            self.wf(),
            self.backend() is Elf,
        ensures
            self.location_of(addr, inlined_fns) == Ok::<Option<AddrCodeInfoView>, Error>(None),
    {
    }
}

} // verus!
