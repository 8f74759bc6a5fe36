//! The index of the debug records of an object.
//!
//! The records are functions, rows of the line table and inlined calls, as
//! a decoder of the debug sections hands them over. The index keeps them in
//! address order and answers the queries of a resolver from them. It tells
//! the language of a function and the source position of an address, which
//! a symbol table cannot.

use std::rc::Rc;

use vstd::prelude::*;

use crate::Addr;
use crate::elf::parser::ElfParser;
use crate::elf::parser::places_from;
use crate::elf::parser::section_named;
use crate::elf::parser::sections;
use crate::elf::types::Shdr;
use crate::error::Error;
use crate::inspect::FindAddrOpts;
use crate::inspect::SymInfo;
use crate::inspect::SymInfoView;
use crate::inspect::SymType;
use crate::inspect::addr_result_view;
use crate::search::Entry;
use crate::search::Located;
use crate::search::find_owner;
use crate::search::is_sorted;
use crate::search::nearest_owner;
use crate::search::rank;
use crate::search::sorted;
use crate::search::upper_bound;
use crate::symbolize::AddrCodeInfo;
use crate::symbolize::AddrCodeInfoView;
use crate::symbolize::CodeInfo;
use crate::symbolize::CodeInfoView;
use crate::symbolize::InlinedFn;
use crate::symbolize::InlinedFnView;
use crate::symbolize::IntSym;
use crate::symbolize::IntSymView;
use crate::symbolize::SrcLang;
use crate::symbolize::code_result_view;
use crate::symbolize::sym_result_view;
use crate::text::read_text;
use crate::text::section_text;

verus! {

/// A function as the debug information describes it.
#[derive(Clone, Copy, Debug, PartialEq, Eq, Structural)]
pub struct DebugFn {
    /// Offset of the function's name in the debug string section.
    pub name: u64,
    /// The address at which the function starts.
    pub addr: Addr,
    /// The size of the function in bytes, where the debug information
    /// records where the function ends.
    pub size: Option<u64>,
    /// The language that the function's compilation unit declares.
    pub lang: SrcLang,
}

impl Located for DebugFn {
    open spec fn start(&self) -> u64 {
        self.addr
    }

    fn start_addr(&self) -> (r: u64) {
        self.addr
    }
}

impl Entry for DebugFn {
    open spec fn name_ref(&self) -> u64 {
        self.name
    }

    open spec fn extent(&self) -> Option<u64> {
        self.size
    }

    fn name_offset(&self) -> (r: u64) {
        self.name
    }

    fn size(&self) -> (r: Option<u64>) {
        self.size
    }
}

/// A row of the line table: from `addr` up to the next row, the code stems
/// from the given place of the source.
#[derive(Clone, Copy, Debug, PartialEq, Eq, Structural)]
pub struct LineRow {
    /// The address of the first instruction that the row describes.
    pub addr: Addr,
    /// Offset of the source file's path in the debug string section.
    pub file: u64,
    /// The line, counted from one, where it is known.
    pub line: Option<u32>,
    /// The column, counted from one, where it is known.
    pub column: Option<u16>,
}

impl Located for LineRow {
    open spec fn start(&self) -> u64 {
        self.addr
    }

    fn start_addr(&self) -> (r: u64) {
        self.addr
    }
}

/// A call whose callee was inlined into the code at `[addr, addr + size)`.
#[derive(Clone, Copy, Debug, PartialEq, Eq, Structural)]
pub struct InlinedCall {
    /// Offset of the callee's name in the debug string section.
    pub name: u64,
    /// The address of the first instruction of the inlined code.
    pub addr: Addr,
    /// The size of the inlined code in bytes.
    pub size: u64,
    /// Offset, in the debug string section, of the path of the source file
    /// that holds the call.
    pub call_file: u64,
    /// The line of the call, where it is known.
    pub call_line: Option<u32>,
    /// The column of the call, where it is known.
    pub call_column: Option<u16>,
}

impl Located for InlinedCall {
    open spec fn start(&self) -> u64 {
        self.addr
    }

    fn start_addr(&self) -> (r: u64) {
        self.addr
    }
}

impl InlinedCall {
    /// The address lies in the code that the callee was inlined to.
    pub open spec fn covers(self, addr: u64) -> bool {
        self.addr <= addr && addr - self.addr < self.size
    }

    /// Tells whether the address lies in the code that the callee was
    /// inlined to.
    pub fn contains(&self, addr: Addr) -> (r: bool)
        ensures
            r == self.covers(addr),
    {
        self.addr <= addr && addr - self.addr < self.size
    }
}

/// The decoded debug records of one object.
///
/// Decoding the debug sections is not this library's work: whoever decodes
/// them hands the records over in this form. Names and paths stay in the
/// object's debug string section and are referred to by their offsets.
pub struct DebugInfo {
    /// The functions, in ascending order of their addresses.
    pub functions: Vec<DebugFn>,
    /// The rows of the line table, in ascending order of their addresses.
    pub lines: Vec<LineRow>,
    /// The inlined calls, in ascending order of their addresses, each one
    /// behind the calls that enclose it.
    pub inlined: Vec<InlinedCall>,
}

impl DebugInfo {
    /// No records at all.
    pub fn new() -> (r: DebugInfo)
        ensures
            r.functions@ == Seq::<DebugFn>::empty(),
            r.lines@ == Seq::<LineRow>::empty(),
            r.inlined@ == Seq::<InlinedCall>::empty(),
    {
        DebugInfo { functions: Vec::new(), lines: Vec::new(), inlined: Vec::new() }
    }
}

/// The header of the section that debug records take their strings from.
pub open spec fn debug_strings(image: Seq<u8>) -> Shdr {
    match section_named(image, ".debug_str"@) {
        Ok(Some(i)) => sections(image)[i],
        _ => arbitrary(),
    }
}

/// Whether the object carries debug information: a `.debug_info` and a
/// `.debug_str` section. Fails where the names of the sections cannot be
/// read.
#[verifier::opaque]
pub open spec fn has_debug_sections(image: Seq<u8>) -> Result<bool, Error> {
    match section_named(image, ".debug_info"@) {
        Err(e) => Err(e),
        Ok(None) => Ok(false),
        Ok(Some(_)) => match section_named(image, ".debug_str"@) {
            Err(e) => Err(e),
            Ok(None) => Ok(false),
            Ok(Some(_)) => Ok(true),
        },
    }
}

/// The functions, the rows and the inlined calls are each sorted by address.
pub open spec fn records_sorted(info: DebugInfo) -> bool {
    sorted(info.functions@) && sorted(info.lines@) && sorted(info.inlined@)
}

/// Why no debug index can be built on the object with these records; `None`
/// where one can. The object has to carry debug information, and the
/// records have to be sorted.
pub open spec fn debug_error(image: Seq<u8>, info: DebugInfo) -> Option<Error> {
    match has_debug_sections(image) {
        Err(e) => Some(e),
        Ok(false) => Some(Error::NoDebugInfo),
        Ok(true) => if records_sorted(info) {
            None
        } else {
            Some(Error::InvalidInput)
        },
    }
}

/// The position that a row of the line table gives.
pub open spec fn row_position(file: Seq<char>, row: LineRow) -> CodeInfoView {
    CodeInfoView { file, line: row.line, column: row.column }
}

/// The position of an inlined call.
pub open spec fn call_position(file: Seq<char>, call: InlinedCall) -> CodeInfoView {
    CodeInfoView { file, line: call.call_line, column: call.call_column }
}

/// Walks the first `n` inlined calls from the last to the first, which is
/// from the innermost to the outermost, and follows those that cover `addr`
/// and start at or above `floor`, the start of the function that owns
/// `addr`.
///
/// `position` is the place inside the innermost function found so far. At a
/// call that is followed, the place of the call becomes the position inside
/// the caller; where `keep` is set, the callee is reported with the position
/// that was inside it, behind the callees in `seen`, and its name is read
/// for that. What is left at the end is the position inside the function
/// that was not inlined.
pub open spec fn unwind(
    image: Seq<u8>,
    strings: Shdr,
    calls: Seq<InlinedCall>,
    addr: u64,
    floor: u64,
    keep: bool,
    n: nat,
    position: CodeInfoView,
    seen: Seq<InlinedFnView>,
) -> Result<AddrCodeInfoView, Error>
    decreases n,
{
    if n == 0 {
        Ok(AddrCodeInfoView { direct: position, inlined: seen })
    } else {
        let call = calls[n - 1];
        if !call.covers(addr) || call.addr < floor {
            unwind(image, strings, calls, addr, floor, keep, (n - 1) as nat, position, seen)
        } else {
            match section_text(image, strings, call.call_file as int) {
                Err(e) => Err(e),
                Ok(file) => if !keep {
                    unwind(
                        image,
                        strings,
                        calls,
                        addr,
                        floor,
                        keep,
                        (n - 1) as nat,
                        call_position(file, call),
                        seen,
                    )
                } else {
                    match section_text(image, strings, call.name as int) {
                        Err(e) => Err(e),
                        Ok(name) => unwind(
                            image,
                            strings,
                            calls,
                            addr,
                            floor,
                            keep,
                            (n - 1) as nat,
                            call_position(file, call),
                            seen.push(InlinedFnView { name, code_info: position }),
                        ),
                    }
                },
            }
        }
    }
}

/// Once a call starts below the floor, the walk is over: the calls before
/// it start below the floor too.
proof fn lemma_unwind_below_floor(
    image: Seq<u8>,
    strings: Shdr,
    calls: Seq<InlinedCall>,
    addr: u64,
    floor: u64,
    keep: bool,
    n: nat,
    position: CodeInfoView,
    seen: Seq<InlinedFnView>,
)
    requires
        sorted(calls),
        n <= calls.len(),
        n > 0 ==> calls[n - 1].addr < floor,
    ensures
        unwind(image, strings, calls, addr, floor, keep, n, position, seen) == Ok::<
            AddrCodeInfoView,
            Error,
        >(AddrCodeInfoView { direct: position, inlined: seen }),
    decreases n,
{
    if n > 0 {
        if n > 1 {
            assert(calls[n - 2].start() <= calls[n - 1].start());
        }
        lemma_unwind_below_floor(
            image,
            strings,
            calls,
            addr,
            floor,
            keep,
            (n - 1) as nat,
            position,
            seen,
        );
    }
}

/// The inlined functions of a list as mathematical values.
pub open spec fn inlined_view(fns: Seq<InlinedFn>) -> Seq<InlinedFnView> {
    fns.map_values(|f: InlinedFn| f@)
}

/// An address-ordered index of the debug records of one object.
///
/// It shares the parser of the object, whose bytes it reads names and paths
/// from, with whoever else holds it.
pub struct DwarfResolver {
    parser: Rc<ElfParser>,
    strings: Shdr,
    info: DebugInfo,
}

impl DwarfResolver {
    /// The parser that the index shares.
    pub closed spec fn spec_parser(&self) -> &Rc<ElfParser> {
        &self.parser
    }

    /// The bytes of the object file.
    pub open spec fn image(&self) -> Seq<u8> {
        self.spec_parser().image()
    }

    /// The functions of the index.
    pub closed spec fn functions(&self) -> Seq<DebugFn> {
        self.info.functions@
    }

    /// The rows of the line table.
    pub closed spec fn lines(&self) -> Seq<LineRow> {
        self.info.lines@
    }

    /// The inlined calls.
    pub closed spec fn inlined(&self) -> Seq<InlinedCall> {
        self.info.inlined@
    }

    /// What holds of every index: its parser is well-formed, the object has
    /// the debug sections, and the records are sorted.
    #[verifier::type_invariant]
    pub closed spec fn wf(&self) -> bool {
        &&& self.parser.wf()
        &&& debug_error(self.parser.image(), self.info) is None
        &&& self.strings == debug_strings(self.parser.image())
    }

    /// An index exists only on a well-formed parser, on an object that
    /// carries debug information, and on sorted records.
    pub proof fn lemma_index_is_sound(&self)
        requires
            self.wf(),
        ensures
            self.spec_parser().wf(),
            has_debug_sections(self.image()) == Ok::<bool, Error>(true),
            sorted(self.functions()),
            sorted(self.lines()),
            sorted(self.inlined()),
    {
    }

    /// Tells whether the object that `parser` has parsed carries debug
    /// information, so that a debug index can be built on it.
    pub fn available(parser: &ElfParser) -> (r: Result<bool, Error>)
        ensures
            r == has_debug_sections(parser.image()),
    {
        reveal(has_debug_sections);
        match parser.find_section(".debug_info") {
            Err(e) => {
                return Err(e);
            },
            Ok(None) => {
                return Ok(false);
            },
            Ok(Some(_)) => {},
        }
        match parser.find_section(".debug_str") {
            Err(e) => Err(e),
            Ok(None) => Ok(false),
            Ok(Some(_)) => Ok(true),
        }
    }

    /// Builds the index of the debug records `info` of the object that
    /// `parser` has parsed.
    ///
    /// Fails with `NoDebugInfo` where the object has no `.debug_info` or no
    /// `.debug_str` section, and with `InvalidInput` where the functions,
    /// the rows or the inlined calls are not sorted by address.
    pub fn from_parser(parser: Rc<ElfParser>, info: DebugInfo) -> (r: Result<DwarfResolver, Error>)
        ensures
            match r {
                Ok(index) => {
                    &&& index.wf()
                    &&& *index.spec_parser() == parser
                    &&& index.functions() == info.functions@
                    &&& index.lines() == info.lines@
                    &&& index.inlined() == info.inlined@
                    &&& debug_error(parser.image(), info) is None
                },
                Err(e) => debug_error(parser.image(), info) == Some(e),
            },
    {
        proof {
            use_type_invariant(&parser);
            reveal(has_debug_sections);
        }
        match parser.find_section(".debug_info") {
            Err(e) => {
                return Err(e);
            },
            Ok(None) => {
                return Err(Error::NoDebugInfo);
            },
            Ok(Some(_)) => {},
        }
        let strings: Shdr = match parser.find_section(".debug_str") {
            Err(e) => {
                return Err(e);
            },
            Ok(None) => {
                return Err(Error::NoDebugInfo);
            },
            Ok(Some(i)) => parser.section(i),
        };
        if !is_sorted(&info.functions) || !is_sorted(&info.lines) || !is_sorted(&info.inlined) {
            return Err(Error::InvalidInput);
        }
        Ok(DwarfResolver { parser, strings, info })
    }

    /// The parser that the index shares.
    #[verifier::when_used_as_spec(spec_parser)]
    pub fn parser(&self) -> (r: &Rc<ElfParser>)
        ensures
            r == self.spec_parser(),
    {
        &self.parser
    }

    /// The symbol that owns `addr`, as the debug records tell it: the
    /// function nearest to `addr` from below, if it covers the address, with
    /// the language of its compilation unit.
    pub open spec fn owner_of(&self, addr: u64) -> Result<Option<IntSymView>, Error> {
        match nearest_owner(self.functions(), addr) {
            None => Ok(None),
            Some(func) => match section_text(
                self.image(),
                debug_strings(self.image()),
                func.name as int,
            ) {
                Ok(name) => Ok(
                    Some(IntSymView { name, addr: func.addr, size: func.size, lang: func.lang }),
                ),
                Err(e) => Err(e),
            },
        }
    }

    /// Finds the function that owns `addr`.
    ///
    /// Returns `Ok(None)` where the nearest function at or below `addr` does
    /// not reach it, or there is no such function. Fails only where the name
    /// of the owner cannot be read.
    pub fn find_sym(&self, addr: Addr) -> (r: Result<Option<IntSym>, Error>)
        ensures
            sym_result_view(r) == self.owner_of(addr),
    {
        proof {
            use_type_invariant(self);
        }
        let func: DebugFn = match find_owner(&self.info.functions, addr) {
            Some(func) => *func,
            None => {
                return Ok(None);
            },
        };
        match read_text(self.parser.bytes(), &self.strings, func.name) {
            Ok(name) => Ok(Some(IntSym { name, addr: func.addr, size: func.size, lang: func.lang })),
            Err(e) => Err(e),
        }
    }

    /// The places at which the debug records define a function named `name`,
    /// in ascending order of their addresses. Variables cannot be looked up.
    pub open spec fn places_of(&self, name: Seq<char>, opts: FindAddrOpts) -> Result<
        Seq<SymInfoView>,
        Error,
    > {
        if opts.sym_type == SymType::Variable {
            Err(Error::Unsupported)
        } else {
            places_from(
                self.image(),
                debug_strings(self.image()),
                self.functions(),
                name,
                opts.offset_in_file,
                0,
            )
        }
    }

    /// Finds the places at which a function named `name` is defined.
    ///
    /// The list is empty where no function has the name. Fails where `opts`
    /// asks for variables, or where the name of a function cannot be read.
    pub fn find_addr(&self, name: &str, opts: &FindAddrOpts) -> (r: Result<Vec<SymInfo>, Error>)
        ensures
            addr_result_view(r) == self.places_of(name@, *opts),
    {
        proof {
            use_type_invariant(self);
        }
        if let SymType::Variable = opts.sym_type {
            return Err(Error::Unsupported);
        }
        self.parser.find_places(&self.strings, &self.info.functions, name, opts.offset_in_file)
    }

    /// The source position of `addr`.
    ///
    /// There is one where a function owns the address and a row of the line
    /// table, inside that function, stands at or below the address. The
    /// nearest such row tells the place of the code. Where calls inside the
    /// function were inlined at the address, that place lies in the
    /// innermost callee, and the position inside the owner is the place of
    /// the outermost call.
    /// Where `inlined_fns` is set, the callees are reported too, innermost
    /// first.
    pub open spec fn code_info_of(&self, addr: u64, inlined_fns: bool) -> Result<
        Option<AddrCodeInfoView>,
        Error,
    > {
        let strings = debug_strings(self.image());
        match nearest_owner(self.functions(), addr) {
            None => Ok(None),
            Some(func) => {
                let n = rank(self.lines(), addr);
                if n == 0 || self.lines()[n - 1].addr < func.addr {
                    Ok(None)
                } else {
                    let row = self.lines()[n - 1];
                    match section_text(self.image(), strings, row.file as int) {
                        Err(e) => Err(e),
                        Ok(file) => match unwind(
                            self.image(),
                            strings,
                            self.inlined(),
                            addr,
                            func.addr,
                            inlined_fns,
                            rank(self.inlined(), addr),
                            row_position(file, row),
                            Seq::empty(),
                        ) {
                            Ok(info) => Ok(Some(info)),
                            Err(e) => Err(e),
                        },
                    }
                }
            },
        }
    }

    /// Finds the source position of `addr`.
    ///
    /// Returns `Ok(None)` where no function owns the address or the line
    /// table has no row for it. Without `inlined_fns` the answer is the
    /// position inside the function that owns the address and nothing else.
    /// Fails only where a path, or the name of an inlined function that is
    /// to be reported, cannot be read.
    pub fn find_code_info(&self, addr: Addr, inlined_fns: bool) -> (r: Result<
        Option<AddrCodeInfo>,
        Error,
    >)
        ensures
            code_result_view(r) == self.code_info_of(addr, inlined_fns),
    {
        proof {
            use_type_invariant(self);
        }
        let func: DebugFn = match find_owner(&self.info.functions, addr) {
            Some(func) => *func,
            None => {
                return Ok(None);
            },
        };
        let n: usize = upper_bound(&self.info.lines, addr);
        if n == 0 {
            return Ok(None);
        }
        let row: LineRow = self.info.lines[n - 1];
        if row.addr < func.addr {
            return Ok(None);
        }
        let data: &[u8] = self.parser.bytes();
        let file: String = match read_text(data, &self.strings, row.file) {
            Ok(file) => file,
            Err(e) => {
                return Err(e);
            },
        };
        let mut position = CodeInfo { file, line: row.line, column: row.column };
        let mut inlined: Vec<InlinedFn> = Vec::new();
        assert(inlined_view(inlined@) =~= Seq::empty());
        let mut i: usize = upper_bound(&self.info.inlined, addr);
        while i > 0 && self.info.inlined[i - 1].addr >= func.addr
            invariant
                self.wf(),
                data@ == self.image(),
                i <= self.info.inlined.len(),
                self.code_info_of(addr, inlined_fns) == match unwind(
                    self.image(),
                    self.strings,
                    self.inlined(),
                    addr,
                    func.addr,
                    inlined_fns,
                    i as nat,
                    position@,
                    inlined_view(inlined@),
                ) {
                    Ok(info) => Ok::<Option<AddrCodeInfoView>, Error>(Some(info)),
                    Err(e) => Err(e),
                },
            decreases i,
        {
            i -= 1;
            let call: InlinedCall = self.info.inlined[i];
            if call.contains(addr) {
                let file: String = match read_text(data, &self.strings, call.call_file) {
                    Ok(file) => file,
                    Err(e) => {
                        return Err(e);
                    },
                };
                let outer = CodeInfo { file, line: call.call_line, column: call.call_column };
                if inlined_fns {
                    let name: String = match read_text(data, &self.strings, call.name) {
                        Ok(name) => name,
                        Err(e) => {
                            return Err(e);
                        },
                    };
                    let inner = InlinedFn { name, code_info: position };
                    proof {
                        assert(inlined_view(inlined@.push(inner)) =~= inlined_view(inlined@).push(
                            inner@,
                        ));
                    }
                    inlined.push(inner);
                }
                position = outer;
            }
        }
        proof {
            lemma_unwind_below_floor(
                self.image(),
                self.strings,
                self.inlined(),
                addr,
                func.addr,
                inlined_fns,
                i as nat,
                position@,
                inlined_view(inlined@),
            );
        }
        Ok(Some(AddrCodeInfo { direct: position, inlined }))
    }
}

} // verus!
