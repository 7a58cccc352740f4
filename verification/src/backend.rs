//! Parsed-binary backends.
//!
//! A backend is a shared, immutable-once-built handle to one parsed binary:
//! either a plain structural parse, or a structural parse enhanced with
//! debug-format resolution capability. Backends are reference-counted so the
//! cache and any number of outstanding normalization results can hold the
//! same in-memory parse at once; dropping the cache's reference never
//! invalidates a handle already given out.
//!
//! The structural parsing and the debug-format decoding themselves are
//! outside collaborators; a parser value here carries, as plain data, what
//! the rest of this library reads from a parse: the binary's build
//! identifier, if one was found.

use std::rc::Rc;

use vstd::prelude::*;

verus! {

/// Relies on `Rc::clone` of std: the returned handle refers to the same
/// allocation, so the pointed-to value is unchanged.
#[verifier::external_body]
pub(crate) fn rc_share<T>(v: &Rc<T>) -> (r: Rc<T>)
    ensures
        r == *v,
{
    Rc::clone(v)
}

/// The queryable result of structurally parsing one binary file.
///
/// Holds as plain values what this library reads from a parse: the binary's
/// native build identifier (raw bytes, not hex-encoded), if one is present.
/// If present, it is non-empty.
#[derive(Debug)]
pub struct ElfParser {
    /// The build identifier embedded in the binary, if any.
    pub build_id: Option<Vec<u8>>,
}

impl ElfParser {
    /// Well-formedness: a build identifier, when present, is non-empty.
    pub open spec fn wf(&self) -> bool {
        self.build_id matches Some(id) ==> id@.len() > 0
    }

    /// Package the facts read from one structural parse.
    pub fn new(build_id: Option<Vec<u8>>) -> (p: ElfParser)
        requires
            (build_id matches Some(id) ==> id@.len() > 0),
        ensures
            p.build_id == build_id,
            p.wf(),
    {
        ElfParser { build_id }
    }
}

/// A structural parse enhanced with debug-format resolution capability,
/// configured by the two build-time options fixed for the owning cache's
/// lifetime.
#[derive(Debug)]
pub struct DwarfResolver {
    /// The underlying structural parse.
    pub parser: Rc<ElfParser>,
    /// Whether line-number information was requested when building.
    pub line_number_info: bool,
    /// Whether debug-format symbol information was requested when building.
    pub debug_info_symbols: bool,
}

impl DwarfResolver {
    /// Wrap a structural parse with debug-format resolution, configured by
    /// the two options.
    pub fn from_parser(parser: Rc<ElfParser>, line_number_info: bool, debug_info_symbols: bool) -> (d:
        DwarfResolver)
        ensures
            d.parser == parser,
            d.line_number_info == line_number_info,
            d.debug_info_symbols == debug_info_symbols,
    {
        DwarfResolver { parser, line_number_info, debug_info_symbols }
    }

    /// The underlying structural parse.
    pub fn get_parser(&self) -> (p: &Rc<ElfParser>)
        ensures
            *p == self.parser,
    {
        &self.parser
    }
}

/// What a backend freshly built from `parser` looks like: a debug-format
/// resolver around the parse, configured by the two options, when
/// debug-format resolution is enabled; the bare structural parse otherwise.
pub open spec fn is_backend_for(
    b: ElfBackend,
    parser: ElfParser,
    debug_format: bool,
    line_number_info: bool,
    debug_info_symbols: bool,
) -> bool {
    if debug_format {
        &&& b matches ElfBackend::Dwarf(d)
        &&& d.parser == parser
        &&& d.line_number_info == line_number_info
        &&& d.debug_info_symbols == debug_info_symbols
    } else {
        b matches ElfBackend::Elf(p) && p == parser
    }
}

/// A shared handle to one parsed binary, with or without debug-format
/// resolution capability.
#[derive(Debug)]
pub enum ElfBackend {
    /// A parse enhanced with debug-format resolution.
    Dwarf(Rc<DwarfResolver>),
    /// A plain structural parse.
    Elf(Rc<ElfParser>),
}

impl ElfBackend {
    /// The debug-format resolver of this backend, if it has one.
    pub fn to_dwarf(&self) -> (r: Option<Rc<DwarfResolver>>)
        ensures
            (match *self {
                ElfBackend::Dwarf(d) => r matches Some(rd) && rd == d,
                ElfBackend::Elf(_) => r is None,
            }),
    {
        if let ElfBackend::Dwarf(dwarf) = self {
            Some(rc_share(dwarf))
        } else {
            None
        }
    }

    /// Whether this backend carries debug-format resolution capability.
    pub fn is_dwarf(&self) -> (r: bool)
        ensures
            r == (self matches ElfBackend::Dwarf(_)),
    {
        matches!(self, ElfBackend::Dwarf(_))
    }

    /// A new shared handle to the same parse.
    pub fn share(&self) -> (b: ElfBackend)
        ensures
            b == *self,
    {
        match self {
            ElfBackend::Dwarf(d) => ElfBackend::Dwarf(rc_share(d)),
            ElfBackend::Elf(p) => ElfBackend::Elf(rc_share(p)),
        }
    }

    /// The build identifier of the binary this backend parsed, if any.
    pub fn build_id(&self) -> (r: &Option<Vec<u8>>)
        ensures
            (match *self {
                ElfBackend::Dwarf(d) => *r == d.parser.build_id,
                ElfBackend::Elf(p) => *r == p.build_id,
            }),
    {
        match self {
            ElfBackend::Dwarf(d) => &d.parser.build_id,
            ElfBackend::Elf(p) => &p.build_id,
        }
    }
}

} // verus!
