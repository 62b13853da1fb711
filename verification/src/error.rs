//! The closed error taxonomy of the engine. Construction-time failures
//! are detected while a template compiles; a compiled generator itself
//! fails only when a caller-supplied data source is missing.

use vstd::prelude::*;

verus! {

/// What went wrong, as contracts see it.
pub enum ErrView {
    /// Wrong argument count or unusable bounds for the named macro.
    Macro(Seq<char>),
    /// An argument could not be parsed as an integer.
    ParseInt,
    /// An argument could not be parsed as a calendar date.
    ParseDate,
    /// The compiler's trigger-prefix pattern is malformed.
    Pattern,
    /// A capability or file-backed data source is unavailable.
    Io(Seq<char>),
    /// A file could not be mapped into memory.
    MapFailed(Seq<char>),
    /// A corpus buffer is empty.
    EmptyCorpus,
}

/// What went wrong: macro construction, argument parsing, pattern
/// trouble, an unavailable data source, a failed file mapping, or an
/// empty corpus. The mapping failure arises only at the caller's
/// file-handling boundary; compilation itself never produces it.
#[derive(Debug)]
pub enum Error {
    Macro(String),
    ParseInt,
    ParseDate,
    Pattern,
    Io(String),
    MapFailed(String),
    EmptyCorpus,
}

impl View for Error {
    type V = ErrView;

    open spec fn view(&self) -> ErrView {
        match self {
            Error::Macro(name) => ErrView::Macro(name@),
            Error::ParseInt => ErrView::ParseInt,
            Error::ParseDate => ErrView::ParseDate,
            Error::Pattern => ErrView::Pattern,
            Error::Io(what) => ErrView::Io(what@),
            Error::MapFailed(what) => ErrView::MapFailed(what@),
            Error::EmptyCorpus => ErrView::EmptyCorpus,
        }
    }
}

} // verus!
