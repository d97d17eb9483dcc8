//! The error type of this crate.
use vstd::prelude::*;

verus! {

/// Why a CURIE could not be expanded.
#[derive(Clone, Copy, Debug, PartialEq, Eq, Structural)]
pub enum ExpansionError {
    /// The prefix is not declared (or no prefix mapping was given).
    Invalid,
    /// The CURIE has no prefix and no default prefix is declared.
    MissingDefault,
}

/// How an input failed to match the grammar.
#[derive(Clone, Copy, Debug, PartialEq, Eq, Structural)]
pub enum SyntaxError {
    /// The input does not start with the requested element.
    Invalid,
    /// The requested element was found, but input remains after it, from
    /// the given character position on.
    RemainingInput(usize),
}

/// A construct of the syntax that this library does not support.
#[derive(Clone, Copy, Debug, PartialEq, Eq, Structural)]
pub enum Unsupported {
    /// A chain of data properties in `DataSomeValuesFrom`.
    DataSomeValuesFromChain,
    /// A chain of data properties in `DataAllValuesFrom`.
    DataAllValuesFromChain,
}

/// The error type for this crate.
#[derive(Clone, Debug, PartialEq, Eq)]
pub enum Error {
    /// The input does not follow the grammar, or input remains after the
    /// element that was read.
    Syntax(SyntaxError),
    /// An error that happened at the I/O level, with its message.
    IO(String),
    /// A CURIE expansion went wrong: an undefined prefix, or an
    /// abbreviated IRI read without a prefix mapping.
    Expansion(ExpansionError),
    /// An unknown IRI was used as a facet.
    InvalidFacet(String),
    /// An unsupported construct was used.
    Unsupported(Unsupported),
}

/// Mathematical form of [`Error`].
pub enum SpecError {
    Syntax(SyntaxError),
    IO(Seq<char>),
    Expansion(ExpansionError),
    InvalidFacet(Seq<char>),
    Unsupported(Unsupported),
    /// An input on which reading stops without a result: a cardinality
    /// that does not fit in 32 bits, or a blank node as annotation value.
    Abort,
}

impl View for Error {
    type V = SpecError;

    open spec fn view(&self) -> SpecError {
        match self {
            Error::Syntax(e) => SpecError::Syntax(*e),
            Error::IO(m) => SpecError::IO(m@),
            Error::Expansion(e) => SpecError::Expansion(*e),
            Error::InvalidFacet(i) => SpecError::InvalidFacet(i@),
            Error::Unsupported(u) => SpecError::Unsupported(*u),
        }
    }
}

/// Why reading an element gave no value: an error, or a stop on an input
/// that has no value at all (see [`SpecError::Abort`]).
#[derive(Debug)]
pub enum Failure {
    Error(Error),
    Abort,
}

impl View for Failure {
    type V = SpecError;

    open spec fn view(&self) -> SpecError {
        match self {
            Failure::Error(e) => e@,
            Failure::Abort => SpecError::Abort,
        }
    }
}

} // verus!
