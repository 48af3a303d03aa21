//! Results and errors shared by every parser of the crate.
use vstd::prelude::*;

verus! {

/// Identifies the parser that rejected an input.
#[derive(Debug, PartialEq, Eq, Clone, Copy)]
pub enum ErrorKind {
    Tag,
    Char,
    OneOf,
    NoneOf,
    Alpha,
    Digit,
    HexDigit,
    OctDigit,
    AlphaNumeric,
    Space,
    MultiSpace,
    CrLf,
    Eof,
}

/// How much more input a streaming parser needs before it can decide.
#[derive(Debug, PartialEq, Eq, Clone, Copy)]
pub enum Needed {
    /// The amount is not known.
    Unknown,
    /// At least this many more items.
    Size(usize),
}

/// Why a parser did not succeed.
#[derive(Debug, PartialEq, Eq, Clone)]
pub enum ParseErr<E> {
    /// The input ended before the parser could decide.
    Incomplete(Needed),
    /// The parser rejected the input; another branch may be tried.
    Error(E),
    /// The parser rejected the input and no other branch should be tried.
    Failure(E),
}

/// The result of a parser: the remaining input and the output, or why it failed.
pub type IResult<I, O, E = (I, ErrorKind)> = Result<(I, O), ParseErr<E>>;

/// How the error value of a parser is built from the input at which it failed.
pub trait ParseError<I>: Sized {
    /// The error built for `input` rejected by the parser named by `kind`.
    spec fn spec_from_error_kind(input: I, kind: ErrorKind) -> Self;

    /// The error built for `input` that did not start with the character `c`.
    spec fn spec_from_char(input: I, c: char) -> Self;

    fn from_error_kind(input: I, kind: ErrorKind) -> (e: Self)
        ensures
            e == Self::spec_from_error_kind(input, kind),
    ;

    fn from_char(input: I, c: char) -> (e: Self)
        ensures
            e == Self::spec_from_char(input, c),
    ;
}

/// The default error: the input at which the parser failed, and which parser it was.
impl<I> ParseError<I> for (I, ErrorKind) {
    open spec fn spec_from_error_kind(input: I, kind: ErrorKind) -> Self {
        (input, kind)
    }

    open spec fn spec_from_char(input: I, c: char) -> Self {
        (input, ErrorKind::Char)
    }

    fn from_error_kind(input: I, kind: ErrorKind) -> (e: Self) {
        (input, kind)
    }

    fn from_char(input: I, c: char) -> (e: Self) {
        (input, ErrorKind::Char)
    }
}

} // verus!
