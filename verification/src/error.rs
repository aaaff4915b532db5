//! The error kinds of the query language and of the storage driver.
use vstd::prelude::*;

verus! {

/// A lexical error, with the byte offset at which the offending token begins
#[derive(Debug, Clone, Copy, PartialEq, Eq, Structural)]
pub enum LexError {
    /// A string or binary literal opened at this offset is never closed
    UnterminatedString(usize),
    /// The number that begins at this offset is malformed or out of range
    BadNumber(usize),
    /// The bytes at this offset begin like a token but are none
    UnknownToken(usize),
    /// No token can begin with the byte at this offset
    UnexpectedByte(usize),
    /// A literal begins at this offset, and the lexer was told to accept none
    LiteralNotAllowed(usize),
}

/// The outcome of lexing
pub type LexResult<T> = Result<T, LexError>;

/// A syntax error
#[derive(Debug, Clone, Copy, PartialEq, Eq, Structural)]
pub enum LangError {
    /// The token stream is too short to hold a statement
    UnexpectedEOS,
    /// The statement ends where more of it is needed
    UnexpectedEndofStatement,
    /// No statement begins with these tokens
    ExpectedStatement,
    /// An entity name was needed
    ExpectedEntity,
    /// A token stands where the grammar allows another or none
    UnexpectedToken,
    /// `create` is followed by neither `model` nor `space`
    StmtUnknownCreate,
    /// `alter` is followed by neither `model` nor `space`
    StmtUnknownAlter,
    /// A placeholder stands where no parameter is left for it, or parameters are left over
    ParameterCountMismatch,
}

/// The outcome of parsing
pub type LangResult<T> = Result<T, LangError>;

/// Whether `r` is the outcome `expected`: the error that it names, or a value that amounts
/// to the one that it names
pub open spec fn agrees<T: View>(r: LangResult<T>, expected: Result<T::V, LangError>) -> bool {
    match expected {
        Ok(v) => r matches Ok(x) && x@ == v,
        Err(e) => r matches Err(x) && x == e,
    }
}

/// `std::io::Error`, of which nothing is known here: it is carried from the raw file to
/// the caller.
#[verifier::external_type_specification]
#[verifier::external_body]
pub struct ExIoError(std::io::Error);

/// A storage error
#[derive(Debug)]
pub enum SDSSError {
    /// The operating system failed an operation on the file
    IoError(std::io::Error),
    /// The file does not begin with a header of this format
    CorruptedHeader,
    /// The header is that of a file of another scope, specifier or specifier version
    HeaderMismatch,
    /// The file ends before the bytes asked for
    ShortRead,
    /// The modify counter of the header cannot be raised any further
    ModifyCounterExhausted,
}

/// The outcome of a storage operation
pub type SDSSResult<T> = Result<T, SDSSError>;

} // verus!
