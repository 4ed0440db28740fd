//! The errors of the library.
use vstd::prelude::*;

verus! {

/// `std::io::Error`, the error of the file operations that callers perform
/// around this library. It is carried, never inspected.
#[verifier::external_type_specification]
#[verifier::external_body]
pub struct ExIoError(std::io::Error);

/// `serde_json::Error`, the error of the JSON encoding that callers perform
/// around this library. It is carried, never inspected.
#[verifier::external_type_specification]
#[verifier::external_body]
pub struct ExJsonError(serde_json::Error);

/// The errors that can occur while parsing.
#[derive(Debug)]
pub enum ParserError {
    /// An I/O error occurred while reading the file.
    Io(std::io::Error),
    /// The file contains invalid or malformed data.
    InvalidData(String),
}

impl From<std::io::Error> for ParserError {
    fn from(err: std::io::Error) -> (r: Self) {
        ParserError::Io(err)
    }
}

impl vstd::std_specs::convert::FromSpecImpl<std::io::Error> for ParserError {
    open spec fn obeys_from_spec() -> bool {
        true
    }

    open spec fn from_spec(v: std::io::Error) -> ParserError {
        ParserError::Io(v)
    }
}

/// The errors of the scene operations.
#[derive(Debug)]
pub enum CrdError {
    /// An I/O error.
    Io(std::io::Error),
    /// A JSON encoding or decoding error.
    Json(serde_json::Error),
    /// A parsing error.
    Parser(ParserError),
    /// An index that refers to nothing.
    InvalidIndex(String),
    /// A file whose type could not be told from its name.
    UnknownFileType,
}

impl From<std::io::Error> for CrdError {
    fn from(err: std::io::Error) -> (r: Self) {
        CrdError::Io(err)
    }
}

impl vstd::std_specs::convert::FromSpecImpl<std::io::Error> for CrdError {
    open spec fn obeys_from_spec() -> bool {
        true
    }

    open spec fn from_spec(v: std::io::Error) -> CrdError {
        CrdError::Io(v)
    }
}

impl From<serde_json::Error> for CrdError {
    fn from(err: serde_json::Error) -> (r: Self) {
        CrdError::Json(err)
    }
}

impl vstd::std_specs::convert::FromSpecImpl<serde_json::Error> for CrdError {
    open spec fn obeys_from_spec() -> bool {
        true
    }

    open spec fn from_spec(v: serde_json::Error) -> CrdError {
        CrdError::Json(v)
    }
}

impl From<ParserError> for CrdError {
    fn from(err: ParserError) -> (r: Self) {
        CrdError::Parser(err)
    }
}

impl vstd::std_specs::convert::FromSpecImpl<ParserError> for CrdError {
    open spec fn obeys_from_spec() -> bool {
        true
    }

    open spec fn from_spec(v: ParserError) -> CrdError {
        CrdError::Parser(v)
    }
}

} // verus!
