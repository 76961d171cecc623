//! Errors reported by the library.
use vstd::prelude::*;

verus! {

/// What went wrong.
#[derive(Debug, Clone, Copy, PartialEq, Eq, Structural)]
pub enum ErrorKind {
    /// A number or an encoded value could not be read.
    ParseError,
    /// An argument is outside what the operation allows.
    InvalidArguments,
    /// A contract answered with a status above 400.
    ContractCodeGT400,
    /// The chain answered a call with an error header.
    ChainRPCError,
    /// The JSON encoder failed.
    JsonError,
    /// A base64 text could not be decoded.
    Base64Error,
    /// A hexadecimal text could not be decoded.
    HexError,
}

/// The result type of the library.
pub type Result<T> = core::result::Result<T, ErrorKind>;

}
