//! The error returned by decoding and by row queries.

use vstd::prelude::*;

verus! {

/// What went wrong.
#[derive(Clone, Copy, Debug, PartialEq, Eq, Structural)]
pub enum XMErrorKind {
    /// The byte buffer could not be obtained.
    Io,
    /// The data is not a well-formed version 1.04 module.
    Format,
    /// The requested row lies beyond the last row.
    RowOutOfRange,
    /// The requested effect identifier names no effect.
    InvalidEffect,
}

/// An error with its kind and a message for people.
#[derive(Debug)]
pub struct XMParseError {
    kind: XMErrorKind,
    why: String,
}

impl XMParseError {
    /// Makes an error of the given kind that carries `reason` as its message.
    pub fn new(kind: XMErrorKind, reason: &str) -> (e: XMParseError)
        ensures
            e.kind() == kind,
            e.message() == reason@,
    {
        XMParseError { kind, why: reason.to_owned() }
    }

    /// The message as a sequence of characters.
    pub closed spec fn message(&self) -> Seq<char> {
        self.why@
    }

    /// The kind of the error, for use in contracts.
    pub closed spec fn spec_kind(&self) -> XMErrorKind {
        self.kind
    }

    /// The kind of the error.
    #[verifier::when_used_as_spec(spec_kind)]
    pub fn kind(&self) -> (k: XMErrorKind)
        ensures
            k == self.spec_kind(),
    {
        self.kind
    }

    /// The message of the error.
    pub fn description(&self) -> (s: String)
        ensures
            s@ == self.message(),
    {
        self.why.clone()
    }
}

/// Calls `format!` to word the message for a row that a track of `len` rows
/// does not have. Nothing is claimed of the text.
#[verifier::external_body]
pub(crate) fn row_message(row: usize, len: usize) -> String {
    format!("Row {} does not exist in pattern, pattern length = {} rows.", row, len)
}

/// Calls `format!` to word the message for an identifier that names no
/// effect. Nothing is claimed of the text.
#[verifier::external_body]
pub(crate) fn effect_message(fx_command: u8) -> String {
    format!("Invalid fx command {} requested.", fx_command)
}

} // verus!
