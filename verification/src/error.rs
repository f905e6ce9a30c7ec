//! The failure that every scanner and builtin reports.

use vstd::prelude::*;
use crate::span::Span;

verus! {

/// A message for the user and the source range it is about.
#[derive(Debug, PartialEq, Eq)]
pub struct Error {
    pub message: String,
    pub span: Span,
}

impl Error {
    pub fn new(message: String, span: Span) -> (r: Error)
        ensures
            r.message == message,
            r.span == span,
    {
        Error { message, span }
    }

    /// A failure whose message is a fixed text.
    pub fn from_text(message: &str, span: Span) -> (r: Error)
        ensures
            r.message@ == message@,
            r.span == span,
    {
        Error { message: String::from_str(message), span }
    }
}

} // verus!
