use vstd::prelude::*;

use crate::value::Value;

verus! {

/// A place in a query document.
#[derive(Debug, Clone, Copy, PartialEq, Eq)]
pub struct SourcePosition {
    pub index: usize,
    pub line: usize,
    pub col: usize,
}

impl SourcePosition {
    /// The position at the very start of a document.
    pub fn new_origin() -> (p: Self)
        ensures
            p.index == 0,
            p.line == 0,
            p.col == 0,
    {
        SourcePosition { index: 0, line: 0, col: 0 }
    }
}

/// An error raised while resolving a field: a message and extra data for the client.
#[derive(Debug, PartialEq)]
pub struct FieldError<S> {
    pub message: String,
    pub extensions: Value<S>,
}

impl<S> FieldError<S> {
    /// Creates a field error.
    pub fn new(message: String, extensions: Value<S>) -> (e: Self)
        ensures
            e.message == message,
            e.extensions == extensions,
    {
        FieldError { message, extensions }
    }
}

/// A field error together with where it arose: a position in the document and the
/// path of field names that leads to it.
#[derive(Debug, PartialEq)]
pub struct ExecutionError<S> {
    pub location: SourcePosition,
    pub path: Vec<String>,
    pub error: FieldError<S>,
}

impl<S> ExecutionError<S> {
    /// An execution error located at the start of the document, with an empty path.
    pub fn at_origin(error: FieldError<S>) -> (e: Self)
        ensures
            e.location.index == 0 && e.location.line == 0 && e.location.col == 0,
            e.path@.len() == 0,
            e.error == error,
    {
        ExecutionError { location: SourcePosition::new_origin(), path: Vec::new(), error }
    }
}

/// An error that stops a request before any field is resolved.
#[derive(Debug, PartialEq, Eq)]
pub enum GraphQLError {
    ParseError(String),
    ValidationError(Vec<String>),
    NoOperationProvided,
    MultipleOperationsProvided,
    UnknownOperationName,
    IsSubscription,
}

} // verus!
