//! Library-agnostic building blocks for serving GraphQL over HTTP: the request
//! document, the response wrapper and its serialised shape, and the state
//! machine that merges per-field subscription streams into whole responses.

pub mod value;
pub mod error;
pub mod input;
pub mod request;
pub mod response;
pub mod stream;
pub mod object_stream;
