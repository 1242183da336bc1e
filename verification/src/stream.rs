use vstd::prelude::*;

use crate::error::{ExecutionError, GraphQLError};
use crate::value::{Object, Value};

verus! {

/// The result of executing a subscription: a value whose scalars are streams, with the
/// field errors met on the way, or the error that stopped the request.
pub type StreamOutcome<T, S> = Result<(Value<T>, Vec<ExecutionError<S>>), GraphQLError>;

/// Wrapper around the result of executing a GraphQL subscription, whose scalars `T`
/// are streams of values.
#[derive(Debug)]
pub struct StreamGraphQLResponse<T, S>(StreamOutcome<T, S>);

/// What a subscription response is turned into a stream of responses from: a single
/// stream, or an object whose fields each hold a stream.
#[derive(Debug)]
pub enum StreamSource<T> {
    Single(T),
    Fields(Object<T>),
}

/// Errors that can be returned when a subscription response is turned into a stream.
#[derive(Debug, PartialEq)]
pub enum StreamError<S> {
    /// The execution met field errors.
    Execution(Vec<ExecutionError<S>>),
    /// The request was stopped.
    GraphQL(GraphQLError),
    /// The value was null.
    NullValue,
    /// The value was a list, which cannot be streamed yet.
    ListValue,
    /// The value was an object without fields.
    EmptyObject,
}

/// What a subscription outcome is turned into: field errors come first, then a stopped
/// request, then the shape of the value decides.
pub open spec fn stream_source_of<T, S>(outcome: StreamOutcome<T, S>) -> Result<StreamSource<T>, StreamError<S>> {
    match outcome {
        Ok((v, errors)) => if errors@.len() != 0 {
            Err(StreamError::Execution(errors))
        } else {
            match v {
                Value::Null => Err(StreamError::NullValue),
                Value::Scalar(t) => Ok(StreamSource::Single(t)),
                Value::List(_) => Err(StreamError::ListValue),
                Value::Object(o) => if o.entries().len() == 0 {
                    Err(StreamError::EmptyObject)
                } else {
                    Ok(StreamSource::Fields(o))
                },
            }
        },
        Err(e) => Err(StreamError::GraphQL(e)),
    }
}

/// Field errors decide first: an executed outcome with any field error gives exactly
/// those errors as `Execution`, whatever the value's shape.
pub proof fn law_field_errors_come_first<T, S>(value: Value<T>, errors: Vec<ExecutionError<S>>)
    requires
        errors@.len() > 0,
    ensures
        stream_source_of(Ok::<(Value<T>, Vec<ExecutionError<S>>), GraphQLError>((value, errors)))
            == Err::<StreamSource<T>, StreamError<S>>(StreamError::Execution(errors)),
{
}

/// A stopped request gives its error as `GraphQL`; a clean outcome is streamed from its
/// value: a scalar as the single stream it holds, an object with fields as its fields,
/// and null, a list or an empty object as the matching error.
pub proof fn law_clean_outcome_by_shape<T, S>(value: Value<T>, errors: Vec<ExecutionError<S>>, e: GraphQLError)
    requires
        errors@.len() == 0,
    ensures
        stream_source_of(Err::<(Value<T>, Vec<ExecutionError<S>>), GraphQLError>(e))
            == Err::<StreamSource<T>, StreamError<S>>(StreamError::GraphQL(e)),
        ({
            let r = stream_source_of(Ok::<(Value<T>, Vec<ExecutionError<S>>), GraphQLError>((value, errors)));
            match value {
                Value::Null => r == Err::<StreamSource<T>, StreamError<S>>(StreamError::NullValue),
                Value::Scalar(t) => r == Ok::<StreamSource<T>, StreamError<S>>(StreamSource::Single(t)),
                Value::List(_) => r == Err::<StreamSource<T>, StreamError<S>>(StreamError::ListValue),
                Value::Object(o) => if o.entries().len() == 0 {
                    r == Err::<StreamSource<T>, StreamError<S>>(StreamError::EmptyObject)
                } else {
                    r == Ok::<StreamSource<T>, StreamError<S>>(StreamSource::Fields(o))
                },
            }
        }),
{
}

impl<T, S> StreamGraphQLResponse<T, S> {
    /// What the response holds.
    pub closed spec fn outcome(&self) -> StreamOutcome<T, S> {
        self.0
    }

    /// Constructs a subscription response from an execution outcome.
    pub fn from_result(r: StreamOutcome<T, S>) -> (res: Self)
        ensures
            res.outcome() == r,
    {
        StreamGraphQLResponse(r)
    }

    /// Hands out what the response holds.
    pub fn into_inner(self) -> (r: StreamOutcome<T, S>)
        ensures
            r == self.outcome(),
    {
        self.0
    }

    /// Decides what stream the response becomes: field errors, a stopped request, a
    /// null, a list or an empty object are errors; a scalar is a single stream, and an
    /// object is a set of field streams to be merged.
    pub fn into_stream_source(self) -> (r: Result<StreamSource<T>, StreamError<S>>)
        ensures
            r == stream_source_of(self.outcome()),
    {
        match self.0 {
            Ok((v, errors)) => {
                if errors.len() != 0 {
                    return Err(StreamError::Execution(errors));
                }
                match v {
                    Value::Null => Err(StreamError::NullValue),
                    Value::Scalar(t) => Ok(StreamSource::Single(t)),
                    Value::List(_) => Err(StreamError::ListValue),
                    Value::Object(o) => {
                        if o.field_count() == 0 {
                            Err(StreamError::EmptyObject)
                        } else {
                            Ok(StreamSource::Fields(o))
                        }
                    },
                }
            },
            Err(e) => Err(StreamError::GraphQL(e)),
        }
    }
}

} // verus!
