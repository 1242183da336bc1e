use vstd::prelude::*;

use crate::error::{ExecutionError, FieldError, GraphQLError};
use crate::value::Value;

verus! {

/// The result of executing a query: the data with the field errors met on the way,
/// or the error that stopped the request.
pub type ExecutionOutcome<S> = Result<(Value<S>, Vec<ExecutionError<S>>), GraphQLError>;

/// Whether an outcome is data with an empty list of field errors.
pub open spec fn is_clean_data<S>(outcome: ExecutionOutcome<S>, data: Value<S>) -> bool {
    match outcome {
        Ok((d, errors)) => d == data && errors@.len() == 0,
        Err(_) => false,
    }
}

/// The result of executing a GraphQL query, ready to be sent to a client.
///
/// `is_ok` tells whether to answer with status 200 or 400; an OK response may
/// still carry field errors.
#[derive(Debug, PartialEq)]
pub struct GraphQLResponse<S>(ExecutionOutcome<S>);

/// One member of the JSON object that a response is serialised as.
#[derive(Debug)]
pub enum ResponseEntry<'r, S> {
    /// `"data"`: the data of a response that was executed.
    Data(&'r Value<S>),
    /// `"errors"`: the field errors of a response that was executed.
    Errors(&'r Vec<ExecutionError<S>>),
    /// `"errors"`: the error that stopped a request.
    Error(&'r GraphQLError),
}

/// The member name of an entry.
pub open spec fn entry_key<'r, S>(e: ResponseEntry<'r, S>) -> Seq<char> {
    match e {
        ResponseEntry::Data(_) => "data"@,
        ResponseEntry::Errors(_) => "errors"@,
        ResponseEntry::Error(_) => "errors"@,
    }
}

/// The member names of the JSON object an outcome is written as, in order.
pub open spec fn member_keys<S>(outcome: ExecutionOutcome<S>) -> Seq<Seq<char>> {
    match outcome {
        Ok((_, errors)) => if errors@.len() == 0 {
            seq!["data"@]
        } else {
            seq!["data"@, "errors"@]
        },
        Err(_) => seq!["errors"@],
    }
}

/// A response is written with a `"data"` member exactly when it is OK, and with an
/// `"errors"` member exactly when the request was stopped or met field errors.
pub proof fn law_response_members<S>(outcome: ExecutionOutcome<S>)
    ensures
        member_keys(outcome).contains("data"@) <==> outcome is Ok,
        member_keys(outcome).contains("errors"@) <==> match outcome {
            Ok((_, errors)) => errors@.len() > 0,
            Err(_) => true,
        },
{
    reveal_strlit("data");
    reveal_strlit("errors");
    assert("data"@ != "errors"@) by {
        assert("data"@[0] != "errors"@[0]);
    }
    match outcome {
        Ok((_, errors)) => {
            if errors@.len() == 0 {
                assert(seq!["data"@][0] == "data"@);
            } else {
                assert(seq!["data"@, "errors"@][0] == "data"@);
                assert(seq!["data"@, "errors"@][1] == "errors"@);
            }
        },
        Err(_) => {
            assert(seq!["errors"@][0] == "errors"@);
        },
    }
}

impl<'r, S> ResponseEntry<'r, S> {
    /// The member name under which the entry is written.
    pub fn key(&self) -> (k: &'static str)
        ensures
            k@ == entry_key(*self),
    {
        match self {
            ResponseEntry::Data(_) => "data",
            ResponseEntry::Errors(_) => "errors",
            ResponseEntry::Error(_) => "errors",
        }
    }
}

/// The JSON object a response is written as: its members in order, and the number of
/// members announced to the serializer before they are written, where it is announced.
#[derive(Debug)]
pub struct SerializedResponse<'r, S> {
    pub size_hint: Option<usize>,
    pub entries: Vec<ResponseEntry<'r, S>>,
}

impl<S> GraphQLResponse<S> {
    /// What the response holds.
    pub closed spec fn outcome(&self) -> ExecutionOutcome<S> {
        self.0
    }

    /// Constructs a response from an execution outcome.
    pub fn from_result(r: ExecutionOutcome<S>) -> (res: Self)
        ensures
            res.outcome() == r,
    {
        GraphQLResponse(r)
    }

    /// Constructs an error response outside of the normal execution flow: null data
    /// and the given error as the single field error, located at the origin.
    pub fn error(error: FieldError<S>) -> (res: Self)
        ensures
            res.outcome() is Ok,
            res.outcome()->Ok_0.0 == Value::<S>::Null,
            res.outcome()->Ok_0.1@.len() == 1,
            res.outcome()->Ok_0.1@[0].location.index == 0,
            res.outcome()->Ok_0.1@[0].location.line == 0,
            res.outcome()->Ok_0.1@[0].location.col == 0,
            res.outcome()->Ok_0.1@[0].path@.len() == 0,
            res.outcome()->Ok_0.1@[0].error == error,
    {
        let mut errors: Vec<ExecutionError<S>> = Vec::new();
        errors.push(ExecutionError::at_origin(error));
        GraphQLResponse(Ok((Value::Null, errors)))
    }

    /// Was the request successful or not? An OK response may still hold field errors.
    pub fn is_ok(&self) -> (b: bool)
        ensures
            b == self.outcome() is Ok,
    {
        self.0.is_ok()
    }

    /// Hands out what the response holds.
    pub fn into_result(self) -> (r: ExecutionOutcome<S>)
        ensures
            r == self.outcome(),
    {
        self.0
    }

    /// The JSON object the response is written as. An executed request gives `"data"`,
    /// then `"errors"` only where there are field errors, with no announced size; a
    /// request that was stopped gives `"errors"` alone, announced as one member.
    pub fn serialized(&self) -> (m: SerializedResponse<'_, S>)
        ensures
            match self.outcome() {
                Ok((data, errors)) => {
                    &&& m.size_hint is None
                    &&& m.entries@ == if errors@.len() == 0 {
                        seq![ResponseEntry::Data(&data)]
                    } else {
                        seq![ResponseEntry::Data(&data), ResponseEntry::Errors(&errors)]
                    }
                },
                Err(e) => {
                    &&& m.size_hint == Some(1usize)
                    &&& m.entries@ == seq![ResponseEntry::<S>::Error(&e)]
                },
            },
            m.entries@.map_values(|e: ResponseEntry<'_, S>| entry_key(e)) == member_keys(self.outcome()),
    {
        let mut entries: Vec<ResponseEntry<'_, S>> = Vec::new();
        match &self.0 {
            Ok((data, errors)) => {
                entries.push(ResponseEntry::Data(data));
                if errors.len() != 0 {
                    entries.push(ResponseEntry::Errors(errors));
                }
                SerializedResponse { size_hint: None, entries }
            },
            Err(e) => {
                entries.push(ResponseEntry::Error(e));
                SerializedResponse { size_hint: Some(1), entries }
            },
        }
    }

    /// The response sent for one item of a subscription stream: the value as data with
    /// no field errors, or, for an item that failed, a stopped request.
    pub fn from_stream_item<E>(item: Result<Value<S>, E>) -> (res: Self)
        ensures
            match item {
                Ok(v) => is_clean_data(res.outcome(), v),
                Err(_) => res.outcome() == Err::<(Value<S>, Vec<ExecutionError<S>>), GraphQLError>(
                    GraphQLError::IsSubscription,
                ),
            },
    {
        match item {
            Ok(v) => GraphQLResponse(Ok((v, Vec::new()))),
            Err(_) => GraphQLResponse(Err(GraphQLError::IsSubscription)),
        }
    }
}

} // verus!
