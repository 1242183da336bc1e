use vstd::prelude::*;

use crate::input::{
    deep_cloned, first_names, input_object_map, lemma_first_names, lemma_last_occurrence_wins, lemma_object_names,
    InputValue, Variables,
};
use crate::response::{ExecutionOutcome, GraphQLResponse};

verus! {

/// The text of an optional name.
pub open spec fn name_text(name: Option<String>) -> Option<Seq<char>> {
    match name {
        Some(n) => Some(n@),
        None => None,
    }
}

/// The text of an optional borrowed name.
pub open spec fn str_text(name: Option<&str>) -> Option<Seq<char>> {
    match name {
        Some(n) => Some(n@),
        None => None,
    }
}

/// The variables a request defines: those of its variables object, none otherwise.
pub open spec fn request_variables<S>(variables: Option<InputValue<S>>) -> Map<Seq<char>, InputValue<S>> {
    match variables {
        Some(InputValue::Object(fields)) => input_object_map(fields@),
        _ => Map::empty(),
    }
}

/// Variables that are absent, or a value that is not an object, define no variables: two
/// requests with the same query and operation name whose variables are each absent or
/// not an object are handed to the schema by `execute` as the same query, operation name
/// and empty variables.
pub proof fn law_non_object_variables_act_as_none<S>(a: GraphQLRequest<S>, b: GraphQLRequest<S>)
    requires
        a.query_spec()@ == b.query_spec()@,
        name_text(a.operation_name_spec()) == name_text(b.operation_name_spec()),
        !(a.variables_spec() matches Some(InputValue::Object(_))),
        !(b.variables_spec() matches Some(InputValue::Object(_))),
    ensures
        request_variables(a.variables_spec()) == Map::<Seq<char>, InputValue<S>>::empty(),
        request_variables(a.variables_spec()) == request_variables(b.variables_spec()),
{
}

/// The names of the variables a request defines, in the order of their first occurrence.
pub open spec fn request_variable_names<S>(variables: Option<InputValue<S>>) -> Seq<Seq<char>> {
    match variables {
        Some(InputValue::Object(fields)) => first_names(fields@),
        _ => Seq::empty(),
    }
}

/// What the variables of an object are, whatever its length: every field name is a
/// variable, with the value of the field's last occurrence; no other name is a variable;
/// and the names are listed once each.
pub proof fn law_object_variables<S>(fields: Vec<(String, InputValue<S>)>)
    ensures
        forall|i: int|
            0 <= i < fields@.len() && (forall|j: int| i < j < fields@.len() ==> #[trigger] fields@[j].0@ != fields@[i].0@)
                ==> {
                    &&& #[trigger] request_variables(Some(InputValue::Object(fields))).dom().contains(fields@[i].0@)
                    &&& request_variables(Some(InputValue::Object(fields)))[fields@[i].0@] == fields@[i].1
                },
        forall|k: Seq<char>|
            #[trigger] request_variables(Some(InputValue::Object(fields))).dom().contains(k)
                <==> exists|i: int| 0 <= i < fields@.len() && fields@[i].0@ == k,
        forall|k: Seq<char>|
            #[trigger] request_variable_names(Some(InputValue::Object(fields))).contains(k)
                <==> exists|i: int| 0 <= i < fields@.len() && fields@[i].0@ == k,
        forall|a: int, b: int|
            0 <= a < b < request_variable_names(Some(InputValue::Object(fields))).len()
                ==> #[trigger] request_variable_names(Some(InputValue::Object(fields)))[a]
                    != #[trigger] request_variable_names(Some(InputValue::Object(fields)))[b],
{
    lemma_first_names(fields@);
    assert forall|i: int|
        0 <= i < fields@.len() && (forall|j: int| i < j < fields@.len() ==> #[trigger] fields@[j].0@ != fields@[i].0@)
        implies {
            &&& #[trigger] request_variables(Some(InputValue::Object(fields))).dom().contains(fields@[i].0@)
            &&& request_variables(Some(InputValue::Object(fields)))[fields@[i].0@] == fields@[i].1
        } by {
        lemma_last_occurrence_wins(fields@, i);
    }
    assert forall|k: Seq<char>|
        #[trigger] request_variables(Some(InputValue::Object(fields))).dom().contains(k)
        <==> exists|i: int| 0 <= i < fields@.len() && fields@[i].0@ == k by {
        lemma_object_names(fields@, k);
    }
}

/// A schema that executes queries: implemented by the application over its own
/// resolvers and context type.
pub trait GraphQLSchema<CtxT, S> {
    /// Executes a query document as the named operation, with the given variables and context.
    fn execute_query(
        &self,
        query: &str,
        operation_name: Option<&str>,
        variables: &Variables<S>,
        context: &CtxT,
    ) -> ExecutionOutcome<S>;
}

/// The decoded document of a GraphQL request, for either POST or GET: the query, the
/// name of the operation to run, and the variables.
#[derive(Debug, PartialEq)]
pub struct GraphQLRequest<S> {
    query: String,
    operation_name: Option<String>,
    variables: Option<InputValue<S>>,
}

impl<S> GraphQLRequest<S> {
    /// The query document.
    pub closed spec fn query_spec(&self) -> String {
        self.query
    }

    /// The name of the operation to run, if one is named.
    pub closed spec fn operation_name_spec(&self) -> Option<String> {
        self.operation_name
    }

    /// The variables value, if one is given.
    pub closed spec fn variables_spec(&self) -> Option<InputValue<S>> {
        self.variables
    }

    /// Constructs a new GraphQL request from parts.
    pub fn new(query: String, operation_name: Option<String>, variables: Option<InputValue<S>>) -> (r: Self)
        ensures
            r.query_spec() == query,
            r.operation_name_spec() == operation_name,
            r.variables_spec() == variables,
    {
        GraphQLRequest { query, operation_name, variables }
    }

    /// Returns the query document.
    pub fn query(&self) -> (q: &str)
        ensures
            q@ == self.query_spec()@,
    {
        self.query.as_str()
    }

    /// Returns the name of the operation to run, if one is named.
    pub fn operation_name(&self) -> (n: Option<&str>)
        ensures
            str_text(n) == name_text(self.operation_name_spec()),
    {
        match &self.operation_name {
            Some(name) => Some(name.as_str()),
            None => None,
        }
    }

    /// The variables of the request: the fields of its variables object, each name with
    /// the value of its last occurrence; none where there is no variables object.
    pub fn variables(&self) -> (v: Variables<'_, S>)
        ensures
            v@ == request_variables(self.variables_spec()),
            v.names() == request_variable_names(self.variables_spec()),
    {
        let defined = match &self.variables {
            Some(value) => value.to_object_value(),
            None => None,
        };
        match defined {
            Some(v) => v,
            None => Variables::new(),
        }
    }

    /// Executes the request against `root_node` with `context`: the schema is handed the
    /// query, the operation name and the variables of the request, and its answer becomes
    /// the response.
    pub fn execute<CtxT, R: GraphQLSchema<CtxT, S>>(&self, root_node: &R, context: &CtxT) -> (res: GraphQLResponse<S>)
        ensures
            exists|query: &str, operation_name: Option<&str>, variables: Variables<S>|
                {
                    &&& query@ == self.query_spec()@
                    &&& str_text(operation_name) == name_text(self.operation_name_spec())
                    &&& variables@ == request_variables(self.variables_spec())
                    &&& call_ensures(
                        R::execute_query,
                        (root_node, query, operation_name, &variables, context),
                        res.outcome(),
                    )
                },
    {
        let variables = self.variables();
        let run = R::execute_query;
        let outcome = run(root_node, self.query.as_str(), self.operation_name(), &variables, context);
        GraphQLResponse::from_result(outcome)
    }

    /// Hands out the query, the operation name and the variables value.
    pub fn into_parts(self) -> (parts: (String, Option<String>, Option<InputValue<S>>))
        ensures
            parts.0 == self.query_spec(),
            parts.1 == self.operation_name_spec(),
            parts.2 == self.variables_spec(),
    {
        (self.query, self.operation_name, self.variables)
    }
}

impl<S: Clone> Clone for GraphQLRequest<S> {
    /// A copy of the request: the same query and operation name, and a copy of the
    /// variables value all the way down.
    fn clone(&self) -> (copy: Self)
        ensures
            copy.query_spec() == self.query_spec(),
            copy.operation_name_spec() == self.operation_name_spec(),
            match (self.variables_spec(), copy.variables_spec()) {
                (Some(a), Some(b)) => deep_cloned(a, b),
                (None, None) => true,
                _ => false,
            },
    {
        let operation_name = match &self.operation_name {
            Some(name) => Some(name.clone()),
            None => None,
        };
        let variables = match &self.variables {
            Some(value) => Some(value.clone()),
            None => None,
        };
        GraphQLRequest { query: self.query.clone(), operation_name, variables }
    }
}

} // verus!
