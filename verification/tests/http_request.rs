use juniper_http::error::{ExecutionError, FieldError, GraphQLError};
use juniper_http::input::{InputValue, Variables};
use juniper_http::request::{GraphQLRequest, GraphQLSchema};
use juniper_http::response::{ExecutionOutcome, GraphQLResponse};
use juniper_http::value::Value;

#[derive(Debug, PartialEq, Clone)]
enum Scalar {
    Int(i32),
    Str(String),
}

fn object(fields: Vec<(&str, InputValue<Scalar>)>) -> InputValue<Scalar> {
    InputValue::Object(fields.into_iter().map(|(k, v)| (k.to_string(), v)).collect())
}

/// A schema that answers with what it was handed: the query as data, the operation
/// name and the variables it saw recorded in the context.
struct Echo;

struct Seen {
    operation: std::cell::RefCell<Option<String>>,
    variables: std::cell::RefCell<Vec<(String, InputValue<Scalar>)>>,
}

impl GraphQLSchema<Seen, Scalar> for Echo {
    fn execute_query(
        &self,
        query: &str,
        operation_name: Option<&str>,
        variables: &Variables<Scalar>,
        context: &Seen,
    ) -> ExecutionOutcome<Scalar> {
        *context.operation.borrow_mut() = operation_name.map(|s| s.to_string());
        for (k, v) in variables.entries().iter() {
            let copy = match v {
                InputValue::Scalar(s) => InputValue::Scalar(s.clone()),
                InputValue::Null => InputValue::Null,
                _ => InputValue::Enum("other".to_string()),
            };
            context.variables.borrow_mut().push(((*k).clone(), copy));
        }
        if query == "fail" {
            Err(GraphQLError::UnknownOperationName)
        } else {
            Ok((Value::Scalar(Scalar::Str(query.to_string())), vec![]))
        }
    }
}

fn seen() -> Seen {
    Seen { operation: std::cell::RefCell::new(None), variables: std::cell::RefCell::new(vec![]) }
}

#[test]
fn new_request_keeps_its_parts() {
    let r: GraphQLRequest<Scalar> = GraphQLRequest::new(
        "{hero{name}}".to_string(),
        Some("Hero".to_string()),
        Some(object(vec![("id", InputValue::Scalar(Scalar::Int(1000)))])),
    );
    assert_eq!(r.operation_name(), Some("Hero"));
    let (q, op, vars) = r.into_parts();
    assert_eq!(q, "{hero{name}}");
    assert_eq!(op, Some("Hero".to_string()));
    assert_eq!(vars, Some(object(vec![("id", InputValue::Scalar(Scalar::Int(1000)))])));
}

#[test]
fn operation_name_absent() {
    let r: GraphQLRequest<Scalar> = GraphQLRequest::new("{a}".to_string(), None, None);
    assert_eq!(r.operation_name(), None);
}

#[test]
fn variables_of_an_object() {
    let r = GraphQLRequest::new(
        "q".to_string(),
        None,
        Some(object(vec![
            ("id", InputValue::Scalar(Scalar::Str("1000".to_string()))),
            ("episode", InputValue::Enum("JEDI".to_string())),
        ])),
    );
    let v = r.variables();
    assert_eq!(v.len(), 2);
    assert_eq!(v.get(&"id".to_string()), Some(&InputValue::Scalar(Scalar::Str("1000".to_string()))));
    assert_eq!(v.get(&"episode".to_string()), Some(&InputValue::Enum("JEDI".to_string())));
    assert_eq!(v.get(&"missing".to_string()), None);
}

#[test]
fn variables_last_occurrence_wins() {
    let r = GraphQLRequest::new(
        "q".to_string(),
        None,
        Some(object(vec![
            ("id", InputValue::Scalar(Scalar::Int(1))),
            ("name", InputValue::Null),
            ("id", InputValue::Scalar(Scalar::Int(2))),
        ])),
    );
    let v = r.variables();
    assert_eq!(v.len(), 2);
    assert_eq!(v.get(&"id".to_string()), Some(&InputValue::Scalar(Scalar::Int(2))));
    let names: Vec<&String> = v.entries().iter().map(|(k, _)| *k).collect();
    assert_eq!(names, vec!["id", "name"]);
}

#[test]
fn variables_of_a_non_object_are_empty() {
    let r = GraphQLRequest::new("q".to_string(), None, Some(InputValue::Scalar(Scalar::Int(3))));
    assert_eq!(r.variables().len(), 0);
    let r: GraphQLRequest<Scalar> = GraphQLRequest::new("q".to_string(), None, None);
    assert_eq!(r.variables().len(), 0);
    let r: GraphQLRequest<Scalar> =
        GraphQLRequest::new("q".to_string(), None, Some(InputValue::List(vec![InputValue::Null])));
    assert_eq!(r.variables().len(), 0);
}

#[test]
fn to_object_value_only_for_objects() {
    let v: InputValue<Scalar> = InputValue::Variable("x".to_string());
    assert!(v.to_object_value().is_none());
    let v: InputValue<Scalar> = object(vec![]);
    assert_eq!(v.to_object_value().map(|o| o.len()), Some(0));
}

#[test]
fn execute_hands_the_request_to_the_schema() {
    let r = GraphQLRequest::new(
        "{hero{name}}".to_string(),
        Some("Op".to_string()),
        Some(object(vec![
            ("a", InputValue::Scalar(Scalar::Int(1))),
            ("a", InputValue::Scalar(Scalar::Int(5))),
        ])),
    );
    let ctx = seen();
    let res = r.execute(&Echo, &ctx);
    assert!(res.is_ok());
    assert_eq!(
        res.into_result(),
        Ok((Value::Scalar(Scalar::Str("{hero{name}}".to_string())), vec![]))
    );
    assert_eq!(*ctx.operation.borrow(), Some("Op".to_string()));
    assert_eq!(
        *ctx.variables.borrow(),
        vec![("a".to_string(), InputValue::Scalar(Scalar::Int(5)))]
    );
}

#[test]
fn execute_passes_a_stopped_request_on() {
    let r: GraphQLRequest<Scalar> = GraphQLRequest::new("fail".to_string(), None, None);
    let res = r.execute(&Echo, &seen());
    assert!(!res.is_ok());
    assert_eq!(res.into_result(), Err(GraphQLError::UnknownOperationName));
}

#[test]
fn error_response_is_ok_with_null_data() {
    let e = FieldError::new("boom".to_string(), Value::Scalar(Scalar::Int(7)));
    let res = GraphQLResponse::error(e);
    assert!(res.is_ok());
    match res.into_result() {
        Ok((data, errors)) => {
            assert_eq!(data, Value::Null);
            assert_eq!(errors.len(), 1);
            let ExecutionError { location, path, error } = &errors[0];
            assert_eq!((location.index, location.line, location.col), (0, 0, 0));
            assert!(path.is_empty());
            assert_eq!(error, &FieldError::new("boom".to_string(), Value::Scalar(Scalar::Int(7))));
        }
        Err(_) => panic!("expected data"),
    }
}

#[test]
fn variables_keep_first_occurrence_order() {
    let r = GraphQLRequest::new(
        "q".to_string(),
        None,
        Some(object(vec![
            ("b", InputValue::Null),
            ("a", InputValue::Null),
            ("b", InputValue::Scalar(Scalar::Int(1))),
            ("c", InputValue::Null),
        ])),
    );
    let v = r.variables();
    let names: Vec<&String> = v.entries().iter().map(|(k, _)| *k).collect();
    assert_eq!(names, vec!["b", "a", "c"]);
    assert_eq!(v.get(&"b".to_string()), Some(&InputValue::Scalar(Scalar::Int(1))));
}

#[test]
fn non_object_variables_act_as_none() {
    let requests: Vec<GraphQLRequest<Scalar>> = vec![
        GraphQLRequest::new("{a}".to_string(), Some("Op".to_string()), None),
        GraphQLRequest::new("{a}".to_string(), Some("Op".to_string()), Some(InputValue::Null)),
        GraphQLRequest::new("{a}".to_string(), Some("Op".to_string()), Some(InputValue::List(vec![]))),
    ];
    for r in &requests {
        let ctx = seen();
        let res = r.execute(&Echo, &ctx);
        assert_eq!(res.into_result(), Ok((Value::Scalar(Scalar::Str("{a}".to_string())), vec![])));
        assert_eq!(*ctx.operation.borrow(), Some("Op".to_string()));
        assert!(ctx.variables.borrow().is_empty());
    }
}

#[test]
fn cloned_request_has_the_same_parts() {
    let r = GraphQLRequest::new(
        "q".to_string(),
        Some("Op".to_string()),
        Some(object(vec![("x", InputValue::List(vec![InputValue::Enum("E".to_string())]))])),
    );
    let c = r.clone();
    assert_eq!(c, r);
    let v: InputValue<Scalar> = InputValue::Variable("v".to_string());
    assert_eq!(v.clone(), v);
}
