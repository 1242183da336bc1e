use juniper_http::error::{ExecutionError, FieldError, GraphQLError, SourcePosition};
use juniper_http::response::{GraphQLResponse, ResponseEntry};
use juniper_http::stream::{StreamError, StreamGraphQLResponse, StreamSource};
use juniper_http::value::{Object, Value};

#[derive(Debug, PartialEq)]
enum Scalar {
    Int(i32),
}

fn field_error(msg: &str) -> ExecutionError<Scalar> {
    ExecutionError {
        location: SourcePosition { index: 3, line: 1, col: 2 },
        path: vec!["hero".to_string()],
        error: FieldError::new(msg.to_string(), Value::Null),
    }
}

#[test]
fn from_result_ok_and_err() {
    let ok: GraphQLResponse<Scalar> = GraphQLResponse::from_result(Ok((Value::Scalar(Scalar::Int(1)), vec![])));
    assert!(ok.is_ok());
    let err: GraphQLResponse<Scalar> = GraphQLResponse::from_result(Err(GraphQLError::NoOperationProvided));
    assert!(!err.is_ok());
    assert_eq!(err.into_result(), Err(GraphQLError::NoOperationProvided));
}

#[test]
fn ok_response_may_carry_errors() {
    let r = GraphQLResponse::from_result(Ok((Value::Null, vec![field_error("x")])));
    assert!(r.is_ok());
}

#[test]
fn serialized_data_only() {
    let r: GraphQLResponse<Scalar> = GraphQLResponse::from_result(Ok((Value::Scalar(Scalar::Int(4)), vec![])));
    let m = r.serialized();
    assert_eq!(m.size_hint, None);
    assert_eq!(m.entries.len(), 1);
    assert_eq!(m.entries[0].key(), "data");
    match m.entries[0] {
        ResponseEntry::Data(v) => assert_eq!(v, &Value::Scalar(Scalar::Int(4))),
        _ => panic!("expected data"),
    }
}

#[test]
fn serialized_data_and_errors() {
    let r = GraphQLResponse::from_result(Ok((Value::Null, vec![field_error("a"), field_error("b")])));
    let m = r.serialized();
    assert_eq!(m.size_hint, None);
    let keys: Vec<&str> = m.entries.iter().map(|e| e.key()).collect();
    assert_eq!(keys, vec!["data", "errors"]);
    match m.entries[1] {
        ResponseEntry::Errors(es) => assert_eq!(es.len(), 2),
        _ => panic!("expected errors"),
    }
}

#[test]
fn serialized_stopped_request() {
    let r: GraphQLResponse<Scalar> = GraphQLResponse::from_result(Err(GraphQLError::MultipleOperationsProvided));
    let m = r.serialized();
    assert_eq!(m.size_hint, Some(1));
    let keys: Vec<&str> = m.entries.iter().map(|e| e.key()).collect();
    assert_eq!(keys, vec!["errors"]);
    match m.entries[0] {
        ResponseEntry::Error(e) => assert_eq!(e, &GraphQLError::MultipleOperationsProvided),
        _ => panic!("expected error"),
    }
}

#[test]
fn stream_item_responses() {
    let ok: GraphQLResponse<Scalar> = GraphQLResponse::from_stream_item::<()>(Ok(Value::Scalar(Scalar::Int(9))));
    assert_eq!(ok.into_result(), Ok((Value::Scalar(Scalar::Int(9)), vec![])));
    let failed: GraphQLResponse<Scalar> = GraphQLResponse::from_stream_item(Err("lost"));
    assert_eq!(failed.into_result(), Err(GraphQLError::IsSubscription));
}

type Stream = u32;

fn stream_response(r: Result<(Value<Stream>, Vec<ExecutionError<Scalar>>), GraphQLError>) -> StreamGraphQLResponse<Stream, Scalar> {
    StreamGraphQLResponse::from_result(r)
}

#[test]
fn into_inner_gives_back_the_result() {
    let r = stream_response(Ok((Value::Scalar(5), vec![])));
    assert_eq!(r.into_inner(), Ok((Value::Scalar(5), vec![])));
}

#[test]
fn stream_source_of_a_scalar() {
    match stream_response(Ok((Value::Scalar(5), vec![]))).into_stream_source() {
        Ok(StreamSource::Single(s)) => assert_eq!(s, 5),
        other => panic!("unexpected {:?}", other),
    }
}

#[test]
fn stream_source_of_an_object() {
    let mut o: Object<Stream> = Object::new();
    o.add_field("users".to_string(), Value::Scalar(1));
    match stream_response(Ok((Value::Object(o), vec![]))).into_stream_source() {
        Ok(StreamSource::Fields(f)) => {
            let list = f.into_key_value_list();
            assert_eq!(list, vec![("users".to_string(), Value::Scalar(1))]);
        }
        other => panic!("unexpected {:?}", other),
    }
}

#[test]
fn stream_errors() {
    let r = stream_response(Ok((Value::Scalar(1), vec![field_error("e")])));
    assert_eq!(r.into_stream_source().err(), Some(StreamError::Execution(vec![field_error("e")])));
    let r = stream_response(Err(GraphQLError::IsSubscription));
    assert_eq!(r.into_stream_source().err(), Some(StreamError::GraphQL(GraphQLError::IsSubscription)));
    let r = stream_response(Ok((Value::Null, vec![])));
    assert_eq!(r.into_stream_source().err(), Some(StreamError::NullValue));
    let r = stream_response(Ok((Value::List(vec![]), vec![])));
    assert_eq!(r.into_stream_source().err(), Some(StreamError::ListValue));
    let r = stream_response(Ok((Value::Object(Object::new()), vec![])));
    assert_eq!(r.into_stream_source().err(), Some(StreamError::EmptyObject));
}

#[test]
fn field_errors_come_before_shape() {
    let r = stream_response(Ok((Value::Null, vec![field_error("e")])));
    assert_eq!(r.into_stream_source().err(), Some(StreamError::Execution(vec![field_error("e")])));
}

#[test]
fn object_add_field_replaces_in_place() {
    let mut o: Object<Scalar> = Object::new();
    assert_eq!(o.add_field("a".to_string(), Value::Scalar(Scalar::Int(1))), None);
    assert_eq!(o.add_field("b".to_string(), Value::Null), None);
    assert_eq!(o.add_field("a".to_string(), Value::Scalar(Scalar::Int(2))), Some(Value::Scalar(Scalar::Int(1))));
    assert_eq!(o.field_count(), 2);
    assert_eq!(
        o.into_key_value_list(),
        vec![("a".to_string(), Value::Scalar(Scalar::Int(2))), ("b".to_string(), Value::Null)]
    );
}

#[test]
fn origin_position() {
    let p = SourcePosition::new_origin();
    assert_eq!((p.index, p.line, p.col), (0, 0, 0));
    let e: ExecutionError<Scalar> = ExecutionError::at_origin(FieldError::new("m".to_string(), Value::Null));
    assert_eq!(e.location, p);
    assert!(e.path.is_empty());
}
