use enzin::api::documents_in_body;
use enzin::error::{join3, prefixed, EnzinError};
use enzin::json::{set_object_member, JsonNumber, JsonValue};

#[test]
fn error_response_parts() {
    let r = EnzinError::IndexNotFound("index 'x' not found".to_string()).into_response_parts();
    assert_eq!((r.status, r.error.as_str(), r.message.as_str()), (404, "index_not_found", "index 'x' not found"));
    let r = EnzinError::InvalidDocument("bad".to_string()).into_response_parts();
    assert_eq!((r.status, r.error.as_str(), r.message.as_str()), (400, "invalid_document", "bad"));
    let r = EnzinError::InternalError("boom".to_string()).into_response_parts();
    assert_eq!((r.status, r.error.as_str(), r.message.as_str()), (500, "internal_error", "boom"));
}

#[test]
fn single_document_and_batch() {
    let single = JsonValue::Object(vec![("id".to_string(), JsonValue::String("1".to_string()))]);
    let docs = documents_in_body(single).unwrap();
    assert_eq!(docs, vec![JsonValue::Object(vec![("id".to_string(), JsonValue::String("1".to_string()))])]);

    let batch = JsonValue::Array(vec![JsonValue::Object(vec![]), JsonValue::Object(vec![])]);
    assert_eq!(documents_in_body(batch).unwrap().len(), 2);

    match documents_in_body(JsonValue::Number(JsonNumber::PosInt(3))) {
        Err(EnzinError::InvalidDocument(msg)) => assert_eq!(msg, "expected object or array of objects"),
        _ => panic!("expected InvalidDocument"),
    }
    assert!(documents_in_body(JsonValue::Null).is_err());
}

#[test]
fn message_building() {
    assert_eq!(join3("index '", "a", "' not found"), "index 'a' not found");
    assert_eq!(prefixed("search failed: ", "io"), "search failed: io");
}

#[test]
fn set_member_replaces_or_appends() {
    let mut members = vec![("a".to_string(), JsonValue::Null)];
    set_object_member(&mut members, "b".to_string(), JsonValue::Bool(true));
    set_object_member(&mut members, "a".to_string(), JsonValue::Bool(false));
    assert_eq!(
        members,
        vec![("a".to_string(), JsonValue::Bool(false)), ("b".to_string(), JsonValue::Bool(true))]
    );
    assert_eq!(JsonNumber::from_i64(-1), JsonNumber::NegInt(-1));
    assert_eq!(JsonNumber::from_i64(0), JsonNumber::PosInt(0));
}
