use enzin::json::{JsonNumber, JsonValue};
use enzin::schema::{empty_schema, indexed_fields, infer_schema_from_document, FieldInfo, FieldKind};

fn object(members: Vec<(&str, JsonValue)>) -> JsonValue {
    JsonValue::Object(members.into_iter().map(|(k, v)| (k.to_string(), v)).collect())
}

fn string(s: &str) -> JsonValue {
    JsonValue::String(s.to_string())
}

#[test]
fn test_infer_string_field() {
    let doc = object(vec![("title", string("test"))]);
    let schema = infer_schema_from_document(&doc).unwrap();
    assert_eq!(schema.fields().count(), 1);
}

#[test]
fn test_infer_number_field() {
    let doc = object(vec![("count", JsonValue::Number(JsonNumber::PosInt(42)))]);
    let schema = infer_schema_from_document(&doc).unwrap();
    assert_eq!(schema.fields().count(), 1);
}

#[test]
fn test_infer_bool_field() {
    let doc = object(vec![("active", JsonValue::Bool(true))]);
    let schema = infer_schema_from_document(&doc).unwrap();
    assert_eq!(schema.fields().count(), 1);
}

#[test]
fn test_infer_mixed_schema() {
    let doc = object(vec![
        ("active", JsonValue::Bool(true)),
        ("count", JsonValue::Number(JsonNumber::PosInt(42))),
        ("title", string("test")),
    ]);
    let schema = infer_schema_from_document(&doc).unwrap();
    assert_eq!(schema.fields().count(), 3);
}

#[test]
fn test_infer_unsupported_type() {
    let doc = object(vec![(
        "data",
        JsonValue::Array(vec![
            JsonValue::Number(JsonNumber::PosInt(1)),
            JsonValue::Number(JsonNumber::PosInt(2)),
            JsonValue::Number(JsonNumber::PosInt(3)),
        ]),
    )]);
    let result = infer_schema_from_document(&doc);
    assert!(result.is_err());
}

#[test]
fn test_infer_non_object() {
    let doc = JsonValue::Array(vec![
        JsonValue::Number(JsonNumber::PosInt(1)),
        JsonValue::Number(JsonNumber::PosInt(2)),
        JsonValue::Number(JsonNumber::PosInt(3)),
    ]);
    let result = infer_schema_from_document(&doc);
    assert!(result.is_err());
}

#[test]
fn inferred_fields_follow_member_order_and_kinds() {
    let doc = object(vec![
        ("body", string("comfortable")),
        ("price", JsonValue::Number(JsonNumber::PosInt(50))),
        ("sale", JsonValue::Bool(false)),
        ("title", string("red shoes")),
    ]);
    let schema = infer_schema_from_document(&doc).unwrap();
    let entries: Vec<(String, bool, bool)> = schema
        .fields()
        .map(|(_, e)| (e.name().to_string(), e.is_indexed(), e.is_stored()))
        .collect();
    assert_eq!(
        entries,
        vec![
            ("body".to_string(), true, true),
            ("price".to_string(), false, true),
            ("sale".to_string(), false, true),
            ("title".to_string(), true, true),
        ]
    );
}

#[test]
fn inference_error_messages() {
    let not_object = string("just text");
    assert_eq!(infer_schema_from_document(&not_object).unwrap_err(), "document must be a json object");
    let doc = object(vec![("n", JsonValue::Object(vec![])), ("tags", JsonValue::Null), ("title", string("x"))]);
    assert_eq!(infer_schema_from_document(&doc).unwrap_err(), "unsupported field type for 'n'");
    let doc = object(vec![("a", string("x")), ("tags", JsonValue::Null)]);
    assert_eq!(infer_schema_from_document(&doc).unwrap_err(), "unsupported field type for 'tags'");
    let nested = object(vec![("meta", JsonValue::Object(vec![]))]);
    assert_eq!(infer_schema_from_document(&nested).unwrap_err(), "unsupported field type for 'meta'");
    let negative = object(vec![("delta", JsonValue::Number(JsonNumber::NegInt(-3)))]);
    assert_eq!(infer_schema_from_document(&negative).unwrap().fields().count(), 1);
}

#[test]
fn empty_object_gives_empty_schema() {
    let schema = infer_schema_from_document(&JsonValue::Object(vec![])).unwrap();
    assert_eq!(schema.fields().count(), 0);
}

#[test]
fn indexed_fields_keeps_indexed_ids_in_order() {
    let fields = vec![
        FieldInfo { id: 0, name: "title".to_string(), kind: FieldKind::Text, indexed: true, stored: true },
        FieldInfo { id: 1, name: "price".to_string(), kind: FieldKind::U64, indexed: false, stored: true },
        FieldInfo { id: 2, name: "body".to_string(), kind: FieldKind::Text, indexed: true, stored: true },
    ];
    assert_eq!(indexed_fields(&fields), vec![0, 2]);
    assert_eq!(indexed_fields(&vec![]), Vec::<u32>::new());
}

#[test]
fn empty_schema_has_no_fields() {
    assert_eq!(empty_schema().fields().count(), 0);
}
