//! Tests of type resolution and schema extraction over hand-built
//! syntax trees.

use convex_typegen::errors::{ExtractionError, Step};
use convex_typegen::resolve::{resolve, Aux};
use convex_typegen::schema::ColumnType;
use convex_typegen::tree::Node;

fn s(x: &str) -> Node {
    Node::Str(x.to_string())
}

fn obj(fields: Vec<(&str, Node)>) -> Node {
    Node::Obj(fields.into_iter().map(|(k, v)| (k.to_string(), v)).collect())
}

/// A constructor call `v.<tag>(args...)`.
fn call(tag: &str, args: Vec<Node>) -> Node {
    obj(vec![
        ("callee", obj(vec![("property", obj(vec![("name", s(tag))]))])),
        ("arguments", Node::Arr(args)),
    ])
}

/// A string-literal argument node.
fn str_lit(x: &str) -> Node {
    obj(vec![("value", s(x))])
}

/// An object-literal argument node with the given properties.
fn obj_lit(props: Vec<Node>) -> Node {
    obj(vec![("properties", Node::Arr(props))])
}

/// A key/value property node.
fn prop(key: &str, value: Node) -> Node {
    obj(vec![("key", obj(vec![("name", s(key))])), ("value", value)])
}

#[test]
fn test_resolve_primitives() {
    assert_eq!(resolve("string", Aux::Empty), Ok(ColumnType::String));
    assert_eq!(resolve("int64", Aux::Empty), Ok(ColumnType::Int64));
    assert_eq!(resolve("number", Aux::Empty), Ok(ColumnType::Number));
    assert_eq!(resolve("boolean", Aux::Empty), Ok(ColumnType::Bool));
    assert_eq!(resolve("bytes", Aux::Empty), Ok(ColumnType::Bytes));
    assert_eq!(resolve("null", Aux::Empty), Ok(ColumnType::Null));
}

#[test]
fn test_resolve_is_idempotent() {
    for tag in ["string", "int64", "number", "boolean", "bytes", "null"] {
        let first = resolve(tag, Aux::Empty);
        let second = resolve(tag, Aux::Empty);
        assert_eq!(first, second);
        assert!(first.is_ok());
    }
}

#[test]
fn test_resolve_unknown_tag() {
    assert_eq!(
        resolve("widget", Aux::Empty),
        Err(ExtractionError::UnresolvedType { tag: "widget".to_string() })
    );
    assert_eq!(
        resolve("", Aux::Empty),
        Err(ExtractionError::UnresolvedType { tag: String::new() })
    );
}

#[test]
fn test_resolve_composites() {
    assert_eq!(
        resolve("id", Aux::TableName("posts".to_string())),
        Ok(ColumnType::Id("posts".to_string()))
    );
    assert_eq!(
        resolve("array", Aux::Element(ColumnType::String)),
        Ok(ColumnType::Array(Box::new(ColumnType::String)))
    );
    assert_eq!(
        resolve("optional", Aux::Inner(ColumnType::Int64)),
        Ok(ColumnType::Optional(Box::new(ColumnType::Int64)))
    );
}

#[test]
fn test_resolve_composite_without_datum() {
    assert_eq!(
        resolve("array", Aux::Empty),
        Err(ExtractionError::MissingAuxData { tag: "array".to_string() })
    );
    assert_eq!(
        resolve("id", Aux::Empty),
        Err(ExtractionError::MissingAuxData { tag: "id".to_string() })
    );
    assert_eq!(
        resolve("object", Aux::Empty),
        Err(ExtractionError::MissingAuxData { tag: "object".to_string() })
    );
    assert_eq!(
        resolve("optional", Aux::Empty),
        Err(ExtractionError::MissingAuxData { tag: "optional".to_string() })
    );
}

#[test]
fn test_extract_primitive_type() {
    let r = convex_typegen::extract::extract_type("f", &call("string", vec![]));
    assert_eq!(r, Ok(ColumnType::String));
}

#[test]
fn test_extract_array_of_string() {
    let r = convex_typegen::extract::extract_type("f", &call("array", vec![call("string", vec![])]));
    assert_eq!(r, Ok(ColumnType::Array(Box::new(ColumnType::String))));
}

#[test]
fn test_extract_array_of_id() {
    let r = convex_typegen::extract::extract_type(
        "f",
        &call("array", vec![call("id", vec![str_lit("posts")])]),
    );
    assert_eq!(
        r,
        Ok(ColumnType::Array(Box::new(ColumnType::Id("posts".to_string()))))
    );
}

#[test]
fn test_extract_nested_arrays() {
    let r = convex_typegen::extract::extract_type(
        "f",
        &call("array", vec![call("array", vec![call("int64", vec![])])]),
    );
    assert_eq!(
        r,
        Ok(ColumnType::Array(Box::new(ColumnType::Array(Box::new(
            ColumnType::Int64
        )))))
    );
}

#[test]
fn test_extract_object() {
    let r = convex_typegen::extract::extract_type(
        "f",
        &call(
            "object",
            vec![obj_lit(vec![
                prop("a", call("string", vec![])),
                prop("b", call("int64", vec![])),
            ])],
        ),
    );
    assert_eq!(
        r,
        Ok(ColumnType::Object(vec![
            ("a".to_string(), ColumnType::String),
            ("b".to_string(), ColumnType::Int64),
        ]))
    );
}

#[test]
fn test_extract_object_duplicate_key_keeps_first() {
    let r = convex_typegen::extract::extract_type(
        "f",
        &call(
            "object",
            vec![obj_lit(vec![
                prop("a", call("string", vec![])),
                prop("a", call("int64", vec![])),
            ])],
        ),
    );
    assert_eq!(
        r,
        Ok(ColumnType::Object(vec![("a".to_string(), ColumnType::String)]))
    );
}

#[test]
fn test_extract_optional_array_of_string() {
    let r = convex_typegen::extract::extract_type(
        "f",
        &call("optional", vec![call("array", vec![call("string", vec![])])]),
    );
    assert_eq!(
        r,
        Ok(ColumnType::Optional(Box::new(ColumnType::Array(Box::new(
            ColumnType::String
        )))))
    );
}

#[test]
fn test_extract_optional_of_object_is_rejected() {
    let r = convex_typegen::extract::extract_type(
        "f",
        &call(
            "optional",
            vec![call("object", vec![obj_lit(vec![prop("a", call("string", vec![]))])])],
        ),
    );
    assert_eq!(
        r,
        Err(ExtractionError::UnsupportedOptionalObject { field: "f".to_string() })
    );
}

#[test]
fn test_extract_empty_array_element() {
    let r = convex_typegen::extract::extract_type("f", &call("array", vec![]));
    assert_eq!(
        r,
        Err(ExtractionError::EmptyArrayElement { field: "f".to_string() })
    );
}

#[test]
fn test_extract_empty_object() {
    let no_arg = convex_typegen::extract::extract_type("f", &call("object", vec![]));
    assert_eq!(
        no_arg,
        Err(ExtractionError::EmptyObject { field: "f".to_string() })
    );
    let no_props = convex_typegen::extract::extract_type("f", &call("object", vec![obj_lit(vec![])]));
    assert_eq!(
        no_props,
        Err(ExtractionError::EmptyObject { field: "f".to_string() })
    );
}

#[test]
fn test_extract_missing_reference_name() {
    let r = convex_typegen::extract::extract_type("f", &call("id", vec![]));
    assert_eq!(
        r,
        Err(ExtractionError::MissingReferenceName { field: "f".to_string() })
    );
}

#[test]
fn test_extract_optional_without_inner() {
    let r = convex_typegen::extract::extract_type("f", &call("optional", vec![]));
    assert_eq!(
        r,
        Err(ExtractionError::MissingAuxData { tag: "optional".to_string() })
    );
}

#[test]
fn test_extract_unresolved_tag() {
    let r = convex_typegen::extract::extract_type("f", &call("widget", vec![]));
    assert_eq!(
        r,
        Err(ExtractionError::UnresolvedType { tag: "widget".to_string() })
    );
}

#[test]
fn test_extract_column() {
    let r = convex_typegen::extract::extract_column(&prop("name", call("string", vec![])));
    let col = r.expect("column should extract");
    assert_eq!(col.name, "name");
    assert_eq!(col.column_type, ColumnType::String);
}

#[test]
fn test_extract_column_without_key() {
    let r = convex_typegen::extract::extract_column(&obj(vec![("value", call("string", vec![]))]));
    assert_eq!(
        r,
        Err(ExtractionError::ShapeMismatch { step: Step::ColumnKey })
    );
}

#[test]
fn test_extract_column_without_value() {
    let r = convex_typegen::extract::extract_column(&obj(vec![(
        "key",
        obj(vec![("name", s("age"))]),
    )]));
    assert_eq!(
        r,
        Err(ExtractionError::MalformedColumn {
            field: "age".to_string(),
            missing: Step::ColumnValue,
        })
    );
}

#[test]
fn test_extract_column_without_tag() {
    let r = convex_typegen::extract::extract_column(&prop("age", obj(vec![])));
    assert_eq!(
        r,
        Err(ExtractionError::MalformedColumn {
            field: "age".to_string(),
            missing: Step::ColumnTag,
        })
    );
}

#[test]
fn test_object_property_without_key_fails() {
    let r = convex_typegen::extract::extract_type(
        "f",
        &call("object", vec![obj_lit(vec![obj(vec![("value", call("string", vec![]))])])]),
    );
    assert_eq!(
        r,
        Err(ExtractionError::ShapeMismatch { step: Step::ObjectKey })
    );
}

#[test]
fn test_object_property_without_value_fails() {
    let r = convex_typegen::extract::extract_type(
        "f",
        &call(
            "object",
            vec![obj_lit(vec![obj(vec![("key", obj(vec![("name", s("a"))]))])])],
        ),
    );
    assert_eq!(
        r,
        Err(ExtractionError::ShapeMismatch { step: Step::ObjectValue })
    );
}
