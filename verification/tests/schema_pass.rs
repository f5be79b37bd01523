//! Tests of whole-schema extraction: tables, the per-table function
//! pass, and the assembled schema.

use convex_typegen::assemble::{extract_schema, functions_of};
use convex_typegen::codegen::{Builder, BuilderConfig};
use convex_typegen::errors::{ExtractionError, Step};
use convex_typegen::extract::{extract_table, extract_tables};
use convex_typegen::schema::{ColumnType, SiblingTree};
use convex_typegen::tree::Node;
use convex_typegen::Configuration;

fn s(x: &str) -> Node {
    Node::Str(x.to_string())
}

fn obj(fields: Vec<(&str, Node)>) -> Node {
    Node::Obj(fields.into_iter().map(|(k, v)| (k.to_string(), v)).collect())
}

fn call(tag: &str, args: Vec<Node>) -> Node {
    obj(vec![
        ("callee", obj(vec![("property", obj(vec![("name", s(tag))]))])),
        ("arguments", Node::Arr(args)),
    ])
}

fn str_lit(x: &str) -> Node {
    obj(vec![("value", s(x))])
}

fn obj_lit(props: Vec<Node>) -> Node {
    obj(vec![("properties", Node::Arr(props))])
}

fn prop(key: &str, value: Node) -> Node {
    obj(vec![("key", obj(vec![("name", s(key))])), ("value", value)])
}

/// A `defineTable({...})` call holding the given column properties.
fn table_def(cols: Vec<Node>) -> Node {
    call("table", vec![obj_lit(cols)])
}

/// A module whose single statement default-exports a schema call over
/// the given table properties.
fn schema_root(tables: Vec<Node>) -> Node {
    obj(vec![(
        "body",
        Node::Arr(vec![obj(vec![(
            "declaration",
            call("schema", vec![obj_lit(tables)]),
        )])]),
    )])
}

/// A sibling tree whose statements export the given function names.
fn sibling_with(names: Vec<Node>) -> Node {
    let decls: Vec<Node> = names
        .into_iter()
        .map(|n| obj(vec![("id", obj(vec![("kind", obj(vec![("name", n)]))]))]))
        .collect();
    obj(vec![(
        "body",
        Node::Arr(vec![obj(vec![(
            "declaration",
            obj(vec![("declarations", Node::Arr(decls))]),
        )])]),
    )])
}

fn two_table_root() -> Node {
    schema_root(vec![
        prop(
            "users",
            table_def(vec![
                prop("name", call("string", vec![])),
                prop("post", call("id", vec![str_lit("posts")])),
            ]),
        ),
        prop(
            "posts",
            table_def(vec![
                prop("title", call("string", vec![])),
                prop("body", call("string", vec![])),
            ]),
        ),
    ])
}

#[test]
fn test_two_table_schema() {
    let tables = extract_tables(&two_table_root()).expect("extraction should succeed");
    assert_eq!(tables.len(), 2);
    assert_eq!(tables[0].name, "users");
    assert_eq!(tables[0].columns.len(), 2);
    assert_eq!(tables[0].columns[0].name, "name");
    assert_eq!(tables[0].columns[0].column_type, ColumnType::String);
    assert_eq!(tables[0].columns[1].name, "post");
    assert_eq!(
        tables[0].columns[1].column_type,
        ColumnType::Id("posts".to_string())
    );
    assert_eq!(tables[1].name, "posts");
    assert_eq!(tables[1].columns.len(), 2);
    assert_eq!(tables[1].columns[0].column_type, ColumnType::String);
    assert_eq!(tables[1].columns[1].column_type, ColumnType::String);
}

#[test]
fn test_table_with_bad_key_fails() {
    let root = schema_root(vec![obj(vec![("value", table_def(vec![])) ])]);
    let r = extract_tables(&root);
    assert_eq!(
        r,
        Err(ExtractionError::ShapeMismatch { step: Step::TableKey })
    );
}

#[test]
fn test_schema_not_found() {
    let no_body = obj(vec![]);
    assert_eq!(
        extract_tables(&no_body),
        Err(ExtractionError::SchemaNotFound)
    );
    let no_declaration = obj(vec![("body", Node::Arr(vec![obj(vec![])]))]);
    assert_eq!(
        extract_tables(&no_declaration),
        Err(ExtractionError::SchemaNotFound)
    );
}

#[test]
fn test_table_without_columns() {
    let root = schema_root(vec![prop("empty", Node::Other)]);
    let tables = extract_tables(&root).expect("a bare table still extracts");
    assert_eq!(tables.len(), 1);
    assert_eq!(tables[0].name, "empty");
    assert_eq!(tables[0].columns.len(), 0);
}

#[test]
fn test_duplicate_table_keeps_first() {
    let root = schema_root(vec![
        prop("users", table_def(vec![prop("a", call("string", vec![]))])),
        prop("users", table_def(vec![prop("b", call("int64", vec![]))])),
    ]);
    let tables = extract_tables(&root).expect("extraction should succeed");
    assert_eq!(tables.len(), 1);
    assert_eq!(tables[0].name, "users");
    assert_eq!(tables[0].columns.len(), 1);
    assert_eq!(tables[0].columns[0].name, "a");
}

#[test]
fn test_duplicate_column_keeps_first() {
    let root = schema_root(vec![prop(
        "users",
        table_def(vec![
            prop("a", call("string", vec![])),
            prop("a", call("int64", vec![])),
        ]),
    )]);
    let tables = extract_tables(&root).expect("extraction should succeed");
    assert_eq!(tables[0].columns.len(), 1);
    assert_eq!(tables[0].columns[0].column_type, ColumnType::String);
}

#[test]
fn test_chained_call_arguments() {
    // A table defined through a chained call: the object literal hangs
    // under callee.object.arguments instead of arguments.
    let chained = obj(vec![(
        "callee",
        obj(vec![(
            "object",
            obj(vec![(
                "arguments",
                Node::Arr(vec![obj_lit(vec![prop("name", call("string", vec![]))])]),
            )]),
        )]),
    )]);
    let table = extract_table(&prop("users", chained)).expect("chained table should extract");
    assert_eq!(table.columns.len(), 1);
    assert_eq!(table.columns[0].name, "name");
}

#[test]
fn test_functions_of_sibling() {
    let tree = sibling_with(vec![s("create"), s("remove")]);
    let names = functions_of(&tree).expect("scan should succeed");
    assert_eq!(names, vec!["create".to_string(), "remove".to_string()]);
}

#[test]
fn test_functions_of_deduplicates() {
    let tree = sibling_with(vec![s("create"), s("create")]);
    let names = functions_of(&tree).expect("scan should succeed");
    assert_eq!(names, vec!["create".to_string()]);
}

#[test]
fn test_functions_of_non_string_name() {
    let tree = sibling_with(vec![Node::Other]);
    assert_eq!(
        functions_of(&tree),
        Err(ExtractionError::ShapeMismatch { step: Step::FunctionName })
    );
}

#[test]
fn test_functions_of_skips_missing_path() {
    let tree = obj(vec![(
        "body",
        Node::Arr(vec![obj(vec![(
            "declaration",
            obj(vec![("declarations", Node::Arr(vec![obj(vec![])]))]),
        )])]),
    )]);
    let names = functions_of(&tree).expect("scan should succeed");
    assert_eq!(names, Vec::<String>::new());
}

#[test]
fn test_extract_schema_with_siblings() {
    let siblings = vec![
        (
            "users".to_string(),
            SiblingTree::Loaded(sibling_with(vec![s("create")])),
        ),
        (
            "posts".to_string(),
            SiblingTree::Loaded(sibling_with(vec![s("list"), s("publish")])),
        ),
    ];
    let schema = extract_schema(&two_table_root(), &siblings).expect("extraction should succeed");
    assert_eq!(schema.tables.len(), 2);
    assert_eq!(schema.functions.len(), 2);
    assert_eq!(schema.functions[0].0, "users");
    assert_eq!(schema.functions[0].1, vec!["create".to_string()]);
    assert_eq!(schema.functions[1].0, "posts");
    assert_eq!(
        schema.functions[1].1,
        vec!["list".to_string(), "publish".to_string()]
    );
}

#[test]
fn test_extract_schema_missing_sibling() {
    let siblings = vec![(
        "users".to_string(),
        SiblingTree::Loaded(sibling_with(vec![])),
    )];
    let r = extract_schema(&two_table_root(), &siblings);
    assert_eq!(
        r,
        Err(ExtractionError::NamespaceFile {
            table: "posts".to_string(),
            message: "no sibling tree was supplied".to_string(),
        })
    );
}

#[test]
fn test_extract_schema_failed_sibling() {
    let siblings = vec![
        (
            "users".to_string(),
            SiblingTree::Failed("file not readable".to_string()),
        ),
        (
            "posts".to_string(),
            SiblingTree::Loaded(sibling_with(vec![])),
        ),
    ];
    let r = extract_schema(&two_table_root(), &siblings);
    assert_eq!(
        r,
        Err(ExtractionError::NamespaceFile {
            table: "users".to_string(),
            message: "file not readable".to_string(),
        })
    );
}

#[test]
fn test_extraction_is_deterministic() {
    let siblings = vec![
        (
            "users".to_string(),
            SiblingTree::Loaded(sibling_with(vec![s("create")])),
        ),
        (
            "posts".to_string(),
            SiblingTree::Loaded(sibling_with(vec![s("list")])),
        ),
    ];
    let first = extract_schema(&two_table_root(), &siblings);
    let second = extract_schema(&two_table_root(), &siblings);
    assert_eq!(first, second);
}

#[test]
fn test_node_get_picks_the_named_field() {
    let n = obj(vec![("a", s("one")), ("b", s("two"))]);
    match n.get("b") {
        Some(Node::Str(v)) => assert_eq!(v, "two"),
        other => panic!("expected the b field, got {:?}", other),
    }
    assert!(n.get("zz").is_none());
    assert!(s("x").get("a").is_none());
}

#[test]
fn test_builder_new() {
    let tables = extract_tables(&two_table_root()).expect("extraction should succeed");
    let schema = convex_typegen::schema::Schema {
        tables,
        functions: Vec::new(),
    };
    let b = Builder::new(&schema, None);
    assert_eq!(b.config.path, "./convex");
    assert_eq!(b.data.tables.len(), 2);
    let custom = Builder::new(
        &schema,
        Some(BuilderConfig {
            path: "./elsewhere".to_string(),
        }),
    );
    assert_eq!(custom.config.path, "./elsewhere");
}

#[test]
fn test_builder_config_default() {
    let c = BuilderConfig::default();
    assert_eq!(c.path, "./convex");
}

#[test]
fn test_configuration_fields() {
    let c = Configuration {
        convex_schema_path: "./convex/schema.ts".to_string(),
        code_gen_path: "./src/schema.rs".to_string(),
    };
    assert_eq!(c.convex_schema_path, "./convex/schema.ts");
    assert_eq!(c.code_gen_path, "./src/schema.rs");
}
