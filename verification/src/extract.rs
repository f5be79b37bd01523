//! The extraction engine: from the untyped tree to tables, columns and
//! resolved types, by a single recursive dispatch over constructor tags.

use vstd::prelude::*;

use crate::errors::ErrorView;
use crate::errors::ExtractionError;
use crate::errors::Step;
use crate::resolve::spec_resolve;
use crate::resolve::type_result_view;
use crate::resolve::Aux;
use crate::resolve::AuxView;
use crate::schema::Column;
use crate::schema::ColumnType;
use crate::schema::ColumnView;
use crate::schema::Table;
use crate::schema::TableView;
use crate::schema::TypeView;
use crate::tree::as_str_v;
use crate::tree::field_of;
use crate::tree::spec_get;
use crate::tree::spec_get_arr;
use crate::tree::spec_get_str;
use crate::tree::Node;
use crate::tree::NodeView;

verus! {

/// The constructor tag of a call node: the name under
/// `callee.property.name`.
pub open spec fn tag_of(v: NodeView) -> Option<Seq<char>> {
    match spec_get(v, "callee"@) {
        Some(c) => match spec_get(c, "property"@) {
            Some(p) => spec_get_str(p, "name"@),
            None => None,
        },
        None => None,
    }
}

/// The argument list of a call node: `arguments`, or, for a chained
/// call, `callee.object.arguments`.
pub open spec fn args_of(v: NodeView) -> Option<Seq<NodeView>> {
    if spec_get_arr(v, "arguments"@) is Some {
        spec_get_arr(v, "arguments"@)
    } else {
        match spec_get(v, "callee"@) {
            Some(c) => match spec_get(c, "object"@) {
                Some(o) => spec_get_arr(o, "arguments"@),
                None => None,
            },
            None => None,
        }
    }
}

/// The first argument that is itself a constructor call.
pub open spec fn first_call_arg(args: Seq<NodeView>) -> Option<NodeView>
    decreases args.len(),
{
    if args.len() == 0 {
        None
    } else if tag_of(args[0]) is Some {
        Some(args[0])
    } else {
        first_call_arg(args.drop_first())
    }
}

/// The properties of the first argument that is an object literal.
pub open spec fn first_props_arg(args: Seq<NodeView>) -> Option<Seq<NodeView>>
    decreases args.len(),
{
    if args.len() == 0 {
        None
    } else if spec_get_arr(args[0], "properties"@) is Some {
        spec_get_arr(args[0], "properties"@)
    } else {
        first_props_arg(args.drop_first())
    }
}

/// The first argument that is a string literal, read from its `value`
/// field.
pub open spec fn first_str_arg(args: Seq<NodeView>) -> Option<Seq<char>>
    decreases args.len(),
{
    if args.len() == 0 {
        None
    } else if spec_get_str(args[0], "value"@) is Some {
        spec_get_str(args[0], "value"@)
    } else {
        first_str_arg(args.drop_first())
    }
}

pub proof fn lemma_field_of_decreases(fields: Seq<(Seq<char>, NodeView)>, name: Seq<char>)
    requires
        field_of(fields, name) is Some,
    ensures
        decreases_to!(fields => field_of(fields, name)->Some_0),
    decreases fields.len(),
{
    if fields[0].0 == name {
        assert(decreases_to!(fields => fields[0]));
        assert(decreases_to!(fields[0] => fields[0].1));
    } else {
        lemma_field_of_decreases(fields.drop_first(), name);
        assert(decreases_to!(fields => fields.drop_first()));
    }
}

pub proof fn lemma_get_decreases(v: NodeView, name: Seq<char>)
    requires
        spec_get(v, name) is Some,
    ensures
        decreases_to!(v => spec_get(v, name)->Some_0),
{
    match v {
        NodeView::Obj(fields) => {
            assert(decreases_to!(v => fields));
            lemma_field_of_decreases(fields, name);
        },
        _ => {},
    }
}

pub proof fn lemma_get_arr_decreases(v: NodeView, name: Seq<char>)
    requires
        spec_get_arr(v, name) is Some,
    ensures
        decreases_to!(v => spec_get_arr(v, name)->Some_0),
{
    lemma_get_decreases(v, name);
    let m = spec_get(v, name)->Some_0;
    match m {
        NodeView::Arr(items) => {
            assert(decreases_to!(m => items));
        },
        _ => {},
    }
}

pub proof fn lemma_args_of_decreases(v: NodeView)
    requires
        args_of(v) is Some,
    ensures
        decreases_to!(v => args_of(v)->Some_0),
{
    if spec_get_arr(v, "arguments"@) is Some {
        lemma_get_arr_decreases(v, "arguments"@);
    } else {
        lemma_get_decreases(v, "callee"@);
        let c = spec_get(v, "callee"@)->Some_0;
        lemma_get_decreases(c, "object"@);
        let o = spec_get(c, "object"@)->Some_0;
        lemma_get_arr_decreases(o, "arguments"@);
    }
}

pub proof fn lemma_first_call_arg_decreases(args: Seq<NodeView>)
    requires
        first_call_arg(args) is Some,
    ensures
        decreases_to!(args => first_call_arg(args)->Some_0),
    decreases args.len(),
{
    if tag_of(args[0]) is Some {
        assert(decreases_to!(args => args[0]));
    } else {
        lemma_first_call_arg_decreases(args.drop_first());
        assert(decreases_to!(args => args.drop_first()));
    }
}

pub proof fn lemma_first_props_arg_decreases(args: Seq<NodeView>)
    requires
        first_props_arg(args) is Some,
    ensures
        decreases_to!(args => first_props_arg(args)->Some_0),
    decreases args.len(),
{
    if spec_get_arr(args[0], "properties"@) is Some {
        assert(decreases_to!(args => args[0]));
        lemma_get_arr_decreases(args[0], "properties"@);
    } else {
        lemma_first_props_arg_decreases(args.drop_first());
        assert(decreases_to!(args => args.drop_first()));
    }
}

/// What extracting an array constructor yields: the single nested
/// constructor-call argument gives the element type.
pub open spec fn spec_extract_array(field: Seq<char>, v: NodeView) -> Result<TypeView, ErrorView>
    decreases v, 0nat,
{
    match args_of(v) {
        None => Err(ErrorView::EmptyArrayElement { field }),
        Some(args) => match first_call_arg(args) {
            None => Err(ErrorView::EmptyArrayElement { field }),
            Some(elem) => {
                proof {
                    lemma_args_of_decreases(v);
                    lemma_first_call_arg_decreases(args);
                }
                match spec_extract_type(field, elem) {
                    Ok(t) => Ok(TypeView::Array(Box::new(t))),
                    Err(e) => Err(e),
                }
            },
        },
    }
}

/// What extracting an object constructor yields: the nested object
/// literal's properties give the named field types.
pub open spec fn spec_extract_object(field: Seq<char>, v: NodeView) -> Result<TypeView, ErrorView>
    decreases v, 0nat,
{
    match args_of(v) {
        None => Err(ErrorView::EmptyObject { field }),
        Some(args) => match first_props_arg(args) {
            None => Err(ErrorView::EmptyObject { field }),
            Some(props) => if props.len() == 0 {
                Err(ErrorView::EmptyObject { field })
            } else {
                proof {
                    lemma_args_of_decreases(v);
                    lemma_first_props_arg_decreases(args);
                }
                match spec_object_fields(props) {
                    Ok(fields) => Ok(TypeView::Object(fields)),
                    Err(e) => Err(e),
                }
            },
        },
    }
}

/// What extracting the key/value properties of an object literal yields:
/// each value's tag is resolved into a type under the property's key.
/// Of duplicate keys, the first occurrence wins; the first malformed
/// property's error wins.
pub open spec fn spec_object_fields(props: Seq<NodeView>) -> Result<
    Map<Seq<char>, TypeView>,
    ErrorView,
>
    decreases props, 0nat,
{
    if props.len() == 0 {
        Ok(Map::empty())
    } else {
        match spec_object_fields(props.drop_last()) {
            Err(e) => Err(e),
            Ok(m) => {
                let p = props.last();
                let key = match spec_get(p, "key"@) {
                    Some(k) => spec_get_str(k, "name"@),
                    None => None,
                };
                match key {
                    None => Err(ErrorView::ShapeMismatch { step: Step::ObjectKey }),
                    Some(kname) => match spec_get(p, "value"@) {
                        None => Err(ErrorView::ShapeMismatch { step: Step::ObjectValue }),
                        Some(value) => {
                            proof {
                                assert(decreases_to!(props => props.last()));
                                lemma_get_decreases(p, "value"@);
                            }
                            match spec_extract_type(kname, value) {
                                Err(e) => Err(e),
                                Ok(t) => Ok(
                                    if m.contains_key(kname) {
                                        m
                                    } else {
                                        m.insert(kname, t)
                                    },
                                ),
                            }
                        },
                    },
                }
            },
        }
    }
}

/// What extracting an id constructor yields: the single string-literal
/// argument names the referenced table verbatim. The name is not
/// cross-validated against the schema under construction.
pub open spec fn spec_extract_id(field: Seq<char>, v: NodeView) -> Result<TypeView, ErrorView> {
    match args_of(v) {
        None => Err(ErrorView::MissingReferenceName { field }),
        Some(args) => match first_str_arg(args) {
            None => Err(ErrorView::MissingReferenceName { field }),
            Some(name) => Ok(TypeView::Id(name)),
        },
    }
}

/// What extracting an optional constructor yields: the single nested
/// constructor call gives the wrapped type. An optional object is
/// deliberately rejected rather than guessed at.
pub open spec fn spec_extract_optional(field: Seq<char>, v: NodeView) -> Result<
    TypeView,
    ErrorView,
>
    decreases v, 0nat,
{
    match args_of(v) {
        None => Err(ErrorView::MissingAuxData { tag: "optional"@ }),
        Some(args) => match first_call_arg(args) {
            None => Err(ErrorView::MissingAuxData { tag: "optional"@ }),
            Some(inner) => if tag_of(inner) == Some("object"@) {
                Err(ErrorView::UnsupportedOptionalObject { field })
            } else {
                proof {
                    lemma_args_of_decreases(v);
                    lemma_first_call_arg_decreases(args);
                }
                match spec_extract_type(field, inner) {
                    Ok(t) => Ok(TypeView::Optional(Box::new(t))),
                    Err(e) => Err(e),
                }
            },
        },
    }
}

/// What extracting a constructor-call value yields: the tag under
/// `callee.property.name` is dispatched — composite tags to their
/// extractors, every other tag to the resolver.
pub open spec fn spec_extract_type(field: Seq<char>, v: NodeView) -> Result<TypeView, ErrorView>
    decreases v, 1nat,
{
    match tag_of(v) {
        None => Err(ErrorView::MalformedColumn { field, missing: Step::ColumnTag }),
        Some(tag) => if tag == "array"@ {
            spec_extract_array(field, v)
        } else if tag == "object"@ {
            spec_extract_object(field, v)
        } else if tag == "id"@ {
            spec_extract_id(field, v)
        } else if tag == "optional"@ {
            spec_extract_optional(field, v)
        } else {
            spec_resolve(tag, AuxView::Empty)
        },
    }
}

/// What extracting one field-definition property yields: the field name
/// from its key identifier, the type from its value's constructor call.
pub open spec fn spec_extract_column(p: NodeView) -> Result<ColumnView, ErrorView> {
    let key = match spec_get(p, "key"@) {
        Some(k) => spec_get_str(k, "name"@),
        None => None,
    };
    match key {
        None => Err(ErrorView::ShapeMismatch { step: Step::ColumnKey }),
        Some(name) => match spec_get(p, "value"@) {
            None => Err(ErrorView::MalformedColumn { field: name, missing: Step::ColumnValue }),
            Some(value) => match spec_extract_type(name, value) {
                Ok(t) => Ok(ColumnView { name, column_type: t }),
                Err(e) => Err(e),
            },
        },
    }
}

/// Whether some column in the list has the given name.
pub open spec fn column_names_contain(cols: Seq<ColumnView>, name: Seq<char>) -> bool {
    exists|i: int| 0 <= i < cols.len() && cols[i].name == name
}

/// What extracting a column-definition property list yields: columns in
/// encounter order. Of duplicate column names, the first occurrence
/// wins; the first malformed property's error wins.
pub open spec fn spec_columns(props: Seq<NodeView>) -> Result<Seq<ColumnView>, ErrorView>
    decreases props.len(),
{
    if props.len() == 0 {
        Ok(Seq::empty())
    } else {
        match spec_columns(props.drop_last()) {
            Err(e) => Err(e),
            Ok(cols) => match spec_extract_column(props.last()) {
                Err(e) => Err(e),
                Ok(col) => Ok(
                    if column_names_contain(cols, col.name) {
                        cols
                    } else {
                        cols.push(col)
                    },
                ),
            },
        }
    }
}

/// The column-definition properties under a table property's value, if
/// the value can be descended into them.
pub open spec fn spec_table_props(value: NodeView) -> Option<Seq<NodeView>> {
    match args_of(value) {
        None => None,
        Some(args) => first_props_arg(args),
    }
}

/// What extracting one table-defining property yields: the table name
/// from the property key, the columns from the value's nested
/// column-definition properties. A value that cannot be descended into
/// columns yields a table with zero columns rather than an error.
pub open spec fn spec_extract_table(p: NodeView) -> Result<TableView, ErrorView> {
    let key = match spec_get(p, "key"@) {
        Some(k) => spec_get_str(k, "name"@),
        None => None,
    };
    match key {
        None => Err(ErrorView::ShapeMismatch { step: Step::TableKey }),
        Some(name) => {
            let props = match spec_get(p, "value"@) {
                None => None,
                Some(value) => spec_table_props(value),
            };
            match props {
                None => Ok(TableView { name, columns: Seq::empty() }),
                Some(ps) => match spec_columns(ps) {
                    Ok(cols) => Ok(TableView { name, columns: cols }),
                    Err(e) => Err(e),
                },
            }
        },
    }
}

/// Whether some table in the list has the given name.
pub open spec fn table_names_contain(tables: Seq<TableView>, name: Seq<char>) -> bool {
    exists|i: int| 0 <= i < tables.len() && tables[i].name == name
}

/// What extracting the table-defining property list yields: tables in
/// encounter order. Of duplicate table names, the first occurrence
/// wins; the first malformed property's error wins.
pub open spec fn spec_tables(props: Seq<NodeView>) -> Result<Seq<TableView>, ErrorView>
    decreases props.len(),
{
    if props.len() == 0 {
        Ok(Seq::empty())
    } else {
        match spec_tables(props.drop_last()) {
            Err(e) => Err(e),
            Ok(tables) => match spec_extract_table(props.last()) {
                Err(e) => Err(e),
                Ok(table) => Ok(
                    if table_names_contain(tables, table.name) {
                        tables
                    } else {
                        tables.push(table)
                    },
                ),
            },
        }
    }
}

/// The table-defining properties under the schema call's arguments, in
/// order: each argument that holds an object literal contributes its
/// properties.
pub open spec fn props_concat(args: Seq<NodeView>) -> Seq<NodeView>
    decreases args.len(),
{
    if args.len() == 0 {
        Seq::empty()
    } else {
        props_concat(args.drop_last()) + (match spec_get_arr(args.last(), "properties"@) {
            Some(ps) => ps,
            None => Seq::empty(),
        })
    }
}

/// The default-exported schema call: the first top-level statement with
/// a `declaration` field whose node carries an `arguments` array.
pub open spec fn find_declaration(body: Seq<NodeView>) -> Option<NodeView>
    decreases body.len(),
{
    if body.len() == 0 {
        None
    } else {
        match spec_get(body[0], "declaration"@) {
            Some(d) => if spec_get_arr(d, "arguments"@) is Some {
                Some(d)
            } else {
                find_declaration(body.drop_first())
            },
            None => find_declaration(body.drop_first()),
        }
    }
}

/// What the first extraction pass yields: the tables under the
/// default-exported schema call, or `SchemaNotFound` when no such call
/// exists at module top level.
pub open spec fn spec_extract_tables(root: NodeView) -> Result<Seq<TableView>, ErrorView> {
    match spec_get_arr(root, "body"@) {
        None => Err(ErrorView::SchemaNotFound),
        Some(body) => match find_declaration(body) {
            None => Err(ErrorView::SchemaNotFound),
            Some(decl) => spec_tables(props_concat(spec_get_arr(decl, "arguments"@)->Some_0)),
        },
    }
}

/// The function names under one declaration statement: for each entry of
/// its `declarations` array, the string under `id.kind.name`. A missing
/// path is skipped; a present name that is not a string is an error.
pub open spec fn spec_decl_names(decls: Seq<NodeView>) -> Result<Set<Seq<char>>, ErrorView>
    decreases decls.len(),
{
    if decls.len() == 0 {
        Ok(Set::empty())
    } else {
        match spec_decl_names(decls.drop_last()) {
            Err(e) => Err(e),
            Ok(s) => {
                let d = decls.last();
                let id_kind = match spec_get(d, "id"@) {
                    Some(i) => spec_get(i, "kind"@),
                    None => None,
                };
                match id_kind {
                    None => Ok(s),
                    Some(k) => match spec_get(k, "name"@) {
                        None => Ok(s),
                        Some(n) => match as_str_v(n) {
                            Some(name) => Ok(s.insert(name)),
                            None => Err(ErrorView::ShapeMismatch { step: Step::FunctionName }),
                        },
                    },
                }
            },
        }
    }
}

/// The function names exported by the statements of a sibling tree's
/// body.
pub open spec fn spec_body_names(body: Seq<NodeView>) -> Result<Set<Seq<char>>, ErrorView>
    decreases body.len(),
{
    if body.len() == 0 {
        Ok(Set::empty())
    } else {
        match spec_body_names(body.drop_last()) {
            Err(e) => Err(e),
            Ok(s) => {
                let b = body.last();
                let decls = match spec_get(b, "declaration"@) {
                    Some(d) => spec_get_arr(d, "declarations"@),
                    None => None,
                };
                match decls {
                    None => Ok(s),
                    Some(ds) => match spec_decl_names(ds) {
                        Ok(s2) => Ok(s.union(s2)),
                        Err(e) => Err(e),
                    },
                }
            },
        }
    }
}

/// What scanning one sibling tree yields: the set of function names
/// found in its top-level declarations. A tree without a body yields the
/// empty set.
pub open spec fn spec_functions_of(tree: NodeView) -> Result<Set<Seq<char>>, ErrorView> {
    match spec_get_arr(tree, "body"@) {
        None => Ok(Set::empty()),
        Some(body) => spec_body_names(body),
    }
}

/// The constructor tag of a call node.
fn tag_of_node<'a>(v: &'a Node) -> (r: Option<&'a String>)
    ensures
        match r {
            Some(s) => tag_of(v@) == Some(s@),
            None => tag_of(v@) is None,
        },
{
    match v.get("callee") {
        Some(c) => match c.get("property") {
            Some(p) => p.get_str("name"),
            None => None,
        },
        None => None,
    }
}

/// The argument list of a call node.
fn args_of_node<'a>(v: &'a Node) -> (r: Option<&'a Vec<Node>>)
    ensures
        match r {
            Some(items) => args_of(v@) == Some(crate::tree::nodes_view(items@)),
            None => args_of(v@) is None,
        },
{
    match v.get_arr("arguments") {
        Some(items) => Some(items),
        None => match v.get("callee") {
            Some(c) => match c.get("object") {
                Some(o) => o.get_arr("arguments"),
                None => None,
            },
            None => None,
        },
    }
}

/// The first argument that is itself a constructor call.
fn first_call_arg_node<'a>(args: &'a Vec<Node>) -> (r: Option<&'a Node>)
    ensures
        match r {
            Some(m) => first_call_arg(crate::tree::nodes_view(args@)) == Some(m@),
            None => first_call_arg(crate::tree::nodes_view(args@)) is None,
        },
{
    let ghost nv = crate::tree::nodes_view(args@);
    proof {
        crate::tree::lemma_nodes_view(args@);
        assert(nv.skip(0) =~= nv);
    }
    let n = args.len();
    for i in 0..n
        invariant
            n == args.len(),
            nv == crate::tree::nodes_view(args@),
            nv.len() == n,
            forall|j: int| 0 <= j < n ==> #[trigger] nv[j] == crate::tree::node_view(args@[j]),
            first_call_arg(nv) == first_call_arg(nv.skip(i as int)),
    {
        proof {
            assert(nv.skip(i as int)[0] == nv[i as int]);
            assert(nv.skip(i as int).drop_first() =~= nv.skip(i + 1));
        }
        if tag_of_node(&args[i]).is_some() {
            return Some(&args[i]);
        }
    }
    assert(nv.skip(n as int) =~= Seq::<NodeView>::empty());
    None
}

/// The properties of the first argument that is an object literal.
fn first_props_arg_node<'a>(args: &'a Vec<Node>) -> (r: Option<&'a Vec<Node>>)
    ensures
        match r {
            Some(ps) => first_props_arg(crate::tree::nodes_view(args@)) == Some(
                crate::tree::nodes_view(ps@),
            ),
            None => first_props_arg(crate::tree::nodes_view(args@)) is None,
        },
{
    let ghost nv = crate::tree::nodes_view(args@);
    proof {
        crate::tree::lemma_nodes_view(args@);
        assert(nv.skip(0) =~= nv);
    }
    let n = args.len();
    for i in 0..n
        invariant
            n == args.len(),
            nv == crate::tree::nodes_view(args@),
            nv.len() == n,
            forall|j: int| 0 <= j < n ==> #[trigger] nv[j] == crate::tree::node_view(args@[j]),
            first_props_arg(nv) == first_props_arg(nv.skip(i as int)),
    {
        proof {
            assert(nv.skip(i as int)[0] == nv[i as int]);
            assert(nv.skip(i as int).drop_first() =~= nv.skip(i + 1));
        }
        if let Some(ps) = args[i].get_arr("properties") {
            return Some(ps);
        }
    }
    assert(nv.skip(n as int) =~= Seq::<NodeView>::empty());
    None
}

/// The first argument that is a string literal.
fn first_str_arg_node<'a>(args: &'a Vec<Node>) -> (r: Option<&'a String>)
    ensures
        match r {
            Some(s) => first_str_arg(crate::tree::nodes_view(args@)) == Some(s@),
            None => first_str_arg(crate::tree::nodes_view(args@)) is None,
        },
{
    let ghost nv = crate::tree::nodes_view(args@);
    proof {
        crate::tree::lemma_nodes_view(args@);
        assert(nv.skip(0) =~= nv);
    }
    let n = args.len();
    for i in 0..n
        invariant
            n == args.len(),
            nv == crate::tree::nodes_view(args@),
            nv.len() == n,
            forall|j: int| 0 <= j < n ==> #[trigger] nv[j] == crate::tree::node_view(args@[j]),
            first_str_arg(nv) == first_str_arg(nv.skip(i as int)),
    {
        proof {
            assert(nv.skip(i as int)[0] == nv[i as int]);
            assert(nv.skip(i as int).drop_first() =~= nv.skip(i + 1));
        }
        if let Some(s) = args[i].get_str("value") {
            return Some(s);
        }
    }
    assert(nv.skip(n as int) =~= Seq::<NodeView>::empty());
    None
}

/// The model of an object field-list extraction result.
pub open spec fn fields_result_view(r: Result<Vec<(String, ColumnType)>, ExtractionError>) -> Result<
    Map<Seq<char>, TypeView>,
    ErrorView,
> {
    match r {
        Ok(f) => Ok(crate::schema::object_fields_view(f@)),
        Err(e) => Err(e@),
    }
}

pub proof fn lemma_object_fields_err_persists(nv: Seq<NodeView>, i: int)
    requires
        0 <= i <= nv.len(),
        spec_object_fields(nv.take(i)) is Err,
    ensures
        spec_object_fields(nv) == spec_object_fields(nv.take(i)),
    decreases nv.len() - i,
{
    if i == nv.len() {
        assert(nv.take(i) =~= nv);
    } else {
        assert(nv.take(i + 1).drop_last() =~= nv.take(i));
        lemma_object_fields_err_persists(nv, i + 1);
    }
}

/// Whether the accumulated field list already holds the key.
fn contains_field_key(acc: &Vec<(String, ColumnType)>, k: &str) -> (r: bool)
    ensures
        r == exists|i: int| 0 <= i < acc@.len() && acc@[i].0@ == k@,
{
    let n = acc.len();
    for i in 0..n
        invariant
            n == acc.len(),
            forall|j: int| 0 <= j < i ==> acc@[j].0@ != k@,
    {
        if crate::tree::str_eq(acc[i].0.as_str(), k) {
            return true;
        }
    }
    false
}

/// Extracts an array constructor: the single nested constructor-call
/// argument gives the element type, resolved through the resolver.
fn extract_array(field: &str, v: &Node) -> (r: Result<ColumnType, ExtractionError>)
    ensures
        type_result_view(r) == spec_extract_array(field@, v@),
    decreases v@, 0nat,
{
    let args = match args_of_node(v) {
        None => {
            return Err(ExtractionError::EmptyArrayElement { field: field.to_owned() });
        },
        Some(a) => a,
    };
    let elem = match first_call_arg_node(args) {
        None => {
            return Err(ExtractionError::EmptyArrayElement { field: field.to_owned() });
        },
        Some(e) => e,
    };
    proof {
        lemma_args_of_decreases(v@);
        lemma_first_call_arg_decreases(crate::tree::nodes_view(args@));
    }
    match extract_type(field, elem) {
        Ok(t) => {
            proof {
                crate::resolve::lemma_tags_distinct();
            }
            crate::resolve::resolve("array", Aux::Element(t))
        },
        Err(e) => Err(e),
    }
}

/// Extracts an object constructor: the nested object literal's
/// properties give the named field types, resolved through the resolver.
fn extract_object(field: &str, v: &Node) -> (r: Result<ColumnType, ExtractionError>)
    ensures
        type_result_view(r) == spec_extract_object(field@, v@),
    decreases v@, 0nat,
{
    let args = match args_of_node(v) {
        None => {
            return Err(ExtractionError::EmptyObject { field: field.to_owned() });
        },
        Some(a) => a,
    };
    let props = match first_props_arg_node(args) {
        None => {
            return Err(ExtractionError::EmptyObject { field: field.to_owned() });
        },
        Some(ps) => ps,
    };
    if props.len() == 0 {
        proof {
            crate::tree::lemma_nodes_view(props@);
        }
        return Err(ExtractionError::EmptyObject { field: field.to_owned() });
    }
    proof {
        crate::tree::lemma_nodes_view(props@);
        lemma_args_of_decreases(v@);
        lemma_first_props_arg_decreases(crate::tree::nodes_view(args@));
    }
    match extract_object_fields(props) {
        Ok(fields) => {
            proof {
                crate::resolve::lemma_tags_distinct();
            }
            crate::resolve::resolve("object", Aux::Fields(fields))
        },
        Err(e) => Err(e),
    }
}

/// Extracts the key/value properties of an object literal.
fn extract_object_fields(props: &Vec<Node>) -> (r: Result<
    Vec<(String, ColumnType)>,
    ExtractionError,
>)
    ensures
        fields_result_view(r) == spec_object_fields(crate::tree::nodes_view(props@)),
    decreases crate::tree::nodes_view(props@), 0nat,
{
    let ghost nv = crate::tree::nodes_view(props@);
    proof {
        crate::tree::lemma_nodes_view(props@);
        assert(nv.take(0) =~= Seq::<NodeView>::empty());
    }
    let mut acc: Vec<(String, ColumnType)> = Vec::new();
    let n = props.len();
    for i in 0..n
        invariant
            n == props.len(),
            nv == crate::tree::nodes_view(props@),
            nv.len() == n,
            forall|j: int| 0 <= j < n ==> #[trigger] nv[j] == crate::tree::node_view(props@[j]),
            spec_object_fields(nv.take(i as int)) == Ok::<Map<Seq<char>, TypeView>, ErrorView>(
                crate::schema::object_fields_view(acc@),
            ),
    {
        proof {
            assert(nv.take(i + 1).drop_last() =~= nv.take(i as int));
            assert(nv.take(i + 1).last() == nv[i as int]);
        }
        let p = &props[i];
        let key = match (match p.get("key") {
            Some(k) => k.get_str("name"),
            None => None,
        }) {
            Some(k) => k,
            None => {
                proof {
                    lemma_object_fields_err_persists(nv, i + 1);
                }
                return Err(ExtractionError::ShapeMismatch { step: Step::ObjectKey });
            },
        };
        let value = match p.get("value") {
            Some(value) => value,
            None => {
                proof {
                    lemma_object_fields_err_persists(nv, i + 1);
                }
                return Err(ExtractionError::ShapeMismatch { step: Step::ObjectValue });
            },
        };
        proof {
            assert(decreases_to!(nv => nv[i as int]));
            lemma_get_decreases(nv[i as int], "value"@);
        }
        let t = match extract_type(key.as_str(), value) {
            Ok(t) => t,
            Err(e) => {
                proof {
                    lemma_object_fields_err_persists(nv, i + 1);
                }
                return Err(e);
            },
        };
        proof {
            crate::schema::lemma_object_fields_view_contains(acc@, key@);
        }
        if !contains_field_key(&acc, key.as_str()) {
            let ghost old_acc = acc@;
            acc.push((key.clone(), t));
            proof {
                assert(acc@.drop_last() =~= old_acc);
            }
        }
    }
    proof {
        assert(nv.take(n as int) =~= nv);
    }
    Ok(acc)
}

/// Extracts an id constructor: the single string-literal argument names
/// the referenced table, resolved through the resolver.
fn extract_id(field: &str, v: &Node) -> (r: Result<ColumnType, ExtractionError>)
    ensures
        type_result_view(r) == spec_extract_id(field@, v@),
{
    let args = match args_of_node(v) {
        None => {
            return Err(ExtractionError::MissingReferenceName { field: field.to_owned() });
        },
        Some(a) => a,
    };
    match first_str_arg_node(args) {
        None => Err(ExtractionError::MissingReferenceName { field: field.to_owned() }),
        Some(name) => {
            proof {
                crate::resolve::lemma_tags_distinct();
            }
            crate::resolve::resolve("id", Aux::TableName(name.clone()))
        },
    }
}

/// Extracts an optional constructor: the single nested constructor call
/// gives the wrapped type, resolved through the resolver. An optional
/// object is rejected.
fn extract_optional(field: &str, v: &Node) -> (r: Result<ColumnType, ExtractionError>)
    ensures
        type_result_view(r) == spec_extract_optional(field@, v@),
    decreases v@, 0nat,
{
    let args = match args_of_node(v) {
        None => {
            return Err(ExtractionError::MissingAuxData { tag: "optional".to_owned() });
        },
        Some(a) => a,
    };
    let inner = match first_call_arg_node(args) {
        None => {
            return Err(ExtractionError::MissingAuxData { tag: "optional".to_owned() });
        },
        Some(m) => m,
    };
    let inner_is_object = match tag_of_node(inner) {
        Some(t) => crate::tree::str_eq(t.as_str(), "object"),
        None => false,
    };
    if inner_is_object {
        return Err(ExtractionError::UnsupportedOptionalObject { field: field.to_owned() });
    }
    proof {
        lemma_args_of_decreases(v@);
        lemma_first_call_arg_decreases(crate::tree::nodes_view(args@));
    }
    match extract_type(field, inner) {
        Ok(t) => {
            proof {
                crate::resolve::lemma_tags_distinct();
            }
            crate::resolve::resolve("optional", Aux::Inner(t))
        },
        Err(e) => Err(e),
    }
}

/// Extracts the type of a constructor-call value: the tag under
/// `callee.property.name` is dispatched — composite tags to their
/// extractors, every other tag to the resolver. `field` is the field
/// name carried for error context.
pub fn extract_type(field: &str, v: &Node) -> (r: Result<ColumnType, ExtractionError>)
    ensures
        type_result_view(r) == spec_extract_type(field@, v@),
    decreases v@, 1nat,
{
    let tag = match tag_of_node(v) {
        Some(t) => t,
        None => {
            return Err(ExtractionError::MalformedColumn {
                field: field.to_owned(),
                missing: Step::ColumnTag,
            });
        },
    };
    if crate::tree::str_eq(tag.as_str(), "array") {
        extract_array(field, v)
    } else if crate::tree::str_eq(tag.as_str(), "object") {
        extract_object(field, v)
    } else if crate::tree::str_eq(tag.as_str(), "id") {
        extract_id(field, v)
    } else if crate::tree::str_eq(tag.as_str(), "optional") {
        extract_optional(field, v)
    } else {
        crate::resolve::resolve(tag.as_str(), Aux::Empty)
    }
}

/// The model of a column extraction result.
pub open spec fn column_result_view(r: Result<Column, ExtractionError>) -> Result<
    ColumnView,
    ErrorView,
> {
    match r {
        Ok(c) => Ok(c@),
        Err(e) => Err(e@),
    }
}

/// The model of a column-list extraction result.
pub open spec fn columns_result_view(r: Result<Vec<Column>, ExtractionError>) -> Result<
    Seq<ColumnView>,
    ErrorView,
> {
    match r {
        Ok(cols) => Ok(crate::schema::columns_view(cols@)),
        Err(e) => Err(e@),
    }
}

/// The model of a table extraction result.
pub open spec fn table_result_view(r: Result<Table, ExtractionError>) -> Result<
    TableView,
    ErrorView,
> {
    match r {
        Ok(t) => Ok(t@),
        Err(e) => Err(e@),
    }
}

/// The model of a table-list extraction result.
pub open spec fn tables_result_view(r: Result<Vec<Table>, ExtractionError>) -> Result<
    Seq<TableView>,
    ErrorView,
> {
    match r {
        Ok(tables) => Ok(crate::schema::tables_view(tables@)),
        Err(e) => Err(e@),
    }
}

/// Extracts one field-definition property into a column.
pub fn extract_column(p: &Node) -> (r: Result<Column, ExtractionError>)
    ensures
        column_result_view(r) == spec_extract_column(p@),
{
    let key = match (match p.get("key") {
        Some(k) => k.get_str("name"),
        None => None,
    }) {
        Some(k) => k,
        None => {
            return Err(ExtractionError::ShapeMismatch { step: Step::ColumnKey });
        },
    };
    let value = match p.get("value") {
        Some(v) => v,
        None => {
            return Err(ExtractionError::MalformedColumn {
                field: key.clone(),
                missing: Step::ColumnValue,
            });
        },
    };
    match extract_type(key.as_str(), value) {
        Ok(t) => Ok(Column { name: key.clone(), column_type: t }),
        Err(e) => Err(e),
    }
}

pub proof fn lemma_columns_err_persists(nv: Seq<NodeView>, i: int)
    requires
        0 <= i <= nv.len(),
        spec_columns(nv.take(i)) is Err,
    ensures
        spec_columns(nv) == spec_columns(nv.take(i)),
    decreases nv.len() - i,
{
    if i == nv.len() {
        assert(nv.take(i) =~= nv);
    } else {
        assert(nv.take(i + 1).drop_last() =~= nv.take(i));
        lemma_columns_err_persists(nv, i + 1);
    }
}

/// Whether the accumulated columns already hold the name.
fn contains_column(acc: &Vec<Column>, name: &str) -> (r: bool)
    ensures
        r == column_names_contain(crate::schema::columns_view(acc@), name@),
{
    let n = acc.len();
    for i in 0..n
        invariant
            n == acc.len(),
            forall|j: int| 0 <= j < i
                ==> #[trigger] crate::schema::columns_view(acc@)[j].name != name@,
    {
        if crate::tree::str_eq(acc[i].name.as_str(), name) {
            assert(crate::schema::columns_view(acc@)[i as int].name == name@);
            return true;
        }
    }
    false
}

/// Extracts a column-definition property list into columns, in
/// encounter order, first occurrence of a name winning.
pub fn extract_columns(props: &Vec<Node>) -> (r: Result<Vec<Column>, ExtractionError>)
    ensures
        columns_result_view(r) == spec_columns(crate::tree::nodes_view(props@)),
{
    let ghost nv = crate::tree::nodes_view(props@);
    proof {
        crate::tree::lemma_nodes_view(props@);
        assert(nv.take(0) =~= Seq::<NodeView>::empty());
        assert(crate::schema::columns_view(Seq::<Column>::empty()) =~= Seq::<ColumnView>::empty());
    }
    let mut acc: Vec<Column> = Vec::new();
    let n = props.len();
    for i in 0..n
        invariant
            n == props.len(),
            nv == crate::tree::nodes_view(props@),
            nv.len() == n,
            forall|j: int| 0 <= j < n ==> #[trigger] nv[j] == crate::tree::node_view(props@[j]),
            spec_columns(nv.take(i as int)) == Ok::<Seq<ColumnView>, ErrorView>(
                crate::schema::columns_view(acc@),
            ),
    {
        proof {
            assert(nv.take(i + 1).drop_last() =~= nv.take(i as int));
            assert(nv.take(i + 1).last() == nv[i as int]);
        }
        match extract_column(&props[i]) {
            Err(e) => {
                proof {
                    lemma_columns_err_persists(nv, i + 1);
                }
                return Err(e);
            },
            Ok(col) => {
                if !contains_column(&acc, col.name.as_str()) {
                    let ghost old_acc = acc@;
                    let ghost colv = col@;
                    acc.push(col);
                    proof {
                        assert(crate::schema::columns_view(acc@) =~= crate::schema::columns_view(
                            old_acc,
                        ).push(colv));
                    }
                }
            },
        }
    }
    proof {
        assert(nv.take(n as int) =~= nv);
    }
    Ok(acc)
}

/// Extracts one table-defining property into a table. A value that
/// cannot be descended into column definitions yields zero columns.
pub fn extract_table(p: &Node) -> (r: Result<Table, ExtractionError>)
    ensures
        table_result_view(r) == spec_extract_table(p@),
{
    let key = match (match p.get("key") {
        Some(k) => k.get_str("name"),
        None => None,
    }) {
        Some(k) => k,
        None => {
            return Err(ExtractionError::ShapeMismatch { step: Step::TableKey });
        },
    };
    let props_opt = match p.get("value") {
        Some(value) => match args_of_node(value) {
            Some(args) => first_props_arg_node(args),
            None => None,
        },
        None => None,
    };
    match props_opt {
        None => {
            let t = Table { name: key.clone(), columns: Vec::new() };
            proof {
                assert(crate::schema::columns_view(Seq::<Column>::empty()) =~= Seq::<
                    ColumnView,
                >::empty());
            }
            Ok(t)
        },
        Some(props) => match extract_columns(props) {
            Ok(cols) => Ok(Table { name: key.clone(), columns: cols }),
            Err(e) => Err(e),
        },
    }
}

/// Extracted column lists hold no duplicate name: of duplicate column
/// names in the source, the first occurrence wins, so the names of the
/// columns a property list extracts to are pairwise distinct.
pub proof fn lemma_spec_columns_wf(props: Seq<NodeView>)
    ensures
        spec_columns(props) matches Ok(cols) ==> crate::schema::columns_wf(cols),
    decreases props.len(),
{
    if props.len() > 0 {
        lemma_spec_columns_wf(props.drop_last());
        if spec_columns(props) is Ok {
            let cols = spec_columns(props)->Ok_0;
            let front = spec_columns(props.drop_last())->Ok_0;
            match spec_extract_column(props.last()) {
                Ok(col) => {
                    if !column_names_contain(front, col.name) {
                        assert(forall|i: int| 0 <= i < front.len()
                            ==> #[trigger] front[i].name != col.name);
                        assert(forall|i: int| 0 <= i < cols.len() - 1 ==> cols[i] == front[i]);
                    }
                },
                Err(_) => {},
            }
        }
    }
}

/// Extracted table lists hold no duplicate name: of duplicate table
/// names under one schema call, the first occurrence wins, so the names
/// of the tables a property list extracts to are pairwise distinct.
pub proof fn lemma_spec_tables_wf(props: Seq<NodeView>)
    ensures
        spec_tables(props) matches Ok(tables) ==> crate::schema::tables_wf(tables),
    decreases props.len(),
{
    if props.len() > 0 {
        lemma_spec_tables_wf(props.drop_last());
        if spec_tables(props) is Ok {
            let tables = spec_tables(props)->Ok_0;
            let front = spec_tables(props.drop_last())->Ok_0;
            match spec_extract_table(props.last()) {
                Ok(table) => {
                    if !table_names_contain(front, table.name) {
                        assert(forall|i: int| 0 <= i < front.len()
                            ==> #[trigger] front[i].name != table.name);
                        assert(forall|i: int| 0 <= i < tables.len() - 1 ==> tables[i] == front[i]);
                    }
                },
                Err(_) => {},
            }
        }
    }
}

/// Every table of an extracted table list is itself well formed: its
/// column names are pairwise distinct.
pub proof fn lemma_spec_tables_columns_wf(props: Seq<NodeView>)
    ensures
        spec_tables(props) matches Ok(tables) ==> forall|i: int|
            0 <= i < tables.len() ==> crate::schema::columns_wf(#[trigger] tables[i].columns),
    decreases props.len(),
{
    if props.len() > 0 {
        lemma_spec_tables_columns_wf(props.drop_last());
        if spec_tables(props) is Ok {
            let tables = spec_tables(props)->Ok_0;
            let front = spec_tables(props.drop_last())->Ok_0;
            match spec_extract_table(props.last()) {
                Ok(table) => {
                    let key = match spec_get(props.last(), "key"@) {
                        Some(k) => spec_get_str(k, "name"@),
                        None => None,
                    };
                    match key {
                        Some(name) => {
                            let cols = match spec_get(props.last(), "value"@) {
                                None => None,
                                Some(value) => spec_table_props(value),
                            };
                            match cols {
                                None => {
                                    assert(crate::schema::columns_wf(table.columns));
                                },
                                Some(ps) => {
                                    lemma_spec_columns_wf(ps);
                                },
                            }
                        },
                        None => {},
                    }
                    if !table_names_contain(front, table.name) {
                        assert(forall|i: int| 0 <= i < tables.len() - 1 ==> tables[i] == front[i]);
                        assert(tables.last() == table);
                    }
                },
                Err(_) => {},
            }
        }
    }
}

/// The model of a sequence of borrowed nodes.
pub open spec fn refs_view(s: Seq<&Node>) -> Seq<NodeView> {
    s.map_values(|m: &Node| crate::tree::node_view(*m))
}

/// The default-exported schema call among the top-level statements.
fn find_declaration_node<'a>(body: &'a Vec<Node>) -> (r: Option<&'a Node>)
    ensures
        match r {
            Some(d) => find_declaration(crate::tree::nodes_view(body@)) == Some(d@),
            None => find_declaration(crate::tree::nodes_view(body@)) is None,
        },
{
    let ghost nv = crate::tree::nodes_view(body@);
    proof {
        crate::tree::lemma_nodes_view(body@);
        assert(nv.skip(0) =~= nv);
    }
    let n = body.len();
    for i in 0..n
        invariant
            n == body.len(),
            nv == crate::tree::nodes_view(body@),
            nv.len() == n,
            forall|j: int| 0 <= j < n ==> #[trigger] nv[j] == crate::tree::node_view(body@[j]),
            find_declaration(nv) == find_declaration(nv.skip(i as int)),
    {
        proof {
            assert(nv.skip(i as int)[0] == nv[i as int]);
            assert(nv.skip(i as int).drop_first() =~= nv.skip(i + 1));
        }
        if let Some(d) = body[i].get("declaration") {
            if d.get_arr("arguments").is_some() {
                return Some(d);
            }
        }
    }
    assert(nv.skip(n as int) =~= Seq::<NodeView>::empty());
    None
}

/// Collects, in order, the table-defining properties under the schema
/// call's arguments.
fn collect_table_props<'a>(args: &'a Vec<Node>) -> (r: Vec<&'a Node>)
    ensures
        refs_view(r@) == props_concat(crate::tree::nodes_view(args@)),
{
    let ghost anv = crate::tree::nodes_view(args@);
    proof {
        crate::tree::lemma_nodes_view(args@);
        assert(anv.take(0) =~= Seq::<NodeView>::empty());
        assert(refs_view(Seq::<&Node>::empty()) =~= Seq::<NodeView>::empty());
    }
    let mut out: Vec<&'a Node> = Vec::new();
    let n = args.len();
    for i in 0..n
        invariant
            n == args.len(),
            anv == crate::tree::nodes_view(args@),
            anv.len() == n,
            forall|j: int| 0 <= j < n ==> #[trigger] anv[j] == crate::tree::node_view(args@[j]),
            refs_view(out@) == props_concat(anv.take(i as int)),
    {
        proof {
            assert(anv.take(i + 1).drop_last() =~= anv.take(i as int));
            assert(anv.take(i + 1).last() == anv[i as int]);
        }
        match args[i].get_arr("properties") {
            Some(props) => {
                let ghost pnv = crate::tree::nodes_view(props@);
                proof {
                    crate::tree::lemma_nodes_view(props@);
                    assert(refs_view(out@) + pnv.take(0) =~= refs_view(out@));
                }
                let m = props.len();
                for j in 0..m
                    invariant
                        m == props.len(),
                        pnv == crate::tree::nodes_view(props@),
                        pnv.len() == m,
                        forall|l: int| 0 <= l < m
                            ==> #[trigger] pnv[l] == crate::tree::node_view(props@[l]),
                        refs_view(out@) == props_concat(anv.take(i as int)) + pnv.take(j as int),
                {
                    let ghost old_out = out@;
                    out.push(&props[j]);
                    proof {
                        assert(refs_view(out@) =~= refs_view(old_out).push(pnv[j as int]));
                        assert(pnv.take(j + 1) =~= pnv.take(j as int).push(pnv[j as int]));
                        assert(refs_view(old_out).push(pnv[j as int]) =~= props_concat(
                            anv.take(i as int),
                        ) + pnv.take(j + 1));
                    }
                }
                proof {
                    assert(pnv.take(m as int) =~= pnv);
                }
            },
            None => {
                proof {
                    assert(props_concat(anv.take(i + 1)) =~= props_concat(anv.take(i as int)));
                }
            },
        }
    }
    proof {
        assert(anv.take(n as int) =~= anv);
    }
    out
}

pub proof fn lemma_find_declaration_has_args(body: Seq<NodeView>)
    requires
        find_declaration(body) is Some,
    ensures
        spec_get_arr(find_declaration(body)->Some_0, "arguments"@) is Some,
    decreases body.len(),
{
    if body.len() > 0 {
        match spec_get(body[0], "declaration"@) {
            Some(d) => {
                if !(spec_get_arr(d, "arguments"@) is Some) {
                    lemma_find_declaration_has_args(body.drop_first());
                }
            },
            None => {
                lemma_find_declaration_has_args(body.drop_first());
            },
        }
    }
}

pub proof fn lemma_tables_err_persists(nv: Seq<NodeView>, i: int)
    requires
        0 <= i <= nv.len(),
        spec_tables(nv.take(i)) is Err,
    ensures
        spec_tables(nv) == spec_tables(nv.take(i)),
    decreases nv.len() - i,
{
    if i == nv.len() {
        assert(nv.take(i) =~= nv);
    } else {
        assert(nv.take(i + 1).drop_last() =~= nv.take(i));
        lemma_tables_err_persists(nv, i + 1);
    }
}

/// Whether the accumulated tables already hold the name.
fn contains_table(acc: &Vec<Table>, name: &str) -> (r: bool)
    ensures
        r == table_names_contain(crate::schema::tables_view(acc@), name@),
{
    let n = acc.len();
    for i in 0..n
        invariant
            n == acc.len(),
            forall|j: int| 0 <= j < i ==> #[trigger] crate::schema::tables_view(acc@)[j].name
                != name@,
    {
        if crate::tree::str_eq(acc[i].name.as_str(), name) {
            assert(crate::schema::tables_view(acc@)[i as int].name == name@);
            return true;
        }
    }
    false
}

/// Extracts the tables under the default-exported schema call: table
/// names in encounter order, first occurrence of a name winning, and
/// columns per table. Fails with `SchemaNotFound` when no
/// default-exported call exists at module top level.
pub fn extract_tables(root: &Node) -> (r: Result<Vec<Table>, ExtractionError>)
    ensures
        tables_result_view(r) == spec_extract_tables(root@),
        r matches Ok(tables) ==> crate::schema::tables_wf(crate::schema::tables_view(tables@)),
        r matches Ok(tables) ==> forall|i: int|
            0 <= i < tables@.len() ==> crate::schema::columns_wf(
                #[trigger] crate::schema::tables_view(tables@)[i].columns,
            ),
{
    let body = match root.get_arr("body") {
        None => {
            return Err(ExtractionError::SchemaNotFound);
        },
        Some(b) => b,
    };
    let decl = match find_declaration_node(body) {
        None => {
            return Err(ExtractionError::SchemaNotFound);
        },
        Some(d) => d,
    };
    proof {
        lemma_find_declaration_has_args(crate::tree::nodes_view(body@));
    }
    let args = match decl.get_arr("arguments") {
        Some(a) => a,
        None => {
            return Err(ExtractionError::SchemaNotFound);
        },
    };
    let props = collect_table_props(args);
    let ghost nv = refs_view(props@);
    proof {
        assert(nv.take(0) =~= Seq::<NodeView>::empty());
        assert(crate::schema::tables_view(Seq::<Table>::empty()) =~= Seq::<TableView>::empty());
    }
    let mut acc: Vec<Table> = Vec::new();
    let n = props.len();
    for i in 0..n
        invariant
            n == props.len(),
            nv == refs_view(props@),
            nv.len() == n,
            spec_extract_tables(root@) == spec_tables(nv),
            spec_tables(nv.take(i as int)) == Ok::<Seq<TableView>, ErrorView>(
                crate::schema::tables_view(acc@),
            ),
    {
        proof {
            assert(nv.take(i + 1).drop_last() =~= nv.take(i as int));
            assert(nv.take(i + 1).last() == nv[i as int]);
            assert(nv[i as int] == crate::tree::node_view(*props@[i as int]));
        }
        match extract_table(props[i]) {
            Err(e) => {
                proof {
                    lemma_tables_err_persists(nv, i + 1);
                }
                return Err(e);
            },
            Ok(table) => {
                if !contains_table(&acc, table.name.as_str()) {
                    let ghost old_acc = acc@;
                    let ghost tv = table@;
                    acc.push(table);
                    proof {
                        assert(crate::schema::tables_view(acc@) =~= crate::schema::tables_view(
                            old_acc,
                        ).push(tv));
                    }
                }
            },
        }
    }
    proof {
        assert(nv.take(n as int) =~= nv);
        lemma_spec_tables_wf(nv);
        lemma_spec_tables_columns_wf(nv);
    }
    Ok(acc)
}

} // verus!
