//! The second extraction pass and the assembled result: for each
//! discovered table, the function names found in its sibling tree, and
//! the schema that owns both.

use vstd::prelude::*;

use crate::errors::ErrorView;
use crate::errors::ExtractionError;
use crate::extract::spec_extract_tables;
use crate::extract::spec_functions_of;
use crate::schema::functions_view;
use crate::schema::names_set;
use crate::schema::tables_view;
use crate::schema::Schema;
use crate::schema::SchemaView;
use crate::schema::SiblingTree;
use crate::schema::SiblingView;
use crate::schema::TableView;
use crate::tree::Node;

verus! {

/// The sibling tree supplied for the named table: the first entry whose
/// key is the table name, if any.
pub open spec fn sibling_lookup(siblings: Seq<(Seq<char>, SiblingView)>, name: Seq<char>) -> Option<
    SiblingView,
>
    decreases siblings.len(),
{
    if siblings.len() == 0 {
        None
    } else if siblings[0].0 == name {
        Some(siblings[0].1)
    } else {
        sibling_lookup(siblings.drop_first(), name)
    }
}

/// The model of the collaborator-supplied sibling list.
pub open spec fn siblings_view(siblings: Seq<(String, SiblingTree)>) -> Seq<
    (Seq<char>, SiblingView),
> {
    siblings.map_values(|p: (String, SiblingTree)| (p.0@, p.1@))
}

/// What the second pass yields: for each table, in order, the set of
/// function names found in its sibling tree. A table whose sibling tree
/// is missing or failed to load aborts the whole pass with
/// `NamespaceFile`; the first such table's error wins.
pub open spec fn spec_namespace_functions(
    tables: Seq<TableView>,
    siblings: Seq<(Seq<char>, SiblingView)>,
) -> Result<Map<Seq<char>, Set<Seq<char>>>, ErrorView>
    decreases tables.len(),
{
    if tables.len() == 0 {
        Ok(Map::empty())
    } else {
        match spec_namespace_functions(tables.drop_last(), siblings) {
            Err(e) => Err(e),
            Ok(m) => {
                let name = tables.last().name;
                match sibling_lookup(siblings, name) {
                    None => Err(
                        ErrorView::NamespaceFile {
                            table: name,
                            message: "no sibling tree was supplied"@,
                        },
                    ),
                    Some(SiblingView::Failed(msg)) => Err(
                        ErrorView::NamespaceFile { table: name, message: msg },
                    ),
                    Some(SiblingView::Loaded(tree)) => match spec_functions_of(tree) {
                        Err(e) => Err(e),
                        Ok(s) => Ok(m.insert(name, s)),
                    },
                }
            },
        }
    }
}

/// What the whole extraction yields: the tables of the first pass and
/// the per-table function names of the second, or the first error of
/// either pass.
pub open spec fn spec_extract_schema(
    root: crate::tree::NodeView,
    siblings: Seq<(Seq<char>, SiblingView)>,
) -> Result<SchemaView, ErrorView> {
    match spec_extract_tables(root) {
        Err(e) => Err(e),
        Ok(tables) => match spec_namespace_functions(tables, siblings) {
            Err(e) => Err(e),
            Ok(functions) => Ok(SchemaView { tables, functions }),
        },
    }
}

/// The model of a function-name list extraction result.
pub open spec fn names_result_view(r: Result<Vec<String>, ExtractionError>) -> Result<
    Set<Seq<char>>,
    ErrorView,
> {
    match r {
        Ok(names) => Ok(names_set(names@)),
        Err(e) => Err(e@),
    }
}

/// The model of a schema extraction result.
pub open spec fn schema_result_view(r: Result<Schema, ExtractionError>) -> Result<
    SchemaView,
    ErrorView,
> {
    match r {
        Ok(s) => Ok(s@),
        Err(e) => Err(e@),
    }
}

/// Extraction is deterministic: its result is a function of the input
/// tree and the supplied sibling trees alone, so two runs over
/// identical input yield structurally equal schema models.
pub proof fn lemma_extraction_deterministic(
    root: crate::tree::NodeView,
    siblings: Seq<(Seq<char>, SiblingView)>,
    r1: Result<SchemaView, ErrorView>,
    r2: Result<SchemaView, ErrorView>,
)
    requires
        r1 == spec_extract_schema(root, siblings),
        r2 == spec_extract_schema(root, siblings),
    ensures
        r1 == r2,
{
}

/// The schema invariants hold of every extracted schema: table names
/// are pairwise unique, and column names are pairwise unique within
/// each table.
pub proof fn lemma_extracted_schema_wf(
    root: crate::tree::NodeView,
    siblings: Seq<(Seq<char>, SiblingView)>,
    r: Result<SchemaView, ErrorView>,
)
    requires
        r == spec_extract_schema(root, siblings),
        r is Ok,
    ensures
        crate::schema::tables_wf(r->Ok_0.tables),
        forall|i: int| 0 <= i < r->Ok_0.tables.len()
            ==> crate::schema::columns_wf(#[trigger] r->Ok_0.tables[i].columns),
{
    let tables = spec_extract_tables(root)->Ok_0;
    match crate::tree::spec_get_arr(root, "body"@) {
        Some(body) => match crate::extract::find_declaration(body) {
            Some(decl) => {
                let props = crate::extract::props_concat(
                    crate::tree::spec_get_arr(decl, "arguments"@)->Some_0,
                );
                crate::extract::lemma_spec_tables_wf(props);
                crate::extract::lemma_spec_tables_columns_wf(props);
            },
            None => {},
        },
        None => {},
    }
}

pub proof fn lemma_names_set_push(s: Seq<String>, x: String)
    ensures
        names_set(s.push(x)) == names_set(s).insert(x@),
{
    assert forall|n: Seq<char>| names_set(s.push(x)).contains(n) implies names_set(s).insert(
        x@,
    ).contains(n) by {
        let i = choose|i: int| 0 <= i < s.push(x).len() && s.push(x)[i]@ == n;
        if i < s.len() {
            assert(s[i]@ == n);
        }
    }
    assert forall|n: Seq<char>| names_set(s).insert(x@).contains(n) implies names_set(
        s.push(x),
    ).contains(n) by {
        if names_set(s).contains(n) {
            let i = choose|i: int| 0 <= i < s.len() && s[i]@ == n;
            assert(s.push(x)[i]@ == n);
        } else {
            assert(s.push(x)[s.len() as int]@ == n);
        }
    }
    assert(names_set(s.push(x)) =~= names_set(s).insert(x@));
}

pub proof fn lemma_decl_names_err_persists(dnv: Seq<crate::tree::NodeView>, j: int)
    requires
        0 <= j <= dnv.len(),
        crate::extract::spec_decl_names(dnv.take(j)) is Err,
    ensures
        crate::extract::spec_decl_names(dnv) == crate::extract::spec_decl_names(dnv.take(j)),
    decreases dnv.len() - j,
{
    if j == dnv.len() {
        assert(dnv.take(j) =~= dnv);
    } else {
        assert(dnv.take(j + 1).drop_last() =~= dnv.take(j));
        lemma_decl_names_err_persists(dnv, j + 1);
    }
}

pub proof fn lemma_body_names_err_persists(bnv: Seq<crate::tree::NodeView>, i: int)
    requires
        0 <= i <= bnv.len(),
        crate::extract::spec_body_names(bnv.take(i)) is Err,
    ensures
        crate::extract::spec_body_names(bnv) == crate::extract::spec_body_names(bnv.take(i)),
    decreases bnv.len() - i,
{
    if i == bnv.len() {
        assert(bnv.take(i) =~= bnv);
    } else {
        assert(bnv.take(i + 1).drop_last() =~= bnv.take(i));
        lemma_body_names_err_persists(bnv, i + 1);
    }
}

/// Whether the accumulated names already hold the name.
fn contains_name(acc: &Vec<String>, name: &str) -> (r: bool)
    ensures
        r == names_set(acc@).contains(name@),
{
    let n = acc.len();
    for i in 0..n
        invariant
            n == acc.len(),
            forall|j: int| 0 <= j < i ==> acc@[j]@ != name@,
    {
        if crate::tree::str_eq(acc[i].as_str(), name) {
            return true;
        }
    }
    false
}

/// Scans one sibling tree for the function names exported by its
/// top-level declarations: the strings under `id.kind.name`, first
/// occurrence first, without duplicates. A present name that is not a
/// string is an error; a missing path is skipped.
pub fn functions_of(tree: &Node) -> (r: Result<Vec<String>, ExtractionError>)
    ensures
        names_result_view(r) == spec_functions_of(tree@),
        r matches Ok(names) ==> forall|i: int, j: int|
            0 <= i < j < names@.len() ==> (#[trigger] names@[i])@ != (#[trigger] names@[j])@,
{
    let body = match tree.get_arr("body") {
        None => {
            proof {
                assert(names_set(Seq::<String>::empty()) =~= Set::<Seq<char>>::empty());
            }
            return Ok(Vec::new());
        },
        Some(b) => b,
    };
    let ghost bnv = crate::tree::nodes_view(body@);
    proof {
        crate::tree::lemma_nodes_view(body@);
        assert(bnv.take(0) =~= Seq::<crate::tree::NodeView>::empty());
        assert(names_set(Seq::<String>::empty()) =~= Set::<Seq<char>>::empty());
    }
    let mut acc: Vec<String> = Vec::new();
    let n = body.len();
    for i in 0..n
        invariant
            n == body.len(),
            bnv == crate::tree::nodes_view(body@),
            bnv.len() == n,
            forall|j: int| 0 <= j < n ==> #[trigger] bnv[j] == crate::tree::node_view(body@[j]),
            spec_functions_of(tree@) == crate::extract::spec_body_names(bnv),
            crate::extract::spec_body_names(bnv.take(i as int)) == Ok::<Set<Seq<char>>, ErrorView>(
                names_set(acc@),
            ),
            forall|a: int, b: int| 0 <= a < b < acc@.len()
                ==> (#[trigger] acc@[a])@ != (#[trigger] acc@[b])@,
    {
        proof {
            assert(bnv.take(i + 1).drop_last() =~= bnv.take(i as int));
            assert(bnv.take(i + 1).last() == bnv[i as int]);
        }
        let decls_opt = match body[i].get("declaration") {
            Some(d) => d.get_arr("declarations"),
            None => None,
        };
        if let Some(decls) = decls_opt {
            let ghost dnv = crate::tree::nodes_view(decls@);
            let ghost s_prev = names_set(acc@);
            proof {
                crate::tree::lemma_nodes_view(decls@);
                assert(dnv.take(0) =~= Seq::<crate::tree::NodeView>::empty());
                assert(s_prev.union(Set::<Seq<char>>::empty()) =~= s_prev);
            }
            let m = decls.len();
            for j in 0..m
                invariant
                    m == decls.len(),
                    dnv == crate::tree::nodes_view(decls@),
                    dnv.len() == m,
                    forall|l: int| 0 <= l < m
                        ==> #[trigger] dnv[l] == crate::tree::node_view(decls@[l]),
                    n == body.len(),
                    bnv.len() == n,
                    0 <= i < n,
                    spec_functions_of(tree@) == crate::extract::spec_body_names(bnv),
                    crate::extract::spec_body_names(bnv.take(i as int)) == Ok::<
                        Set<Seq<char>>,
                        ErrorView,
                    >(s_prev),
                    bnv.take(i + 1).drop_last() == bnv.take(i as int),
                    bnv.take(i + 1).last() == bnv[i as int],
                    (match crate::tree::spec_get(bnv[i as int], "declaration"@) {
                        Some(dv) => crate::tree::spec_get_arr(dv, "declarations"@) == Some(dnv),
                        None => false,
                    }),
                    crate::extract::spec_decl_names(dnv.take(j as int)) is Ok,
                    names_set(acc@) == s_prev.union(
                        crate::extract::spec_decl_names(dnv.take(j as int))->Ok_0,
                    ),
                    forall|a: int, b: int| 0 <= a < b < acc@.len()
                        ==> (#[trigger] acc@[a])@ != (#[trigger] acc@[b])@,
            {
                proof {
                    assert(dnv.take(j + 1).drop_last() =~= dnv.take(j as int));
                    assert(dnv.take(j + 1).last() == dnv[j as int]);
                }
                let d = &decls[j];
                let name_node = match (match d.get("id") {
                    Some(idn) => idn.get("kind"),
                    None => None,
                }) {
                    Some(k) => k.get("name"),
                    None => None,
                };
                if let Some(nn) = name_node {
                    match nn.as_str() {
                        Some(s) => {
                            let ghost sj = crate::extract::spec_decl_names(
                                dnv.take(j as int),
                            )->Ok_0;
                            if !contains_name(&acc, s.as_str()) {
                                let ghost old_acc = acc@;
                                acc.push(s.clone());
                                proof {
                                    lemma_names_set_push(old_acc, acc@.last());
                                    assert(names_set(acc@) =~= s_prev.union(sj.insert(s@)));
                                    assert(forall|a: int| 0 <= a < old_acc.len()
                                        ==> (#[trigger] old_acc[a])@ != s@);
                                }
                            } else {
                                proof {
                                    assert(names_set(acc@).contains(s@));
                                    assert(names_set(acc@) =~= s_prev.union(sj.insert(s@)));
                                }
                            }
                        },
                        None => {
                            proof {
                                lemma_decl_names_err_persists(dnv, j + 1);
                                lemma_body_names_err_persists(bnv, i + 1);
                            }
                            return Err(ExtractionError::ShapeMismatch {
                                step: crate::errors::Step::FunctionName,
                            });
                        },
                    }
                }
            }
            proof {
                assert(dnv.take(m as int) =~= dnv);
            }
        }
    }
    proof {
        assert(bnv.take(n as int) =~= bnv);
    }
    Ok(acc)
}

pub proof fn lemma_namespace_err_persists(
    tables: Seq<TableView>,
    siblings: Seq<(Seq<char>, SiblingView)>,
    i: int,
)
    requires
        0 <= i <= tables.len(),
        spec_namespace_functions(tables.take(i), siblings) is Err,
    ensures
        spec_namespace_functions(tables, siblings) == spec_namespace_functions(
            tables.take(i),
            siblings,
        ),
    decreases tables.len() - i,
{
    if i == tables.len() {
        assert(tables.take(i) =~= tables);
    } else {
        assert(tables.take(i + 1).drop_last() =~= tables.take(i));
        lemma_namespace_err_persists(tables, siblings, i + 1);
    }
}

/// The sibling tree supplied for the named table, if any.
fn lookup_sibling<'a>(siblings: &'a Vec<(String, SiblingTree)>, name: &str) -> (r: Option<
    &'a SiblingTree,
>)
    ensures
        match r {
            Some(s) => sibling_lookup(siblings_view(siblings@), name@) == Some(s@),
            None => sibling_lookup(siblings_view(siblings@), name@) is None,
        },
{
    let ghost sv = siblings_view(siblings@);
    proof {
        assert(sv.skip(0) =~= sv);
    }
    let n = siblings.len();
    for i in 0..n
        invariant
            n == siblings.len(),
            sv == siblings_view(siblings@),
            sv.len() == n,
            sibling_lookup(sv, name@) == sibling_lookup(sv.skip(i as int), name@),
    {
        proof {
            assert(sv.skip(i as int)[0] == sv[i as int]);
            assert(sv[i as int] == (siblings@[i as int].0@, siblings@[i as int].1@));
            assert(sv.skip(i as int).drop_first() =~= sv.skip(i + 1));
        }
        if crate::tree::str_eq(siblings[i].0.as_str(), name) {
            return Some(&siblings[i].1);
        }
    }
    assert(sv.skip(n as int) =~= Seq::<(Seq<char>, SiblingView)>::empty());
    None
}

/// Extracts the full schema: the tables under the default-exported
/// schema call, and, for each table, the function names found in the
/// sibling tree the collaborator supplied under the table's name. A
/// missing or failed sibling aborts the whole extraction; no partial
/// cross-file schema is returned.
pub fn extract_schema(root: &Node, siblings: &Vec<(String, SiblingTree)>) -> (r: Result<
    Schema,
    ExtractionError,
>)
    ensures
        schema_result_view(r) == spec_extract_schema(root@, siblings_view(siblings@)),
        r matches Ok(schema) ==> crate::schema::tables_wf(tables_view(schema.tables@)),
        r matches Ok(schema) ==> forall|i: int|
            0 <= i < schema.tables@.len() ==> crate::schema::columns_wf(
                #[trigger] tables_view(schema.tables@)[i].columns,
            ),
        r matches Ok(schema) ==> schema.functions@.len() == schema.tables@.len(),
        r matches Ok(schema) ==> forall|i: int|
            0 <= i < schema.functions@.len() ==> (#[trigger] schema.functions@[i].0)@
                == tables_view(schema.tables@)[i].name,
        r matches Ok(schema) ==> forall|i: int, a: int, b: int|
            0 <= i < schema.functions@.len() && 0 <= a < b < schema.functions@[i].1@.len()
                ==> ((#[trigger] schema.functions@[i].1@[a])@
                    != (#[trigger] schema.functions@[i].1@[b])@),
{
    let ghost sv = siblings_view(siblings@);
    let tables = match crate::extract::extract_tables(root) {
        Ok(ts) => ts,
        Err(e) => {
            return Err(e);
        },
    };
    let ghost tv = tables_view(tables@);
    proof {
        assert(tv.take(0) =~= Seq::<TableView>::empty());
        assert(functions_view(Seq::<(String, Vec<String>)>::empty()) =~= Map::<
            Seq<char>,
            Set<Seq<char>>,
        >::empty());
    }
    let mut funcs: Vec<(String, Vec<String>)> = Vec::new();
    let n = tables.len();
    for i in 0..n
        invariant
            n == tables.len(),
            sv == siblings_view(siblings@),
            tv == tables_view(tables@),
            tv.len() == n,
            crate::schema::tables_wf(tv),
            forall|j: int| 0 <= j < n ==> crate::schema::columns_wf(#[trigger] tv[j].columns),
            funcs@.len() == i,
            forall|j: int| 0 <= j < i ==> (#[trigger] funcs@[j].0)@ == tv[j].name,
            forall|j: int, a: int, b: int|
                0 <= j < i && 0 <= a < b < funcs@[j].1@.len() ==> ((#[trigger] funcs@[j].1@[a])@
                    != (#[trigger] funcs@[j].1@[b])@),
            spec_extract_schema(root@, sv) == (match spec_namespace_functions(tv, sv) {
                Err(e) => Err::<SchemaView, ErrorView>(e),
                Ok(functions) => Ok(SchemaView { tables: tv, functions }),
            }),
            spec_namespace_functions(tv.take(i as int), sv) == Ok::<
                Map<Seq<char>, Set<Seq<char>>>,
                ErrorView,
            >(functions_view(funcs@)),
    {
        proof {
            assert(tv.take(i + 1).drop_last() =~= tv.take(i as int));
            assert(tv.take(i + 1).last() == tv[i as int]);
            assert(tv[i as int] == tables@[i as int]@);
        }
        let name = &tables[i].name;
        match lookup_sibling(siblings, name.as_str()) {
            None => {
                proof {
                    lemma_namespace_err_persists(tv, sv, i + 1);
                }
                return Err(ExtractionError::NamespaceFile {
                    table: name.clone(),
                    message: "no sibling tree was supplied".to_owned(),
                });
            },
            Some(SiblingTree::Failed(msg)) => {
                proof {
                    lemma_namespace_err_persists(tv, sv, i + 1);
                }
                return Err(ExtractionError::NamespaceFile {
                    table: name.clone(),
                    message: msg.clone(),
                });
            },
            Some(SiblingTree::Loaded(tree)) => match functions_of(tree) {
                Err(e) => {
                    proof {
                        lemma_namespace_err_persists(tv, sv, i + 1);
                    }
                    return Err(e);
                },
                Ok(names) => {
                    let ghost old_funcs = funcs@;
                    funcs.push((name.clone(), names));
                    proof {
                        assert(funcs@.drop_last() =~= old_funcs);
                    }
                },
            },
        }
    }
    proof {
        assert(tv.take(n as int) =~= tv);
    }
    Ok(Schema { tables, functions: funcs })
}

} // verus!
