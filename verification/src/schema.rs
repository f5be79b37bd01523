//! The resolved schema model: column types, columns, tables, and the
//! assembled schema, together with their mathematical models and
//! well-formedness conditions.

use vstd::prelude::*;

verus! {

/// The closed vocabulary of column types.
///
/// `Array` and `Optional` own exactly one inner type; `Object` owns a
/// list of named fields. Type trees nest arbitrarily but never cycle.
#[derive(Debug, PartialEq, Eq)]
pub enum ColumnType {
    /// A reference to the named table.
    Id(String),
    /// A string column.
    String,
    /// A 64-bit integer column.
    Int64,
    /// A numeric column.
    Number,
    /// A boolean column.
    Bool,
    /// A byte-array column.
    Bytes,
    /// An array of one element type.
    Array(Box<ColumnType>),
    /// An object with named fields. Keys are unique: of duplicate keys in
    /// the source, the first occurrence wins.
    Object(Vec<(String, ColumnType)>),
    /// A null column.
    Null,
    /// An optional wrapper around one inner type.
    Optional(Box<ColumnType>),
}

/// The mathematical model of a `ColumnType`. Object fields are modelled
/// as a map, since their order is irrelevant and their keys unique.
pub enum TypeView {
    Id(Seq<char>),
    String,
    Int64,
    Number,
    Bool,
    Bytes,
    Array(Box<TypeView>),
    Object(Map<Seq<char>, TypeView>),
    Null,
    Optional(Box<TypeView>),
}

/// The model of a column type.
pub open spec fn type_view(t: ColumnType) -> TypeView
    decreases t,
{
    match t {
        ColumnType::Id(name) => TypeView::Id(name@),
        ColumnType::String => TypeView::String,
        ColumnType::Int64 => TypeView::Int64,
        ColumnType::Number => TypeView::Number,
        ColumnType::Bool => TypeView::Bool,
        ColumnType::Bytes => TypeView::Bytes,
        ColumnType::Array(elem) => TypeView::Array(Box::new(type_view(*elem))),
        ColumnType::Object(fields) => TypeView::Object(object_fields_view(fields@)),
        ColumnType::Null => TypeView::Null,
        ColumnType::Optional(inner) => TypeView::Optional(Box::new(type_view(*inner))),
    }
}

/// The model of an object's field list: a map in which, of duplicate
/// keys, the first occurrence wins.
pub open spec fn object_fields_view(fields: Seq<(String, ColumnType)>) -> Map<Seq<char>, TypeView>
    decreases fields,
{
    if fields.len() == 0 {
        Map::empty()
    } else if object_fields_view(fields.drop_last()).contains_key(fields.last().0@) {
        object_fields_view(fields.drop_last())
    } else {
        object_fields_view(fields.drop_last()).insert(
            fields.last().0@,
            type_view(fields.last().1),
        )
    }
}

impl View for ColumnType {
    type V = TypeView;

    open spec fn view(&self) -> TypeView {
        type_view(*self)
    }
}

/// One column: a name and its resolved type.
#[derive(Debug, PartialEq, Eq)]
pub struct Column {
    /// The field name.
    pub name: String,
    /// The resolved type.
    pub column_type: ColumnType,
}

/// The mathematical model of a `Column`.
pub struct ColumnView {
    pub name: Seq<char>,
    pub column_type: TypeView,
}

impl View for Column {
    type V = ColumnView;

    open spec fn view(&self) -> ColumnView {
        ColumnView { name: self.name@, column_type: self.column_type@ }
    }
}

/// One table: a name and its columns in encounter order.
#[derive(Debug, PartialEq, Eq)]
pub struct Table {
    /// The table name.
    pub name: String,
    /// The columns, in the order their definitions appear.
    pub columns: Vec<Column>,
}

/// The mathematical model of a `Table`.
pub struct TableView {
    pub name: Seq<char>,
    pub columns: Seq<ColumnView>,
}

/// The model of a column list, elementwise.
pub open spec fn columns_view(columns: Seq<Column>) -> Seq<ColumnView> {
    columns.map_values(|c: Column| c@)
}

impl View for Table {
    type V = TableView;

    open spec fn view(&self) -> TableView {
        TableView { name: self.name@, columns: columns_view(self.columns@) }
    }
}

/// What the collaborator that loads a per-table sibling tree handed back:
/// the tree, or its error message.
#[derive(Debug, PartialEq, Eq)]
pub enum SiblingTree {
    /// The sibling tree was loaded.
    Loaded(crate::tree::Node),
    /// Loading failed, with the collaborator's message.
    Failed(String),
}

/// The mathematical model of a `SiblingTree`.
pub enum SiblingView {
    Loaded(crate::tree::NodeView),
    Failed(Seq<char>),
}

impl View for SiblingTree {
    type V = SiblingView;

    open spec fn view(&self) -> SiblingView {
        match self {
            SiblingTree::Loaded(n) => SiblingView::Loaded(crate::tree::node_view(*n)),
            SiblingTree::Failed(m) => SiblingView::Failed(m@),
        }
    }
}

/// The assembled schema: tables in encounter order, and, per table name,
/// the function names discovered in that table's sibling tree.
#[derive(Debug, PartialEq, Eq)]
pub struct Schema {
    /// The tables, in the order their definitions appear. Names are
    /// unique: of duplicate table names, the first occurrence wins.
    pub tables: Vec<Table>,
    /// For each table, in table order, the function names found under its
    /// namespace, first occurrence first, without duplicates.
    pub functions: Vec<(String, Vec<String>)>,
}

/// The mathematical model of a `Schema`. The function names of one
/// namespace form a set.
pub struct SchemaView {
    pub tables: Seq<TableView>,
    pub functions: Map<Seq<char>, Set<Seq<char>>>,
}

/// The model of a table list, elementwise.
pub open spec fn tables_view(tables: Seq<Table>) -> Seq<TableView> {
    tables.map_values(|t: Table| t@)
}

/// The model of a name list as a set.
pub open spec fn names_set(names: Seq<String>) -> Set<Seq<char>> {
    Set::new(|n: Seq<char>| exists|i: int| 0 <= i < names.len() && names[i]@ == n)
}

/// The model of the per-table function lists as a map from namespace to
/// the set of its function names.
pub open spec fn functions_view(functions: Seq<(String, Vec<String>)>) -> Map<
    Seq<char>,
    Set<Seq<char>>,
>
    decreases functions,
{
    if functions.len() == 0 {
        Map::empty()
    } else {
        functions_view(functions.drop_last()).insert(
            functions.last().0@,
            names_set(functions.last().1@),
        )
    }
}

impl View for Schema {
    type V = SchemaView;

    open spec fn view(&self) -> SchemaView {
        SchemaView {
            tables: tables_view(self.tables@),
            functions: functions_view(self.functions@),
        }
    }
}

/// A key is in the model of a field list exactly when some pair of the
/// list carries it.
pub proof fn lemma_object_fields_view_contains(s: Seq<(String, ColumnType)>, k: Seq<char>)
    ensures
        object_fields_view(s).contains_key(k) <==> (exists|i: int|
            0 <= i < s.len() && s[i].0@ == k),
    decreases s.len(),
{
    if s.len() > 0 {
        lemma_object_fields_view_contains(s.drop_last(), k);
        assert(forall|i: int| 0 <= i < s.len() - 1 ==> #[trigger] s.drop_last()[i] == s[i]);
        if object_fields_view(s).contains_key(k) {
            if s.last().0@ != k {
                let i = choose|i: int| 0 <= i < s.drop_last().len() && s.drop_last()[i].0@ == k;
                assert(s[i].0@ == k);
            } else {
                assert(s[s.len() - 1].0@ == k);
            }
        }
        if exists|i: int| 0 <= i < s.len() && s[i].0@ == k {
            let i = choose|i: int| 0 <= i < s.len() && s[i].0@ == k;
            if i < s.len() - 1 {
                assert(s.drop_last()[i].0@ == k);
            }
        }
    }
}

/// Of pairs sharing a key, the first occurrence decides the model: the
/// map holds the type of the first pair that carries the key.
pub proof fn lemma_object_fields_view_first(s: Seq<(String, ColumnType)>, i: int)
    requires
        0 <= i < s.len(),
        forall|j: int| 0 <= j < i ==> s[j].0@ != s[i].0@,
    ensures
        object_fields_view(s).contains_key(s[i].0@),
        object_fields_view(s)[s[i].0@] == type_view(s[i].1),
    decreases s.len(),
{
    assert(forall|j: int| 0 <= j < s.len() - 1 ==> #[trigger] s.drop_last()[j] == s[j]);
    if i == s.len() - 1 {
        lemma_object_fields_view_contains(s.drop_last(), s[i].0@);
    } else {
        lemma_object_fields_view_first(s.drop_last(), i);
    }
}

/// Keys being unique within a field list: no two pairs share a key.
pub open spec fn field_keys_unique(s: Seq<(String, ColumnType)>) -> bool {
    forall|i: int, j: int| 0 <= i < j < s.len() ==> (#[trigger] s[i].0)@ != (#[trigger] s[j].0)@
}

/// Object field order is irrelevant to the model: two field lists with
/// unique keys that hold the same pairs, in whatever order, have the
/// same model.
pub proof fn lemma_object_fields_order_irrelevant(
    s1: Seq<(String, ColumnType)>,
    s2: Seq<(String, ColumnType)>,
)
    requires
        field_keys_unique(s1),
        field_keys_unique(s2),
        forall|p: (String, ColumnType)| s1.contains(p) <==> s2.contains(p),
    ensures
        object_fields_view(s1) == object_fields_view(s2),
{
    assert forall|k: Seq<char>|
        object_fields_view(s1).contains_key(k) implies object_fields_view(s2).contains_key(
        k,
    ) by {
        lemma_object_fields_view_contains(s1, k);
        lemma_object_fields_view_contains(s2, k);
        let i = choose|i: int| 0 <= i < s1.len() && s1[i].0@ == k;
        assert(s1.contains(s1[i]));
        let j = choose|j: int| 0 <= j < s2.len() && s2[j] == s1[i];
        assert(s2[j].0@ == k);
    }
    assert forall|k: Seq<char>|
        object_fields_view(s2).contains_key(k) implies object_fields_view(s1).contains_key(
        k,
    ) by {
        lemma_object_fields_view_contains(s1, k);
        lemma_object_fields_view_contains(s2, k);
        let i = choose|i: int| 0 <= i < s2.len() && s2[i].0@ == k;
        assert(s2.contains(s2[i]));
        let j = choose|j: int| 0 <= j < s1.len() && s1[j] == s2[i];
        assert(s1[j].0@ == k);
    }
    assert forall|k: Seq<char>|
        object_fields_view(s1).contains_key(k) implies object_fields_view(s1)[k]
        == object_fields_view(s2)[k] by {
        lemma_object_fields_view_contains(s1, k);
        let i = choose|i: int| 0 <= i < s1.len() && s1[i].0@ == k;
        lemma_object_fields_view_first(s1, i);
        assert(s1.contains(s1[i]));
        let j = choose|j: int| 0 <= j < s2.len() && s2[j] == s1[i];
        lemma_object_fields_view_first(s2, j);
    }
    assert(object_fields_view(s1) =~= object_fields_view(s2));
}

/// Table names are unique within a well-formed schema.
pub open spec fn tables_wf(tables: Seq<TableView>) -> bool {
    forall|i: int, j: int|
        0 <= i < j < tables.len() ==> #[trigger] tables[i].name != #[trigger] tables[j].name
}

/// Column names are unique within a well-formed table.
pub open spec fn columns_wf(columns: Seq<ColumnView>) -> bool {
    forall|i: int, j: int|
        0 <= i < j < columns.len() ==> #[trigger] columns[i].name != #[trigger] columns[j].name
}

} // verus!
