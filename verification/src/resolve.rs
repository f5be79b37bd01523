//! The type resolver: a pure mapping from a constructor tag, plus the
//! single auxiliary datum a composite tag needs, to a column type. This
//! is the sole place the type vocabulary is defined.

use vstd::prelude::*;

use crate::errors::ErrorView;
use crate::errors::ExtractionError;
use crate::schema::ColumnType;
use crate::schema::TypeView;

verus! {

/// The auxiliary datum a constructor tag needs: composite tags carry one
/// extra piece of data, primitive tags none.
#[derive(Debug, PartialEq, Eq)]
pub enum Aux {
    /// No auxiliary datum.
    Empty,
    /// The referenced table name, for `id`.
    TableName(String),
    /// The element type, for `array`.
    Element(ColumnType),
    /// The named field types, for `object`.
    Fields(Vec<(String, ColumnType)>),
    /// The wrapped type, for `optional`.
    Inner(ColumnType),
}

/// The mathematical model of an `Aux`.
pub enum AuxView {
    Empty,
    TableName(Seq<char>),
    Element(TypeView),
    Fields(Map<Seq<char>, TypeView>),
    Inner(TypeView),
}

impl View for Aux {
    type V = AuxView;

    open spec fn view(&self) -> AuxView {
        match self {
            Aux::Empty => AuxView::Empty,
            Aux::TableName(name) => AuxView::TableName(name@),
            Aux::Element(t) => AuxView::Element(t@),
            Aux::Fields(fields) => AuxView::Fields(crate::schema::object_fields_view(fields@)),
            Aux::Inner(t) => AuxView::Inner(t@),
        }
    }
}

/// The model of a resolution or extraction result.
pub open spec fn type_result_view(r: Result<ColumnType, ExtractionError>) -> Result<
    TypeView,
    ErrorView,
> {
    match r {
        Ok(t) => Ok(t@),
        Err(e) => Err(e@),
    }
}

/// What resolving a tag yields.
///
/// A primitive tag maps to its type from the tag alone; a surplus datum
/// is ignored. A composite tag without its required datum fails with
/// `MissingAuxData`; a tag outside the vocabulary fails with
/// `UnresolvedType`.
pub open spec fn spec_resolve(tag: Seq<char>, aux: AuxView) -> Result<TypeView, ErrorView> {
    if tag == "id"@ {
        match aux {
            AuxView::TableName(name) => Ok(TypeView::Id(name)),
            _ => Err(ErrorView::MissingAuxData { tag }),
        }
    } else if tag == "string"@ {
        Ok(TypeView::String)
    } else if tag == "int64"@ {
        Ok(TypeView::Int64)
    } else if tag == "number"@ {
        Ok(TypeView::Number)
    } else if tag == "boolean"@ {
        Ok(TypeView::Bool)
    } else if tag == "bytes"@ {
        Ok(TypeView::Bytes)
    } else if tag == "null"@ {
        Ok(TypeView::Null)
    } else if tag == "array"@ {
        match aux {
            AuxView::Element(t) => Ok(TypeView::Array(Box::new(t))),
            _ => Err(ErrorView::MissingAuxData { tag }),
        }
    } else if tag == "object"@ {
        match aux {
            AuxView::Fields(fields) => Ok(TypeView::Object(fields)),
            _ => Err(ErrorView::MissingAuxData { tag }),
        }
    } else if tag == "optional"@ {
        match aux {
            AuxView::Inner(t) => Ok(TypeView::Optional(Box::new(t))),
            _ => Err(ErrorView::MissingAuxData { tag }),
        }
    } else {
        Err(ErrorView::UnresolvedType { tag })
    }
}

/// Resolves a constructor tag and its auxiliary datum to a column type.
pub fn resolve(tag: &str, aux: Aux) -> (r: Result<ColumnType, ExtractionError>)
    ensures
        type_result_view(r) == spec_resolve(tag@, aux@),
{
    if crate::tree::str_eq(tag, "id") {
        match aux {
            Aux::TableName(name) => Ok(ColumnType::Id(name)),
            _ => Err(ExtractionError::MissingAuxData { tag: tag.to_owned() }),
        }
    } else if crate::tree::str_eq(tag, "string") {
        Ok(ColumnType::String)
    } else if crate::tree::str_eq(tag, "int64") {
        Ok(ColumnType::Int64)
    } else if crate::tree::str_eq(tag, "number") {
        Ok(ColumnType::Number)
    } else if crate::tree::str_eq(tag, "boolean") {
        Ok(ColumnType::Bool)
    } else if crate::tree::str_eq(tag, "bytes") {
        Ok(ColumnType::Bytes)
    } else if crate::tree::str_eq(tag, "null") {
        Ok(ColumnType::Null)
    } else if crate::tree::str_eq(tag, "array") {
        match aux {
            Aux::Element(t) => Ok(ColumnType::Array(Box::new(t))),
            _ => Err(ExtractionError::MissingAuxData { tag: tag.to_owned() }),
        }
    } else if crate::tree::str_eq(tag, "object") {
        match aux {
            Aux::Fields(fields) => Ok(ColumnType::Object(fields)),
            _ => Err(ExtractionError::MissingAuxData { tag: tag.to_owned() }),
        }
    } else if crate::tree::str_eq(tag, "optional") {
        match aux {
            Aux::Inner(t) => Ok(ColumnType::Optional(Box::new(t))),
            _ => Err(ExtractionError::MissingAuxData { tag: tag.to_owned() }),
        }
    } else {
        Err(ExtractionError::UnresolvedType { tag: tag.to_owned() })
    }
}

/// The ten constructor tags are pairwise distinct. Each tag's length is
/// stated, and the tags of equal length are told apart by their first
/// character.
pub proof fn lemma_tags_distinct()
    ensures
        "id"@.len() == 2,
        "null"@.len() == 4,
        "int64"@.len() == 5,
        "bytes"@.len() == 5,
        "array"@.len() == 5,
        "string"@.len() == 6,
        "number"@.len() == 6,
        "object"@.len() == 6,
        "boolean"@.len() == 7,
        "optional"@.len() == 8,
        "int64"@ != "bytes"@,
        "int64"@ != "array"@,
        "bytes"@ != "array"@,
        "string"@ != "number"@,
        "string"@ != "object"@,
        "number"@ != "object"@,
{
    reveal_strlit("id");
    reveal_strlit("null");
    reveal_strlit("int64");
    reveal_strlit("bytes");
    reveal_strlit("array");
    reveal_strlit("string");
    reveal_strlit("number");
    reveal_strlit("object");
    reveal_strlit("boolean");
    reveal_strlit("optional");
    assert("int64"@[0] == 'i');
    assert("bytes"@[0] == 'b');
    assert("array"@[0] == 'a');
    assert("string"@[0] == 's');
    assert("number"@[0] == 'n');
    assert("object"@[0] == 'o');
}

/// Resolving any primitive tag is pure: from the tag alone, whatever the
/// auxiliary datum, it yields the matching primitive type.
pub proof fn lemma_resolve_primitive(aux: AuxView)
    ensures
        spec_resolve("string"@, aux) == Ok::<TypeView, ErrorView>(TypeView::String),
        spec_resolve("int64"@, aux) == Ok::<TypeView, ErrorView>(TypeView::Int64),
        spec_resolve("number"@, aux) == Ok::<TypeView, ErrorView>(TypeView::Number),
        spec_resolve("boolean"@, aux) == Ok::<TypeView, ErrorView>(TypeView::Bool),
        spec_resolve("bytes"@, aux) == Ok::<TypeView, ErrorView>(TypeView::Bytes),
        spec_resolve("null"@, aux) == Ok::<TypeView, ErrorView>(TypeView::Null),
{
    lemma_tags_distinct();
}

/// A tag outside the vocabulary always fails with `UnresolvedType`,
/// carrying the tag itself.
pub proof fn lemma_resolve_unknown_tag(tag: Seq<char>, aux: AuxView)
    requires
        tag != "id"@,
        tag != "string"@,
        tag != "int64"@,
        tag != "number"@,
        tag != "boolean"@,
        tag != "bytes"@,
        tag != "null"@,
        tag != "array"@,
        tag != "object"@,
        tag != "optional"@,
    ensures
        spec_resolve(tag, aux) == Err::<TypeView, ErrorView>(ErrorView::UnresolvedType { tag }),
{
}

} // verus!
