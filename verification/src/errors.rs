//! The extraction error taxonomy. Every extraction function returns a
//! result rather than aborting; each error carries the table, column or
//! tag context needed for an actionable message.

use vstd::prelude::*;

verus! {

/// The navigation step at which an expected field was absent or had the
/// wrong kind.
#[derive(Clone, Copy, Debug, PartialEq, Eq)]
pub enum Step {
    /// A table property without a readable key name.
    TableKey,
    /// A column property without a readable key name.
    ColumnKey,
    /// A column property without a value node.
    ColumnValue,
    /// A column value without a readable constructor tag.
    ColumnTag,
    /// An object-literal property without a readable key name.
    ObjectKey,
    /// An object-literal property without a value node.
    ObjectValue,
    /// A declaration whose function name is present but not a string.
    FunctionName,
}

/// Why an extraction failed.
#[derive(Debug, PartialEq, Eq)]
pub enum ExtractionError {
    /// An expected field was absent or of the wrong kind at the named step.
    ShapeMismatch { step: Step },
    /// A column definition is missing a required sub-node.
    MalformedColumn { field: String, missing: Step },
    /// The constructor tag is not part of the type vocabulary.
    UnresolvedType { tag: String },
    /// A composite constructor tag came without its required datum.
    MissingAuxData { tag: String },
    /// An array constructor with no nested constructor-call argument.
    EmptyArrayElement { field: String },
    /// An object constructor with no nested key/value properties.
    EmptyObject { field: String },
    /// An id constructor whose string-literal argument is absent or
    /// not a string.
    MissingReferenceName { field: String },
    /// An optional constructor wrapping an object, which is deliberately
    /// rejected rather than guessed at.
    UnsupportedOptionalObject { field: String },
    /// No default-exported schema call exists at module top level.
    SchemaNotFound,
    /// Loading the per-table sibling tree failed; wraps the collaborator's
    /// message.
    NamespaceFile { table: String, message: String },
}

/// The mathematical model of an extraction error.
pub enum ErrorView {
    ShapeMismatch { step: Step },
    MalformedColumn { field: Seq<char>, missing: Step },
    UnresolvedType { tag: Seq<char> },
    MissingAuxData { tag: Seq<char> },
    EmptyArrayElement { field: Seq<char> },
    EmptyObject { field: Seq<char> },
    MissingReferenceName { field: Seq<char> },
    UnsupportedOptionalObject { field: Seq<char> },
    SchemaNotFound,
    NamespaceFile { table: Seq<char>, message: Seq<char> },
}

impl View for ExtractionError {
    type V = ErrorView;

    open spec fn view(&self) -> ErrorView {
        match self {
            ExtractionError::ShapeMismatch { step } => ErrorView::ShapeMismatch { step: *step },
            ExtractionError::MalformedColumn { field, missing } => ErrorView::MalformedColumn {
                field: field@,
                missing: *missing,
            },
            ExtractionError::UnresolvedType { tag } => ErrorView::UnresolvedType { tag: tag@ },
            ExtractionError::MissingAuxData { tag } => ErrorView::MissingAuxData { tag: tag@ },
            ExtractionError::EmptyArrayElement { field } => ErrorView::EmptyArrayElement {
                field: field@,
            },
            ExtractionError::EmptyObject { field } => ErrorView::EmptyObject { field: field@ },
            ExtractionError::MissingReferenceName { field } => ErrorView::MissingReferenceName {
                field: field@,
            },
            ExtractionError::UnsupportedOptionalObject { field } => (
                ErrorView::UnsupportedOptionalObject { field: field@ }
            ),
            ExtractionError::SchemaNotFound => ErrorView::SchemaNotFound,
            ExtractionError::NamespaceFile { table, message } => ErrorView::NamespaceFile {
                table: table@,
                message: message@,
            },
        }
    }
}

} // verus!
