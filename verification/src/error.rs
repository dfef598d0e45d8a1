//! The ways in which a projection can fail.

use vstd::prelude::*;

verus! {

/// A failure of the projection. The two attribute errors name the attribute
/// that the row failed to supply.
#[derive(Clone, Debug, PartialEq, Eq)]
pub enum ProjectionError {
    /// A statement is tagged as a select but does not have a select's shape.
    MalformedStatement,
    /// The row has no attribute of this name.
    MissingAttribute(String),
    /// The row's attribute of this name is not of the kind its column declares.
    TypeMismatch(String),
}

/// Mathematical model of a [`ProjectionError`].
pub enum ErrorView {
    MalformedStatement,
    MissingAttribute(Seq<char>),
    TypeMismatch(Seq<char>),
}

impl View for ProjectionError {
    type V = ErrorView;

    open spec fn view(&self) -> ErrorView {
        match self {
            ProjectionError::MalformedStatement => ErrorView::MalformedStatement,
            ProjectionError::MissingAttribute(name) => ErrorView::MissingAttribute(name@),
            ProjectionError::TypeMismatch(name) => ErrorView::TypeMismatch(name@),
        }
    }
}

} // verus!
