//! Structured decode errors.

use vstd::prelude::*;

verus! {

/// Why a flat map failed to decode into a claim set.
///
/// Extension payload decoders return values of this same type, so their
/// failures travel through the claim-set decoder unchanged.
#[derive(Clone, Debug, PartialEq)]
pub enum ClaimError {
    /// The required subject field was absent from the map.
    MissingRequiredField(String),
    /// The named field (and, for a localizable field, the given tag) was
    /// provided more than once.
    DuplicateField(String, Option<String>),
    /// A `#tag` suffix was applied to a field that is not localizable.
    UnexpectedLocalizedVariant(String),
    /// The value's shape does not match the named field's declared type.
    TypeMismatch(String),
    /// An extension decoder rejected a key it does not know.
    UnexpectedField(String),
}

/// The mathematical shape of a [`ClaimError`].
#[verifier::ext_equal]
pub enum ErrorView {
    MissingRequiredField(Seq<char>),
    DuplicateField(Seq<char>, Option<Seq<char>>),
    UnexpectedLocalizedVariant(Seq<char>),
    TypeMismatch(Seq<char>),
    UnexpectedField(Seq<char>),
}

impl View for ClaimError {
    type V = ErrorView;

    open spec fn view(&self) -> ErrorView {
        match self {
            ClaimError::MissingRequiredField(f) => ErrorView::MissingRequiredField(f@),
            ClaimError::DuplicateField(f, t) => ErrorView::DuplicateField(f@, t.deep_view()),
            ClaimError::UnexpectedLocalizedVariant(f) => ErrorView::UnexpectedLocalizedVariant(f@),
            ClaimError::TypeMismatch(f) => ErrorView::TypeMismatch(f@),
            ClaimError::UnexpectedField(f) => ErrorView::UnexpectedField(f@),
        }
    }
}

} // verus!
