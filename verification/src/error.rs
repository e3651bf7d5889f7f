//! The ways in which running an effect can fail.

use vstd::prelude::*;
use vstd::string::*;

verus! {

/// Why an operation or a predicate failed.
#[derive(Debug, Clone)]
pub enum EffectError {
    /// A state path did not resolve, for reading or for writing.
    InvalidPath(String),
    /// A comparison or an arithmetic operation met a value of the wrong kind.
    InvalidValue(String),
    /// A predicate could not be evaluated.
    PredicateError(String),
    /// Something the operation needs from its host is missing.
    OperationError(String),
    /// A loop ran as often as it was allowed to, with its condition still true.
    MaxIterationsReached,
}

/// The mathematical content of an [`EffectError`].
pub enum ErrorView {
    InvalidPath(Seq<char>),
    InvalidValue(Seq<char>),
    PredicateError(Seq<char>),
    OperationError(Seq<char>),
    MaxIterationsReached,
}

impl View for EffectError {
    type V = ErrorView;

    open spec fn view(&self) -> ErrorView {
        match *self {
            EffectError::InvalidPath(p) => ErrorView::InvalidPath(p@),
            EffectError::InvalidValue(v) => ErrorView::InvalidValue(v@),
            EffectError::PredicateError(e) => ErrorView::PredicateError(e@),
            EffectError::OperationError(e) => ErrorView::OperationError(e@),
            EffectError::MaxIterationsReached => ErrorView::MaxIterationsReached,
        }
    }
}

/// How an operation ended.
pub type EffectResult = Result<(), EffectError>;

/// The content of the result of an operation.
pub open spec fn outcome_view(r: EffectResult) -> Result<(), ErrorView> {
    match r {
        Ok(_) => Ok(()),
        Err(e) => Err(e@),
    }
}

/// The content of the result of a predicate.
pub open spec fn verdict_view(r: Result<bool, EffectError>) -> Result<bool, ErrorView> {
    match r {
        Ok(b) => Ok(b),
        Err(e) => Err(e@),
    }
}

/// The text of an error, for people to read.
pub open spec fn error_text(e: ErrorView) -> Seq<char> {
    match e {
        ErrorView::InvalidPath(p) => "Invalid state path: "@ + p,
        ErrorView::InvalidValue(v) => "Invalid value: "@ + v,
        ErrorView::PredicateError(e) => "Predicate error: "@ + e,
        ErrorView::OperationError(e) => "Operation error: "@ + e,
        ErrorView::MaxIterationsReached => "Maximum iterations reached"@,
    }
}

impl EffectError {
    /// The text of the error, for people to read.
    pub fn message(&self) -> (r: String)
        ensures
            r@ == error_text(self@),
    {
        match self {
            EffectError::InvalidPath(p) => String::from_str("Invalid state path: ").concat(
                p.as_str(),
            ),
            EffectError::InvalidValue(v) => String::from_str("Invalid value: ").concat(v.as_str()),
            EffectError::PredicateError(e) => String::from_str("Predicate error: ").concat(
                e.as_str(),
            ),
            EffectError::OperationError(e) => String::from_str("Operation error: ").concat(
                e.as_str(),
            ),
            EffectError::MaxIterationsReached => String::from_str("Maximum iterations reached"),
        }
    }
}

} // verus!
