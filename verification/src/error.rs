//! Failures of the projection core.
//!
//! Every failure propagates immediately to the caller; there is no retry and
//! no partial output. Compute failures cover name inference, lookup, length
//! reconciliation and duplicate names; the two selector variants cover
//! composition on a non-selector receiver and attempted selector nesting.
use vstd::prelude::*;

verus! {

/// An error raised by the projection core.
#[derive(Debug)]
pub enum ProjError {
    /// A leaf column reference named a column the table does not hold.
    ColumnNotFound(String),
    /// Two result columns carried the same output name.
    DuplicateName(String),
    /// A result column's length matched neither one nor the table height.
    LengthMismatch { len: usize, height: usize },
    /// No output name could be inferred from the expression's structure.
    NoOutputName,
    /// A column-set expression stood where a single column was required.
    MultipleOutputs,
    /// Selector composition was attempted on a non-selector receiver.
    NotASelector,
    /// A selector was about to be wrapped inside another selector.
    NestedSelector,
}

/// Ghost mirror of [`ProjError`].
pub enum ErrModel {
    ColumnNotFound(Seq<char>),
    DuplicateName(Seq<char>),
    LengthMismatch { len: int, height: int },
    NoOutputName,
    MultipleOutputs,
    NotASelector,
    NestedSelector,
}

impl View for ProjError {
    type V = ErrModel;

    open spec fn view(&self) -> ErrModel {
        match self {
            ProjError::ColumnNotFound(n) => ErrModel::ColumnNotFound(n@),
            ProjError::DuplicateName(n) => ErrModel::DuplicateName(n@),
            ProjError::LengthMismatch { len, height } => ErrModel::LengthMismatch {
                len: *len as int,
                height: *height as int,
            },
            ProjError::NoOutputName => ErrModel::NoOutputName,
            ProjError::MultipleOutputs => ErrModel::MultipleOutputs,
            ProjError::NotASelector => ErrModel::NotASelector,
            ProjError::NestedSelector => ErrModel::NestedSelector,
        }
    }
}

} // verus!
