//! The failures that the store reports. None of them ends anything: the
//! store is as it was before the call that failed.

use crate::date::Date;
use crate::model::ErrorView;
use vstd::prelude::*;

verus! {

/// Why an operation on the store was refused.
#[derive(Debug, PartialEq, Eq)]
pub enum StoreError {
    /// The name is empty once trimmed.
    EmptyName,
    /// The name holds no letter and no digit, so that its id would be empty.
    EmptyId,
    /// A habit with this id exists already.
    DuplicateId(String),
    /// The frequency is none of daily, weekly and monthly.
    InvalidFrequency,
    /// No habit has this id.
    NotFound(String),
    /// The date was not written as year, month and day of a day that exists.
    InvalidDate,
    /// The habit is checked off for this date already.
    AlreadyChecked(Date),
}

impl View for StoreError {
    type V = ErrorView;

    open spec fn view(&self) -> ErrorView {
        match *self {
            StoreError::EmptyName => ErrorView::EmptyName,
            StoreError::EmptyId => ErrorView::EmptyId,
            StoreError::DuplicateId(id) => ErrorView::DuplicateId(id@),
            StoreError::InvalidFrequency => ErrorView::InvalidFrequency,
            StoreError::NotFound(id) => ErrorView::NotFound(id@),
            StoreError::InvalidDate => ErrorView::InvalidDate,
            StoreError::AlreadyChecked(date) => ErrorView::AlreadyChecked(date),
        }
    }
}

} // verus!
