//! Structured failures of the borrow tracker.

use vstd::prelude::*;

verus! {

/// Why a shared (read) borrow attempt failed.
#[derive(Clone, Copy, Debug, PartialEq, Eq, Structural)]
pub enum BorrowError {
    /// A write borrow is currently outstanding on the cell.
    AlreadyBorrowedMut,
    /// The cell holds no value: the handle is stale or the value was taken.
    Dropped,
}

/// Why an exclusive (write) borrow attempt failed.
#[derive(Clone, Copy, Debug, PartialEq, Eq, Structural)]
pub enum BorrowMutError {
    /// One or more read borrows are currently outstanding on the cell.
    AlreadyBorrowed,
    /// Another write borrow is currently outstanding on the cell.
    AlreadyBorrowedMut,
    /// The cell holds no value: the handle is stale or the value was taken.
    Dropped,
}

impl BorrowError {
    /// Render the failure for diagnostics.
    pub fn describe(&self) -> (r: &'static str)
        ensures
            r@ == (match self {
                BorrowError::AlreadyBorrowedMut => "already borrowed mutably"@,
                BorrowError::Dropped => "dropped"@,
            }),
    {
        match self {
            BorrowError::AlreadyBorrowedMut => "already borrowed mutably",
            BorrowError::Dropped => "dropped",
        }
    }
}

impl BorrowMutError {
    /// Render the failure for diagnostics.
    pub fn describe(&self) -> (r: &'static str)
        ensures
            r@ == (match self {
                BorrowMutError::AlreadyBorrowed => "already borrowed"@,
                BorrowMutError::AlreadyBorrowedMut => "already borrowed mutably"@,
                BorrowMutError::Dropped => "dropped"@,
            }),
    {
        match self {
            BorrowMutError::AlreadyBorrowed => "already borrowed",
            BorrowMutError::AlreadyBorrowedMut => "already borrowed mutably",
            BorrowMutError::Dropped => "dropped",
        }
    }
}

} // verus!
