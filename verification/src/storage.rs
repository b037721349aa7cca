//! A free-standing storage cell.
//!
//! The generic storage is one reusable cell outside any arena: the same
//! single-writer / multi-reader borrow discipline, without generation
//! tracking, for values whose lifetime is managed by their holder.

use vstd::prelude::*;

use crate::error::BorrowError;
use crate::error::BorrowMutError;
use crate::slot::Slot;

verus! {

/// The state of a free-standing storage cell, as specifications see it.
#[verifier::ext_equal]
pub struct StorageView<V> {
    /// The stored value, if the cell is currently occupied.
    pub value: Option<V>,
    /// How many read borrows are outstanding.
    pub readers: int,
    /// Whether a write borrow is outstanding.
    pub writer: bool,
}

impl<V> StorageView<V> {
    /// No borrow of either kind is outstanding.
    pub open spec fn idle(self) -> bool {
        self.readers == 0 && !self.writer
    }
}

/// A single storage cell for one optional value, with dynamic borrow
/// tracking.
pub struct GenericStorage<V> {
    cell: Slot<V>,
}

impl<V> View for GenericStorage<V> {
    type V = StorageView<V>;

    closed spec fn view(&self) -> StorageView<V> {
        StorageView { value: self.cell@.value, readers: self.cell@.readers, writer: self.cell@.writer }
    }
}

impl<V> GenericStorage<V> {
    /// A fresh, empty, unborrowed cell.
    pub fn new() -> (s: Self)
        ensures
            s@ == (StorageView::<V> { value: None, readers: 0, writer: false }),
    {
        GenericStorage { cell: Slot::new() }
    }

    /// Store a value, replacing whatever was present. Like the arena cells'
    /// replacement, this checks no borrow conflict.
    pub fn set(&mut self, value: V)
        ensures
            final(self)@ == (StorageView { value: Some(value), ..old(self)@ }),
    {
        let _ = self.cell.set(Some(value));
    }

    /// Take the value out, reporting whether one was present.
    pub fn take(&mut self) -> (present: bool)
        ensures
            present == (old(self)@.value is Some),
            final(self)@ == (StorageView { value: None, ..old(self)@ }),
    {
        let prev = self.cell.set(None);
        prev.is_some()
    }

    /// Attempt to acquire a shared (read) borrow. Fails if a write borrow is
    /// outstanding, or if the cell is empty.
    pub fn try_read(&mut self) -> (r: Result<(), BorrowError>)
        requires
            old(self)@.readers < usize::MAX as int,
        ensures
            old(self)@.writer ==> r == Err::<(), BorrowError>(BorrowError::AlreadyBorrowedMut)
                && final(self)@ == old(self)@,
            !old(self)@.writer && old(self)@.value is None ==> r == Err::<(), BorrowError>(
                BorrowError::Dropped,
            ) && final(self)@ == old(self)@,
            !old(self)@.writer && old(self)@.value is Some ==> r == Ok::<(), BorrowError>(())
                && final(self)@ == (StorageView { readers: old(self)@.readers + 1, ..old(self)@ }),
    {
        self.cell.try_read()
    }

    /// Release one shared borrow.
    pub fn release_read(&mut self)
        requires
            old(self)@.readers > 0,
        ensures
            final(self)@ == (StorageView { readers: old(self)@.readers - 1, ..old(self)@ }),
    {
        self.cell.release_read();
    }

    /// Attempt to acquire the exclusive (write) borrow. Fails if any borrow
    /// is outstanding, or if the cell is empty.
    pub fn try_write(&mut self) -> (r: Result<(), BorrowMutError>)
        ensures
            old(self)@.writer ==> r == Err::<(), BorrowMutError>(
                BorrowMutError::AlreadyBorrowedMut,
            ) && final(self)@ == old(self)@,
            !old(self)@.writer && old(self)@.readers > 0 ==> r == Err::<(), BorrowMutError>(
                BorrowMutError::AlreadyBorrowed,
            ) && final(self)@ == old(self)@,
            old(self)@.idle() && old(self)@.value is None ==> r == Err::<(), BorrowMutError>(
                BorrowMutError::Dropped,
            ) && final(self)@ == old(self)@,
            old(self)@.idle() && old(self)@.value is Some ==> r == Ok::<(), BorrowMutError>(())
                && final(self)@ == (StorageView { writer: true, ..old(self)@ }),
    {
        self.cell.try_write()
    }

    /// Release the exclusive borrow.
    pub fn release_write(&mut self)
        requires
            old(self)@.writer,
        ensures
            final(self)@ == (StorageView { writer: false, ..old(self)@ }),
    {
        self.cell.release_write();
    }

    /// Shared access to the stored value.
    pub fn borrow(&self) -> (r: &V)
        requires
            self@.value is Some,
        ensures
            self@.value == Some(*r),
    {
        self.cell.borrow()
    }

    /// Exclusive access to the stored value.
    pub fn borrow_mut(&mut self) -> (r: &mut V)
        requires
            old(self)@.value is Some,
        ensures
            old(self)@.value == Some(*r),
            final(self)@ == (StorageView { value: Some(*final(r)), ..old(self)@ }),
    {
        self.cell.borrow_mut()
    }
}

impl<V> Default for GenericStorage<V> {
    /// Same as [`GenericStorage::new`].
    fn default() -> (s: Self)
        ensures
            s@ == (StorageView::<V> { value: None, readers: 0, writer: false }),
    {
        GenericStorage::new()
    }
}

} // verus!
