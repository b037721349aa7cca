//! A single reusable storage cell.
//!
//! A cell holds an optional value together with its generation counter and a
//! record of the borrows that are currently outstanding. The borrow record is
//! what turns the compile-time exclusive/shared discipline into a run-time
//! one: acquiring a read or write borrow is an explicit, fallible step, and
//! releasing it is an explicit step as well.

use vstd::prelude::*;

use crate::error::BorrowError;
use crate::error::BorrowMutError;

verus! {

/// The state of one storage cell, as specifications see it.
#[verifier::ext_equal]
pub struct SlotView<T> {
    /// The stored value, if the cell is currently occupied.
    pub value: Option<T>,
    /// The reclamation counter: advanced each time the cell is recycled.
    pub generation: int,
    /// How many read borrows are outstanding.
    pub readers: int,
    /// Whether a write borrow is outstanding.
    pub writer: bool,
}

impl<T> SlotView<T> {
    /// No borrow of either kind is outstanding.
    pub open spec fn idle(self) -> bool {
        self.readers == 0 && !self.writer
    }
}

/// A single reusable storage cell with dynamic borrow tracking.
pub struct Slot<T> {
    value: Option<T>,
    generation: u64,
    readers: usize,
    writer: bool,
}

impl<T> View for Slot<T> {
    type V = SlotView<T>;

    closed spec fn view(&self) -> SlotView<T> {
        SlotView {
            value: self.value,
            generation: self.generation as int,
            readers: self.readers as int,
            writer: self.writer,
        }
    }
}

impl<T> Slot<T> {
    /// A fresh cell: empty, unborrowed, at generation zero.
    pub fn new() -> (s: Self)
        ensures
            s@ == (SlotView::<T> { value: None, generation: 0, readers: 0, writer: false }),
    {
        Slot { value: None, generation: 0, readers: 0, writer: false }
    }

    /// Replace the stored value and hand back the previous one; passing
    /// `None` takes the value out. The generation and the borrow record are
    /// untouched, and no borrow conflict is checked: callers reach for this
    /// only on cells they hold privately or whose replacement is intended.
    pub fn set(&mut self, value: Option<T>) -> (prev: Option<T>)
        ensures
            prev == old(self)@.value,
            final(self)@ == (SlotView { value, ..old(self)@ }),
    {
        let mut v = value;
        core::mem::swap(&mut self.value, &mut v);
        v
    }

    /// Attempt to acquire a shared (read) borrow. Fails if a write borrow is
    /// outstanding, or if the cell is empty; on success the count of
    /// outstanding read borrows grows by one.
    pub fn try_read(&mut self) -> (r: Result<(), BorrowError>)
        requires
            old(self)@.readers < usize::MAX as int,
        ensures
            r is Ok ==> !old(self)@.writer && old(self)@.value is Some,
            r is Err ==> final(self)@ == old(self)@,
            old(self)@.writer ==> r == Err::<(), BorrowError>(BorrowError::AlreadyBorrowedMut)
                && final(self)@ == old(self)@,
            !old(self)@.writer && old(self)@.value is None ==> r == Err::<(), BorrowError>(
                BorrowError::Dropped,
            ) && final(self)@ == old(self)@,
            !old(self)@.writer && old(self)@.value is Some ==> r == Ok::<(), BorrowError>(())
                && final(self)@ == (SlotView { readers: old(self)@.readers + 1, ..old(self)@ }),
    {
        if self.writer {
            Err(BorrowError::AlreadyBorrowedMut)
        } else if self.value.is_none() {
            Err(BorrowError::Dropped)
        } else {
            self.readers = self.readers + 1;
            Ok(())
        }
    }

    /// Release one shared borrow.
    pub fn release_read(&mut self)
        requires
            old(self)@.readers > 0,
        ensures
            final(self)@ == (SlotView { readers: old(self)@.readers - 1, ..old(self)@ }),
    {
        self.readers = self.readers - 1;
    }

    /// Attempt to acquire the exclusive (write) borrow. Fails if any borrow
    /// is outstanding, or if the cell is empty.
    pub fn try_write(&mut self) -> (r: Result<(), BorrowMutError>)
        ensures
            0 <= old(self)@.readers,
            r is Ok ==> old(self)@.idle() && old(self)@.value is Some,
            r is Err ==> final(self)@ == old(self)@,
            old(self)@.writer ==> r == Err::<(), BorrowMutError>(
                BorrowMutError::AlreadyBorrowedMut,
            ) && final(self)@ == old(self)@,
            !old(self)@.writer && old(self)@.readers > 0 ==> r == Err::<(), BorrowMutError>(
                BorrowMutError::AlreadyBorrowed,
            ) && final(self)@ == old(self)@,
            old(self)@.idle() && old(self)@.value is None ==> r == Err::<(), BorrowMutError>(
                BorrowMutError::Dropped,
            ) && final(self)@ == old(self)@,
            old(self)@.idle() && old(self)@.value is Some ==> r == Ok::<(), BorrowMutError>(())
                && final(self)@ == (SlotView { writer: true, ..old(self)@ }),
    {
        if self.writer {
            Err(BorrowMutError::AlreadyBorrowedMut)
        } else if self.readers > 0 {
            Err(BorrowMutError::AlreadyBorrowed)
        } else if self.value.is_none() {
            Err(BorrowMutError::Dropped)
        } else {
            self.writer = true;
            Ok(())
        }
    }

    /// Release the exclusive borrow.
    pub fn release_write(&mut self)
        requires
            old(self)@.writer,
        ensures
            final(self)@ == (SlotView { writer: false, ..old(self)@ }),
    {
        self.writer = false;
    }

    /// The cell's current generation.
    pub fn generation(&self) -> (g: u64)
        ensures
            g == self@.generation,
    {
        self.generation
    }

    /// Advance the generation counter; invoked only during reclamation.
    pub fn increment_generation(&mut self) -> (g: u64)
        requires
            old(self)@.generation < u64::MAX as int,
        ensures
            g == final(self)@.generation,
            final(self)@ == (SlotView { generation: old(self)@.generation + 1, ..old(self)@ }),
    {
        self.generation = self.generation + 1;
        self.generation
    }

    /// Shared access to the stored value.
    pub fn borrow(&self) -> (r: &T)
        requires
            self@.value is Some,
        ensures
            self@.value == Some(*r),
    {
        match &self.value {
            Some(v) => v,
            None => unreached(),
        }
    }

    /// Exclusive access to the stored value.
    pub fn borrow_mut(&mut self) -> (r: &mut T)
        requires
            old(self)@.value is Some,
        ensures
            old(self)@.value == Some(*r),
            final(self)@ == (SlotView { value: Some(*final(r)), ..old(self)@ }),
    {
        match &mut self.value {
            Some(v) => v,
            None => unreached(),
        }
    }
}

impl<T> Default for Slot<T> {
    /// Same as [`Slot::new`].
    fn default() -> (s: Self)
        ensures
            s@ == (SlotView::<T> { value: None, generation: 0, readers: 0, writer: false }),
    {
        Slot::new()
    }
}

} // verus!
