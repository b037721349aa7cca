//! Typed sources for reactive state.
//!
//! A source is the place a reactive value lives: something that can hand out
//! read and write access to one value, and optionally report those accesses
//! to a dependency tracker. Marker types describe what a holder of a source
//! is allowed to do with it.

use vstd::prelude::*;

verus! {

/// Access marker: the value may only be read.
pub struct ReadOnly;

/// Access marker: the value may be written.
pub struct Writable;

/// Access marker: the value may be written without notifying trackers.
pub struct Untracked;

/// Access marker: the value may be written; kept alongside [`Writable`] for
/// signatures that need a distinct writable capability.
pub struct WritableMarker;

/// Access marker: a process-wide value that may be written.
pub struct GlobalWritable;

/// Access marker: a process-wide value that may only be read.
pub struct GlobalReadable;

/// The access modes that permit writing.
pub trait SupportsWrites {

}

impl SupportsWrites for Writable {

}

impl SupportsWrites for WritableMarker {

}

impl SupportsWrites for Untracked {

}

impl SupportsWrites for GlobalWritable {

}

/// A place one reactive value lives. Reading and writing expose the stored
/// value; the tracking hooks report accesses to a dependency tracker and
/// must never disturb the value itself.
pub trait Source<T> {
    /// The value the source currently holds.
    spec fn current(&self) -> T;

    /// Read the value.
    fn read(&self) -> (r: &T)
        ensures
            *r == self.current(),
    ;

    /// Write the value.
    fn write(&mut self) -> (r: &mut T)
        ensures
            *r == old(self).current(),
            final(self).current() == *final(r),
    ;

    /// Mark the value as read.
    fn tracked_read(&self) {
    }

    /// Mark the value as written. Tracking must not disturb the value.
    fn tracked_write(&mut self)
        ensures
            final(self).current() == old(self).current(),
    {
    }
}

/// A source that can also be replaced wholesale.
pub trait SignalSource<T>: Source<T> {
    /// Replace the stored value.
    fn set(&mut self, new: T)
        ensures
            final(self).current() == new,
    ;
}

/// A source whose reads and writes are reported to the dependency tracker.
pub struct TrackedSource<T> {
    /// The tracked value.
    pub value: T,
}

impl<T> Source<T> for TrackedSource<T> {
    open spec fn current(&self) -> T {
        self.value
    }

    fn read(&self) -> (r: &T) {
        &self.value
    }

    fn write(&mut self) -> (r: &mut T) {
        &mut self.value
    }
}

impl<T> SignalSource<T> for TrackedSource<T> {
    fn set(&mut self, new: T) {
        self.value = new;
    }
}

/// A source that is not tracked: modifications trigger no updates. The
/// simplest source imaginable.
pub struct UntrackedSource<T> {
    /// The stored value.
    pub value: T,
}

impl<T> Source<T> for UntrackedSource<T> {
    open spec fn current(&self) -> T {
        self.value
    }

    fn read(&self) -> (r: &T) {
        &self.value
    }

    fn write(&mut self) -> (r: &mut T) {
        &mut self.value
    }
}

impl<T> SignalSource<T> for UntrackedSource<T> {
    fn set(&mut self, new: T) {
        self.value = new;
    }
}

/// A source for a lazily memoized value: the flag records whether the value
/// has been computed since its dependencies last changed.
pub struct MemoSource<T> {
    /// Whether the memoized value is current.
    pub computed: bool,
    /// The memoized value.
    pub value: T,
}

impl<T> MemoSource<T> {
    /// Mark the memoized value as computed, leaving the value itself
    /// untouched.
    pub fn compute_chain(&mut self)
        ensures
            final(self).computed,
            final(self).value == old(self).value,
    {
        self.computed = true;
    }
}

impl<T> Source<T> for MemoSource<T> {
    open spec fn current(&self) -> T {
        self.value
    }

    fn read(&self) -> (r: &T) {
        &self.value
    }

    fn write(&mut self) -> (r: &mut T) {
        &mut self.value
    }
}

impl<T> SignalSource<T> for MemoSource<T> {
    fn set(&mut self, new: T) {
        self.value = new;
    }
}

} // verus!
