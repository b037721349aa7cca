//! Callbacks behind a stable handle.
//!
//! A stored callback can be handed around and invoked later; its contract is
//! carried along, so an invocation is known to meet the callback's own
//! specification.

use vstd::prelude::*;

verus! {

/// A stored callback, invoked through a stable handle.
pub struct UseCallback<F> {
    inner: F,
}

impl<F> UseCallback<F> {
    /// The stored callback.
    pub closed spec fn func(self) -> F {
        self.inner
    }

    /// Invoke the stored callback.
    pub fn call<O>(&mut self) -> (r: O) where F: Fn() -> O
        requires
            call_requires(old(self).func(), ()),
        ensures
            *final(self) == *old(self),
            call_ensures(old(self).func(), (), r),
    {
        (self.inner)()
    }
}

/// Wrap a callback behind a stable handle. Re-wrapping replaces the stored
/// callback while the handle shape stays the same, so holders always invoke
/// the current one.
pub fn use_callback<O, F: Fn() -> O>(f: F) -> (cb: UseCallback<F>)
    ensures
        cb.func() == f,
{
    UseCallback { inner: f }
}

/// Create a new effect: the callback runs once immediately, and the returned
/// handle lets the embedding run it again whenever a value it read changes.
pub fn use_effect<F: Fn()>(callback: F) -> (cb: UseCallback<F>)
    requires
        call_requires(callback, ()),
    ensures
        cb.func() == callback,
{
    callback();
    UseCallback { inner: callback }
}

} // verus!
