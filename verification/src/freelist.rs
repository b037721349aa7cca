//! The pool of idle cells.
//!
//! The freelist remembers which cells of an arena are empty and ready for
//! reuse, as a stack of cell indices: reclamation pushes an index, allocation
//! pops the most recently reclaimed one.

use vstd::prelude::*;

verus! {

/// A stack of idle cell indices.
pub struct Freelist {
    idle: Vec<usize>,
}

impl View for Freelist {
    type V = Seq<int>;

    closed spec fn view(&self) -> Seq<int> {
        self.idle@.map_values(|i: usize| i as int)
    }
}

impl Freelist {
    /// An empty pool.
    pub fn new() -> (l: Self)
        ensures
            l@.len() == 0,
    {
        Freelist { idle: Vec::new() }
    }

    /// Return an idle cell index to the pool.
    pub fn push(&mut self, i: usize)
        ensures
            final(self)@ == old(self)@.push(i as int),
    {
        self.idle.push(i);
        proof {
            assert(self@ =~= old(self)@.push(i as int));
        }
    }

    /// Take the most recently pooled index, if any.
    pub fn pop(&mut self) -> (r: Option<usize>)
        ensures
            old(self)@.len() == 0 ==> r is None && final(self)@ == old(self)@,
            old(self)@.len() > 0 ==> r is Some && (r->0) as int == old(self)@.last()
                && final(self)@ == old(self)@.drop_last(),
    {
        let r = self.idle.pop();
        proof {
            if old(self)@.len() > 0 {
                assert(self@ =~= old(self)@.drop_last());
            } else {
                assert(self@ =~= old(self)@);
            }
        }
        r
    }

    /// How many idle cells the pool holds.
    pub fn len(&self) -> (n: usize)
        ensures
            n == self@.len(),
    {
        self.idle.len()
    }
}

} // verus!
