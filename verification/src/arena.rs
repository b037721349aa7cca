//! The arena: allocation and reclamation of storage cells.
//!
//! Cells live in a growable array with stable indices, and a handle names a
//! cell by index together with the generation the cell had when the handle
//! was issued. Reclaimed cells are never removed from the array; they are
//! pooled for reuse, and their advanced generation is the sole signal that
//! every earlier handle has gone stale. This gives handles their unscoped,
//! freely copyable shape without leaving any way to reach a reclaimed value.

use vstd::prelude::*;

use crate::error::BorrowError;
use crate::error::BorrowMutError;
use crate::freelist::Freelist;
use crate::slot::Slot;
use crate::slot::SlotView;

verus! {

/// The state of a handle, as specifications see it.
#[verifier::ext_equal]
pub struct HandleView {
    /// Which cell of the issuing arena the handle names.
    pub index: int,
    /// The generation the cell had when the handle was created.
    pub generation: int,
}

/// A small, copyable capability to read and write one generation of one
/// storage cell. A handle is meaningful relative to the arena that issued
/// it, and every access first checks that the cell's generation still
/// matches.
#[derive(Clone, Copy)]
pub struct GenerationalBox {
    index: usize,
    generation: u64,
}

impl View for GenerationalBox {
    type V = HandleView;

    closed spec fn view(&self) -> HandleView {
        HandleView { index: self.index as int, generation: self.generation as int }
    }
}

/// The identity of a generational box: which cell it names, at which
/// generation.
#[derive(Clone, Copy, Debug, Hash, PartialEq, Eq, Structural)]
pub struct GenerationalBoxId {
    data_ptr: usize,
    generation: u64,
}

impl View for GenerationalBoxId {
    type V = HandleView;

    closed spec fn view(&self) -> HandleView {
        HandleView { index: self.data_ptr as int, generation: self.generation as int }
    }
}

impl GenerationalBox {
    /// The identity of this box.
    pub fn id(&self) -> (r: GenerationalBoxId)
        ensures
            r@ == self@,
    {
        GenerationalBoxId { data_ptr: self.index, generation: self.generation }
    }

    /// Whether two handles name the same cell at the same generation.
    pub fn ptr_eq(&self, other: &Self) -> (r: bool)
        ensures
            r == (self@.index == other@.index && self@.generation == other@.generation),
    {
        self.index == other.index && self.generation == other.generation
    }
}

impl PartialEq for GenerationalBox {
    /// Handles compare by cell identity alone, not by generation: for
    /// structural diffing it is identity, not freshness, that matters.
    fn eq(&self, other: &Self) -> (r: bool) {
        self.index == other.index
    }
}

impl vstd::std_specs::cmp::PartialEqSpecImpl for GenerationalBox {
    open spec fn obeys_eq_spec() -> bool {
        true
    }

    open spec fn eq_spec(&self, other: &Self) -> bool {
        self@.index == other@.index
    }
}

/// The state of an arena, as specifications see it: the cells, and the pool
/// of idle cell indices.
#[verifier::ext_equal]
pub struct ArenaView<T> {
    /// Every cell the arena has ever allocated, in allocation order.
    pub slots: Seq<SlotView<T>>,
    /// Indices of the cells that are idle and ready for reuse.
    pub free: Seq<int>,
}

impl<T> ArenaView<T> {
    /// `i` names a cell of this arena.
    pub open spec fn in_bounds(self, i: int) -> bool {
        0 <= i < self.slots.len()
    }

    /// The cell at `i` is empty and unborrowed, ready for reuse.
    pub open spec fn recyclable(self, i: int) -> bool {
        self.in_bounds(i) && self.slots[i].value is None && self.slots[i].idle()
    }

    /// The pool names distinct, in-range cells, each empty and unborrowed.
    pub open spec fn wf(self) -> bool {
        &&& forall|k: int| 0 <= k < self.free.len() ==> self.recyclable(#[trigger] self.free[k])
        &&& forall|k1: int, k2: int|
            0 <= k1 < k2 < self.free.len() ==> self.free[k1] != self.free[k2]
    }

    /// The cell at `i` is in the pool of idle cells.
    pub open spec fn pooled(self, i: int) -> bool {
        self.free.contains(i)
    }

    /// The handle still names the current occupancy of its cell.
    pub open spec fn valid(self, h: HandleView) -> bool {
        self.in_bounds(h.index) && self.slots[h.index].generation == h.generation
    }

    /// The handle's captured generation does not run ahead of its cell's
    /// counter. Every handle an arena issues satisfies this, and every
    /// operation preserves it, since generations only grow.
    pub open spec fn current_or_past(self, h: HandleView) -> bool {
        self.in_bounds(h.index) ==> h.generation <= self.slots[h.index].generation
    }

    /// The handle may be passed to reclamation: it does not run ahead of its
    /// cell, and if it is still valid, its cell is unborrowed and not already
    /// pooled.
    pub open spec fn reclaimable(self, h: HandleView) -> bool {
        &&& self.current_or_past(h)
        &&& self.valid(h) ==> self.slots[h.index].idle() && !self.pooled(h.index)
    }

    /// Both read and write attempts through the handle report the value as
    /// dropped: the handle is stale, or its cell is empty and unborrowed.
    pub open spec fn dropped_for(self, h: HandleView) -> bool {
        !self.valid(h) || (self.slots[h.index].idle() && self.slots[h.index].value is None)
    }

    /// This view with the cell at `i` replaced.
    pub open spec fn upd(self, i: int, s: SlotView<T>) -> Self {
        ArenaView { slots: self.slots.update(i, s), ..self }
    }

    /// The outcome of one attempted read borrow through `h`: a stale handle
    /// or an empty cell reports the value as dropped, an outstanding write
    /// borrow excludes the reader, and otherwise the count of outstanding
    /// read borrows grows by one.
    pub open spec fn read_attempt(self, h: HandleView) -> Result<Self, BorrowError> {
        if !self.valid(h) {
            Err(BorrowError::Dropped)
        } else if self.slots[h.index].writer {
            Err(BorrowError::AlreadyBorrowedMut)
        } else if self.slots[h.index].value is None {
            Err(BorrowError::Dropped)
        } else {
            Ok(
                self.upd(
                    h.index,
                    SlotView { readers: self.slots[h.index].readers + 1, ..self.slots[h.index] },
                ),
            )
        }
    }

    /// The outcome of one attempted write borrow through `h`: any outstanding
    /// borrow excludes the writer, a stale handle or an empty cell reports
    /// the value as dropped, and otherwise the write flag is set.
    pub open spec fn write_attempt(self, h: HandleView) -> Result<Self, BorrowMutError> {
        if !self.valid(h) {
            Err(BorrowMutError::Dropped)
        } else if self.slots[h.index].writer {
            Err(BorrowMutError::AlreadyBorrowedMut)
        } else if self.slots[h.index].readers > 0 {
            Err(BorrowMutError::AlreadyBorrowed)
        } else if self.slots[h.index].value is None {
            Err(BorrowMutError::Dropped)
        } else {
            Ok(self.upd(h.index, SlotView { writer: true, ..self.slots[h.index] }))
        }
    }

    /// Releasing one read borrow on the cell at `i`.
    pub open spec fn release_read_step(self, i: int) -> Self {
        self.upd(i, SlotView { readers: self.slots[i].readers - 1, ..self.slots[i] })
    }

    /// Releasing the write borrow on the cell at `i`.
    pub open spec fn release_write_step(self, i: int) -> Self {
        self.upd(i, SlotView { writer: false, ..self.slots[i] })
    }

    /// The outcome of reclaiming through `h`: a stale handle does nothing and
    /// yields `None`; a valid one takes the stored value out, advances the
    /// cell's generation and pools the cell. A cell whose generation counter
    /// is exhausted is retired instead of pooled, so the counter never wraps.
    pub open spec fn free_step(self, h: HandleView) -> (Self, Option<T>) {
        if !self.valid(h) {
            (self, None)
        } else {
            let prev = self.slots[h.index].value;
            if self.slots[h.index].generation < u64::MAX as int {
                (
                    ArenaView {
                        slots: self.slots.update(
                            h.index,
                            SlotView {
                                value: None,
                                generation: self.slots[h.index].generation + 1,
                                ..self.slots[h.index]
                            },
                        ),
                        free: self.free.push(h.index),
                    },
                    prev,
                )
            } else {
                (self.upd(h.index, SlotView { value: None, ..self.slots[h.index] }), prev)
            }
        }
    }

    /// The outcome of claiming a cell: the most recently pooled cell is reused at
    /// its current generation, or, with an empty pool, a fresh cell at
    /// generation zero is appended.
    pub open spec fn claim_step(self) -> (Self, HandleView) {
        if self.free.len() > 0 {
            let i = self.free.last();
            (
                ArenaView { slots: self.slots, free: self.free.drop_last() },
                HandleView { index: i, generation: self.slots[i].generation },
            )
        } else {
            (
                ArenaView {
                    slots: self.slots.push(
                        SlotView { value: None, generation: 0, readers: 0, writer: false },
                    ),
                    free: self.free,
                },
                HandleView { index: self.slots.len() as int, generation: 0 },
            )
        }
    }

    /// The outcome of inserting a value: allocation followed by storing the
    /// value in the allocated cell.
    pub open spec fn insert_step(self, value: T) -> (Self, HandleView) {
        let (a, h) = self.claim_step();
        (a.upd(h.index, SlotView { value: Some(value), ..a.slots[h.index] }), h)
    }

    /// The outcome of a blind write through `h`: a stale handle does nothing
    /// and yields `None`, a valid one replaces the stored value and yields
    /// the previous one.
    pub open spec fn set_step(self, h: HandleView, value: T) -> (Self, Option<T>) {
        if !self.valid(h) {
            (self, None)
        } else {
            (
                self.upd(h.index, SlotView { value: Some(value), ..self.slots[h.index] }),
                self.slots[h.index].value,
            )
        }
    }

    /// The outcome of reclaiming through a sequence of handles, first to
    /// last.
    pub open spec fn free_all_step(self, handles: Seq<HandleView>) -> Self
        decreases handles.len(),
    {
        if handles.len() == 0 {
            self
        } else {
            self.free_step(handles.first()).0.free_all_step(handles.drop_first())
        }
    }
}

/// A pool-backed arena of storage cells for values of one type.
///
/// The arena is the allocation and reclamation entry point; access to its
/// cells goes through the handles it issues. Exclusive access to the arena
/// itself is enforced by `&mut` borrows, so the same arena serves both the
/// thread-confined and the cross-thread regime: a cross-thread embedding
/// wraps the arena in a lock and keeps every acquisition attempt
/// non-blocking.
pub struct Arena<T> {
    slots: Vec<Slot<T>>,
    list: Freelist,
}

impl<T> View for Arena<T> {
    type V = ArenaView<T>;

    closed spec fn view(&self) -> ArenaView<T> {
        ArenaView { slots: self.slots@.map_values(|s: Slot<T>| s@), free: self.list@ }
    }
}

impl<T> Arena<T> {
    /// A fresh arena for the thread-confined regime.
    pub fn new() -> (a: Self)
        ensures
            a@.wf(),
            a@.slots.len() == 0,
            a@.free.len() == 0,
    {
        Arena { slots: Vec::new(), list: Freelist::new() }
    }

    /// A fresh arena for the cross-thread regime. The arena's own state
    /// machine is the same in both regimes; a cross-thread embedding shares
    /// it behind a lock whose acquisition attempts never block.
    pub fn new_sync() -> (a: Self)
        ensures
            a@.wf(),
            a@.slots.len() == 0,
            a@.free.len() == 0,
    {
        Arena::new()
    }

    /// Hand out an idle cell, appending a fresh one if the pool is empty. The
    /// returned handle is stamped with the cell's current generation; the
    /// cell is empty and unborrowed.
    pub fn claim(&mut self) -> (h: GenerationalBox)
        requires
            old(self)@.wf(),
        ensures
            final(self)@.wf(),
            final(self)@ == old(self)@.claim_step().0,
            h@ == old(self)@.claim_step().1,
            final(self)@.valid(h@),
            final(self)@.recyclable(h@.index),
            !final(self)@.pooled(h@.index),
    {
        match self.list.pop() {
            Some(i) => {
                proof {
                    let a0 = old(self)@;
                    assert(a0.free[a0.free.len() - 1] == a0.free.last());
                    assert(a0.recyclable(a0.free.last()));
                }
                let g = self.slots[i].generation();
                proof {
                    let a0 = old(self)@;
                    let i_ = i as int;
                    assert(self@.slots =~= a0.claim_step().0.slots);
                    assert(self@ =~= a0.claim_step().0);
                    if self@.pooled(i_) {
                        let k = choose|k: int|
                            0 <= k < self@.free.len() && self@.free[k] == i_;
                        assert(a0.free[k] == i_);
                        assert(a0.free[a0.free.len() - 1] == i_);
                        assert(false);
                    }
                }
                GenerationalBox { index: i, generation: g }
            },
            None => {
                let i = self.slots.len();
                self.slots.push(Slot::new());
                proof {
                    let a0 = old(self)@;
                    assert(self@.slots =~= a0.claim_step().0.slots);
                    assert(self@ =~= a0.claim_step().0);
                    assert(!self@.pooled(i as int));
                }
                GenerationalBox { index: i, generation: 0 }
            },
        }
    }

    /// Insert a new value, returning a handle stamped with the current
    /// generation of the cell that received it.
    pub fn insert(&mut self, item: T) -> (h: GenerationalBox)
        requires
            old(self)@.wf(),
        ensures
            final(self)@.wf(),
            final(self)@ == old(self)@.insert_step(item).0,
            h@ == old(self)@.insert_step(item).1,
            final(self)@.valid(h@),
            final(self)@.slots[h@.index].value == Some(item),
            final(self)@.slots[h@.index].idle(),
            !final(self)@.pooled(h@.index),
    {
        let h = self.claim();
        let ghost mid = self@;
        let s = &mut self.slots[h.index];
        let _ = s.set(Some(item));
        proof {
            let a0 = old(self)@;
            assert(self@.slots =~= a0.insert_step(item).0.slots);
            assert(self@ =~= a0.insert_step(item).0);
            assert forall|k: int|
                0 <= k < self@.free.len() implies self@.recyclable(
                #[trigger] self@.free[k],
            ) by {
                assert(mid.recyclable(mid.free[k]));
                if self@.free[k] == h@.index {
                    assert(mid.pooled(h@.index));
                }
            }
        }
        h
    }

    /// Reclaim the cell a handle names. A stale handle is ignored and yields
    /// `None`; a valid one has its value taken out and returned, its cell's
    /// generation advanced, and the cell pooled for reuse, so that the handle
    /// and every copy of it go stale. A cell whose generation counter is
    /// exhausted is retired instead of pooled.
    pub fn free(&mut self, entry: GenerationalBox) -> (r: Option<T>)
        requires
            old(self)@.wf(),
            old(self)@.valid(entry@) ==> old(self)@.slots[entry@.index].idle() && !old(
                self,
            )@.pooled(entry@.index),
        ensures
            final(self)@.wf(),
            final(self)@ == old(self)@.free_step(entry@).0,
            r == old(self)@.free_step(entry@).1,
            final(self)@.dropped_for(entry@),
    {
        if entry.index >= self.slots.len() {
            return None;
        }
        let g = self.slots[entry.index].generation();
        if g != entry.generation {
            return None;
        }
        let s = &mut self.slots[entry.index];
        let prev = s.set(None);
        if g < u64::MAX {
            let _ = s.increment_generation();
            self.list.push(entry.index);
            proof {
                let a0 = old(self)@;
                let i = entry@.index;
                assert(self@.slots =~= a0.free_step(entry@).0.slots);
                assert(self@ =~= a0.free_step(entry@).0);
                assert forall|k: int|
                    0 <= k < self@.free.len() implies self@.recyclable(
                    #[trigger] self@.free[k],
                ) by {
                    if k < self@.free.len() - 1 {
                        assert(self@.free[k] == a0.free[k]);
                        assert(a0.recyclable(a0.free[k]));
                        if self@.free[k] == i {
                            assert(a0.pooled(i));
                        }
                    }
                }
                assert forall|k1: int, k2: int|
                    0 <= k1 < k2 < self@.free.len() implies self@.free[k1] != self@.free[k2] by {
                    if k2 == self@.free.len() - 1 {
                        if a0.free[k1] == i {
                            assert(a0.pooled(i));
                        }
                    }
                }
            }
        } else {
            proof {
                let a0 = old(self)@;
                let i = entry@.index;
                assert(self@.slots =~= a0.free_step(entry@).0.slots);
                assert(self@ =~= a0.free_step(entry@).0);
                assert forall|k: int|
                    0 <= k < self@.free.len() implies self@.recyclable(
                    #[trigger] self@.free[k],
                ) by {
                    assert(self@.free[k] == a0.free[k]);
                    assert(a0.recyclable(a0.free[k]));
                    if self@.free[k] == i {
                        assert(a0.pooled(i));
                    }
                }
            }
        }
        prev
    }

    /// A fresh owner drawing on this arena: a batching scope that registers
    /// every handle it creates and reclaims them together.
    pub fn owner(&self) -> (o: Owner)
        ensures
            o@.len() == 0,
    {
        let o = Owner { owned: Vec::new() };
        proof {
            assert(o@ =~= Seq::<HandleView>::empty());
        }
        o
    }
}

/// A batching scope for handle lifetime: the owner registers every handle it
/// creates and, when retired, reclaims all of them in one pass.
pub struct Owner {
    owned: Vec<GenerationalBox>,
}

impl View for Owner {
    type V = Seq<HandleView>;

    closed spec fn view(&self) -> Seq<HandleView> {
        self.owned@.map_values(|h: GenerationalBox| h@)
    }
}

impl Owner {
    /// Insert a value through this owner: the arena stores it, and the
    /// returned handle is registered for bulk reclamation.
    pub fn insert<T>(&mut self, arena: &mut Arena<T>, item: T) -> (h: GenerationalBox)
        requires
            old(arena)@.wf(),
        ensures
            final(arena)@.wf(),
            final(arena)@ == old(arena)@.insert_step(item).0,
            h@ == old(arena)@.insert_step(item).1,
            final(self)@ == old(self)@.push(h@),
            final(arena)@.valid(h@),
            final(arena)@.slots[h@.index].value == Some(item),
            final(arena)@.slots[h@.index].idle(),
            !final(arena)@.pooled(h@.index),
    {
        let h = arena.insert(item);
        self.owned.push(h);
        proof {
            assert(self@ =~= old(self)@.push(h@));
        }
        h
    }

    /// Reclaim every registered handle, in registration order, retiring the
    /// registry together with the owner. Afterward, every registered handle
    /// reports its value as dropped, for reads and writes alike: no partial
    /// reclamation is observable through this owner's handles.
    pub fn free_all<T>(self, arena: &mut Arena<T>)
        requires
            old(arena)@.wf(),
            forall|k: int|
                0 <= k < self@.len() ==> old(arena)@.reclaimable(#[trigger] self@[k]),
        ensures
            final(arena)@.wf(),
            final(arena)@ == old(arena)@.free_all_step(self@),
            forall|k: int| 0 <= k < self@.len() ==> final(arena)@.dropped_for(#[trigger] self@[k]),
    {
        let ghost hs = self@;
        let owned = self.owned;
        let n = owned.len();
        let mut idx: usize = 0;
        while idx < n
            invariant
                n == owned.len(),
                idx <= n,
                hs.len() == n,
                hs == owned@.map_values(|b: GenerationalBox| b@),
                arena@.wf(),
                arena@ == old(arena)@.free_all_step(hs.take(idx as int)),
                forall|k: int| 0 <= k < n ==> arena@.reclaimable(#[trigger] hs[k]),
                forall|k: int| 0 <= k < idx ==> arena@.dropped_for(#[trigger] hs[k]),
            decreases n - idx,
        {
            let h = owned[idx];
            proof {
                assert(h@ == hs[idx as int]);
                assert(arena@.reclaimable(hs[idx as int]));
            }
            let ghost prev = arena@;
            let _ = arena.free(h);
            proof {
                assert forall|k: int| 0 <= k < n implies arena@.reclaimable(
                    #[trigger] hs[k],
                ) by {
                    lemma_free_step_frame(prev, hs[idx as int], hs[k]);
                }
                assert forall|k: int| 0 <= k < idx + 1 implies arena@.dropped_for(
                    #[trigger] hs[k],
                ) by {
                    lemma_free_step_frame(prev, hs[idx as int], hs[k]);
                }
                assert(hs.take(idx + 1) =~= hs.take(idx as int).push(hs[idx as int]));
                lemma_free_all_step_snoc(old(arena)@, hs.take(idx as int), hs[idx as int]);
            }
            idx = idx + 1;
        }
        proof {
            assert(hs.take(n as int) =~= hs);
        }
    }
}

/// Replacing the cell at an index that is not pooled leaves the pool's
/// well-formedness intact: every pooled cell is untouched.
pub broadcast proof fn lemma_wf_after_upd<T>(a: ArenaView<T>, i: int, s: SlotView<T>)
    requires
        a.wf(),
        a.in_bounds(i),
        !a.pooled(i),
    ensures
        #[trigger] a.upd(i, s).wf(),
{
    assert forall|k: int| 0 <= k < a.upd(i, s).free.len() implies a.upd(i, s).recyclable(
        #[trigger] a.upd(i, s).free[k],
    ) by {
        assert(a.recyclable(a.free[k]));
        if a.free[k] == i {
            assert(a.pooled(i));
        }
    }
}

/// Reclamation through one handle leaves every other handle's standing
/// intact: a handle that could be reclaimed still can be, a handle whose
/// value was already unreachable stays unreachable, and the freed handle
/// itself joins them. Generations never move backward.
pub proof fn lemma_free_step_frame<T>(a: ArenaView<T>, h: HandleView, g: HandleView)
    requires
        a.wf(),
        a.reclaimable(h),
    ensures
        a.free_step(h).0.wf(),
        a.free_step(h).0.slots.len() == a.slots.len(),
        a.free_step(h).0.dropped_for(h),
        a.reclaimable(g) ==> a.free_step(h).0.reclaimable(g),
        a.reclaimable(g) && a.dropped_for(g) ==> a.free_step(h).0.dropped_for(g),
        forall|i: int|
            a.in_bounds(i) ==> a.slots[i].generation <= #[trigger] a.free_step(
                h,
            ).0.slots[i].generation,
{
    let a2 = a.free_step(h).0;
    if !a.valid(h) {
        assert(a2 == a);
    } else {
        let i = h.index;
        if a.slots[i].generation < u64::MAX as int {
            assert forall|x: int| a2.pooled(x) implies a.pooled(x) || x == i by {
                let k = choose|k: int| 0 <= k < a2.free.len() && a2.free[k] == x;
                if k < a.free.len() {
                    assert(a.free[k] == x);
                }
            }
            assert forall|k: int| 0 <= k < a2.free.len() implies a2.recyclable(
                #[trigger] a2.free[k],
            ) by {
                if k < a.free.len() {
                    assert(a.recyclable(a.free[k]));
                    if a.free[k] == i {
                        assert(a.pooled(i));
                    }
                } else {
                    assert(a2.free[k] == i);
                }
            }
            assert forall|k1: int, k2: int|
                0 <= k1 < k2 < a2.free.len() implies a2.free[k1] != a2.free[k2] by {
                if k2 == a2.free.len() - 1 {
                    if a.free[k1] == i {
                        assert(a.pooled(i));
                    }
                }
            }
        } else {
            assert forall|x: int| a2.pooled(x) implies a.pooled(x) by {
                let k = choose|k: int| 0 <= k < a2.free.len() && a2.free[k] == x;
                assert(a.free[k] == x);
            }
            assert forall|k: int| 0 <= k < a2.free.len() implies a2.recyclable(
                #[trigger] a2.free[k],
            ) by {
                assert(a.recyclable(a.free[k]));
                if a.free[k] == i {
                    assert(a.pooled(i));
                }
            }
        }
    }
}

/// Reclaiming through a sequence of handles and then one more is reclaiming
/// through the extended sequence.
proof fn lemma_free_all_step_snoc<T>(a: ArenaView<T>, s: Seq<HandleView>, x: HandleView)
    ensures
        a.free_all_step(s.push(x)) == a.free_all_step(s).free_step(x).0,
    decreases s.len(),
{
    if s.len() == 0 {
        assert(s.push(x).first() == x);
        assert(s.push(x).drop_first() =~= Seq::<HandleView>::empty());
        assert(a.free_all_step(s.push(x)) == a.free_step(x).0.free_all_step(
            s.push(x).drop_first(),
        ));
        assert(a.free_step(x).0.free_all_step(Seq::<HandleView>::empty()) == a.free_step(x).0);
    } else {
        assert(s.push(x).first() == s.first());
        assert(s.push(x).drop_first() =~= s.drop_first().push(x));
        lemma_free_all_step_snoc(a.free_step(s.first()).0, s.drop_first(), x);
    }
}

/// A token witnessing one outstanding read borrow of a cell. Access to the
/// borrowed value goes back through the arena, and the token is surrendered
/// to end the borrow. Narrowing the borrow to a sub-part of the value is
/// plain reference projection on what [`Self::borrow`] returns: the token
/// stands for the borrow of the whole cell either way, without re-checking
/// the handle.
pub struct GenerationalRef {
    index: usize,
}

impl View for GenerationalRef {
    type V = int;

    closed spec fn view(&self) -> int {
        self.index as int
    }
}

impl GenerationalRef {
    /// Shared access to the borrowed value.
    pub fn borrow<'a, T>(&self, arena: &'a Arena<T>) -> (r: &'a T)
        requires
            arena@.in_bounds(self@),
            arena@.slots[self@].value is Some,
        ensures
            arena@.slots[self@].value == Some(*r),
    {
        arena.slots[self.index].borrow()
    }

    /// Surrender the token, ending this read borrow.
    pub fn release<T>(self, arena: &mut Arena<T>)
        requires
            old(arena)@.wf(),
            old(arena)@.in_bounds(self@),
            old(arena)@.slots[self@].readers > 0,
        ensures
            final(arena)@.wf(),
            final(arena)@ == old(arena)@.release_read_step(self@),
    {
        let s = &mut arena.slots[self.index];
        s.release_read();
        proof {
            let a0 = old(arena)@;
            assert(arena@.slots =~= a0.release_read_step(self@).slots);
            assert(arena@ =~= a0.release_read_step(self@));
            assert forall|k: int|
                0 <= k < arena@.free.len() implies arena@.recyclable(
                #[trigger] arena@.free[k],
            ) by {
                assert(a0.recyclable(a0.free[k]));
                if arena@.free[k] == self@ {
                    assert(a0.pooled(self@));
                }
            }
        }
    }
}

/// A token witnessing the outstanding write borrow of a cell. Access to the
/// borrowed value goes back through the arena, and the token is surrendered
/// to end the borrow. Narrowing the borrow to a sub-part of the value is
/// plain reference projection on what [`Self::borrow_mut`] returns: the
/// token stands for the borrow of the whole cell either way.
pub struct GenerationalRefMut {
    index: usize,
}

impl View for GenerationalRefMut {
    type V = int;

    closed spec fn view(&self) -> int {
        self.index as int
    }
}

impl GenerationalRefMut {
    /// Shared access to the borrowed value.
    pub fn borrow<'a, T>(&self, arena: &'a Arena<T>) -> (r: &'a T)
        requires
            arena@.in_bounds(self@),
            arena@.slots[self@].value is Some,
        ensures
            arena@.slots[self@].value == Some(*r),
    {
        arena.slots[self.index].borrow()
    }

    /// Exclusive access to the borrowed value.
    pub fn borrow_mut<'a, T>(&self, arena: &'a mut Arena<T>) -> (r: &'a mut T)
        requires
            old(arena)@.wf(),
            old(arena)@.in_bounds(self@),
            old(arena)@.slots[self@].value is Some,
            old(arena)@.slots[self@].writer,
        ensures
            final(arena)@.wf(),
            old(arena)@.slots[self@].value == Some(*r),
            final(arena)@ == old(arena)@.upd(
                self@,
                (SlotView { value: Some(*final(r)), ..old(arena)@.slots[self@] }),
            ),
    {
        proof {
            broadcast use lemma_wf_after_upd;

            if old(arena)@.pooled(self@) {
                assert(old(arena)@.recyclable(self@));
            }
        }
        let s = &mut arena.slots[self.index];
        s.borrow_mut()
    }

    /// Replace the borrowed value, returning the previous one.
    pub fn replace<T>(&self, arena: &mut Arena<T>, value: T) -> (prev: T)
        requires
            old(arena)@.wf(),
            old(arena)@.in_bounds(self@),
            old(arena)@.slots[self@].value is Some,
            old(arena)@.slots[self@].writer,
        ensures
            final(arena)@.wf(),
            old(arena)@.slots[self@].value == Some(prev),
            final(arena)@ == old(arena)@.upd(
                self@,
                (SlotView { value: Some(value), ..old(arena)@.slots[self@] }),
            ),
    {
        let s = &mut arena.slots[self.index];
        let prev = s.set(Some(value));
        proof {
            let a0 = old(arena)@;
            let target = a0.upd(self@, SlotView { value: Some(value), ..a0.slots[self@] });
            assert(arena@.slots =~= target.slots);
            assert(arena@ =~= target);
            assert forall|k: int|
                0 <= k < arena@.free.len() implies arena@.recyclable(
                #[trigger] arena@.free[k],
            ) by {
                assert(a0.recyclable(a0.free[k]));
                if arena@.free[k] == self@ {
                    assert(a0.pooled(self@));
                }
            }
        }
        match prev {
            Some(v) => v,
            None => unreached(),
        }
    }

    /// Surrender the token, ending the write borrow.
    pub fn release<T>(self, arena: &mut Arena<T>)
        requires
            old(arena)@.wf(),
            old(arena)@.in_bounds(self@),
            old(arena)@.slots[self@].writer,
        ensures
            final(arena)@.wf(),
            final(arena)@ == old(arena)@.release_write_step(self@),
    {
        let s = &mut arena.slots[self.index];
        s.release_write();
        proof {
            let a0 = old(arena)@;
            assert(arena@.slots =~= a0.release_write_step(self@).slots);
            assert(arena@ =~= a0.release_write_step(self@));
            assert forall|k: int|
                0 <= k < arena@.free.len() implies arena@.recyclable(
                #[trigger] arena@.free[k],
            ) by {
                assert(a0.recyclable(a0.free[k]));
                if arena@.free[k] == self@ {
                    assert(a0.pooled(self@));
                }
            }
        }
    }
}

/// Access to stored values through handles. Every operation first checks the
/// handle against the cell's current generation.
impl GenerationalBox {
    /// Try to acquire a read borrow on the value this handle names. Fails
    /// with `Dropped` if the handle is stale or the cell is empty, and with
    /// `AlreadyBorrowedMut` if a write borrow is outstanding.
    pub fn try_read<T>(&self, arena: &mut Arena<T>) -> (r: Result<
        GenerationalRef,
        BorrowError,
    >)
        requires
            old(arena)@.wf(),
            old(arena)@.valid(self@) ==> old(arena)@.slots[self@.index].readers < usize::MAX
                as int,
        ensures
            final(arena)@.wf(),
            r is Ok ==> old(arena)@.read_attempt(self@) is Ok && final(arena)@ == old(
                arena,
            )@.read_attempt(self@)->Ok_0 && (r->Ok_0)@ == self@.index,
            r is Err ==> final(arena)@ == old(arena)@ && old(arena)@.read_attempt(self@)
                == Err::<ArenaView<T>, BorrowError>(r->Err_0),
    {
        if self.index >= arena.slots.len() {
            return Err(BorrowError::Dropped);
        }
        let g = arena.slots[self.index].generation();
        if g != self.generation {
            return Err(BorrowError::Dropped);
        }
        let s = &mut arena.slots[self.index];
        match s.try_read() {
            Ok(_) => {
                proof {
                    let a0 = old(arena)@;
                    let t = a0.read_attempt(self@)->Ok_0;
                    assert(arena@.slots =~= t.slots);
                    assert(arena@ =~= t);
                    assert forall|k: int|
                        0 <= k < arena@.free.len() implies arena@.recyclable(
                        #[trigger] arena@.free[k],
                    ) by {
                        assert(a0.recyclable(a0.free[k]));
                        if arena@.free[k] == self@.index {
                            assert(a0.pooled(self@.index));
                        }
                    }
                }
                Ok(GenerationalRef { index: self.index })
            },
            Err(e) => {
                proof {
                    assert(arena@.slots =~= old(arena)@.slots);
                    assert(arena@ =~= old(arena)@);
                }
                Err(e)
            },
        }
    }

    /// Acquire a read borrow that is known to succeed.
    pub fn read<T>(&self, arena: &mut Arena<T>) -> (r: GenerationalRef)
        requires
            old(arena)@.wf(),
            old(arena)@.read_attempt(self@) is Ok,
            old(arena)@.slots[self@.index].readers < usize::MAX as int,
        ensures
            final(arena)@.wf(),
            final(arena)@ == old(arena)@.read_attempt(self@)->Ok_0,
            r@ == self@.index,
    {
        match self.try_read(arena) {
            Ok(r) => r,
            Err(_) => unreached(),
        }
    }

    /// Try to acquire the write borrow on the value this handle names. Fails
    /// with `Dropped` if the handle is stale or the cell is empty, and with
    /// an `AlreadyBorrowed` variant if any borrow is outstanding.
    pub fn try_write<T>(&self, arena: &mut Arena<T>) -> (r: Result<
        GenerationalRefMut,
        BorrowMutError,
    >)
        requires
            old(arena)@.wf(),
        ensures
            final(arena)@.wf(),
            r is Ok ==> old(arena)@.write_attempt(self@) is Ok && final(arena)@ == old(
                arena,
            )@.write_attempt(self@)->Ok_0 && (r->Ok_0)@ == self@.index,
            r is Err ==> final(arena)@ == old(arena)@ && old(arena)@.write_attempt(self@)
                == Err::<ArenaView<T>, BorrowMutError>(r->Err_0),
    {
        if self.index >= arena.slots.len() {
            return Err(BorrowMutError::Dropped);
        }
        let g = arena.slots[self.index].generation();
        if g != self.generation {
            return Err(BorrowMutError::Dropped);
        }
        let s = &mut arena.slots[self.index];
        match s.try_write() {
            Ok(_) => {
                proof {
                    let a0 = old(arena)@;
                    let t = a0.write_attempt(self@)->Ok_0;
                    assert(arena@.slots =~= t.slots);
                    assert(arena@ =~= t);
                    assert forall|k: int|
                        0 <= k < arena@.free.len() implies arena@.recyclable(
                        #[trigger] arena@.free[k],
                    ) by {
                        assert(a0.recyclable(a0.free[k]));
                        if arena@.free[k] == self@.index {
                            assert(a0.pooled(self@.index));
                        }
                    }
                }
                Ok(GenerationalRefMut { index: self.index })
            },
            Err(e) => {
                proof {
                    let a0 = old(arena)@;
                    assert(arena@.slots =~= a0.slots);
                    assert(arena@ =~= a0);
                    if a0.slots[self@.index].writer {
                        assert(a0.write_attempt(self@) == Err::<ArenaView<T>, BorrowMutError>(e));
                    } else if a0.slots[self@.index].readers > 0 {
                        assert(a0.write_attempt(self@) == Err::<ArenaView<T>, BorrowMutError>(e));
                    } else {
                        assert(a0.write_attempt(self@) == Err::<ArenaView<T>, BorrowMutError>(e));
                    }
                }
                Err(e)
            },
        }
    }

    /// Acquire the write borrow, knowing it will succeed.
    pub fn write<T>(&self, arena: &mut Arena<T>) -> (r: GenerationalRefMut)
        requires
            old(arena)@.wf(),
            old(arena)@.write_attempt(self@) is Ok,
        ensures
            final(arena)@.wf(),
            final(arena)@ == old(arena)@.write_attempt(self@)->Ok_0,
            r@ == self@.index,
    {
        match self.try_write(arena) {
            Ok(r) => r,
            Err(_) => unreached(),
        }
    }

    /// Write through the handle without acquiring a borrow: a stale handle is
    /// a silent no-op yielding `None`, while a valid one replaces the stored
    /// value and yields the previous one.
    pub fn set<T>(&self, arena: &mut Arena<T>, value: T) -> (r: Option<T>)
        requires
            old(arena)@.wf(),
            old(arena)@.valid(self@) ==> !old(arena)@.pooled(self@.index),
        ensures
            final(arena)@.wf(),
            final(arena)@ == old(arena)@.set_step(self@, value).0,
            r == old(arena)@.set_step(self@, value).1,
    {
        if self.index >= arena.slots.len() {
            return None;
        }
        let g = arena.slots[self.index].generation();
        if g != self.generation {
            return None;
        }
        let s = &mut arena.slots[self.index];
        let prev = s.set(Some(value));
        proof {
            let a0 = old(arena)@;
            let t = a0.set_step(self@, value).0;
            assert(arena@.slots =~= t.slots);
            assert(arena@ =~= t);
            assert forall|k: int|
                0 <= k < arena@.free.len() implies arena@.recyclable(
                #[trigger] arena@.free[k],
            ) by {
                assert(a0.recyclable(a0.free[k]));
                if arena@.free[k] == self@.index {
                    assert(a0.pooled(self@.index));
                }
            }
        }
        prev
    }
}

} // verus!
