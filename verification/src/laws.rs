//! Properties of the arena, stated and proved once over its model.
//!
//! Each law is a proof function over [`ArenaView`] transitions; the
//! executable operations are pinned to those transitions by their own
//! contracts, so what is proved here holds of every run.

use vstd::prelude::*;

use crate::arena::lemma_free_step_frame;
use crate::arena::ArenaView;
use crate::arena::HandleView;
use crate::error::BorrowError;
use crate::error::BorrowMutError;

verus! {

/// Generation monotonicity: reclaiming through a valid handle strictly
/// advances its cell's generation (as long as the counter is not exhausted),
/// and a handle captured at or before the cell's old generation never
/// validates again.
pub proof fn generation_monotonicity<T>(a: ArenaView<T>, h: HandleView, g: HandleView)
    requires
        a.wf(),
        a.reclaimable(h),
        a.valid(h),
        h.generation < u64::MAX as int,
    ensures
        a.free_step(h).0.slots[h.index].generation > a.slots[h.index].generation,
        g.index == h.index && g.generation <= a.slots[h.index].generation ==> !a.free_step(
            h,
        ).0.valid(g),
{
}

/// Use-after-free detection: a handle whose value has been dropped — the
/// handle is stale, or its cell stands empty and unborrowed — fails both
/// read and write attempts, always with the dropped error.
pub proof fn dropped_handles_cannot_access<T>(a: ArenaView<T>, h: HandleView)
    requires
        a.dropped_for(h),
    ensures
        a.read_attempt(h) == Err::<ArenaView<T>, BorrowError>(BorrowError::Dropped),
        a.write_attempt(h) == Err::<ArenaView<T>, BorrowMutError>(BorrowMutError::Dropped),
{
}

/// Single-writer exclusion: while a write borrow is outstanding on a cell,
/// every read or write attempt through a valid handle to that cell fails
/// with the borrowed-mutably error.
pub proof fn write_borrow_excludes<T>(a: ArenaView<T>, h: HandleView)
    requires
        a.valid(h),
        a.slots[h.index].writer,
    ensures
        a.read_attempt(h) == Err::<ArenaView<T>, BorrowError>(BorrowError::AlreadyBorrowedMut),
        a.write_attempt(h) == Err::<ArenaView<T>, BorrowMutError>(
            BorrowMutError::AlreadyBorrowedMut,
        ),
{
}

/// Releasing the write borrow restores access: with the cell occupied and
/// otherwise unborrowed, both read and write attempts succeed again.
pub proof fn write_release_restores_access<T>(a: ArenaView<T>, h: HandleView)
    requires
        a.valid(h),
        a.slots[h.index].writer,
        a.slots[h.index].readers == 0,
        a.slots[h.index].value is Some,
    ensures
        a.release_write_step(h.index).read_attempt(h) is Ok,
        a.release_write_step(h.index).write_attempt(h) is Ok,
{
}

/// Multi-reader concurrency: a read attempt on an occupied, write-free cell
/// succeeds no matter how many read borrows are already outstanding — in
/// particular a second simultaneous read succeeds — while any outstanding
/// read borrow makes a write attempt fail with the already-borrowed error.
pub proof fn readers_share_writers_wait<T>(a: ArenaView<T>, h: HandleView)
    requires
        a.valid(h),
        !a.slots[h.index].writer,
        a.slots[h.index].value is Some,
        0 <= a.slots[h.index].readers,
    ensures
        a.read_attempt(h) is Ok,
        a.read_attempt(h)->Ok_0.read_attempt(h) is Ok,
        a.slots[h.index].readers > 0 ==> a.write_attempt(h) == Err::<
            ArenaView<T>,
            BorrowMutError,
        >(BorrowMutError::AlreadyBorrowed),
        a.read_attempt(h)->Ok_0.write_attempt(h) == Err::<ArenaView<T>, BorrowMutError>(
            BorrowMutError::AlreadyBorrowed,
        ),
{
}

/// Recycling correctness: after reclaiming through a valid handle, the next
/// insertion reuses the same cell at a strictly greater generation, so the
/// reclaimed handle — and any handle captured at or before its generation —
/// never observes the new occupant.
pub proof fn recycling_freshness<T>(a: ArenaView<T>, h: HandleView, value: T, g: HandleView)
    requires
        a.wf(),
        a.reclaimable(h),
        a.valid(h),
        h.generation < u64::MAX as int,
    ensures
        ({
            let freed = a.free_step(h).0;
            let (next, h2) = freed.insert_step(value);
            &&& h2.index == h.index
            &&& h2.generation == h.generation + 1
            &&& next.slots[h2.index].value == Some(value)
            &&& !next.valid(h)
            &&& (g.index == h.index && g.generation <= h.generation ==> !next.valid(g))
        }),
{
    let freed = a.free_step(h).0;
    assert(freed.free.last() == h.index);
}

/// No operation moves a cell's generation backward: borrow attempts leave
/// every generation untouched, insertion leaves every existing cell's
/// generation unchanged, and reclamation only advances the freed cell's.
pub proof fn generations_only_advance<T>(a: ArenaView<T>, h: HandleView, value: T)
    requires
        a.wf(),
    ensures
        a.read_attempt(h) is Ok ==> forall|j: int|
            a.in_bounds(j) ==> (#[trigger] a.read_attempt(h)->Ok_0.slots[j]).generation
                == a.slots[j].generation,
        a.write_attempt(h) is Ok ==> forall|j: int|
            a.in_bounds(j) ==> (#[trigger] a.write_attempt(h)->Ok_0.slots[j]).generation
                == a.slots[j].generation,
        forall|j: int|
            a.in_bounds(j) ==> (#[trigger] a.set_step(h, value).0.slots[j]).generation
                == a.slots[j].generation,
        forall|j: int|
            a.in_bounds(j) ==> (#[trigger] a.insert_step(value).0.slots[j]).generation
                == a.slots[j].generation,
        a.reclaimable(h) ==> forall|j: int|
            a.in_bounds(j) ==> (#[trigger] a.free_step(h).0.slots[j]).generation
                >= a.slots[j].generation,
{
    if a.free.len() > 0 {
        assert(a.free[a.free.len() - 1] == a.free.last());
        assert(a.recyclable(a.free.last()));
    }
}

/// Owner batch semantics: reclaiming through a whole registry of handles
/// leaves every one of them — first to last — reporting its value as
/// dropped, for reads and writes alike: no partial reclamation is
/// observable.
pub proof fn owner_reclamation_total<T>(a: ArenaView<T>, hs: Seq<HandleView>, k: int)
    requires
        a.wf(),
        forall|j: int| 0 <= j < hs.len() ==> a.reclaimable(#[trigger] hs[j]),
        0 <= k < hs.len(),
    ensures
        a.free_all_step(hs).dropped_for(hs[k]),
        a.free_all_step(hs).read_attempt(hs[k]) == Err::<ArenaView<T>, BorrowError>(
            BorrowError::Dropped,
        ),
        a.free_all_step(hs).write_attempt(hs[k]) == Err::<ArenaView<T>, BorrowMutError>(
            BorrowMutError::Dropped,
        ),
    decreases hs.len(),
{
    let first = hs.first();
    let rest = hs.drop_first();
    let stepped = a.free_step(first).0;
    lemma_free_step_frame(a, first, first);
    assert forall|j: int| 0 <= j < rest.len() implies stepped.reclaimable(#[trigger] rest[j]) by {
        assert(rest[j] == hs[j + 1]);
        lemma_free_step_frame(a, first, hs[j + 1]);
    }
    if k == 0 {
        lemma_free_all_preserves_dropped(stepped, rest, hs[0]);
    } else {
        owner_reclamation_total(stepped, rest, k - 1);
        assert(rest[k - 1] == hs[k]);
    }
    dropped_handles_cannot_access(a.free_all_step(hs), hs[k]);
}

/// Bulk reclamation never resurrects a handle: one that reports its value
/// as dropped before the sweep still does so after it.
proof fn lemma_free_all_preserves_dropped<T>(a: ArenaView<T>, hs: Seq<HandleView>, g: HandleView)
    requires
        a.wf(),
        forall|j: int| 0 <= j < hs.len() ==> a.reclaimable(#[trigger] hs[j]),
        a.reclaimable(g),
        a.dropped_for(g),
    ensures
        a.free_all_step(hs).dropped_for(g),
    decreases hs.len(),
{
    if hs.len() > 0 {
        let first = hs.first();
        let rest = hs.drop_first();
        let stepped = a.free_step(first).0;
        lemma_free_step_frame(a, first, g);
        assert forall|j: int| 0 <= j < rest.len() implies stepped.reclaimable(
            #[trigger] rest[j],
        ) by {
            assert(rest[j] == hs[j + 1]);
            lemma_free_step_frame(a, first, hs[j + 1]);
        }
        lemma_free_all_preserves_dropped(stepped, rest, g);
    }
}

} // verus!
