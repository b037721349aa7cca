use generational_box::Arena;
use generational_box::BorrowError;
use generational_box::BorrowMutError;

#[test]
fn free_invalidates_all_copies() {
    let mut arena: Arena<i32> = Arena::new();

    let h = arena.insert(11);
    let copy1 = h;
    let copy2 = h.clone();

    assert_eq!(arena.free(h), Some(11));

    // every copy of the handle went stale together
    assert!(copy1.try_read(&mut arena).is_err());
    assert!(copy2.try_read(&mut arena).is_err());

    // freeing again through the stale handle is a no-op
    assert_eq!(arena.free(h), None);
}

#[test]
fn repeated_recycling_never_revalidates() {
    let mut arena: Arena<u64> = Arena::new();

    // drive one cell through several reclamation cycles
    let mut stale = Vec::new();
    let mut h = arena.insert(0);
    for round in 1..=5u64 {
        stale.push(h);
        assert_eq!(arena.free(h), Some(round - 1));
        h = arena.insert(round);
        // same cell each time, never the same generation
        assert!(h == stale[0]);
        for old in &stale {
            assert!(!h.ptr_eq(old));
            assert!(old.try_read(&mut arena).is_err());
        }
    }

    let r = h.read(&mut arena);
    assert_eq!(*r.borrow(&arena), 5);
    r.release(&mut arena);
}

#[test]
fn owner_batch_reclamation() {
    let mut arena: Arena<usize> = Arena::new();
    let mut owner = arena.owner();

    let mut handles = Vec::new();
    for n in 0..16usize {
        handles.push(owner.insert(&mut arena, n));
    }

    // all live before the owner is retired
    for (n, h) in handles.iter().enumerate() {
        let r = h.read(&mut arena);
        assert_eq!(*r.borrow(&arena), n);
        r.release(&mut arena);
    }

    owner.free_all(&mut arena);

    // all dropped afterward: no partial reclamation is observable
    for h in &handles {
        assert!(matches!(h.try_read(&mut arena), Err(BorrowError::Dropped)));
        assert!(matches!(h.try_write(&mut arena), Err(BorrowMutError::Dropped)));
    }
}

#[test]
fn empty_owner_is_fine() {
    let mut arena: Arena<i32> = Arena::new();
    let owner = arena.owner();
    owner.free_all(&mut arena);
    let h = arena.insert(1);
    assert_eq!(arena.free(h), Some(1));
}

#[test]
fn freed_cells_are_reused_before_new_ones() {
    let mut arena: Arena<i32> = Arena::new();

    let a = arena.insert(1);
    let b = arena.insert(2);
    assert!(a != b);

    arena.free(a);

    // the reclaimed cell is handed out again
    let c = arena.insert(3);
    assert!(c == a);
    assert!(!c.ptr_eq(&a));

    // an exhausted pool grows instead
    let d = arena.insert(4);
    assert!(d != a && d != b);

    let rb = b.read(&mut arena);
    assert_eq!(*rb.borrow(&arena), 2);
    rb.release(&mut arena);
}
