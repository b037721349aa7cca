use generational_box::Arena;

#[test]
fn using_local() {
    let mut arena: Arena<i32> = Arena::new();
    arena.insert(10);

    let mut sync_arena: Arena<i32> = Arena::new_sync();
    sync_arena.insert(10);
}

#[test]
fn new() {
    let mut arena: Arena<i32> = Arena::new();

    let first = arena.insert(10);

    let o = first.write(&mut arena);
    println!("{}", *o.borrow(&arena));

    let b = arena.insert(123);

    let rb = b.read(&mut arena);
    println!("{}", *rb.borrow(&arena));
    rb.release(&mut arena);
    o.release(&mut arena);

    // If none, has already been freed
    let item = arena.free(first);
    assert_eq!(item, Some(10));
}

#[test]
fn with_owner() {
    let mut arena: Arena<i32> = Arena::new();

    let mut owner = arena.owner();

    let first = owner.insert(&mut arena, 10);
    let _second = owner.insert(&mut arena, 10);
    let _third = owner.insert(&mut arena, 10);
    let _fourth = owner.insert(&mut arena, 10);

    owner.free_all(&mut arena);

    assert!(first.try_read(&mut arena).is_err());
}

#[test]
fn full_cell_lifecycle() {
    let mut arena: Arena<i32> = Arena::new();

    // insert 10, obtain the first handle
    let h1 = arena.insert(10);

    // write 20 through a write borrow
    let w = h1.write(&mut arena);
    let prev = w.replace(&mut arena, 20);
    assert_eq!(prev, 10);
    w.release(&mut arena);

    // read it back
    let r = h1.read(&mut arena);
    assert_eq!(*r.borrow(&arena), 20);
    r.release(&mut arena);

    // reclaim the cell; the stored value comes back out
    assert_eq!(arena.free(h1), Some(20));
    assert!(h1.try_read(&mut arena).is_err());

    // the cell is recycled for the next insertion, one generation later
    let h2 = arena.insert(30);
    assert!(h2 == h1); // same cell
    assert!(!h2.ptr_eq(&h1)); // different generation

    let r2 = h2.read(&mut arena);
    assert_eq!(*r2.borrow(&arena), 30);
    r2.release(&mut arena);

    // the stale handle must never observe the new occupant
    assert!(h1.try_read(&mut arena).is_err());
}

#[test]
fn set_on_stale_handle_is_silent() {
    let mut arena: Arena<i32> = Arena::new();

    let h1 = arena.insert(1);
    assert_eq!(h1.set(&mut arena, 2), Some(1));

    assert_eq!(arena.free(h1), Some(2));

    // a blind write through a stale handle is a tolerated no-op
    assert_eq!(h1.set(&mut arena, 9), None);

    // the recycled cell is unaffected by the stale write
    let h2 = arena.insert(5);
    let r = h2.read(&mut arena);
    assert_eq!(*r.borrow(&arena), 5);
    r.release(&mut arena);
}

#[test]
fn handle_identity() {
    let mut arena: Arena<i32> = Arena::new();

    let a = arena.insert(1);
    let b = arena.insert(2);

    assert!(a != b);
    assert!(a == a);
    assert!(a.ptr_eq(&a));
    assert!(!a.ptr_eq(&b));
    assert!(a.id() == a.id());
    assert!(a.id() != b.id());
}
