use generational_box::Arena;
use generational_box::BorrowError;
use generational_box::BorrowMutError;

#[test]
fn write_borrow_excludes_everyone() {
    let mut arena: Arena<String> = Arena::new();
    let h = arena.insert(String::from("guarded"));

    let w = h.try_write(&mut arena).unwrap();

    // while the write borrow is outstanding, readers and writers both fail
    assert!(matches!(h.try_read(&mut arena), Err(BorrowError::AlreadyBorrowedMut)));
    assert!(matches!(h.try_write(&mut arena), Err(BorrowMutError::AlreadyBorrowedMut)));

    // releasing the write borrow restores access
    w.release(&mut arena);
    let r = h.try_read(&mut arena).unwrap();
    assert_eq!(r.borrow(&arena).as_str(), "guarded");
    r.release(&mut arena);

    let w2 = h.try_write(&mut arena).unwrap();
    w2.release(&mut arena);
}

#[test]
fn readers_share_the_cell() {
    let mut arena: Arena<i32> = Arena::new();
    let h = arena.insert(7);

    // several simultaneous read borrows all succeed
    let r1 = h.try_read(&mut arena).unwrap();
    let r2 = h.try_read(&mut arena).unwrap();
    let r3 = h.try_read(&mut arena).unwrap();
    assert_eq!(*r1.borrow(&arena), 7);
    assert_eq!(*r2.borrow(&arena), 7);
    assert_eq!(*r3.borrow(&arena), 7);

    // a write attempt while any read borrow is outstanding fails
    assert!(matches!(h.try_write(&mut arena), Err(BorrowMutError::AlreadyBorrowed)));

    r1.release(&mut arena);
    r2.release(&mut arena);
    assert!(matches!(h.try_write(&mut arena), Err(BorrowMutError::AlreadyBorrowed)));

    // once the last reader releases, the writer gets in
    r3.release(&mut arena);
    let w = h.try_write(&mut arena).unwrap();
    let prev = w.replace(&mut arena, 8);
    assert_eq!(prev, 7);
    w.release(&mut arena);

    let r = h.read(&mut arena);
    assert_eq!(*r.borrow(&arena), 8);
    r.release(&mut arena);
}

#[test]
fn dropped_errors_on_stale_handles() {
    let mut arena: Arena<i32> = Arena::new();
    let h = arena.insert(1);
    arena.free(h);

    assert!(matches!(h.try_read(&mut arena), Err(BorrowError::Dropped)));
    assert!(matches!(h.try_write(&mut arena), Err(BorrowMutError::Dropped)));
}

#[test]
fn borrow_mut_projects_exclusive_access() {
    let mut arena: Arena<Vec<u8>> = Arena::new();
    let h = arena.insert(vec![1, 2, 3]);

    let w = h.write(&mut arena);
    {
        let v = w.borrow_mut(&mut arena);
        v.push(4);
    }
    assert_eq!(w.borrow(&arena).len(), 4);
    w.release(&mut arena);

    let r = h.read(&mut arena);
    assert_eq!(r.borrow(&arena).as_slice(), &[1, 2, 3, 4]);
    r.release(&mut arena);
}

#[test]
fn error_descriptions() {
    assert_eq!(BorrowError::AlreadyBorrowedMut.describe(), "already borrowed mutably");
    assert_eq!(BorrowError::Dropped.describe(), "dropped");
    assert_eq!(BorrowMutError::AlreadyBorrowed.describe(), "already borrowed");
    assert_eq!(BorrowMutError::AlreadyBorrowedMut.describe(), "already borrowed mutably");
    assert_eq!(BorrowMutError::Dropped.describe(), "dropped");
}
