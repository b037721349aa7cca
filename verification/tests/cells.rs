use generational_box::BorrowError;
use generational_box::BorrowMutError;
use generational_box::GenericStorage;
use generational_box::Slot;

#[test]
fn slot_set_and_generation() {
    let mut slot: Slot<i32> = Slot::new();
    assert_eq!(slot.generation(), 0);

    assert_eq!(slot.set(Some(5)), None);
    assert_eq!(slot.set(Some(6)), Some(5));
    assert_eq!(slot.set(None), Some(6));

    assert_eq!(slot.increment_generation(), 1);
    assert_eq!(slot.increment_generation(), 2);
    assert_eq!(slot.generation(), 2);
}

#[test]
fn slot_borrow_discipline() {
    let mut slot: Slot<i32> = Slot::default();

    // an empty cell reports the value as dropped
    assert!(matches!(slot.try_read(), Err(BorrowError::Dropped)));
    assert!(matches!(slot.try_write(), Err(BorrowMutError::Dropped)));

    slot.set(Some(3));

    // two readers share; a writer waits
    assert!(slot.try_read().is_ok());
    assert!(slot.try_read().is_ok());
    assert_eq!(*slot.borrow(), 3);
    assert!(matches!(slot.try_write(), Err(BorrowMutError::AlreadyBorrowed)));
    slot.release_read();
    slot.release_read();

    // one writer excludes everyone
    assert!(slot.try_write().is_ok());
    assert!(matches!(slot.try_read(), Err(BorrowError::AlreadyBorrowedMut)));
    assert!(matches!(slot.try_write(), Err(BorrowMutError::AlreadyBorrowedMut)));
    *slot.borrow_mut() = 4;
    slot.release_write();

    assert!(slot.try_read().is_ok());
    assert_eq!(*slot.borrow(), 4);
    slot.release_read();
}

#[test]
fn generic_storage_lifecycle() {
    let mut cell: GenericStorage<String> = GenericStorage::default();

    assert!(!cell.take());
    assert!(matches!(cell.try_read(), Err(BorrowError::Dropped)));

    cell.set(String::from("held"));
    assert!(cell.try_read().is_ok());
    assert_eq!(cell.borrow().as_str(), "held");
    assert!(matches!(cell.try_write(), Err(BorrowMutError::AlreadyBorrowed)));
    cell.release_read();

    assert!(cell.try_write().is_ok());
    cell.borrow_mut().push_str(" fast");
    assert!(matches!(cell.try_read(), Err(BorrowError::AlreadyBorrowedMut)));
    cell.release_write();

    assert!(cell.take());
    assert!(!cell.take());
    assert!(matches!(cell.try_write(), Err(BorrowMutError::Dropped)));
}
