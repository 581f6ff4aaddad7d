use ownership_kit::error::AccessError;
use ownership_kit::interior::{BorrowState, InteriorMutable};

#[test]
fn fresh_cell_is_unborrowed() {
    let cell = InteriorMutable::construct(5);
    assert_eq!(cell.borrow_state(), BorrowState::Unborrowed);
}

#[test]
fn exclusive_borrow_fails_while_shared_guard_lives() {
    let mut cell = InteriorMutable::construct(5);
    let shared = cell.borrow().ok().expect("shared borrow of a fresh cell");
    assert_eq!(*cell.read(&shared), 5);

    match cell.borrow_mut() {
        Ok(_) => panic!("exclusive borrow granted beside a shared guard"),
        Err(error) => assert_eq!(error, AccessError::BorrowConflict),
    }
    assert_eq!(cell.borrow_state(), BorrowState::Shared(1));

    cell.release_shared(shared);
    assert_eq!(cell.borrow_state(), BorrowState::Unborrowed);

    let exclusive = cell.borrow_mut().ok().expect("exclusive borrow after release");
    let next = *cell.read_exclusive(&exclusive) + 1;
    cell.write(&exclusive, next);
    assert_eq!(*cell.read_exclusive(&exclusive), 6);
    cell.release_exclusive(exclusive);
    assert_eq!(cell.borrow_state(), BorrowState::Unborrowed);

    let check = cell.borrow().ok().expect("shared borrow after release");
    assert_eq!(*cell.read(&check), 6);
    cell.release_shared(check);
}

#[test]
fn increment_through_exclusive_borrow_then_read() {
    let mut refcell = InteriorMutable::construct(5);
    let guard = cell_guard(&mut refcell);
    let next = *refcell.read_exclusive(&guard) + 1;
    refcell.write(&guard, next);
    refcell.release_exclusive(guard);
    let reader = refcell.borrow().ok().expect("shared borrow");
    assert_eq!(*refcell.read(&reader), 6);
    refcell.release_shared(reader);
}

fn cell_guard(cell: &mut InteriorMutable<i32>) -> ownership_kit::interior::ExclusiveGuard {
    match cell.borrow_mut() {
        Ok(guard) => guard,
        Err(error) => panic!("{}", error.message()),
    }
}

#[test]
fn any_number_of_shared_guards_may_live_together() {
    let mut cell = InteriorMutable::construct(String::from("read me"));
    let mut guards = Vec::new();
    for expected in 1..=20usize {
        guards.push(cell.borrow().ok().expect("shared borrow beside shared guards"));
        assert_eq!(cell.borrow_state(), BorrowState::Shared(expected));
    }
    for guard in &guards {
        assert_eq!(cell.read(guard).as_str(), "read me");
    }
    assert!(cell.borrow_mut().is_err());
    let mut left = 20usize;
    for guard in guards {
        cell.release_shared(guard);
        left -= 1;
        if left > 0 {
            assert_eq!(cell.borrow_state(), BorrowState::Shared(left));
            assert!(cell.borrow_mut().is_err());
        }
    }
    assert_eq!(cell.borrow_state(), BorrowState::Unborrowed);
    assert!(cell.borrow_mut().is_ok());
}

#[test]
fn shared_borrow_fails_while_exclusive_guard_lives() {
    let mut cell = InteriorMutable::construct(1);
    let exclusive = cell.borrow_mut().ok().expect("exclusive borrow of a fresh cell");
    assert_eq!(cell.borrow_state(), BorrowState::Exclusive);
    match cell.borrow() {
        Ok(_) => panic!("shared borrow granted beside the exclusive guard"),
        Err(error) => assert_eq!(error, AccessError::BorrowConflict),
    }
    assert_eq!(cell.borrow_state(), BorrowState::Exclusive);
    cell.release_exclusive(exclusive);
    assert!(cell.borrow().is_ok());
}

#[test]
fn second_exclusive_borrow_fails() {
    let mut cell = InteriorMutable::construct(1);
    let first = cell.borrow_mut().ok().expect("exclusive borrow of a fresh cell");
    match cell.borrow_mut() {
        Ok(_) => panic!("two exclusive guards at once"),
        Err(error) => assert_eq!(error, AccessError::BorrowConflict),
    }
    cell.release_exclusive(first);
    assert!(cell.borrow_mut().is_ok());
}

#[test]
fn refused_borrow_changes_nothing() {
    let mut cell = InteriorMutable::construct(10);
    let exclusive = cell.borrow_mut().ok().expect("exclusive borrow");
    for _ in 0..5 {
        assert!(cell.borrow().is_err());
        assert!(cell.borrow_mut().is_err());
        assert_eq!(cell.borrow_state(), BorrowState::Exclusive);
        assert_eq!(*cell.read_exclusive(&exclusive), 10);
    }
    cell.release_exclusive(exclusive);
    assert_eq!(cell.borrow_state(), BorrowState::Unborrowed);
}

#[test]
fn scoped_shared_borrow_reads_and_releases() {
    let mut cell = InteriorMutable::construct(vec![1, 2, 3]);
    let total = cell.with_borrow(|items: &Vec<i32>| items.iter().sum::<i32>());
    assert_eq!(total, Ok(6));
    assert_eq!(cell.borrow_state(), BorrowState::Unborrowed);
}

#[test]
fn scoped_exclusive_borrow_writes_and_releases() {
    let mut cell = InteriorMutable::construct(5);
    assert_eq!(cell.with_borrow_mut(|value: &i32| *value + 1), Ok(()));
    assert_eq!(cell.borrow_state(), BorrowState::Unborrowed);
    assert_eq!(cell.with_borrow(|value: &i32| *value), Ok(6));
}

#[test]
fn scoped_borrows_respect_outstanding_guards() {
    let mut cell = InteriorMutable::construct(5);
    let shared = cell.borrow().ok().expect("shared borrow");
    assert_eq!(
        cell.with_borrow_mut(|value: &i32| *value + 1),
        Err(AccessError::BorrowConflict)
    );
    assert_eq!(cell.with_borrow(|value: &i32| *value), Ok(5));
    assert_eq!(cell.borrow_state(), BorrowState::Shared(1));
    cell.release_shared(shared);

    let exclusive = cell.borrow_mut().ok().expect("exclusive borrow");
    assert_eq!(cell.with_borrow(|value: &i32| *value), Err(AccessError::BorrowConflict));
    assert_eq!(
        cell.with_borrow_mut(|value: &i32| *value + 1),
        Err(AccessError::BorrowConflict)
    );
    assert_eq!(cell.borrow_state(), BorrowState::Exclusive);
    assert_eq!(*cell.read_exclusive(&exclusive), 5);
    cell.release_exclusive(exclusive);
}
