use ownership_kit::error::AccessError;
use ownership_kit::owner::Owner;

#[test]
fn fresh_owner_holds_its_value() {
    let owner = Owner::construct(String::from("hello"));
    assert!(owner.holds_value());
    assert_eq!(owner.get().map(|s| s.as_str()), Ok("hello"));
}

#[test]
fn move_out_yields_value_and_invalidates() {
    let mut owner = Owner::construct(41);
    assert_eq!(owner.move_out(), Ok(41));
    assert!(!owner.holds_value());
}

#[test]
fn every_use_after_move_fails() {
    let mut owner = Owner::construct(7u8);
    assert_eq!(owner.move_out(), Ok(7));
    for attempt in 0..100u8 {
        assert_eq!(owner.get(), Err(AccessError::UseAfterMove));
        assert_eq!(owner.set(attempt), Err(AccessError::UseAfterMove));
        assert_eq!(owner.move_out(), Err(AccessError::UseAfterMove));
        assert!(owner.transfer().is_err());
        assert!(!owner.holds_value());
    }
}

#[test]
fn transfer_moves_ownership_to_new_handle() {
    let mut s1 = Owner::construct(String::from("hello"));
    let s2 = s1.transfer();
    assert!(!s1.holds_value());
    assert_eq!(s1.get(), Err(AccessError::UseAfterMove));
    let s2 = match s2 {
        Ok(owner) => owner,
        Err(_) => panic!("transfer from a valid handle failed"),
    };
    assert!(s2.holds_value());
    assert_eq!(s2.get().map(|s| s.as_str()), Ok("hello"));
}

#[test]
fn transfer_from_moved_handle_reports_use_after_move() {
    let mut source = Owner::construct(1);
    assert_eq!(source.move_out(), Ok(1));
    match source.transfer() {
        Ok(_) => panic!("transfer from an invalidated handle succeeded"),
        Err(error) => assert_eq!(error, AccessError::UseAfterMove),
    }
}

#[test]
fn set_replaces_and_returns_previous() {
    let mut owner = Owner::construct(5);
    assert_eq!(owner.set(6), Ok(5));
    assert_eq!(owner.get(), Ok(&6));
    assert_eq!(owner.move_out(), Ok(6));
}

#[test]
fn set_on_moved_handle_leaves_it_invalid() {
    let mut owner = Owner::construct(5);
    assert_eq!(owner.move_out(), Ok(5));
    assert_eq!(owner.set(9), Err(AccessError::UseAfterMove));
    assert!(!owner.holds_value());
    assert_eq!(owner.get(), Err(AccessError::UseAfterMove));
}
