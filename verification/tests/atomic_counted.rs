use ownership_kit::atomic::AtomicSharedCounted;

#[test]
fn construct_starts_with_one_handle() {
    let (block, first) = AtomicSharedCounted::construct(5);
    assert_eq!(block.strong_count(&first), 1);
    assert_eq!(*block.get(&first), 5);
    assert_eq!(block.destroyed_by(), None);
}

#[test]
fn two_threads_each_hold_a_clone() {
    let (mut block, first) = AtomicSharedCounted::construct(5);
    let second = block.clone_handle(&first);
    let third = block.clone_handle(&first);
    assert_eq!(block.strong_count(&first), 3);

    // Thread 1 and thread 2 each read the count through their clone.
    assert_eq!(block.strong_count(&second), 3);
    assert_eq!(block.strong_count(&third), 3);

    // Both threads end and their clones drop.
    assert!(!block.drop_handle(second, 1));
    assert!(!block.drop_handle(third, 2));

    assert_eq!(block.strong_count(&first), 1);
    assert_eq!(*block.get(&first), 5);
    assert_eq!(block.destroyed_by(), None);
}

#[test]
fn two_threads_in_the_other_order() {
    let (mut block, first) = AtomicSharedCounted::construct(5);
    let second = block.clone_handle(&first);
    let third = block.clone_handle(&first);

    // Thread 2 runs to its end before thread 1 looks at the count.
    assert_eq!(block.strong_count(&third), 3);
    assert!(!block.drop_handle(third, 2));
    assert_eq!(block.strong_count(&second), 2);
    assert!(!block.drop_handle(second, 1));

    assert_eq!(block.strong_count(&first), 1);
    assert_eq!(*block.get(&first), 5);
}

#[test]
fn last_drop_destroys_once_and_names_its_thread() {
    let (mut block, first) = AtomicSharedCounted::construct(String::from("payload"));
    let second = block.clone_handle(&first);
    let third = block.clone_handle(&second);

    assert!(!block.drop_handle(first, 7));
    assert_eq!(block.destroyed_by(), None);
    assert_eq!(block.strong_count(&third), 2);
    assert!(!block.drop_handle(third, 8));
    assert_eq!(block.destroyed_by(), None);
    assert_eq!(block.get(&second).as_str(), "payload");
    assert!(block.drop_handle(second, 9));
    assert_eq!(block.destroyed_by(), Some(9));
}

#[test]
fn single_handle_dropped_by_its_creator() {
    let (mut block, only) = AtomicSharedCounted::construct(1u8);
    assert!(block.drop_handle(only, 3));
    assert_eq!(block.destroyed_by(), Some(3));
}
