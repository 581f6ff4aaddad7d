use ownership_kit::shared::SharedCounted;

#[test]
fn shared_construct_counts_one() {
    let (block, first) = SharedCounted::construct(5);
    assert_eq!(block.strong_count(&first), 1);
    assert_eq!(*block.get(&first), 5);
}

#[test]
fn shared_count_follows_clones_and_drops() {
    let (mut block, rc1) = SharedCounted::construct(5);
    assert_eq!(block.strong_count(&rc1), 1);
    {
        let rc2 = block.clone_handle(&rc1);
        assert_eq!(block.strong_count(&rc1), 2);
        let rc3 = block.clone_handle(&rc1);
        assert_eq!(block.strong_count(&rc1), 3);
        assert_eq!(block.strong_count(&rc2), 3);
        assert_eq!(block.strong_count(&rc3), 3);
        assert!(!block.drop_handle(rc3));
        assert!(!block.drop_handle(rc2));
    }
    assert_eq!(block.strong_count(&rc1), 1);
    assert_eq!(*block.get(&rc1), 5);
}

#[test]
fn shared_clone_of_a_clone_aliases_the_payload() {
    let (mut block, first) = SharedCounted::construct(vec![1, 2, 3]);
    let second = block.clone_handle(&first);
    let third = block.clone_handle(&second);
    assert!(!block.drop_handle(first));
    assert_eq!(block.strong_count(&third), 2);
    assert_eq!(block.get(&second), &vec![1, 2, 3]);
    assert_eq!(block.get(&third), &vec![1, 2, 3]);
}

#[test]
fn shared_payload_is_destroyed_by_the_last_drop_only() {
    let (mut block, first) = SharedCounted::construct(String::from("kept"));
    let second = block.clone_handle(&first);
    let third = block.clone_handle(&first);
    assert!(!block.drop_handle(second));
    assert!(!block.drop_handle(first));
    assert_eq!(block.get(&third).as_str(), "kept");
    assert_eq!(block.strong_count(&third), 1);
    assert!(block.drop_handle(third));
}

#[test]
fn shared_many_clones_then_all_dropped() {
    let (mut block, first) = SharedCounted::construct(0u64);
    let mut handles = Vec::new();
    for expected in 2..=50usize {
        handles.push(block.clone_handle(&first));
        assert_eq!(block.strong_count(&first), expected);
    }
    let mut destructions = 0;
    let mut remaining = 50usize;
    for handle in handles {
        if block.drop_handle(handle) {
            destructions += 1;
        }
        remaining -= 1;
        assert_eq!(block.strong_count(&first), remaining);
    }
    assert_eq!(destructions, 0);
    assert!(block.drop_handle(first));
}
