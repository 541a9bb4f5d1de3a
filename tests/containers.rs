use myrc::mapping::hash_map;
use myrc::stack::SimpleStack;

#[test]
fn stack_push_pop_sequence() {
    let mut stack = SimpleStack::new();
    stack.push(1);
    stack.push(2);
    stack.push(3);
    assert_eq!(stack.pop(), Some(3));
    assert_eq!(stack.pop(), Some(2));
    stack.push(4);
    assert_eq!(stack.pop(), Some(4));
    assert_eq!(stack.pop(), Some(1));
    assert_eq!(stack.pop(), None);
}

#[test]
fn empty_stack_pops_nothing() {
    let mut stack: SimpleStack<u8> = SimpleStack::new();
    assert!(stack.is_empty());
    assert_eq!(stack.pop(), None);
    assert_eq!(stack.len(), 0);
    stack.push(9);
    assert_eq!(stack.len(), 1);
    assert!(!stack.is_empty());
}

#[test]
fn mapping_from_three_pairs() {
    let map = hash_map(vec![("one", 1), ("two", 2), ("three", 3)]);
    assert_eq!(map.len(), 3);
    assert_eq!(map.get("one"), Some(&1));
    assert_eq!(map.get("two"), Some(&2));
    assert_eq!(map.get("three"), Some(&3));
}

#[test]
fn mapping_last_duplicate_key_wins() {
    let map = hash_map(vec![(1u64, 10), (2u64, 20), (1u64, 30)]);
    assert_eq!(map.len(), 2);
    assert_eq!(map.get(&1), Some(&30));
    assert_eq!(map.get(&2), Some(&20));
}

#[test]
fn mapping_from_no_pairs_is_empty() {
    let map = hash_map(Vec::<(u64, u64)>::new());
    assert!(map.is_empty());
}
