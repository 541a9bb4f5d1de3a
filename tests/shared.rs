use myrc::rc::{MyRc, RcHeap};

#[test]
fn allocate_then_deref_gives_value() {
    let mut heap: RcHeap<String> = RcHeap::new();
    let rc = MyRc::new(String::from("payload"), &mut heap);
    assert_eq!(rc.deref(&heap), "payload");
    assert_eq!(rc.strong_count(&heap), 1);
    assert!(rc.drop(&mut heap));
}

#[test]
fn duplicate_deref_release_then_original_still_reads() {
    let mut heap: RcHeap<i32> = RcHeap::new();
    let rc = MyRc::new(1, &mut heap);
    {
        let rc2 = rc.clone(&mut heap);
        assert_eq!(*rc2.deref(&heap), 1);
        assert!(!rc2.drop(&mut heap));
    }
    assert_eq!(*rc.deref(&heap), 1);
    assert_eq!(rc.strong_count(&heap), 1);
    assert!(rc.drop(&mut heap));
}

#[test]
fn duplicate_then_release_restores_count() {
    let mut heap: RcHeap<u64> = RcHeap::new();
    let rc = MyRc::new(7, &mut heap);
    let dup = rc.clone(&mut heap);
    assert_eq!(rc.strong_count(&heap), 2);
    assert_eq!(dup.strong_count(&heap), 2);
    assert!(!dup.drop(&mut heap));
    assert_eq!(rc.strong_count(&heap), 1);
    assert_eq!(*rc.deref(&heap), 7);
}

#[test]
fn only_last_of_n_releases_destroys() {
    let mut heap: RcHeap<u64> = RcHeap::new();
    let first = MyRc::new(42, &mut heap);
    let mut handles = Vec::new();
    for _ in 0..4 {
        handles.push(first.clone(&mut heap));
    }
    assert_eq!(first.strong_count(&heap), 5);
    let mut destroyed = 0;
    for h in handles {
        assert_eq!(*h.deref(&heap), 42);
        if h.drop(&mut heap) {
            destroyed += 1;
        }
        assert_eq!(*first.deref(&heap), 42);
    }
    assert_eq!(destroyed, 0);
    assert_eq!(first.strong_count(&heap), 1);
    assert!(first.drop(&mut heap));
}

#[test]
fn release_order_does_not_matter() {
    let mut heap: RcHeap<u64> = RcHeap::new();
    let a = MyRc::new(3, &mut heap);
    let b = a.clone(&mut heap);
    let c = b.clone(&mut heap);
    assert!(!a.drop(&mut heap));
    assert_eq!(*c.deref(&heap), 3);
    assert!(!c.drop(&mut heap));
    assert_eq!(b.strong_count(&heap), 1);
    assert!(b.drop(&mut heap));
}

#[test]
fn cells_are_independent() {
    let mut heap: RcHeap<u64> = RcHeap::new();
    let a = MyRc::new(1, &mut heap);
    let b = MyRc::new(2, &mut heap);
    let a2 = a.clone(&mut heap);
    assert_eq!(b.strong_count(&heap), 1);
    assert!(b.drop(&mut heap));
    assert_eq!(*a.deref(&heap), 1);
    assert_eq!(*a2.deref(&heap), 1);
    assert_eq!(a.strong_count(&heap), 2);
}

#[test]
fn destroyed_slot_is_reused_with_fresh_count() {
    let mut heap: RcHeap<u64> = RcHeap::new();
    let a = MyRc::new(10, &mut heap);
    let keep = MyRc::new(20, &mut heap);
    assert!(a.drop(&mut heap));
    let b = MyRc::new(30, &mut heap);
    assert_eq!(*b.deref(&heap), 30);
    assert_eq!(b.strong_count(&heap), 1);
    assert_eq!(*keep.deref(&heap), 20);
    assert_eq!(keep.strong_count(&heap), 1);
}
