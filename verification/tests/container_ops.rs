use smolvec::SmolVec;
use smolvec::INLINE_CAPACITY;

#[test]
fn test_push_pop() {
    let mut vec = SmolVec::new();
    for i in 0..20 {
        vec.push(i);
    }
    assert_eq!(vec.len(), 20);
    for i in (0..20).rev() {
        assert_eq!(vec.pop(), Some(i));
    }
    assert_eq!(vec.pop(), None);
}

#[test]
fn test_inline_to_heap() {
    let mut vec = SmolVec::new();
    for i in 0..INLINE_CAPACITY {
        vec.push(i);
    }
    assert!(vec.is_inline());
    vec.push(INLINE_CAPACITY);
    assert!(!vec.is_inline());
}

#[test]
fn test_from_iter() {
    let vec = SmolVec::from_vec((0..10).collect());
    assert_eq!(vec.len(), 10);
    assert_eq!(*vec.get(5), 5);
}

#[test]
fn test_pop_empty() {
    let mut vec: SmolVec<i32> = SmolVec::new();
    assert!(vec.is_empty());
    assert_eq!(vec.pop(), None);
    assert!(vec.is_empty());
}

#[test]
fn test_inline_needs_no_allocation() {
    let mut vec = SmolVec::new();
    for i in 0..INLINE_CAPACITY {
        vec.push(i as u64);
        assert!(vec.is_inline());
        assert_eq!(vec.capacity(), INLINE_CAPACITY);
    }
    assert_eq!(vec.len(), INLINE_CAPACITY);
}

#[test]
fn test_spill_preserves_elements() {
    let mut vec = SmolVec::new();
    for i in 0..(INLINE_CAPACITY + 1) {
        vec.push(i);
    }
    assert!(!vec.is_inline());
    assert!(vec.capacity() >= INLINE_CAPACITY + 1);
    assert_eq!(vec.capacity(), 2 * INLINE_CAPACITY);
    assert_eq!(vec.len(), INLINE_CAPACITY + 1);
    for i in 0..(INLINE_CAPACITY + 1) {
        assert_eq!(*vec.get(i), i);
    }
}

#[test]
fn test_with_capacity() {
    let small: SmolVec<u8> = SmolVec::with_capacity(10);
    assert!(small.is_inline());
    assert_eq!(small.capacity(), INLINE_CAPACITY);
    assert!(small.is_empty());

    let zero: SmolVec<u8> = SmolVec::with_capacity(0);
    assert!(zero.is_inline());
    assert_eq!(zero.capacity(), INLINE_CAPACITY);

    let large: SmolVec<u8> = SmolVec::with_capacity(40);
    assert!(!large.is_inline());
    assert_eq!(large.capacity(), 40);
    assert!(large.is_empty());
}

#[test]
fn test_clear_retains_capacity() {
    let mut vec = SmolVec::new();
    for i in 0..20 {
        vec.push(i);
    }
    assert_eq!(vec.capacity(), 2 * INLINE_CAPACITY);
    vec.clear();
    assert_eq!(vec.len(), 0);
    assert!(vec.is_empty());
    assert!(!vec.is_inline());
    assert_eq!(vec.capacity(), 2 * INLINE_CAPACITY);

    let mut small = SmolVec::new();
    small.push(1);
    small.clear();
    assert!(small.is_empty());
    assert!(small.is_inline());
    assert_eq!(small.capacity(), INLINE_CAPACITY);
}

#[test]
fn test_set_replaces_element() {
    let mut vec = SmolVec::from_vec(vec![10, 20, 30]);
    vec.set(1, 99);
    assert_eq!(*vec.get(0), 10);
    assert_eq!(*vec.get(1), 99);
    assert_eq!(*vec.get(2), 30);
    assert_eq!(vec.len(), 3);
}

#[test]
fn test_extend_appends() {
    let mut vec = SmolVec::from_vec(vec![1, 2]);
    vec.extend(vec![3, 4, 5]);
    assert_eq!(vec.len(), 5);
    for i in 0..5 {
        assert_eq!(*vec.get(i), (i + 1) as i32);
    }
}

#[test]
fn test_round_trip() {
    let vec = SmolVec::from_vec((0..10).collect::<Vec<i32>>());
    let out = vec.into_vec();
    assert_eq!(out, (0..10).collect::<Vec<i32>>());
    let back = SmolVec::from_vec(out);
    assert_eq!(back.len(), 10);
    for i in 0..10 {
        assert_eq!(*back.get(i), i as i32);
    }

    let large = SmolVec::from_vec((0..50).collect::<Vec<i32>>());
    let out_large = large.into_vec();
    assert_eq!(out_large, (0..50).collect::<Vec<i32>>());
}
