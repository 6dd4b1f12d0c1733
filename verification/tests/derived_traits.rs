use smolvec::SmolVec;

#[test]
fn test_clone() {
    let mut vec = SmolVec::new();
    vec.extend((0..10).collect());
    let clone = vec.clone();
    assert_eq!(vec, clone);
}

#[test]
fn test_eq() {
    let mut vec1 = SmolVec::new();
    let mut vec2 = SmolVec::new();
    vec1.extend((0..5).collect());
    vec2.extend((0..5).collect());
    assert_eq!(vec1, vec2);
    vec1.push(5);
    assert_ne!(vec1, vec2);
}

#[test]
fn test_ord() {
    let mut vec1 = SmolVec::new();
    let mut vec2 = SmolVec::new();
    vec1.extend((0..5).collect());
    vec2.extend((0..6).collect());
    assert!(vec1 < vec2);
}

#[test]
fn test_ord_prefix() {
    let shorter = SmolVec::from_vec((0..6).collect::<Vec<i32>>());
    let longer = SmolVec::from_vec((0..7).collect::<Vec<i32>>());
    assert!(shorter < longer);
    assert!(!(longer < shorter));
}

#[test]
fn test_ord_first_difference() {
    let lower = SmolVec::from_vec(vec![0, 1, 2, 3, 4]);
    let higher = SmolVec::from_vec(vec![0, 1, 2, 3, 5]);
    assert!(lower < higher);
    assert!(!(higher < lower));
    let equal = SmolVec::from_vec(vec![0, 1, 2, 3, 4]);
    assert!(!(lower < equal));
    assert!(!(equal < lower));
}

#[test]
fn test_eq_same_length_different_values() {
    let vec1 = SmolVec::from_vec(vec![1, 2, 3]);
    let vec2 = SmolVec::from_vec(vec![1, 9, 3]);
    assert_ne!(vec1, vec2);
}

#[test]
fn test_clone_independent() {
    let mut vec = SmolVec::from_vec((0..8).collect::<Vec<i32>>());
    let mut clone = vec.clone();
    clone.push(100);
    clone.set(0, 42);
    assert_eq!(vec.len(), 8);
    assert_eq!(*vec.get(0), 0);
    assert_eq!(clone.len(), 9);
    assert_eq!(*clone.get(0), 42);
    vec.pop();
    assert_eq!(clone.len(), 9);
}

#[test]
fn test_clone_of_heap_container() {
    let vec = SmolVec::from_vec((0..20).collect::<Vec<i32>>());
    assert!(!vec.is_inline());
    let clone = vec.clone();
    assert_eq!(vec, clone);
    assert_eq!(clone.len(), 20);
    assert!(!clone.is_inline());
    assert_eq!(clone.capacity(), 20);
}

#[test]
fn test_clone_of_shrunk_heap_container_is_inline() {
    let mut vec = SmolVec::from_vec((0..17).collect::<Vec<i32>>());
    assert!(!vec.is_inline());
    for _ in 0..5 {
        vec.pop();
    }
    assert!(!vec.is_inline());
    let clone = vec.clone();
    assert_eq!(vec, clone);
    assert!(clone.is_inline());
}

#[test]
fn test_default() {
    let vec: SmolVec<i32> = Default::default();
    assert!(vec.is_empty());
    assert!(vec.is_inline());
    assert_eq!(vec.capacity(), smolvec::INLINE_CAPACITY);
}
