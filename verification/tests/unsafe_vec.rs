use network::unsafe_vec::UnsafeVec;

#[test]
fn new_is_empty() {
    let v: UnsafeVec<u32> = UnsafeVec::new();
    assert_eq!(v.len(), 0);
    assert!(v.as_vec().is_empty());
}

#[test]
fn with_capacity_is_empty() {
    let v: UnsafeVec<u32> = UnsafeVec::with_capacity(16);
    assert_eq!(v.len(), 0);
    assert!(v.as_vec().is_empty());
}

#[test]
fn push_appends_at_the_end() {
    let mut v: UnsafeVec<u32> = UnsafeVec::new();
    v.push(3);
    v.push(1);
    v.push(4);
    assert_eq!(v.len(), 3);
    assert_eq!(*v.index(0), 3);
    assert_eq!(*v.index(1), 1);
    assert_eq!(*v.index(2), 4);
    assert_eq!(v.as_vec(), &vec![3, 1, 4]);
}

#[test]
fn from_vec_keeps_the_order() {
    let v = UnsafeVec::from_vec(vec!["a", "b", "c"]);
    assert_eq!(v.len(), 3);
    assert_eq!(*v.index(0), "a");
    assert_eq!(*v.index(2), "c");
}

#[test]
fn index_mut_changes_one_element() {
    let mut v = UnsafeVec::from_vec(vec![10, 20, 30]);
    *v.index_mut(1) = 25;
    assert_eq!(v.as_vec(), &vec![10, 25, 30]);
}
