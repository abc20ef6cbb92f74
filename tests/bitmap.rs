use proka_fs::{Bitmap, BlockBitmap};

#[test]
fn allocate_takes_lowest_free_slot() {
    let mut v: Vec<u8> = vec![1, 1, 0, 1, 0];
    assert_eq!(v.allocate(5), Some(2));
    assert_eq!(v, vec![1, 1, 1, 1, 0]);
    assert_eq!(v.allocate(5), Some(4));
    assert_eq!(v.allocate(5), None);
    assert_eq!(v, vec![1, 1, 1, 1, 1]);
}

#[test]
fn allocate_respects_bound() {
    let mut v: Vec<u8> = vec![1, 1, 0];
    assert_eq!(v.allocate(2), None);
    assert_eq!(v, vec![1, 1, 0]);
    assert_eq!(v.allocate(0), None);
}

#[test]
fn allocate_twice_gives_distinct_slots() {
    let mut v: Vec<u8> = vec![0; 8];
    let a = v.allocate(8).unwrap();
    let b = v.allocate(8).unwrap();
    assert_ne!(a, b);
    assert!(v.is_used(a) && v.is_used(b));
}

#[test]
fn free_then_allocate_reuses_slot() {
    let mut v: Vec<u8> = vec![1, 1, 1, 1];
    v.free(2);
    assert!(!v.is_used(2));
    assert_eq!(v.allocate(4), Some(2));
}

#[test]
fn free_then_allocate_prefers_lower_free_slot() {
    let mut v: Vec<u8> = vec![1, 0, 1, 1];
    v.free(3);
    assert_eq!(v.allocate(4), Some(1));
    assert_eq!(v, vec![1, 1, 1, 0]);
}

#[test]
fn set_and_is_used() {
    let mut v: Vec<u8> = vec![0; 3];
    v.set(1, true);
    assert_eq!(v, vec![0, 1, 0]);
    assert!(v.is_used(1));
    v.set(1, false);
    assert!(!v.is_used(1));
    v[2] = 7;
    assert!(v.is_used(2));
}

#[test]
fn clear_frees_everything() {
    let mut v: Vec<u8> = vec![1, 5, 0, 9];
    Bitmap::clear(&mut v);
    assert_eq!(v, vec![0, 0, 0, 0]);
}

#[test]
fn block_bitmap_delegates() {
    let mut b = BlockBitmap::new(vec![1, 0, 0]);
    assert_eq!(b.allocate(3), Some(1));
    assert!(b.is_used(1));
    b.free(0);
    assert_eq!(b.as_bytes(), &[0, 1, 0]);
    b.set(2, true);
    assert_eq!(b.as_bytes(), &[0, 1, 1]);
    b.clear();
    assert_eq!(b.as_bytes(), &[0, 0, 0]);
}
