use sort_util::buffer::{create, from_region, uninit_region, AsSliceMut, AuxiliaryBuffer};

#[test]
fn create_exposes_the_requested_capacity() {
    let b: AuxiliaryBuffer<u32> = create(4);
    assert_eq!(b.capacity(), 4);
}

#[test]
fn write_then_read_round_trips() {
    let mut b: AuxiliaryBuffer<u32> = create(3);
    b.write(0, 11);
    b.write(2, 33);
    assert_eq!(*b.read(0), 11);
    assert_eq!(*b.read(2), 33);
    b.write(0, 12);
    assert_eq!(*b.read(0), 12);
}

#[test]
fn take_moves_the_element_out() {
    let mut b: AuxiliaryBuffer<String> = create(2);
    b.write(1, String::from("kept"));
    let s = b.take(1);
    assert_eq!(s, "kept");
}

#[test]
fn grow_then_shrink_restores_capacity() {
    let mut b: AuxiliaryBuffer<u32> = create(3);
    b.write(1, 7);
    assert!(b.resize(10));
    assert_eq!(b.capacity(), 10);
    assert_eq!(*b.read(1), 7);
    assert!(b.resize(3));
    assert_eq!(b.capacity(), 3);
    assert_eq!(*b.read(1), 7);
}

#[test]
fn owned_buffer_resizes_to_any_capacity() {
    let mut b: AuxiliaryBuffer<u32> = create(0);
    assert!(b.resize(5));
    assert_eq!(b.capacity(), 5);
    assert!(b.resize(0));
    assert_eq!(b.capacity(), 0);
}

#[test]
fn borrowed_region_rejects_growth_beyond_the_region() {
    let mut b = from_region(vec![1, 2, 3]);
    assert_eq!(b.capacity(), 3);
    assert!(!b.resize(4));
    assert_eq!(b.capacity(), 3);
    assert_eq!(*b.read(0), 1);
    assert!(b.resize(2));
    assert_eq!(b.capacity(), 2);
}

#[test]
fn uninit_region_accepts_writes_within_the_region() {
    let mut b: AuxiliaryBuffer<u32> = uninit_region(2);
    assert_eq!(b.capacity(), 2);
    b.write(0, 5);
    assert_eq!(*b.read(0), 5);
    assert!(!b.resize(3));
    assert_eq!(b.capacity(), 2);
}

#[test]
fn from_region_keeps_the_callers_elements() {
    let b = from_region(vec![9, 8, 7]);
    assert_eq!(*b.read(0), 9);
    assert_eq!(*b.read(1), 8);
    assert_eq!(*b.read(2), 7);
}

#[test]
fn a_vector_acts_as_its_own_buffer() {
    let b = vec![4, 5].as_slice_mut();
    assert_eq!(b.capacity(), 2);
    assert_eq!(*b.read(0), 4);
    assert_eq!(*b.read(1), 5);
}
