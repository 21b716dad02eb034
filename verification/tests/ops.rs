use sort_util::op::{insert_left, insert_right, log2_ceil, move_slice, rotate, Found};

#[test]
fn log2_ceil_exact_values() {
    assert_eq!(log2_ceil(1), 0);
    assert_eq!(log2_ceil(2), 1);
    assert_eq!(log2_ceil(3), 2);
    assert_eq!(log2_ceil(4), 2);
    assert_eq!(log2_ceil(5), 3);
    assert_eq!(log2_ceil(8), 3);
    assert_eq!(log2_ceil(9), 4);
    assert_eq!(log2_ceil(1024), 10);
    assert_eq!(log2_ceil(1025), 11);
}

#[test]
fn rotate_left_by_offset() {
    let mut v = vec![1, 2, 3, 4, 5];
    rotate(&mut v, 0, 5, 2);
    assert_eq!(v, vec![3, 4, 5, 1, 2]);
}

#[test]
fn rotate_inner_window() {
    let mut v = vec![0, 1, 2, 3, 4, 5, 6];
    rotate(&mut v, 2, 4, 1);
    assert_eq!(v, vec![0, 1, 3, 4, 5, 2, 6]);
}

#[test]
fn rotate_by_zero_and_by_n_are_identity() {
    let mut v = vec![9, 8, 7];
    rotate(&mut v, 0, 3, 0);
    assert_eq!(v, vec![9, 8, 7]);
    rotate(&mut v, 0, 3, 3);
    assert_eq!(v, vec![9, 8, 7]);
}

#[test]
fn rotate_round_trip_restores() {
    for offset in 0..=5usize {
        let mut v = vec![1, 2, 3, 4, 5];
        rotate(&mut v, 0, 5, offset);
        rotate(&mut v, 0, 5, 5 - offset);
        assert_eq!(v, vec![1, 2, 3, 4, 5]);
    }
}

#[test]
fn insert_left_shifts_block_right() {
    let mut v = vec![10, 20, 30, 40, 50];
    insert_left(&mut v, 3, 2);
    assert_eq!(v, vec![10, 40, 20, 30, 50]);
}

#[test]
fn insert_left_by_zero_is_identity() {
    let mut v = vec![10, 20, 30];
    insert_left(&mut v, 1, 0);
    assert_eq!(v, vec![10, 20, 30]);
}

#[test]
fn insert_right_shifts_block_left() {
    let mut v = vec![10, 20, 30, 40, 50];
    insert_right(&mut v, 1, 2);
    assert_eq!(v, vec![10, 30, 40, 20, 50]);
}

#[test]
fn insert_round_trip_restores_order() {
    let mut v = vec![String::from("a"), String::from("b"), String::from("c"), String::from("d")];
    insert_left(&mut v, 3, 2);
    insert_right(&mut v, 1, 2);
    assert_eq!(
        v,
        vec![String::from("a"), String::from("b"), String::from("c"), String::from("d")]
    );
}

#[test]
fn move_slice_copy_mode_moves_source_to_destination() {
    let mut v = vec![1, 2, 3, 0, 0, 0];
    let view = move_slice::<i32, false>(&mut v, 3, 0, 3);
    assert_eq!(view, (3, 3));
    assert_eq!(&v[3..6], &[1, 2, 3]);
}

#[test]
fn move_slice_swap_mode_twice_is_identity() {
    let mut v = vec![1, 2, 3, 7, 8, 9];
    move_slice::<i32, true>(&mut v, 0, 3, 3);
    assert_eq!(v, vec![7, 8, 9, 1, 2, 3]);
    move_slice::<i32, true>(&mut v, 0, 3, 3);
    assert_eq!(v, vec![1, 2, 3, 7, 8, 9]);
}

#[test]
fn write_exchanges_disjoint_ranges() {
    let mut v = vec![1, 2, 9, 9, 5, 6];
    sort_util::op::write::<i32, true>(&mut v, 0, 4, 2);
    assert_eq!(v, vec![5, 6, 9, 9, 1, 2]);
}

#[test]
fn found_add_offsets_index() {
    let f = Found(true, 4).add(3);
    assert_eq!(f.0, true);
    assert_eq!(f.1, 7);
    let g = Found(false, 0).add(0);
    assert_eq!(g, Found(false, 0));
}
