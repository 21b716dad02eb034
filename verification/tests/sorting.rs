use std::cell::Cell;
use std::cmp::Ordering;

use sort_util::buffer::{create, from_region};
use sort_util::kernel::CopyKernel;
use sort_util::template::{
    sort, sort_by, sort_max, sort_max_by, sort_min, sort_min_by, sort_with, sort_with_by,
};
use sort_util::{Raw, RawMut, GenerateSlice, Sorted};

#[test]
fn sort_orders_the_input() {
    let mut v = vec![5, 3, 4, 1, 2];
    sort::<i32, CopyKernel>(&mut v);
    assert_eq!(v, vec![1, 2, 3, 4, 5]);
}

#[test]
fn sort_min_orders_the_input() {
    let mut v = vec![5, 3, 4, 1, 2];
    let r = sort_min::<i32, CopyKernel>(&mut v);
    assert_eq!(r, Sorted::Done);
    assert_eq!(v, vec![1, 2, 3, 4, 5]);
}

#[test]
fn sort_max_orders_the_input() {
    let mut v = vec![5, 3, 4, 1, 2];
    let r = sort_max::<i32, CopyKernel>(&mut v);
    assert_eq!(r, Sorted::Done);
    assert_eq!(v, vec![1, 2, 3, 4, 5]);
}

#[test]
fn sort_on_empty_input_never_invokes_the_comparator() {
    let calls = Cell::new(0usize);
    let mut v: Vec<i32> = Vec::new();
    sort_by::<i32, CopyKernel, _>(&mut v, |x: &i32, y: &i32| {
        calls.set(calls.get() + 1);
        x.cmp(y)
    });
    assert_eq!(v, Vec::<i32>::new());
    assert_eq!(calls.get(), 0);
}

#[test]
fn sort_by_honours_a_custom_order() {
    let mut v = vec![5, 3, 4, 1, 2];
    sort_by::<i32, CopyKernel, _>(&mut v, |x: &i32, y: &i32| y.cmp(x));
    assert_eq!(v, vec![5, 4, 3, 2, 1]);
}

#[test]
fn equal_keys_end_up_adjacent() {
    // Keys compare by the first component only; the payload tells the
    // elements apart. Comparatively equal elements come out adjacent.
    let mut v = vec![(2, 'a'), (1, 'b'), (2, 'c'), (1, 'd')];
    sort_by::<(i32, char), CopyKernel, _>(&mut v, |x: &(i32, char), y: &(i32, char)| {
        x.0.cmp(&y.0)
    });
    assert_eq!(v.iter().map(|p| p.0).collect::<Vec<i32>>(), vec![1, 1, 2, 2]);
    let mut payloads: Vec<char> = v.iter().map(|p| p.1).collect();
    payloads.sort();
    assert_eq!(payloads, vec!['a', 'b', 'c', 'd']);
}

#[test]
fn sort_with_uses_the_callers_buffer() {
    let mut v = vec![9, 7, 8];
    let r = sort_with::<i32, CopyKernel, _>(&mut v, create(3));
    assert_eq!(r, Sorted::Done);
    assert_eq!(v, vec![7, 8, 9]);
}

#[test]
fn sort_with_a_borrowed_region_buffer() {
    let mut v = vec![3, 1, 2];
    let r = sort_with::<i32, CopyKernel, _>(&mut v, from_region(vec![0, 0, 0]));
    assert_eq!(r, Sorted::Done);
    assert_eq!(v, vec![1, 2, 3]);
}

#[test]
fn insufficient_buffer_fails_and_leaves_the_input_unchanged() {
    let mut v = vec![3, 1, 2];
    let r = sort_with::<i32, CopyKernel, _>(&mut v, create(2));
    assert_eq!(r, Sorted::Fail);
    assert_eq!(v, vec![3, 1, 2]);

    let mut w = vec![6, 5];
    let r = sort_with_by::<i32, CopyKernel, _, _>(&mut w, create(0), |x: &i32, y: &i32| x.cmp(y));
    assert_eq!(r, Sorted::Fail);
    assert_eq!(w, vec![6, 5]);
}

#[test]
fn sort_min_by_and_sort_max_by_honour_the_comparator() {
    let mut v = vec![2, 9, 4];
    let r = sort_min_by::<i32, CopyKernel, _>(&mut v, |x: &i32, y: &i32| x.cmp(y));
    assert_eq!(r, Sorted::Done);
    assert_eq!(v, vec![2, 4, 9]);

    let mut w = vec![2, 9, 4];
    let r = sort_max_by::<i32, CopyKernel, _>(&mut w, |x: &i32, y: &i32| match x.cmp(y) {
        Ordering::Less => Ordering::Greater,
        Ordering::Equal => Ordering::Equal,
        Ordering::Greater => Ordering::Less,
    });
    assert_eq!(r, Sorted::Done);
    assert_eq!(w, vec![9, 4, 2]);
}

#[test]
fn sort_with_by_on_strings() {
    let mut v = vec![
        String::from("pear"),
        String::from("apple"),
        String::from("quince"),
    ];
    let r = sort_with_by::<String, CopyKernel, _, _>(&mut v, create(3), |x: &String, y: &String| {
        x.cmp(y)
    });
    assert_eq!(r, Sorted::Done);
    assert_eq!(
        v,
        vec![
            String::from("apple"),
            String::from("pear"),
            String::from("quince"),
        ]
    );
}

#[test]
fn decomposition_sugar_yields_view_components() {
    let v = vec![1, 2, 3];
    let (start, len) = (&v).raw();
    assert_eq!((start, len), (0, 3));
    let mut w = vec![4, 5];
    let (start, len) = (&mut w).raw_mut();
    assert_eq!((start, len), (0, 2));
}

#[test]
fn view_construction_sugar() {
    let view = 2usize.crop(1..4);
    assert_eq!(view, (3, 3));
    let view = 2usize.to(7);
    assert_eq!(view, (2, 5));
}

#[test]
fn sort_single_element_and_duplicates() {
    let mut v = vec![42];
    sort::<i32, CopyKernel>(&mut v);
    assert_eq!(v, vec![42]);

    let mut w = vec![2, 1, 2, 1, 1];
    sort::<i32, CopyKernel>(&mut w);
    assert_eq!(w, vec![1, 1, 1, 2, 2]);
}
