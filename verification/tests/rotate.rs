use napi_examples::{rotate_array, rotate_right, rotate_shared_buffer};

#[test]
fn rotate_array_moves_last_to_front() {
    let mut values: Vec<i64> = vec![1, 2, 3, 4];
    rotate_array(&mut values);
    assert_eq!(values, vec![4, 1, 2, 3]);
}

#[test]
fn rotate_array_single_element() {
    let mut values: Vec<i64> = vec![-7];
    rotate_array(&mut values);
    assert_eq!(values, vec![-7]);
}

#[test]
fn rotate_array_extreme_values() {
    let mut values: Vec<i64> = vec![i64::MIN, 0, i64::MAX];
    rotate_array(&mut values);
    assert_eq!(values, vec![i64::MAX, i64::MIN, 0]);
}

#[test]
fn rotate_array_length_times_is_identity() {
    let original: Vec<i64> = vec![5, 6, 7, 8, 9];
    let mut values = original.clone();
    for _ in 0..original.len() {
        rotate_array(&mut values);
    }
    assert_eq!(values, original);
}

#[test]
fn rotate_shared_buffer_moves_last_byte_to_front() {
    let mut buffer: Vec<u8> = vec![10, 20, 30];
    rotate_shared_buffer(&mut buffer);
    assert_eq!(buffer, vec![30, 10, 20]);
}

#[test]
fn rotate_shared_buffer_in_place() {
    let mut buffer: Vec<u8> = Vec::with_capacity(3);
    buffer.extend_from_slice(&[1, 2, 3]);
    let ptr = buffer.as_ptr();
    rotate_shared_buffer(&mut buffer);
    assert_eq!(buffer.as_ptr(), ptr);
    assert_eq!(buffer, vec![3, 1, 2]);
}

#[test]
fn rotate_right_by_zero_and_by_length() {
    let mut a: Vec<u8> = vec![1, 2, 3];
    rotate_right(&mut a, 0);
    assert_eq!(a, vec![1, 2, 3]);
    rotate_right(&mut a, 3);
    assert_eq!(a, vec![1, 2, 3]);
}

#[test]
fn rotate_right_by_two() {
    let mut a: Vec<i64> = vec![1, 2, 3, 4, 5];
    rotate_right(&mut a, 2);
    assert_eq!(a, vec![4, 5, 1, 2, 3]);
}

#[test]
fn rotate_right_composes_modulo_length() {
    let mut a: Vec<i64> = vec![1, 2, 3, 4, 5];
    rotate_right(&mut a, 4);
    rotate_right(&mut a, 3);
    let mut b: Vec<i64> = vec![1, 2, 3, 4, 5];
    rotate_right(&mut b, (4 + 3) % 5);
    assert_eq!(a, b);
    assert_eq!(a, vec![4, 5, 1, 2, 3]);
}

#[test]
fn rotate_right_undone_by_complement() {
    let original: Vec<u8> = vec![9, 8, 7, 6];
    let mut a = original.clone();
    rotate_right(&mut a, 1);
    rotate_right(&mut a, 3);
    assert_eq!(a, original);
}

#[test]
fn rotate_right_of_empty_by_zero() {
    let mut a: Vec<i64> = Vec::new();
    rotate_right(&mut a, 0);
    assert!(a.is_empty());
}

#[test]
fn rotate_keeps_every_element() {
    let mut a: Vec<u8> = vec![3, 1, 3, 2, 2, 3];
    rotate_right(&mut a, 4);
    let mut sorted = a.clone();
    sorted.sort();
    assert_eq!(sorted, vec![1, 2, 2, 3, 3, 3]);
}
