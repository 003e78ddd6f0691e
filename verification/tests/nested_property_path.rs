use wows_replays::nested_property_path::slice_insert;

#[test]
fn slice_insert_single_into_empty() {
    let mut v: Vec<u32> = vec![];
    slice_insert(0, 0, &mut v, vec![5]);
    assert_eq!(v, vec![5]);
}

#[test]
fn multi_into_empty() {
    let mut v: Vec<u32> = vec![];
    slice_insert(2, 5, &mut v, vec![5, 6, 7, 8]);
    assert_eq!(v, vec![5, 6, 7, 8]);
}

#[test]
fn replace_mid_single() {
    let mut v: Vec<u32> = vec![1, 2, 3, 4, 5];
    slice_insert(2, 3, &mut v, vec![6]);
    assert_eq!(v, vec![1, 2, 6, 4, 5]);
}

#[test]
fn insert_mid() {
    let mut v: Vec<u32> = vec![1, 2, 3, 4, 5];
    slice_insert(2, 2, &mut v, vec![6]);
    assert_eq!(v, vec![1, 2, 6, 3, 4, 5]);
}

#[test]
fn insert_mid_partial_replace() {
    let mut v: Vec<u32> = vec![1, 2, 3, 4, 5];
    slice_insert(2, 4, &mut v, vec![6, 7, 8]);
    assert_eq!(v, vec![1, 2, 6, 7, 8, 5]);
}

#[test]
fn shrink_mid_with_replace() {
    let mut v: Vec<u32> = vec![1, 2, 3, 4, 5];
    slice_insert(2, 4, &mut v, vec![6]);
    assert_eq!(v, vec![1, 2, 6, 5]);
}

#[test]
fn append() {
    let mut v: Vec<u32> = vec![1, 2, 3, 4, 5];
    slice_insert(5, 12, &mut v, vec![6, 7, 8]);
    assert_eq!(v, vec![1, 2, 3, 4, 5, 6, 7, 8]);
}

#[test]
fn slice_insert_start_after_end_inserts_at_start() {
    let mut v: Vec<u32> = vec![1, 2, 3, 4, 5];
    slice_insert(3, 1, &mut v, vec![9]);
    assert_eq!(v, vec![1, 2, 3, 9, 4, 5]);
}

#[test]
fn slice_insert_empty_source_deletes() {
    let mut v: Vec<u32> = vec![1, 2, 3, 4, 5];
    slice_insert(1, 4, &mut v, vec![]);
    assert_eq!(v, vec![1, 5]);
}
