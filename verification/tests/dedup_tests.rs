use shoplib::dedup::unique;

#[test]
fn empty_list_returns_empty_list() {
    assert_eq!(Vec::<i32>::new(), unique(vec![]));
}

#[test]
fn removes_duplicates_and_sorts_descending() {
    assert_eq!(vec![3, 2, 1], unique(vec![3, 1, 3, 2, 1]));
}

#[test]
fn single_element() {
    assert_eq!(vec![5], unique(vec![5, 5, 5]));
}
