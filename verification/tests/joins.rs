use roster_diff::join::{anti_join_rows, find_match, inner_join_rows};

#[test]
fn inner_join_pairs_rows_with_equal_keys() {
    let left = vec![Some(1), Some(2), Some(3)];
    let right = vec![Some(3), Some(1), Some(4)];
    assert_eq!(inner_join_rows(&left, &right), vec![(0, 1), (2, 0)]);
}

#[test]
fn inner_join_multiplies_duplicate_keys() {
    let left = vec![Some(7), Some(7)];
    let right = vec![Some(7), Some(8), Some(7), Some(7)];
    assert_eq!(
        inner_join_rows(&left, &right),
        vec![(0, 0), (0, 2), (0, 3), (1, 0), (1, 2), (1, 3)]
    );
}

#[test]
fn missing_keys_match_nothing() {
    let left = vec![None, Some(1)];
    let right = vec![None, Some(1), None];
    assert_eq!(inner_join_rows(&left, &right), vec![(1, 1)]);
    assert_eq!(anti_join_rows(&left, &right), vec![0]);
    assert_eq!(anti_join_rows(&right, &left), vec![0, 2]);
    assert!(!find_match(&left, &right, 0));
    assert!(find_match(&left, &right, 1));
    assert!(!find_match(&left, &right, 2));
}

#[test]
fn anti_join_keeps_rows_without_partner_in_both_directions() {
    let left = vec![Some(1001), Some(1002), Some(1003)];
    let right = vec![Some(1002), Some(2000)];
    assert_eq!(anti_join_rows(&left, &right), vec![0, 2]);
    assert_eq!(anti_join_rows(&right, &left), vec![1]);
    assert_eq!(left, vec![Some(1001), Some(1002), Some(1003)]);
    assert_eq!(right, vec![Some(1002), Some(2000)]);
}

#[test]
fn joins_of_empty_tables_are_empty() {
    let none: Vec<Option<i64>> = Vec::new();
    let some = vec![Some(1)];
    assert_eq!(inner_join_rows(&none, &some), Vec::new());
    assert_eq!(inner_join_rows(&some, &none), Vec::new());
    assert_eq!(anti_join_rows(&none, &some), Vec::<usize>::new());
    assert_eq!(anti_join_rows(&some, &none), vec![0]);
}

#[test]
fn disjoint_keys_join_to_nothing_and_lack_everything() {
    let left = vec![Some(1), Some(2)];
    let right = vec![Some(3), Some(4), Some(5)];
    assert_eq!(inner_join_rows(&left, &right), Vec::new());
    assert_eq!(anti_join_rows(&left, &right), vec![0, 1]);
    assert_eq!(anti_join_rows(&right, &left), vec![0, 1, 2]);
}
