use onlinerpg::visibility::visibility_diff;

#[test]
fn move_splits_viewers_into_left_entered_and_stayed() {
    let d = visibility_diff(1, &vec![1, 2, 3, 4], &vec![1, 3, 5, 4, 6]);
    assert_eq!(d.left, vec![2]);
    assert_eq!(d.entered, vec![5, 6]);
    assert_eq!(d.stayed, vec![3, 4]);
}

#[test]
fn floor_change_makes_everyone_leave_and_enter() {
    let d = visibility_diff(9, &vec![2, 3], &vec![7]);
    assert_eq!(d.left, vec![2, 3]);
    assert_eq!(d.entered, vec![7]);
    assert!(d.stayed.is_empty());
}

#[test]
fn repeated_ids_are_reported_once() {
    let d = visibility_diff(9, &vec![2, 2], &vec![4, 4, 9]);
    assert_eq!(d.left, vec![2]);
    assert_eq!(d.entered, vec![4]);
}
