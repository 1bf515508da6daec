use onlinerpg::movement::{enqueue_leg, monster_move_allowed, MAX_QUEUED_WAYPOINTS};

#[test]
fn fresh_move_replaces_the_queue() {
    let mut q = vec![1, 2, 3];
    assert!(enqueue_leg(&mut q, 9, false, true));
    assert_eq!(q, vec![9]);
}

#[test]
fn appended_legs_drop_the_oldest_when_full() {
    let mut q: Vec<usize> = (0..MAX_QUEUED_WAYPOINTS).collect();
    assert!(enqueue_leg(&mut q, 100, true, true));
    assert_eq!(q.len(), MAX_QUEUED_WAYPOINTS);
    assert_eq!(q[0], 1);
    assert_eq!(q[MAX_QUEUED_WAYPOINTS - 1], 100);
    let mut short = vec![1];
    assert!(enqueue_leg(&mut short, 2, true, true));
    assert_eq!(short, vec![1, 2]);
}

#[test]
fn too_long_leg_changes_nothing() {
    let mut q = vec![1, 2];
    assert!(!enqueue_leg(&mut q, 3, false, false));
    assert_eq!(q, vec![1, 2]);
}

#[test]
fn only_the_owner_moves_a_living_monster() {
    assert!(monster_move_allowed(7, Some(7), false, true));
    assert!(!monster_move_allowed(8, Some(7), false, true));
    assert!(!monster_move_allowed(7, None, false, true));
    assert!(!monster_move_allowed(7, Some(7), true, true));
    assert!(!monster_move_allowed(7, Some(7), false, false));
}
