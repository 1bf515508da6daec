use onlinerpg::interaction::Occupancy;

#[test]
fn an_object_has_one_user_at_a_time() {
    let mut o = Occupancy::new();
    assert!(o.set_interaction(1, Some(7)));
    assert_eq!(o.object_of(1), Some(7));
    assert!(!o.set_interaction(2, Some(7)));
    assert_eq!(o.object_of(2), None);
    assert!(o.is_held_by_other(2, 7));
    assert!(!o.is_held_by_other(1, 7));
    assert!(o.set_interaction(1, Some(7)));
    assert!(o.set_interaction(1, Some(8)));
    assert!(o.set_interaction(2, Some(7)));
    assert_eq!(o.object_of(2), Some(7));
    assert!(o.set_interaction(1, None));
    assert_eq!(o.object_of(1), None);
    o.release(2);
    assert_eq!(o.object_of(2), None);
    assert!(o.set_interaction(3, Some(7)));
}
