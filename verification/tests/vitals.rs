use onlinerpg::vitals::{apply_death_penalty_hp, regen_amount, regenerated_health, vitals_after_penalty};

#[test]
fn regen_amount_grows_with_level_and_con() {
    assert_eq!(regen_amount(1, 10), 1);
    assert_eq!(regen_amount(5, 10), 2);
    assert_eq!(regen_amount(12, 14), 5);
    assert_eq!(regen_amount(1, 3), 1);
}

#[test]
fn regeneration_only_out_of_combat_and_capped() {
    assert_eq!(regenerated_health(5, 20, 1, 10, 20_000, 0), Some(6));
    assert_eq!(regenerated_health(19, 20, 20, 18, 20_000, 0), Some(20));
    assert_eq!(regenerated_health(5, 20, 1, 10, 15_000, 10_000), None);
    assert_eq!(regenerated_health(0, 20, 1, 10, 20_000, 0), None);
    assert_eq!(regenerated_health(20, 20, 1, 10, 20_000, 0), None);
    assert_eq!(regenerated_health(5, 20, 1, 10, 0, 10_000), None);
}

#[test]
fn level_loss_keeps_the_level_one_floor() {
    assert_eq!(vitals_after_penalty(30, 40, true, 14, Some(8)), (30, 32));
    assert_eq!(vitals_after_penalty(30, 20, true, 14, Some(8)), (14, 14));
    assert_eq!(vitals_after_penalty(30, 40, true, 0, Some(45)), (1, 1));
    assert_eq!(vitals_after_penalty(30, 40, true, 14, None), (30, 40));
    assert_eq!(vitals_after_penalty(50, 40, false, 14, Some(8)), (40, 40));
}

#[test]
fn death_penalty_hp_within_roll_bounds() {
    for _ in 0..100 {
        let (h, m) = apply_death_penalty_hp(40, 40, true, 10, 10);
        assert!((30..=35).contains(&m), "{m}");
        assert_eq!(h, m);
    }
    assert_eq!(apply_death_penalty_hp(10, 40, false, 10, 10), (10, 40));
    assert_eq!(apply_death_penalty_hp(10, 40, true, 10, 25), (10, 40));
}
