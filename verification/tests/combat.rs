use onlinerpg::attack::{attack_outcome, award_xp, level_up_chain, AttackOutcome};

#[test]
fn miss_leaves_monster_untouched() {
    let r = attack_outcome(30, false, 12, 0, Some(50), 1, 2, 20, 20, 10, 10);
    assert_eq!(r, AttackOutcome { monster_health: 30, monster_dead: false, award: None });
}

#[test]
fn hit_that_does_not_kill_awards_nothing() {
    let r = attack_outcome(30, true, 12, 0, Some(50), 1, 2, 20, 20, 10, 10);
    assert_eq!(r, AttackOutcome { monster_health: 18, monster_dead: false, award: None });
}

#[test]
fn overkill_saturates_at_zero_and_awards_xp() {
    let r = attack_outcome(5, true, 40, 100, Some(25), 1, 1, 20, 7, 10, 10);
    assert_eq!(r.monster_health, 0);
    assert!(r.monster_dead);
    let a = r.award.unwrap();
    assert_eq!(a.new_xp, 125);
    assert!(!a.leveled_up);
    assert_eq!(a.max_hp, 20);
    assert_eq!(a.health, 7);
}

#[test]
fn kill_without_xp_gives_no_award() {
    let r = attack_outcome(5, true, 5, 100, None, 1, 2, 20, 7, 10, 10);
    assert!(r.monster_dead);
    assert_eq!(r.award, None);
}

#[test]
fn level_up_rolls_hp_and_heals() {
    // CON 10 has no modifier; a d10 gains between 5 and 10 per level.
    let a = award_xp(250, 100, 1, 3, 20, 4, 10, 10);
    assert_eq!(a.new_xp, 350);
    assert!(a.leveled_up);
    assert!(a.max_hp >= 30 && a.max_hp <= 40);
    assert_eq!(a.health, a.max_hp);
}

#[test]
fn level_up_with_invalid_con_keeps_max_hp() {
    let a = award_xp(0, 300, 1, 2, 20, 4, 10, 2);
    assert!(a.leveled_up);
    assert_eq!(a.max_hp, 20);
    assert_eq!(a.health, 20);
}

#[test]
fn level_up_chain_uses_each_roll() {
    // Rolls below half the die count as half the die.
    assert_eq!(level_up_chain(20, &vec![2, 9], 10, 10), 34);
    assert_eq!(level_up_chain(20, &vec![], 10, 10), 20);
    assert_eq!(level_up_chain(20, &vec![6], 10, 2), 20);
}
