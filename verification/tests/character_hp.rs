use onlinerpg::auth::CharacterAttributes;
use onlinerpg::character_hp::{
    con_modifier, default_character_max_hp, level_hp_delta, level_one_max_hp,
    level_one_max_hp_normalized, level_up_max_hp, level_up_max_hp_with_delta,
    roll_level_hp_delta, CharacterHpTableError, FALLBACK_DEFAULT_MAX_HP,
};

const KNIGHT_HIT_DIE: u8 = 10;

#[test]
fn human_knight_level_one_max_hp_includes_con_mod() {
    let max_hp = level_one_max_hp("human", KNIGHT_HIT_DIE, 14).unwrap();
    assert_eq!(max_hp, 14);
}

#[test]
fn lookup_is_case_insensitive_and_trimmed() {
    let max_hp = level_one_max_hp(" Human ", KNIGHT_HIT_DIE, 14).unwrap();
    assert_eq!(max_hp, 14);
}

#[test]
fn con_modifier_rounds_toward_zero() {
    assert_eq!(con_modifier(10), 0);
    assert_eq!(con_modifier(11), 0);
    assert_eq!(con_modifier(14), 2);
    assert_eq!(con_modifier(9), 0);
    assert_eq!(con_modifier(3), -3);
    assert_eq!(con_modifier(18), 4);
}

#[test]
fn race_bonuses() {
    assert_eq!(level_one_max_hp_normalized("dwarf", 10, 10), Ok(14));
    assert_eq!(level_one_max_hp_normalized("elf", 10, 10), Ok(11));
    assert_eq!(level_one_max_hp_normalized("gnome", 10, 10), Ok(11));
    assert_eq!(level_one_max_hp_normalized("orc", 10, 10), Ok(11));
    assert_eq!(level_one_max_hp("DWARF", 6, 12), Ok(11));
}

#[test]
fn level_one_errors() {
    assert_eq!(level_one_max_hp("", 10, 10), Err(CharacterHpTableError::InvalidInput));
    assert_eq!(level_one_max_hp("   ", 10, 10), Err(CharacterHpTableError::InvalidInput));
    assert_eq!(level_one_max_hp("human", 10, 2), Err(CharacterHpTableError::InvalidCon(2)));
    assert_eq!(level_one_max_hp("human", 10, 19), Err(CharacterHpTableError::InvalidCon(19)));
    assert_eq!(
        level_one_max_hp(" Troll ", 10, 10),
        Err(CharacterHpTableError::UnknownRace("troll".to_string()))
    );
    assert_eq!(level_one_max_hp("human", 0, 3), Err(CharacterHpTableError::OutOfRange));
}

#[test]
fn level_hp_delta_takes_at_least_half_the_die() {
    assert_eq!(level_hp_delta(10, 10, 1), Ok(5));
    assert_eq!(level_hp_delta(10, 10, 7), Ok(7));
    assert_eq!(level_hp_delta(10, 14, 10), Ok(12));
    assert_eq!(level_hp_delta(10, 20, 5), Err(CharacterHpTableError::InvalidCon(20)));
}

#[test]
fn rolled_delta_stays_within_die_bounds() {
    for _ in 0..200 {
        let d = roll_level_hp_delta(8, 12).unwrap();
        assert!((4 + 1..=8 + 1).contains(&d), "{d}");
    }
    assert_eq!(roll_level_hp_delta(8, 2), Err(CharacterHpTableError::InvalidCon(2)));
}

#[test]
fn level_up_adds_the_delta() {
    assert_eq!(level_up_max_hp_with_delta(20, 7), Ok(27));
    assert_eq!(level_up_max_hp_with_delta(3, -3), Err(CharacterHpTableError::OutOfRange));
    assert_eq!(level_up_max_hp_with_delta(u32::MAX, 1), Err(CharacterHpTableError::OutOfRange));
    for _ in 0..100 {
        let hp = level_up_max_hp(20, 10, 10).unwrap();
        assert!((25..=30).contains(&hp), "{hp}");
    }
}

fn attrs(con: u8) -> CharacterAttributes {
    CharacterAttributes { str: 10, dex: 10, con, int: 10, wis: 10, cha: 10, guard: 0 }
}

#[test]
fn default_character_max_hp_falls_back() {
    assert_eq!(default_character_max_hp(&attrs(14), KNIGHT_HIT_DIE), 14);
    assert_eq!(default_character_max_hp(&attrs(30), KNIGHT_HIT_DIE), FALLBACK_DEFAULT_MAX_HP);
}
