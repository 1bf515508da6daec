//! Health over time: regeneration while out of combat, and what a death
//! that costs a level does to maximum HP.
use vstd::prelude::*;

use crate::character_hp::{
    con_modifier, con_modifier_spec, half_toward_zero, level_hp_delta_spec, level_one_max_hp, level_one_max_hp_spec,
    roll_level_hp_delta, str_to_lowercase, con_in_range, DEFAULT_CHARACTER_RACE,
};
use crate::chat::{in_combat, in_combat_spec};
use crate::text::trim_spec;

verus! {

/// `v / 5` rounded toward zero.
pub open spec fn fifth_toward_zero(v: int) -> int {
    if v >= 0 { v / 5 } else { -((-v) / 5) }
}

/// HP regained per tick: 1 + level / 5 + CON modifier, at least 1. The
/// level is read as an `i32`.
pub open spec fn regen_amount_spec(level: u32, con: u8) -> int {
    let a = 1 + fifth_toward_zero((level as i32) as int) + con_modifier_spec(con as int);
    if a < 1 { 1 } else { a }
}

/// HP regained per regeneration tick.
pub fn regen_amount(level: u32, con: u8) -> (r: u32)
    ensures
        r as int == regen_amount_spec(level, con),
        r >= 1,
{
    let lv: i32 = level as i32;
    let a: i32 = 1 + lv / 5 + con_modifier(con) as i32;
    if a < 1 { 1 } else { a as u32 }
}

/// Health after one regeneration tick, if it changes.
pub open spec fn regenerated_spec(health: u32, max_health: u32, level: u32, con: u8, now_ms: u64, last_combat_at: u64) -> Option<u32> {
    if health > 0 && health < max_health && !in_combat_spec(now_ms, last_combat_at) {
        let h = health + regen_amount_spec(level, con);
        Some(if h < max_health { h as u32 } else { max_health })
    } else {
        None
    }
}

/// One regeneration tick: a living, wounded player who has not been hit
/// for `OUT_OF_COMBAT_MS` regains `regen_amount` HP, up to the maximum.
/// `None` when nothing changes.
pub fn regenerated_health(health: u32, max_health: u32, level: u32, con: u8, now_ms: u64, last_combat_at: u64) -> (r: Option<u32>)
    requires
        health + regen_amount_spec(level, con) <= u32::MAX,
    ensures
        r == regenerated_spec(health, max_health, level, con, now_ms, last_combat_at),
{
    if health > 0 && health < max_health && !in_combat(now_ms, last_combat_at) {
        let amount = regen_amount(level, con);
        let h = health + amount;
        Some(if h < max_health { h } else { max_health })
    } else {
        None
    }
}

/// Regeneration heals by at least one point and never past the maximum.
pub proof fn lemma_regeneration_bounded(health: u32, max_health: u32, level: u32, con: u8, now_ms: u64, last_combat_at: u64)
    ensures
        match regenerated_spec(health, max_health, level, con, now_ms, last_combat_at) {
            Some(h) => health < h <= max_health,
            None => true,
        },
{
}

/// Maximum HP after losing a level: the old maximum minus the HP loss,
/// but not below the level-1 maximum, and within `1..=u32::MAX`.
pub open spec fn level_loss_max_hp_spec(max_health: u32, hp_loss: i32, level_one_floor: u32) -> int {
    let candidate = max_health - hp_loss;
    let floored = if candidate < level_one_floor { level_one_floor as int } else { candidate };
    if floored < 1 { 1 } else if floored > u32::MAX { u32::MAX as int } else { floored }
}

/// Health and maximum HP after a death penalty. When the penalty cost a
/// level, the maximum drops by `hp_loss` (if it could be rolled) with the
/// level-1 maximum as a floor; health is capped at the maximum.
pub open spec fn vitals_after_penalty_spec(health: u32, max_health: u32, leveled_down: bool, level_one_floor: u32, hp_loss: Option<i32>) -> (u32, u32) {
    let m: u32 = if leveled_down {
        match hp_loss {
            Some(loss) => level_loss_max_hp_spec(max_health, loss, level_one_floor) as u32,
            None => max_health,
        }
    } else {
        max_health
    };
    (if health > m { m } else { health }, m)
}

/// Health and maximum HP after a death penalty, given the level-1 floor
/// and the rolled HP loss (`None` when the roll failed).
pub fn vitals_after_penalty(health: u32, max_health: u32, leveled_down: bool, level_one_floor: u32, hp_loss: Option<i32>) -> (r: (u32, u32))
    ensures
        r == vitals_after_penalty_spec(health, max_health, leveled_down, level_one_floor, hp_loss),
{
    let mut m = max_health;
    if leveled_down {
        if let Some(loss) = hp_loss {
            let candidate: i64 = max_health as i64 - loss as i64;
            let floored: i64 = if candidate < level_one_floor as i64 { level_one_floor as i64 } else { candidate };
            let bounded: i64 = if floored < 1 { 1 } else if floored > u32::MAX as i64 { u32::MAX as i64 } else { floored };
            m = bounded as u32;
        }
    }
    let h = if health > m { m } else { health };
    (h, m)
}

/// The level-1 maximum HP that a lost level cannot go below, for a
/// character of the default race (1 when it cannot be computed).
pub open spec fn penalty_floor_spec(class_hit_die: u8, con: u8) -> u32 {
    match level_one_max_hp_spec(str_to_lowercase(trim_spec(DEFAULT_CHARACTER_RACE@)), class_hit_die, con) {
        Ok(v) => v,
        Err(_) => 1,
    }
}

/// The HP side of a death penalty for a character of the default race:
/// the loss is rolled like a level-up's gain.
pub fn apply_death_penalty_hp(health: u32, max_health: u32, leveled_down: bool, class_hit_die: u8, con: u8) -> (r: (u32, u32))
    requires
        class_hit_die >= 1,
    ensures
        !leveled_down ==> r == vitals_after_penalty_spec(health, max_health, false, 1, None),
        leveled_down && !con_in_range(con) ==> r == vitals_after_penalty_spec(health, max_health, true, 1, None),
        leveled_down && con_in_range(con) ==> exists|roll: u8|
            1 <= roll <= class_hit_die
            && r == vitals_after_penalty_spec(health, max_health, true, penalty_floor_spec(class_hit_die, con),
                Some(#[trigger] level_hp_delta_spec(class_hit_die, con, roll) as i32)),
        r.0 <= r.1,
{
    if !leveled_down {
        return vitals_after_penalty(health, max_health, false, 1, None);
    }
    let floor: u32 = match level_one_max_hp(DEFAULT_CHARACTER_RACE, class_hit_die, con) {
        Ok(v) => v,
        Err(_) => 1,
    };
    let loss: Option<i32> = match roll_level_hp_delta(class_hit_die, con) {
        Ok(d) => Some(d),
        Err(_) => None,
    };
    proof {
        assert(floor == penalty_floor_spec(class_hit_die, con));
        if !con_in_range(con) {
            assert(floor == 1);
        }
    }
    vitals_after_penalty(health, max_health, true, floor, loss)
}

/// After a death penalty health never exceeds the maximum, and a maximum
/// that changed is at least 1.
pub proof fn lemma_penalty_vitals_consistent(health: u32, max_health: u32, leveled_down: bool, level_one_floor: u32, hp_loss: Option<i32>)
    ensures
        ({
            let (h, m) = vitals_after_penalty_spec(health, max_health, leveled_down, level_one_floor, hp_loss);
            &&& h <= m
            &&& h <= health
            &&& (m != max_health ==> m >= 1)
            &&& (m != max_health ==> m >= level_one_floor || level_one_floor == 0)
        }),
{
}

/// The CON modifier counts with its sign: for a fixed level, a lower CON
/// never regains more than a higher one, and strictly less whenever the
/// two modifiers differ and the higher CON regains more than the minimum
/// of one.
pub proof fn lemma_regen_follows_con(level: u32, con_lo: u8, con_hi: u8)
    requires
        con_lo <= con_hi,
    ensures
        regen_amount_spec(level, con_lo) <= regen_amount_spec(level, con_hi),
        con_modifier_spec(con_lo as int) != con_modifier_spec(con_hi as int) && regen_amount_spec(level, con_hi) > 1
            ==> regen_amount_spec(level, con_lo) < regen_amount_spec(level, con_hi),
{
    let lo = con_lo as int - 10;
    let hi = con_hi as int - 10;
    assert(half_toward_zero(lo) <= half_toward_zero(hi)) by {
        if lo >= 0 {
            assert(lo / 2 <= hi / 2) by (nonlinear_arith) requires 0 <= lo <= hi;
        } else if hi >= 0 {
        } else {
            assert((-hi) / 2 <= (-lo) / 2) by (nonlinear_arith) requires 0 < -hi <= -lo;
        }
    }
}

/// Regeneration at CON 10 (no modifier) is 1 + level / 5, and every other
/// CON shifts it by its modifier, never below 1.
pub proof fn lemma_regen_shifted_by_modifier(level: u32, con: u8)
    requires
        level <= i32::MAX,
    ensures
        regen_amount_spec(level, con) == (if regen_amount_spec(level, 10) + con_modifier_spec(con as int) < 1 { 1 }
            else { regen_amount_spec(level, 10) + con_modifier_spec(con as int) }),
{
    assert(con_modifier_spec(10) == 0);
    assert((level as i32) as int == level as int);
}

/// Every five levels add one point of regeneration (once above the minimum
/// of one), levels in between add nothing, and more levels never regain
/// less.
pub proof fn lemma_regen_follows_level(level: u32, con: u8)
    requires
        level <= i32::MAX - 5,
    ensures
        regen_amount_spec(level, con) <= regen_amount_spec((level + 1) as u32, con) <= regen_amount_spec(level, con) + 1,
        regen_amount_spec(level, con) > 1 ==> regen_amount_spec((level + 5) as u32, con) == regen_amount_spec(level, con) + 1,
        level % 5 != 4 ==> regen_amount_spec((level + 1) as u32, con) == regen_amount_spec(level, con),
{
    assert(((level + 1) as u32 as i32) as int == level + 1);
    assert(((level + 5) as u32 as i32) as int == level + 5);
    assert((level as i32) as int == level as int);
    assert((level as int + 5) / 5 == level as int / 5 + 1);
    assert(level as int / 5 <= (level as int + 1) / 5 <= level as int / 5 + 1);
    if level % 5 != 4 {
        assert((level as int + 1) / 5 == level as int / 5);
    }
}

/// A lost level takes exactly the rolled loss off the maximum HP when that
/// stays at or above the level-1 maximum (and at least 1); without a lost
/// level, or without a roll, the maximum is kept; health is capped at the
/// new maximum and otherwise kept.
pub proof fn lemma_level_loss_exact(health: u32, max_health: u32, level_one_floor: u32, loss: i32)
    ensures
        ({
            let (h, m) = vitals_after_penalty_spec(health, max_health, true, level_one_floor, Some(loss));
            (max_health - loss >= level_one_floor && max_health - loss >= 1 && max_health - loss <= u32::MAX)
                ==> m == max_health - loss && h == (if health > m { m } else { health })
        }),
        vitals_after_penalty_spec(health, max_health, false, level_one_floor, Some(loss)).1 == max_health,
        vitals_after_penalty_spec(health, max_health, true, level_one_floor, None).1 == max_health,
        health <= max_health ==> vitals_after_penalty_spec(health, max_health, false, level_one_floor, Some(loss)).0 == health,
{
}

/// A regeneration tick adds exactly the regeneration amount, capped at the
/// maximum.
pub proof fn lemma_regeneration_adds_amount(health: u32, max_health: u32, level: u32, con: u8, now_ms: u64, last_combat_at: u64)
    ensures
        regenerated_spec(health, max_health, level, con, now_ms, last_combat_at) matches Some(h) ==>
            h == (if health + regen_amount_spec(level, con) < max_health { health + regen_amount_spec(level, con) } else { max_health as int }),
{
}

} // verus!
