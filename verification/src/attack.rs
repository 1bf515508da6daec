//! A player's attack on a monster, after the dice: the damage a landed
//! blow does, the monster's death, and the experience the killer gains,
//! with the maximum HP rolled for every level gained and a full heal on
//! level-up. Dice, weapon drops and positions are decided by the caller.
use vstd::prelude::*;

use crate::character_hp::{con_in_range, level_hp_delta_spec, level_up_max_hp_with_delta, level_hp_delta};

verus! {

/// Monster health after an attack: a landed blow removes `damage`, not
/// below 0; a miss removes nothing.
pub open spec fn monster_health_after(health: u32, hit: bool, damage: u32) -> u32 {
    if !hit { health } else if damage <= health { (health - damage) as u32 } else { 0 }
}

/// Maximum HP after level-ups with the given die rolls, one per level,
/// stopping (and keeping the HP reached) at the first level whose gain is
/// refused.
pub open spec fn hp_chain(max_hp: u32, rolls: Seq<u8>, hit_die: u8, con: u8) -> u32
    decreases rolls.len(),
{
    if rolls.len() == 0 {
        max_hp
    } else {
        let v = max_hp + level_hp_delta_spec(hit_die, con, rolls[0]);
        if con_in_range(con) && 1 <= v <= u32::MAX {
            hp_chain(v as u32, rolls.drop_first(), hit_die, con)
        } else {
            max_hp
        }
    }
}

/// Maximum HP after one level-up per roll, stopping at the first refusal.
pub fn level_up_chain(max_hp: u32, rolls: &Vec<u8>, hit_die: u8, con: u8) -> (r: u32)
    ensures
        r == hp_chain(max_hp, rolls@, hit_die, con),
{
    let mut cur = max_hp;
    let mut i: usize = 0;
    proof {
        assert(rolls@.subrange(0, rolls@.len() as int) =~= rolls@);
    }
    while i < rolls.len()
        invariant
            i <= rolls@.len(),
            hp_chain(max_hp, rolls@, hit_die, con) == hp_chain(cur, rolls@.subrange(i as int, rolls@.len() as int), hit_die, con),
        decreases rolls.len() - i,
    {
        let ghost rest = rolls@.subrange(i as int, rolls@.len() as int);
        proof {
            assert(rest[0] == rolls@[i as int]);
            assert(rest.drop_first() =~= rolls@.subrange(i + 1, rolls@.len() as int));
        }
        let step = match level_hp_delta(hit_die, con, rolls[i]) {
            Ok(d) => level_up_max_hp_with_delta(cur, d),
            Err(e) => Err(e),
        };
        match step {
            Ok(v) => {
                cur = v;
            },
            Err(_) => {
                return cur;
            },
        }
        i = i + 1;
    }
    proof {
        assert(rolls@.subrange(i as int, rolls@.len() as int) =~= Seq::<u8>::empty());
    }
    cur
}

/// A roll of a `sides`-sided die, per level gained.
fn roll_dice(count: u32, sides: u8) -> (r: Vec<u8>)
    requires
        sides >= 1,
    ensures
        r@.len() == count,
        forall|i: int| 0 <= i < r@.len() ==> 1 <= #[trigger] r@[i] <= sides,
{
    let mut v: Vec<u8> = Vec::new();
    let mut k: u32 = 0;
    while k < count
        invariant
            k <= count,
            sides >= 1,
            v@.len() == k,
            forall|i: int| 0 <= i < v@.len() ==> 1 <= #[trigger] v@[i] <= sides,
        decreases count - k,
    {
        v.push(crate::character_hp::roll_die(sides));
        k = k + 1;
    }
    v
}

/// Whether `rolls` are `n` rolls of a `sides`-sided die.
pub open spec fn die_rolls(rolls: Seq<u8>, n: int, sides: u8) -> bool {
    rolls.len() == n && forall|i: int| 0 <= i < rolls.len() ==> 1 <= #[trigger] rolls[i] <= sides
}

/// What a kill gives the killer.
#[derive(Debug, Clone, Copy, PartialEq, Eq, Structural)]
pub struct XpAward {
    pub new_xp: u64,
    pub leveled_up: bool,
    pub max_hp: u32,
    pub health: u32,
}

/// Award `xp_amount` XP to a player at `old_xp`; `old_level` and
/// `new_level` are the levels of the old and new totals. On a level-up the
/// maximum HP is rolled once per level gained and health restored to it.
pub fn award_xp(old_xp: u64, xp_amount: u32, old_level: u32, new_level: u32, max_hp: u32, health: u32, hit_die: u8, con: u8) -> (r: XpAward)
    requires
        old_xp + xp_amount <= u64::MAX,
        new_level > old_level && con_in_range(con) ==> hit_die >= 1,
    ensures
        r.new_xp == old_xp + xp_amount,
        r.leveled_up == (new_level > old_level),
        !r.leveled_up ==> r.max_hp == max_hp && r.health == health,
        r.leveled_up ==> r.health == r.max_hp,
        r.leveled_up && !con_in_range(con) ==> r.max_hp == max_hp,
        r.leveled_up && con_in_range(con) ==> exists|rolls: Seq<u8>|
            die_rolls(rolls, new_level - old_level, hit_die) && r.max_hp == #[trigger] hp_chain(max_hp, rolls, hit_die, con),
{
    let new_xp = old_xp + xp_amount as u64;
    if new_level <= old_level {
        return XpAward { new_xp, leveled_up: false, max_hp, health };
    }
    let levels = new_level - old_level;
    if !(con >= crate::character_hp::MIN_ATTRIBUTE && con <= crate::character_hp::MAX_ATTRIBUTE) {
        return XpAward { new_xp, leveled_up: true, max_hp, health: max_hp };
    }
    let rolls = roll_dice(levels, hit_die);
    let m = level_up_chain(max_hp, &rolls, hit_die, con);
    proof {
        assert(die_rolls(rolls@, new_level - old_level, hit_die));
    }
    XpAward { new_xp, leveled_up: true, max_hp: m, health: m }
}

/// The outcome of a player's attack on a living monster.
#[derive(Debug, Clone, Copy, PartialEq, Eq, Structural)]
pub struct AttackOutcome {
    pub monster_health: u32,
    pub monster_dead: bool,
    /// The killer's reward, when the blow killed and `xp_amount` was given.
    pub award: Option<XpAward>,
}

/// A player's attack on a living monster: a landed blow removes `damage`
/// HP (not below 0); reaching 0 kills the monster, and a kill awards
/// `xp_amount` (when the monster type has XP and the killer a character)
/// as in `award_xp`.
pub fn attack_outcome(
    monster_health: u32,
    hit: bool,
    damage: u32,
    old_xp: u64,
    xp_amount: Option<u32>,
    old_level: u32,
    new_level: u32,
    max_hp: u32,
    player_health: u32,
    hit_die: u8,
    con: u8,
) -> (r: AttackOutcome)
    requires
        xp_amount matches Some(x) ==> old_xp + x <= u64::MAX,
        new_level > old_level && con_in_range(con) ==> hit_die >= 1,
    ensures
        r.monster_health == monster_health_after(monster_health, hit, damage),
        r.monster_dead == (hit && r.monster_health == 0),
        !r.monster_dead || xp_amount is None ==> r.award is None,
        r.monster_dead && xp_amount is Some ==> (r.award matches Some(a) && {
            &&& a.new_xp == old_xp + xp_amount.unwrap()
            &&& a.leveled_up == (new_level > old_level)
            &&& !a.leveled_up ==> a.max_hp == max_hp && a.health == player_health
            &&& a.leveled_up ==> a.health == a.max_hp
            &&& a.leveled_up && !con_in_range(con) ==> a.max_hp == max_hp
            &&& a.leveled_up && con_in_range(con) ==> exists|rolls: Seq<u8>|
                die_rolls(rolls, new_level - old_level, hit_die) && a.max_hp == #[trigger] hp_chain(max_hp, rolls, hit_die, con)
        }),
{
    if !hit {
        return AttackOutcome { monster_health, monster_dead: false, award: None };
    }
    let h: u32 = if damage <= monster_health { monster_health - damage } else { 0 };
    if h > 0 {
        return AttackOutcome { monster_health: h, monster_dead: false, award: None };
    }
    let award = match xp_amount {
        Some(x) => Some(award_xp(old_xp, x, old_level, new_level, max_hp, player_health, hit_die, con)),
        None => None,
    };
    AttackOutcome { monster_health: 0, monster_dead: true, award }
}

/// A landed blow removes exactly the damage, or all the health that is
/// left when the damage is larger, and kills exactly when the damage is at
/// least the health; a miss changes nothing.
pub proof fn lemma_blow_removes_damage(health: u32, hit: bool, damage: u32)
    ensures
        hit ==> monster_health_after(health, hit, damage) == health - (if damage < health { damage } else { health }),
        hit ==> (monster_health_after(health, hit, damage) == 0 <==> damage >= health),
        !hit ==> monster_health_after(health, hit, damage) == health,
{
}

/// Each level gained raises the maximum HP by the level's gain (at least
/// half the hit die plus the CON modifier), so a chain of level-ups that
/// all go through adds up their gains.
pub proof fn lemma_hp_chain_adds_gains(max_hp: u32, roll: u8, rest: Seq<u8>, hit_die: u8, con: u8)
    requires
        con_in_range(con),
        1 <= max_hp + level_hp_delta_spec(hit_die, con, roll) <= u32::MAX,
    ensures
        hp_chain(max_hp, seq![roll] + rest, hit_die, con)
            == hp_chain((max_hp + level_hp_delta_spec(hit_die, con, roll)) as u32, rest, hit_die, con),
{
    assert((seq![roll] + rest).drop_first() =~= rest);
}

} // verus!
