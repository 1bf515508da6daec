//! Character hit points: level-1 maximum HP from class hit die, CON
//! modifier and race, and the per-level HP gain.
use rand::Rng;
use vstd::prelude::*;

use crate::text::{ascii_lower_code, chars_eq_str, trim_spec, trim_str, string_of};

verus! {

/// The race a new character gets when none is chosen.
pub const DEFAULT_CHARACTER_RACE: &'static str = "human";

/// Lowest valid ability score.
pub const MIN_ATTRIBUTE: u8 = 3;
/// Highest valid ability score.
pub const MAX_ATTRIBUTE: u8 = 18;

/// Why a max-HP computation failed.
#[derive(Debug, PartialEq, Eq)]
pub enum CharacterHpTableError {
    InvalidInput,
    InvalidCon(u8),
    UnknownRace(String),
    OutOfRange,
}

/// The lowercase mapping of `str::to_lowercase` (Unicode `Lowercase`
/// property).
pub uninterp spec fn str_to_lowercase(s: Seq<char>) -> Seq<char>;

/// Whether every character is ASCII.
pub open spec fn all_ascii(s: Seq<char>) -> bool {
    forall|i: int| 0 <= i < s.len() ==> (#[trigger] s[i]) as int <= 127
}

/// Whether `r` is `s` with `A`-`Z` turned into `a`-`z`.
pub open spec fn ascii_lowered(r: Seq<char>, s: Seq<char>) -> bool {
    r.len() == s.len() && forall|i: int| 0 <= i < s.len() ==> (#[trigger] r[i]) as int == ascii_lower_code(s[i])
}

/// `str::to_lowercase`. Claimed: the result is `str_to_lowercase` of the
/// input; it is empty exactly when the input is (every character
/// lowercases to one or more characters); and on ASCII input it only turns
/// `A`-`Z` into `a`-`z` (no other ASCII character has a lowercase
/// mapping). The rest of the Unicode mapping is not written out.
#[verifier::external_body]
fn to_lowercase(s: &str) -> (r: String)
    ensures
        r@ == str_to_lowercase(s@),
        s@.len() == 0 <==> r@.len() == 0,
        all_ascii(s@) ==> ascii_lowered(r@, s@),
{
    s.to_lowercase()
}

/// A roll of a `sides`-sided die: `rand::thread_rng().gen_range(1..=sides)`.
/// Claimed: the roll lies in `1..=sides` (an empty range would panic, which
/// `requires` rules out); which value comes is chance.
#[verifier::external_body]
pub(crate) fn roll_die(sides: u8) -> (r: u8)
    requires
        sides >= 1,
    ensures
        1 <= r <= sides,
{
    rand::thread_rng().gen_range(1..=sides)
}

/// HP bonus of a (lowercase) race, if it is known.
pub open spec fn race_hp_bonus(race: Seq<char>) -> Option<int> {
    if race == "human"@ { Some(2) }
    else if race == "elf"@ { Some(1) }
    else if race == "dwarf"@ { Some(4) }
    else if race == "gnome"@ { Some(1) }
    else if race == "orc"@ { Some(1) }
    else { None }
}

/// Rust's `/` by 2 (truncating toward zero).
pub open spec fn half_toward_zero(v: int) -> int {
    if v >= 0 { v / 2 } else { -((-v) / 2) }
}

/// D&D ability modifier: (score - 10) / 2, rounded toward zero.
pub open spec fn con_modifier_spec(con: int) -> int {
    half_toward_zero(con - 10)
}

/// Whether a CON score is within the valid range.
pub open spec fn con_in_range(con: u8) -> bool {
    MIN_ATTRIBUTE <= con <= MAX_ATTRIBUTE
}

/// Level-1 maximum HP for a race already trimmed and lowercased.
pub open spec fn level_one_max_hp_spec(race: Seq<char>, class_hit_die: u8, con: u8) -> Result<u32, CharacterHpTableError> {
    if race.len() == 0 {
        Err(CharacterHpTableError::InvalidInput)
    } else if !con_in_range(con) {
        Err(CharacterHpTableError::InvalidCon(con))
    } else {
        match race_hp_bonus(race) {
            None => Err(CharacterHpTableError::UnknownRace(arbitrary())),
            Some(bonus) => {
                let hp = class_hit_die + con_modifier_spec(con as int) + bonus;
                if 1 <= hp <= u32::MAX { Ok(hp as u32) } else { Err(CharacterHpTableError::OutOfRange) }
            },
        }
    }
}

/// Whether a result matches the spec, comparing the unknown race by its
/// characters.
pub open spec fn hp_result_matches(r: Result<u32, CharacterHpTableError>, race: Seq<char>, class_hit_die: u8, con: u8) -> bool {
    match (r, level_one_max_hp_spec(race, class_hit_die, con)) {
        (Err(CharacterHpTableError::UnknownRace(n)), Err(CharacterHpTableError::UnknownRace(_))) => n@ == race,
        (Err(CharacterHpTableError::UnknownRace(_)), _) => false,
        (a, b) => a == b,
    }
}

/// D&D ability modifier of a CON score.
pub fn con_modifier(con: u8) -> (r: i16)
    ensures
        r as int == con_modifier_spec(con as int),
{
    (con as i16 - 10) / 2
}

/// Level-1 maximum HP: class hit die + CON modifier + race bonus, for a
/// race name that is already trimmed and lowercased.
pub fn level_one_max_hp_normalized(race: &str, class_hit_die: u8, con: u8) -> (r: Result<u32, CharacterHpTableError>)
    ensures
        hp_result_matches(r, race@, class_hit_die, con),
{
    let chars = crate::text::chars_of(race);
    if chars.len() == 0 {
        return Err(CharacterHpTableError::InvalidInput);
    }
    if con < MIN_ATTRIBUTE || con > MAX_ATTRIBUTE {
        return Err(CharacterHpTableError::InvalidCon(con));
    }
    let bonus: i64 = if chars_eq_str(&chars, "human") {
        2
    } else if chars_eq_str(&chars, "elf") {
        1
    } else if chars_eq_str(&chars, "dwarf") {
        4
    } else if chars_eq_str(&chars, "gnome") {
        1
    } else if chars_eq_str(&chars, "orc") {
        1
    } else {
        return Err(CharacterHpTableError::UnknownRace(string_of(&chars)));
    };
    let max_hp: i64 = class_hit_die as i64 + con_modifier(con) as i64 + bonus;
    if max_hp < 1 || max_hp > u32::MAX as i64 {
        return Err(CharacterHpTableError::OutOfRange);
    }
    Ok(max_hp as u32)
}

/// Level-1 maximum HP of a race given in any case and with surrounding
/// whitespace.
pub fn level_one_max_hp(race: &str, class_hit_die: u8, con: u8) -> (r: Result<u32, CharacterHpTableError>)
    ensures
        hp_result_matches(r, str_to_lowercase(trim_spec(race@)), class_hit_die, con),
        trim_spec(race@).len() == 0 ==> r matches Err(CharacterHpTableError::InvalidInput),
        trim_spec(race@).len() > 0 && !con_in_range(con) ==> (r matches Err(CharacterHpTableError::InvalidCon(c)) && c == con),
        all_ascii(trim_spec(race@)) ==> ascii_lowered(str_to_lowercase(trim_spec(race@)), trim_spec(race@)),
{
    let trimmed = string_of(&trim_str(race));
    let normalized = to_lowercase(trimmed.as_str());
    level_one_max_hp_normalized(normalized.as_str(), class_hit_die, con)
}

/// Maximum HP given to a new character when the level-1 computation fails.
pub const FALLBACK_DEFAULT_MAX_HP: u32 = 13;

/// The level-1 maximum HP of a new character of the default race, or
/// `FALLBACK_DEFAULT_MAX_HP` when it cannot be computed.
pub fn default_character_max_hp(attributes: &crate::auth::CharacterAttributes, class_hit_die: u8) -> (r: u32)
    ensures
        r == (match level_one_max_hp_spec("human"@, class_hit_die, attributes.con) {
            Ok(v) => v,
            Err(_) => FALLBACK_DEFAULT_MAX_HP,
        }),
{
    proof {
        reveal_strlit("human");
        let h = DEFAULT_CHARACTER_RACE@;
        assert(h == "human"@);
        assert(trim_spec(h) =~= h);
    }
    let r = match level_one_max_hp(DEFAULT_CHARACTER_RACE, class_hit_die, attributes.con) {
        Ok(v) => v,
        Err(_) => FALLBACK_DEFAULT_MAX_HP,
    };
    proof {
        let h = "human"@;
        assert(str_to_lowercase(h) =~= h);
    }
    r
}

/// HP gained on a level-up for a given die roll: the roll (at least half
/// the hit die), plus the CON modifier.
pub open spec fn level_hp_delta_spec(class_hit_die: u8, con: u8, roll: u8) -> int {
    let min_roll = class_hit_die / 2;
    let adjusted = if roll >= min_roll { roll as int } else { min_roll as int };
    adjusted + con_modifier_spec(con as int)
}

/// HP gained on a level-up for a given die roll.
pub fn level_hp_delta(class_hit_die: u8, con: u8, roll: u8) -> (r: Result<i32, CharacterHpTableError>)
    ensures
        !con_in_range(con) ==> r == Err::<i32, CharacterHpTableError>(CharacterHpTableError::InvalidCon(con)),
        con_in_range(con) ==> r == Ok::<i32, CharacterHpTableError>(level_hp_delta_spec(class_hit_die, con, roll) as i32),
{
    if con < MIN_ATTRIBUTE || con > MAX_ATTRIBUTE {
        return Err(CharacterHpTableError::InvalidCon(con));
    }
    let min_roll = class_hit_die / 2;
    let adjusted: u8 = if roll >= min_roll { roll } else { min_roll };
    Ok(adjusted as i32 + con_modifier(con) as i32)
}

/// Roll the per-level HP delta: max(dHD roll, HD/2) + CON modifier.
pub fn roll_level_hp_delta(class_hit_die: u8, con: u8) -> (r: Result<i32, CharacterHpTableError>)
    requires
        class_hit_die >= 1,
    ensures
        !con_in_range(con) ==> r == Err::<i32, CharacterHpTableError>(CharacterHpTableError::InvalidCon(con)),
        con_in_range(con) ==> exists|roll: u8| 1 <= roll <= class_hit_die
            && r == Ok::<i32, CharacterHpTableError>(#[trigger] level_hp_delta_spec(class_hit_die, con, roll) as i32),
{
    if con < MIN_ATTRIBUTE || con > MAX_ATTRIBUTE {
        return Err(CharacterHpTableError::InvalidCon(con));
    }
    let roll = roll_die(class_hit_die);
    level_hp_delta(class_hit_die, con, roll)
}

/// Maximum HP after a level-up with a given HP delta.
pub fn level_up_max_hp_with_delta(current_max_hp: u32, delta: i32) -> (r: Result<u32, CharacterHpTableError>)
    ensures
        (1 <= current_max_hp + delta <= u32::MAX) ==> r == Ok::<u32, CharacterHpTableError>((current_max_hp + delta) as u32),
        !(1 <= current_max_hp + delta <= u32::MAX) ==> r == Err::<u32, CharacterHpTableError>(CharacterHpTableError::OutOfRange),
{
    let v: i64 = current_max_hp as i64 + delta as i64;
    if v < 1 || v > u32::MAX as i64 {
        return Err(CharacterHpTableError::OutOfRange);
    }
    Ok(v as u32)
}

/// Maximum HP after a level-up: the current maximum plus a rolled delta.
pub fn level_up_max_hp(current_max_hp: u32, class_hit_die: u8, con: u8) -> (r: Result<u32, CharacterHpTableError>)
    requires
        class_hit_die >= 1,
    ensures
        !con_in_range(con) ==> r == Err::<u32, CharacterHpTableError>(CharacterHpTableError::InvalidCon(con)),
        con_in_range(con) ==> exists|roll: u8| 1 <= roll <= class_hit_die && {
            let v = current_max_hp + #[trigger] level_hp_delta_spec(class_hit_die, con, roll);
            if 1 <= v <= u32::MAX {
                r == Ok::<u32, CharacterHpTableError>(v as u32)
            } else {
                r == Err::<u32, CharacterHpTableError>(CharacterHpTableError::OutOfRange)
            }
        },
{
    let delta = roll_level_hp_delta(class_hit_die, con)?;
    level_up_max_hp_with_delta(current_max_hp, delta)
}

/// A level-up roll gains at least half the hit die plus the CON modifier
/// and at most the full hit die plus the CON modifier.
pub proof fn lemma_level_hp_delta_bounds(class_hit_die: u8, con: u8, roll: u8)
    requires
        1 <= roll <= class_hit_die,
    ensures
        class_hit_die / 2 + con_modifier_spec(con as int) <= level_hp_delta_spec(class_hit_die, con, roll)
            <= class_hit_die + con_modifier_spec(con as int),
{
}

} // verus!
