//! Rules for monsters that spawn around players: the global and per-player
//! caps a spawn must respect, the per-owner numbering that names each
//! monster, and which spawn requests a server tick sends.
use vstd::prelude::*;

use crate::text::{
    chars_eq, chars_of, dec_digits, decimal_digits, extend_chars, is_digit,
    lemma_dec_digits_are_digits, lemma_dec_digits_injective, string_of,
};

verus! {

broadcast use vstd::std_specs::hash::group_hash_axioms;

/// What the spawn rules read of a monster: whether it is alive, the player
/// that owns it, and its type.
#[derive(Debug, Clone)]
pub struct MonsterSlot {
    pub alive: bool,
    pub owner_id: Option<u64>,
    pub monster_type: String,
}

/// An ambient spawn type and how many alive monsters of it each player may
/// own at once.
#[derive(Debug, Clone)]
pub struct AmbientCap {
    pub monster_type: String,
    pub max_per_player: u32,
}

/// Why a spawn was refused.
#[derive(Debug, Clone, Copy, PartialEq, Eq, Structural)]
pub enum SpawnRejection {
    /// The world already holds `alive` living monsters, the global cap.
    TotalLimit { alive: usize },
    /// The owner already has `owned` living monsters of this type.
    PlayerLimit { owned: usize },
}

/// A request, sent to a player's client, to spawn a monster of the type of
/// ambient rule `rule` near that player.
#[derive(Debug, Clone, Copy, PartialEq, Eq, Structural)]
pub struct SpawnRequest {
    pub player_id: u64,
    pub rule: usize,
}

/// Number of alive monsters among the first `n`.
pub open spec fn alive_count(ms: Seq<MonsterSlot>, n: int) -> nat
    decreases n,
{
    if n <= 0 {
        0
    } else {
        alive_count(ms, n - 1) + if ms[n - 1].alive { 1nat } else { 0nat }
    }
}

/// Whether a monster is alive, owned by `owner` and of type `ty`.
pub open spec fn is_owned_alive(m: MonsterSlot, owner: u64, ty: Seq<char>) -> bool {
    m.alive && m.owner_id == Some(owner) && m.monster_type@ == ty
}

/// Number of alive monsters of type `ty` owned by `owner` among the first `n`.
pub open spec fn owned_alive_count(ms: Seq<MonsterSlot>, owner: u64, ty: Seq<char>, n: int) -> nat
    decreases n,
{
    if n <= 0 {
        0
    } else {
        owned_alive_count(ms, owner, ty, n - 1) + if is_owned_alive(ms[n - 1], owner, ty) { 1nat } else { 0nat }
    }
}

/// The per-player cap of the first ambient rule at or after `i` for type
/// `ty`.
pub open spec fn cap_from(rules: Seq<AmbientCap>, ty: Seq<char>, i: int) -> Option<u32>
    decreases rules.len() - i,
{
    if i < 0 || i >= rules.len() {
        None
    } else if rules[i].monster_type@ == ty {
        Some(rules[i].max_per_player)
    } else {
        cap_from(rules, ty, i + 1)
    }
}

/// The ambient rule for a monster type: the first one naming it.
pub fn find_ambient_rule(rules: &Vec<AmbientCap>, monster_type: &str) -> (r: Option<usize>)
    ensures
        match r {
            Some(i) => i < rules@.len() && rules@[i as int].monster_type@ == monster_type@
                && cap_from(rules@, monster_type@, 0) == Some(rules@[i as int].max_per_player),
            None => cap_from(rules@, monster_type@, 0) is None,
        },
{
    let ty = chars_of(monster_type);
    let mut i: usize = 0;
    while i < rules.len()
        invariant
            i <= rules@.len(),
            ty@ == monster_type@,
            cap_from(rules@, monster_type@, 0) == cap_from(rules@, monster_type@, i as int),
        decreases rules.len() - i,
    {
        if chars_eq(&chars_of(rules[i].monster_type.as_str()), &ty) {
            return Some(i);
        }
        i = i + 1;
    }
    None
}

/// Count the alive monsters, and those of type `ty` owned by `owner`.
fn count_alive(monsters: &Vec<MonsterSlot>, owner: Option<u64>, ty: &Vec<char>) -> (r: (usize, usize))
    ensures
        r.0 == alive_count(monsters@, monsters@.len() as int),
        r.1 == (match owner {
            Some(o) => owned_alive_count(monsters@, o, ty@, monsters@.len() as int),
            None => 0,
        }),
{
    let mut alive: usize = 0;
    let mut owned: usize = 0;
    let mut i: usize = 0;
    while i < monsters.len()
        invariant
            i <= monsters@.len(),
            alive <= i,
            owned <= i,
            alive == alive_count(monsters@, i as int),
            owned == (match owner {
                Some(o) => owned_alive_count(monsters@, o, ty@, i as int),
                None => 0,
            }),
        decreases monsters.len() - i,
    {
        let m = &monsters[i];
        if m.alive {
            alive = alive + 1;
            if let Some(o) = owner {
                if m.owner_id == Some(o) && chars_eq(&chars_of(m.monster_type.as_str()), ty) {
                    owned = owned + 1;
                }
            }
        }
        i = i + 1;
    }
    (alive, owned)
}

/// The outcome of the spawn caps: refused when the world is at its global
/// cap of living monsters, or when the type has a per-player cap that the
/// owner's living monsters of that type already reach (an ownerless spawn
/// counts as owning none).
pub open spec fn spawn_limits_spec(ms: Seq<MonsterSlot>, ty: Seq<char>, owner: Option<u64>, max_total: u32, max_per_player: Option<u32>) -> Result<(), SpawnRejection> {
    let alive = alive_count(ms, ms.len() as int);
    let owned = match owner {
        Some(o) => owned_alive_count(ms, o, ty, ms.len() as int),
        None => 0,
    };
    if alive >= max_total {
        Err(SpawnRejection::TotalLimit { alive: alive as usize })
    } else {
        match max_per_player {
            Some(m) => if owned >= m { Err(SpawnRejection::PlayerLimit { owned: owned as usize }) } else { Ok(()) },
            None => Ok(()),
        }
    }
}

/// Check a spawn against the global and per-player caps.
pub fn check_spawn_limits(
    monsters: &Vec<MonsterSlot>,
    monster_type: &str,
    owner_id: Option<u64>,
    max_total: u32,
    max_per_player: Option<u32>,
) -> (r: Result<(), SpawnRejection>)
    ensures
        r == spawn_limits_spec(monsters@, monster_type@, owner_id, max_total, max_per_player),
{
    let ty = chars_of(monster_type);
    let (alive, owned) = count_alive(monsters, owner_id, &ty);
    if alive >= max_total as usize {
        return Err(SpawnRejection::TotalLimit { alive });
    }
    if let Some(m) = max_per_player {
        if owned >= m as usize {
            return Err(SpawnRejection::PlayerLimit { owned });
        }
    }
    Ok(())
}

/// `n + 1`, saturating at `u32::MAX`.
pub open spec fn sat_inc(n: u32) -> u32 {
    if n < u32::MAX { (n + 1) as u32 } else { n }
}

/// The name of an owner's `count`-th monster: `m{owner_number}_{count}`.
pub open spec fn monster_id_spec(owner_number: u32, count: u32) -> Seq<char> {
    seq!['m'] + dec_digits(owner_number as nat) + seq!['_'] + dec_digits(count as nat)
}

/// A monster's name determines its owner's number and its count, so the
/// names of two monsters differ whenever their numbers or counts do.
pub proof fn lemma_monster_id_injective(n1: u32, c1: u32, n2: u32, c2: u32)
    requires
        monster_id_spec(n1, c1) == monster_id_spec(n2, c2),
    ensures
        n1 == n2,
        c1 == c2,
{
    let d1 = dec_digits(n1 as nat);
    let d2 = dec_digits(n2 as nat);
    let e1 = dec_digits(c1 as nat);
    let e2 = dec_digits(c2 as nat);
    let s1 = monster_id_spec(n1, c1);
    let s2 = monster_id_spec(n2, c2);
    lemma_dec_digits_are_digits(n1 as nat);
    lemma_dec_digits_are_digits(n2 as nat);
    lemma_dec_digits_are_digits(c1 as nat);
    lemma_dec_digits_are_digits(c2 as nat);
    assert(s1[1 + d1.len() as int] == '_');
    assert(s2[1 + d2.len() as int] == '_');
    if d1.len() < d2.len() {
        assert(s2[1 + d1.len() as int] == d2[d1.len() as int]);
        assert(is_digit(d2[d1.len() as int]));
        assert(false);
    }
    if d2.len() < d1.len() {
        assert(s1[1 + d2.len() as int] == d1[d2.len() as int]);
        assert(is_digit(d1[d2.len() as int]));
        assert(false);
    }
    assert(d1 =~= s1.subrange(1, 1 + d1.len() as int));
    assert(d2 =~= s2.subrange(1, 1 + d2.len() as int));
    assert(e1 =~= s1.subrange(2 + d1.len() as int, s1.len() as int));
    assert(e2 =~= s2.subrange(2 + d2.len() as int, s2.len() as int));
    lemma_dec_digits_injective(n1 as nat, n2 as nat);
    lemma_dec_digits_injective(c1 as nat, c2 as nat);
}

/// Session numbering: a small number per player that owns monsters, and a
/// spawn counter per number, from which monster names are made.
pub struct IdState {
    pub next_player_number: u32,
    pub player_numbers: std::collections::HashMap<u64, u32>,
    pub owner_spawn_counts: std::collections::HashMap<u32, u32>,
}

impl IdState {
    /// Every number handed out lies in `1..=next_player_number`, and no two
    /// players share one.
    pub open spec fn numbering_ok(&self) -> bool {
        &&& forall|p: u64| #[trigger] self.player_numbers@.contains_key(p)
            ==> 1 <= self.player_numbers@[p] <= self.next_player_number
        &&& forall|p: u64, q: u64| #![trigger self.player_numbers@[p], self.player_numbers@[q]]
            self.player_numbers@.contains_key(p) && self.player_numbers@.contains_key(q) && p != q
            ==> self.player_numbers@[p] != self.player_numbers@[q]
    }

    /// The spawn count of an owner number (0 when it has none).
    pub open spec fn count_of(&self, owner_number: u32) -> u32 {
        if self.owner_spawn_counts@.contains_key(owner_number) { self.owner_spawn_counts@[owner_number] } else { 0 }
    }

    /// No numbers handed out, no spawns counted.
    pub fn new() -> (r: IdState)
        ensures
            r.next_player_number == 0,
            r.player_numbers@ == Map::<u64, u32>::empty(),
            r.owner_spawn_counts@ == Map::<u32, u32>::empty(),
            r.numbering_ok(),
    {
        IdState {
            next_player_number: 0,
            player_numbers: std::collections::HashMap::new(),
            owner_spawn_counts: std::collections::HashMap::new(),
        }
    }

    /// The number of a player, handing out the next one (saturating at
    /// `u32::MAX`) on first sight. While numbers have not run out, they
    /// stay distinct.
    pub fn get_or_assign_player_number(&mut self, player_id: u64) -> (r: u32)
        ensures
            old(self).player_numbers@.contains_key(player_id) ==> {
                &&& r == old(self).player_numbers@[player_id]
                &&& final(self).next_player_number == old(self).next_player_number
                &&& final(self).player_numbers@ == old(self).player_numbers@
            },
            !old(self).player_numbers@.contains_key(player_id) ==> {
                &&& r == sat_inc(old(self).next_player_number)
                &&& final(self).next_player_number == r
                &&& final(self).player_numbers@ == old(self).player_numbers@.insert(player_id, r)
            },
            final(self).owner_spawn_counts@ == old(self).owner_spawn_counts@,
            old(self).numbering_ok() && old(self).next_player_number < u32::MAX ==> final(self).numbering_ok(),
    {
        match self.player_numbers.get(&player_id) {
            Some(n) => *n,
            None => {
                if self.next_player_number < u32::MAX {
                    self.next_player_number = self.next_player_number + 1;
                }
                let n = self.next_player_number;
                self.player_numbers.insert(player_id, n);
                n
            },
        }
    }

    /// Name a new monster: its owner's number (0 without owner) and the
    /// owner's spawn count, incremented (saturating).
    pub fn next_monster_id(&mut self, owner_id: Option<u64>) -> (r: String)
        ensures
            ({
                let n: u32 = match owner_id {
                    Some(o) => if old(self).player_numbers@.contains_key(o) {
                        old(self).player_numbers@[o]
                    } else {
                        sat_inc(old(self).next_player_number)
                    },
                    None => 0,
                };
                let c = sat_inc(old(self).count_of(n));
                &&& r@ == monster_id_spec(n, c)
                &&& final(self).owner_spawn_counts@ == old(self).owner_spawn_counts@.insert(n, c)
                &&& final(self).player_numbers@ == (match owner_id {
                    Some(o) => old(self).player_numbers@.insert(o, n),
                    None => old(self).player_numbers@,
                })
                &&& final(self).next_player_number == (match owner_id {
                    Some(o) => if old(self).player_numbers@.contains_key(o) { old(self).next_player_number } else { n },
                    None => old(self).next_player_number,
                })
            }),
            old(self).numbering_ok() && old(self).next_player_number < u32::MAX ==> final(self).numbering_ok(),
    {
        let n: u32 = match owner_id {
            Some(o) => self.get_or_assign_player_number(o),
            None => 0,
        };
        let prev: u32 = match self.owner_spawn_counts.get(&n) {
            Some(c) => *c,
            None => 0,
        };
        let c: u32 = if prev < u32::MAX { prev + 1 } else { prev };
        self.owner_spawn_counts.insert(n, c);
        let mut v: Vec<char> = Vec::new();
        v.push('m');
        extend_chars(&mut v, &decimal_digits(n as u64));
        v.push('_');
        extend_chars(&mut v, &decimal_digits(c as u64));
        proof {
            assert(v@ =~= monster_id_spec(n, c));
        }
        string_of(&v)
    }

    /// Forget a player that left: its number, and its number's spawn count.
    /// Returns the number it had.
    pub fn remove_player(&mut self, player_id: u64) -> (r: Option<u32>)
        ensures
            r == (if old(self).player_numbers@.contains_key(player_id) {
                Some(old(self).player_numbers@[player_id])
            } else {
                None::<u32>
            }),
            final(self).player_numbers@ == old(self).player_numbers@.remove(player_id),
            final(self).owner_spawn_counts@ == (match r {
                Some(n) => old(self).owner_spawn_counts@.remove(n),
                None => old(self).owner_spawn_counts@,
            }),
            final(self).next_player_number == old(self).next_player_number,
            old(self).numbering_ok() ==> final(self).numbering_ok(),
    {
        let removed = self.player_numbers.remove(&player_id);
        if let Some(n) = removed {
            self.owner_spawn_counts.remove(&n);
        }
        removed
    }
}

/// One step of the spawn plan: request a spawn of rule `rule`'s type for
/// player `p` unless the world is full counting the requests made so far,
/// or the player already owns its cap of that type.
pub open spec fn plan_step(prev: Seq<SpawnRequest>, rules: Seq<AmbientCap>, players: Seq<u64>, ms: Seq<MonsterSlot>, total_alive: int, max_total: int, rule: int, p: int) -> Seq<SpawnRequest> {
    if total_alive + prev.len() >= max_total {
        prev
    } else if owned_alive_count(ms, players[p], rules[rule].monster_type@, ms.len() as int) >= rules[rule].max_per_player {
        prev
    } else {
        prev.push(SpawnRequest { player_id: players[p], rule: rule as usize })
    }
}

/// The plan after the first `np` players of rule `rule`.
pub open spec fn plan_players(prev: Seq<SpawnRequest>, rules: Seq<AmbientCap>, players: Seq<u64>, ms: Seq<MonsterSlot>, total_alive: int, max_total: int, rule: int, np: int) -> Seq<SpawnRequest>
    decreases np,
{
    if np <= 0 {
        prev
    } else {
        plan_step(plan_players(prev, rules, players, ms, total_alive, max_total, rule, np - 1), rules, players, ms, total_alive, max_total, rule, np - 1)
    }
}

/// The plan after the first `nr` rules, each over all players.
pub open spec fn plan_rules(rules: Seq<AmbientCap>, players: Seq<u64>, ms: Seq<MonsterSlot>, max_total: int, nr: int) -> Seq<SpawnRequest>
    decreases nr,
{
    if nr <= 0 {
        Seq::empty()
    } else {
        plan_players(plan_rules(rules, players, ms, max_total, nr - 1), rules, players, ms,
            alive_count(ms, ms.len() as int) as int, max_total, nr - 1, players.len() as int)
    }
}

proof fn lemma_plan_players_cap(prev: Seq<SpawnRequest>, rules: Seq<AmbientCap>, players: Seq<u64>, ms: Seq<MonsterSlot>, total_alive: int, max_total: int, rule: int, np: int)
    requires
        prev.len() == 0 || total_alive + prev.len() <= max_total,
    ensures
        plan_players(prev, rules, players, ms, total_alive, max_total, rule, np).len() == 0
            || total_alive + plan_players(prev, rules, players, ms, total_alive, max_total, rule, np).len() <= max_total,
        plan_players(prev, rules, players, ms, total_alive, max_total, rule, np).len() >= prev.len(),
    decreases np,
{
    if np > 0 {
        lemma_plan_players_cap(prev, rules, players, ms, total_alive, max_total, rule, np - 1);
    }
}

/// A spawn tick never asks for more monsters than the global cap leaves
/// room for: living monsters plus requests stay within `max_total` (or no
/// request is made at all).
pub proof fn lemma_plan_respects_global_cap(rules: Seq<AmbientCap>, players: Seq<u64>, ms: Seq<MonsterSlot>, max_total: int, nr: int)
    ensures
        plan_rules(rules, players, ms, max_total, nr).len() == 0
            || alive_count(ms, ms.len() as int) + plan_rules(rules, players, ms, max_total, nr).len() <= max_total,
    decreases nr,
{
    if nr > 0 {
        lemma_plan_respects_global_cap(rules, players, ms, max_total, nr - 1);
        lemma_plan_players_cap(plan_rules(rules, players, ms, max_total, nr - 1), rules, players, ms,
            alive_count(ms, ms.len() as int) as int, max_total, nr - 1, players.len() as int);
    }
}

/// The spawn requests of one server tick: rule by rule, player by player,
/// every eligible player below its cap for the rule's type gets a request,
/// until living monsters plus requests reach the global cap.
pub fn plan_spawn_requests(
    rules: &Vec<AmbientCap>,
    eligible_players: &Vec<u64>,
    monsters: &Vec<MonsterSlot>,
    max_total: u32,
) -> (r: Vec<SpawnRequest>)
    ensures
        r@ == plan_rules(rules@, eligible_players@, monsters@, max_total as int, rules@.len() as int),
{
    let no_type: Vec<char> = Vec::new();
    let (total_alive, _) = count_alive(monsters, None, &no_type);
    let mut out: Vec<SpawnRequest> = Vec::new();
    let mut ri: usize = 0;
    while ri < rules.len()
        invariant
            ri <= rules@.len(),
            total_alive == alive_count(monsters@, monsters@.len() as int),
            out@ == plan_rules(rules@, eligible_players@, monsters@, max_total as int, ri as int),
            out@.len() <= max_total,
        decreases rules.len() - ri,
    {
        let ty = chars_of(rules[ri].monster_type.as_str());
        let mut pi: usize = 0;
        while pi < eligible_players.len()
            invariant
                ri < rules@.len(),
                pi <= eligible_players@.len(),
                ty@ == rules@[ri as int].monster_type@,
                total_alive == alive_count(monsters@, monsters@.len() as int),
                    out@ == plan_players(plan_rules(rules@, eligible_players@, monsters@, max_total as int, ri as int),
                    rules@, eligible_players@, monsters@, total_alive as int, max_total as int, ri as int, pi as int),
                out@.len() <= max_total,
            decreases eligible_players.len() - pi,
        {
            let full = out.len() >= max_total as usize || total_alive >= max_total as usize - out.len();
            if !full {
                let player = eligible_players[pi];
                let (_, owned) = count_alive(monsters, Some(player), &ty);
                if owned < rules[ri].max_per_player as usize {
                    out.push(SpawnRequest { player_id: player, rule: ri });
                }
            }
            pi = pi + 1;
        }
        ri = ri + 1;
    }
    out
}

} // verus!
