//! The lines an NPC's LLM reads about server events: each event the agent
//! forwards becomes one line (the world summary several), with players
//! named by their display names where the client knows them.
use vstd::prelude::*;

use crate::auth::CharacterAttributes;
use crate::text::{chars_eq, chars_eq_str, chars_of, dec_digits, dec_int, decimal_digits, decimal_int, extend_chars, extend_str, string_of, zero_pad};

verus! {

/// What the client knows of players' names: its own player, and the
/// players near it by id (each id once).
pub struct PlayerNames {
    pub self_id: Option<String>,
    pub self_name: Option<String>,
    pub nearby: Vec<(String, String)>,
}

/// The name listed for `id` among `nearby`, if any.
pub open spec fn nearby_name(nearby: Seq<(String, String)>, id: Seq<char>) -> Option<Seq<char>>
    decreases nearby.len(),
{
    if nearby.len() == 0 {
        None
    } else if nearby[0].0@ == id {
        Some(nearby[0].1@)
    } else {
        nearby_name(nearby.drop_first(), id)
    }
}

/// The display name of a player id: the own player's name, a nearby
/// player's name, or the id itself.
pub open spec fn player_name_spec(names: PlayerNames, id: Seq<char>) -> Seq<char> {
    if names.self_id matches Some(s) && s@ == id && names.self_name is Some {
        names.self_name.unwrap()@
    } else if nearby_name(names.nearby@, id) is Some {
        nearby_name(names.nearby@, id).unwrap()
    } else {
        id
    }
}

/// No id is listed twice among `nearby`.
pub open spec fn ids_unique(nearby: Seq<(String, String)>) -> bool {
    forall|a: int, b: int| 0 <= a < b < nearby.len() ==> (#[trigger] nearby[a]).0@ != (#[trigger] nearby[b]).0@
}

/// With unique ids, the name listed for `id` is that of the entry with
/// that id, if any.
proof fn lemma_nearby_name(nearby: Seq<(String, String)>, id: Seq<char>)
    requires
        ids_unique(nearby),
    ensures
        forall|i: int| 0 <= i < nearby.len() && (#[trigger] nearby[i]).0@ == id ==> nearby_name(nearby, id) == Some(nearby[i].1@),
        (forall|i: int| 0 <= i < nearby.len() ==> (#[trigger] nearby[i]).0@ != id) ==> nearby_name(nearby, id) is None,
    decreases nearby.len(),
{
    if nearby.len() > 0 {
        let rest = nearby.drop_first();
        assert forall|a: int, b: int| 0 <= a < b < rest.len() implies (#[trigger] rest[a]).0@ != (#[trigger] rest[b]).0@ by {
            assert(rest[a] == nearby[a + 1] && rest[b] == nearby[b + 1]);
        }
        lemma_nearby_name(rest, id);
        assert forall|i: int| 0 <= i < nearby.len() && (#[trigger] nearby[i]).0@ == id implies nearby_name(nearby, id) == Some(nearby[i].1@) by {
            if i > 0 {
                assert(rest[i - 1] == nearby[i]);
                assert(nearby[0].0@ != nearby[i].0@);
            }
        }
        if forall|i: int| 0 <= i < nearby.len() ==> (#[trigger] nearby[i]).0@ != id {
            assert forall|i: int| 0 <= i < rest.len() implies (#[trigger] rest[i]).0@ != id by {
                assert(rest[i] == nearby[i + 1]);
            }
        }
    }
}

/// Index of the entry for `id`, if any.
fn find_nearby(nearby: &Vec<(String, String)>, id: &str) -> (r: Option<usize>)
    ensures
        match r {
            Some(i) => i < nearby@.len() && nearby@[i as int].0@ == id@,
            None => forall|i: int| 0 <= i < nearby@.len() ==> (#[trigger] nearby@[i]).0@ != id@,
        },
{
    let want = chars_of(id);
    let mut i: usize = 0;
    while i < nearby.len()
        invariant
            i <= nearby@.len(),
            want@ == id@,
            forall|k: int| 0 <= k < i ==> (#[trigger] nearby@[k]).0@ != id@,
        decreases nearby.len() - i,
    {
        if chars_eq(&chars_of(nearby[i].0.as_str()), &want) {
            return Some(i);
        }
        i = i + 1;
    }
    None
}

impl PlayerNames {
    /// Nothing known yet.
    pub fn new() -> (r: PlayerNames)
        ensures
            r.wf(),
            r.self_id is None,
            r.self_name is None,
            r.nearby@.len() == 0,
    {
        PlayerNames { self_id: None, self_name: None, nearby: Vec::new() }
    }

    /// Each nearby id is listed once.
    pub open spec fn wf(&self) -> bool {
        ids_unique(self.nearby@)
    }

    /// The name listed for a nearby id.
    pub open spec fn nearby_of(&self, id: Seq<char>) -> Option<Seq<char>> {
        nearby_name(self.nearby@, id)
    }

    /// The client joined the game as player `id`, named `name`.
    pub fn joined(&mut self, id: String, name: String)
        requires
            old(self).wf(),
        ensures
            final(self).wf(),
            final(self).self_id matches Some(s) && s@ == id@,
            final(self).self_name matches Some(n) && n@ == name@,
            final(self).nearby@ == old(self).nearby@,
    {
        self.self_id = Some(id);
        self.self_name = Some(name);
    }

    /// A world snapshot: the nearby players become exactly `players`
    /// (id and name, each id once), and the own name is refreshed from it.
    pub fn world_state(&mut self, players: Vec<(String, String)>)
        requires
            old(self).wf(),
            ids_unique(players@),
        ensures
            final(self).wf(),
            final(self).nearby@ == players@,
            final(self).self_id == old(self).self_id,
            match old(self).self_id {
                Some(s) => match nearby_name(players@, s@) {
                    Some(n) => final(self).self_name matches Some(m) && m@ == n,
                    None => final(self).self_name == old(self).self_name,
                },
                None => final(self).self_name == old(self).self_name,
            },
    {
        let own = match &self.self_id {
            Some(s) => find_nearby(&players, s.as_str()),
            None => None,
        };
        proof {
            if self.self_id is Some {
                lemma_nearby_name(players@, self.self_id.unwrap()@);
            }
        }
        if let Some(i) = own {
            self.self_name = Some(players[i].1.clone());
        }
        self.nearby = players;
    }

    /// A player came near: its entry is added, or replaced.
    pub fn player_joined(&mut self, id: String, name: String)
        requires
            old(self).wf(),
        ensures
            final(self).wf(),
            forall|k: Seq<char>| #[trigger] final(self).nearby_of(k) == if k == id@ { Some(name@) } else { old(self).nearby_of(k) },
            final(self).self_id == old(self).self_id,
            final(self).self_name == old(self).self_name,
    {
        let ghost before = self.nearby@;
        let ghost idv = id@;
        let ghost namev = name@;
        match find_nearby(&self.nearby, id.as_str()) {
            Some(i) => {
                self.nearby.set(i, (id, name));
                proof {
                    let after = self.nearby@;
                    assert forall|a: int, b: int| 0 <= a < b < after.len() implies (#[trigger] after[a]).0@ != (#[trigger] after[b]).0@ by {
                        assert(before[a].0@ != before[b].0@);
                    }
                    assert forall|k: Seq<char>| #[trigger] nearby_name(after, k) == if k == idv { Some(namev) } else { nearby_name(before, k) } by {
                        lemma_nearby_name(after, k);
                        lemma_nearby_name(before, k);
                        if k != idv {
                            if exists|j: int| 0 <= j < before.len() && (#[trigger] before[j]).0@ == k {
                                let j = choose|j: int| 0 <= j < before.len() && (#[trigger] before[j]).0@ == k;
                                assert(j != i);
                                assert(after[j] == before[j]);
                            } else {
                                assert forall|j: int| 0 <= j < after.len() implies (#[trigger] after[j]).0@ != k by {
                                    if j != i {
                                        assert(after[j] == before[j]);
                                    }
                                }
                            }
                        } else {
                            assert(after[i as int].0@ == k);
                        }
                    }
                }
            },
            None => {
                self.nearby.push((id, name));
                proof {
                    let after = self.nearby@;
                    assert forall|a: int, b: int| 0 <= a < b < after.len() implies (#[trigger] after[a]).0@ != (#[trigger] after[b]).0@ by {
                        if b < before.len() {
                            assert(after[a] == before[a] && after[b] == before[b]);
                        } else {
                            assert(after[a] == before[a]);
                        }
                    }
                    assert forall|k: Seq<char>| #[trigger] nearby_name(after, k) == if k == idv { Some(namev) } else { nearby_name(before, k) } by {
                        lemma_nearby_name(after, k);
                        lemma_nearby_name(before, k);
                        if k != idv {
                            if exists|j: int| 0 <= j < before.len() && (#[trigger] before[j]).0@ == k {
                                let j = choose|j: int| 0 <= j < before.len() && (#[trigger] before[j]).0@ == k;
                                assert(after[j] == before[j]);
                            } else {
                                assert forall|j: int| 0 <= j < after.len() implies (#[trigger] after[j]).0@ != k by {
                                    if j < before.len() {
                                        assert(after[j] == before[j]);
                                    }
                                }
                            }
                        } else {
                            assert(after[before.len() as int].0@ == k);
                        }
                    }
                }
            },
        }
    }

    /// A player left: its entry is removed.
    pub fn player_left(&mut self, id: &str)
        requires
            old(self).wf(),
        ensures
            final(self).wf(),
            forall|k: Seq<char>| #[trigger] final(self).nearby_of(k) == if k == id@ { None } else { old(self).nearby_of(k) },
            final(self).self_id == old(self).self_id,
            final(self).self_name == old(self).self_name,
    {
        let ghost before = self.nearby@;
        match find_nearby(&self.nearby, id) {
            Some(i) => {
                let _ = self.nearby.remove(i);
                proof {
                    let after = self.nearby@;
                    assert forall|j: int| 0 <= j < after.len() implies #[trigger] after[j] == before[if j < i { j } else { j + 1 }] by {}
                    assert forall|a: int, b: int| 0 <= a < b < after.len() implies (#[trigger] after[a]).0@ != (#[trigger] after[b]).0@ by {
                        assert(after[a] == before[if a < i { a } else { a + 1 }]);
                        assert(after[b] == before[if b < i { b } else { b + 1 }]);
                    }
                    assert forall|k: Seq<char>| #[trigger] nearby_name(after, k) == if k == id@ { None } else { nearby_name(before, k) } by {
                        lemma_nearby_name(after, k);
                        lemma_nearby_name(before, k);
                        if k != id@ {
                            if exists|j: int| 0 <= j < before.len() && (#[trigger] before[j]).0@ == k {
                                let j = choose|j: int| 0 <= j < before.len() && (#[trigger] before[j]).0@ == k;
                                assert(j != i);
                                let j2 = if j < i { j } else { j - 1 };
                                assert(after[j2] == before[j]);
                            } else {
                                assert forall|j: int| 0 <= j < after.len() implies (#[trigger] after[j]).0@ != k by {
                                    assert(after[j] == before[if j < i { j } else { j + 1 }]);
                                }
                            }
                        } else {
                            assert forall|j: int| 0 <= j < after.len() implies (#[trigger] after[j]).0@ != k by {
                                let jb = if j < i { j } else { j + 1 };
                                assert(after[j] == before[jb]);
                                assert(jb != i);
                            }
                        }
                    }
                }
            },
            None => {
                proof {
                    assert forall|k: Seq<char>| #[trigger] nearby_name(before, k) == if k == id@ { None } else { nearby_name(before, k) } by {
                        lemma_nearby_name(before, k);
                    }
                }
            },
        }
    }
}

/// The display name of a player id.
pub fn player_name(names: &PlayerNames, id: &str) -> (r: String)
    ensures
        r@ == player_name_spec(*names, id@),
{
    match (&names.self_id, &names.self_name) {
        (Some(s), Some(n)) => {
            let sv = chars_of(s.as_str());
            let iv = chars_of(id);
            if chars_eq(&sv, &iv) {
                return n.clone();
            }
        },
        _ => {},
    }
    let mut i: usize = 0;
    proof {
        assert(names.nearby@.subrange(0, names.nearby@.len() as int) =~= names.nearby@);
    }
    while i < names.nearby.len()
        invariant
            i <= names.nearby@.len(),
            !(names.self_id matches Some(s) && s@ == id@ && names.self_name is Some),
            nearby_name(names.nearby@, id@) == nearby_name(names.nearby@.subrange(i as int, names.nearby@.len() as int), id@),
        decreases names.nearby.len() - i,
    {
        let ghost rest = names.nearby@.subrange(i as int, names.nearby@.len() as int);
        proof {
            assert(rest[0] == names.nearby@[i as int]);
            assert(rest.drop_first() =~= names.nearby@.subrange(i + 1, names.nearby@.len() as int));
        }
        if chars_eq_str(&chars_of(names.nearby[i].0.as_str()), id) {
            proof {
                assert(nearby_name(rest, id@) == Some(rest[0].1@));
            }
            let r = names.nearby[i].1.clone();
            proof {
                assert(r@ == rest[0].1@);
            }
            return r;
        }
        i = i + 1;
    }
    proof {
        assert(names.nearby@.subrange(i as int, names.nearby@.len() as int).len() == 0);
    }
    id.to_string()
}

/// `true` or `false`, as `{}` renders a `bool`.
pub open spec fn bool_text(b: bool) -> Seq<char> {
    if b { "true"@ } else { "false"@ }
}

/// A number rendered by `{}`.
pub open spec fn num(n: u64) -> Seq<char> {
    dec_digits(n as nat)
}

/// A signed number rendered by `{}`.
pub open spec fn signed_num(v: i64) -> Seq<char> {
    dec_int(v as int)
}

/// A number rendered by `{:02}`.
pub open spec fn two_digits(n: u64) -> Seq<char> {
    zero_pad(dec_digits(n as nat), 2)
}

/// A player in the world summary.
pub struct PlayerLine {
    pub name: String,
    pub level: u64,
    pub health: i64,
    pub max_health: i64,
}

/// A monster in the world summary.
pub struct MonsterLine {
    pub monster_type: String,
    pub id: String,
    pub health: i64,
    pub max_health: i64,
}

/// The server events an agent may forward, with what their lines show.
/// Positions are not carried: events located in space are written by the
/// client.
pub enum AgentEvent {
    World { players: Vec<PlayerLine>, monsters: Vec<MonsterLine> },
    Time { year: u64, month: u64, day: u64, hour: u64, minute: u64, is_night: bool },
    Chat { player_id: String, message: String },
    PlayerJoined { name: String },
    PlayerLeft { player_id: String },
    MonsterSpawned { monster_id: String, monster_type: String },
    MonsterDead { monster_id: String },
    PlayerAttacked { player_id: String, monster_id: String, hit: bool, damage: i64 },
    MonsterAttackedPlayer { monster_id: String, player_id: String, hit: bool, damage: i64, current_health: i64 },
    PlayerDead { player_id: String },
    PlayerRespawned { name: String, health: i64, max_health: i64 },
    XpGained { xp_amount: u64, total_xp: u64, new_level: u64, leveled_up: bool },
    CharacterError { message: String },
    /// `class` is the class's name as `{:?}` renders it.
    CharacterCreated { id: i64, name: String, level: u64, class: String },
    StatsRolled { attributes: CharacterAttributes, max_hp: u64 },
    Kicked { reason: String },
    /// An event that is not forwarded.
    Unforwarded,
}

/// The summary lines of players, each after a line break.
pub open spec fn player_lines(ps: Seq<PlayerLine>) -> Seq<char>
    decreases ps.len(),
{
    if ps.len() == 0 {
        Seq::empty()
    } else {
        let p = ps.last();
        player_lines(ps.drop_last()) + "\n  Player: "@ + p.name@ + " Lv."@ + num(p.level) + " HP "@
            + signed_num(p.health) + "/"@ + signed_num(p.max_health)
    }
}

/// The summary lines of monsters, each after a line break.
pub open spec fn monster_lines(ms: Seq<MonsterLine>) -> Seq<char>
    decreases ms.len(),
{
    if ms.len() == 0 {
        Seq::empty()
    } else {
        let m = ms.last();
        monster_lines(ms.drop_last()) + "\n  Monster: "@ + m.monster_type@ + " ["@ + m.id@ + "] HP "@
            + signed_num(m.health) + "/"@ + signed_num(m.max_health)
    }
}

/// The text of an event, or `None` for one that is not forwarded.
pub open spec fn event_text(names: PlayerNames, e: AgentEvent) -> Option<Seq<char>> {
    match e {
        AgentEvent::World { players, monsters } => Some("[World] "@ + num(players@.len() as u64) + " player(s), "@
            + num(monsters@.len() as u64) + " monster(s)"@ + player_lines(players@) + monster_lines(monsters@)),
        AgentEvent::Time { year, month, day, hour, minute, is_night } => Some("[Time] Y"@ + num(year) + " M"@ + num(month)
            + " D"@ + num(day) + " "@ + two_digits(hour) + ":"@ + two_digits(minute) + " ("@
            + (if is_night { "night"@ } else { "day"@ }) + ")"@),
        AgentEvent::Chat { player_id, message } => Some("[Chat] "@ + player_name_spec(names, player_id@) + ": "@ + message@),
        AgentEvent::PlayerJoined { name } => Some("[PlayerJoined] "@ + name@),
        AgentEvent::PlayerLeft { player_id } => Some("[PlayerLeft] "@ + player_name_spec(names, player_id@)),
        AgentEvent::MonsterSpawned { monster_id, monster_type } => Some("[MonsterSpawned] "@ + monster_id@ + " ("@
            + monster_type@ + ")"@),
        AgentEvent::MonsterDead { monster_id } => Some("[MonsterDead] "@ + monster_id@),
        AgentEvent::PlayerAttacked { player_id, monster_id, hit, damage } => Some("[Attack] "@
            + player_name_spec(names, player_id@) + " -> "@ + monster_id@ + ": hit="@ + bool_text(hit) + " dmg="@ + signed_num(damage)),
        AgentEvent::MonsterAttackedPlayer { monster_id, player_id, hit, damage, current_health } => Some("[MonsterAttack] "@
            + monster_id@ + " -> "@ + player_name_spec(names, player_id@) + ": hit="@ + bool_text(hit) + " dmg="@
            + signed_num(damage) + " hp="@ + signed_num(current_health)),
        AgentEvent::PlayerDead { player_id } => Some("[PlayerDead] "@ + player_name_spec(names, player_id@)),
        AgentEvent::PlayerRespawned { name, health, max_health } => Some("[Respawn] "@ + name@ + " HP "@ + signed_num(health)
            + "/"@ + signed_num(max_health)),
        AgentEvent::XpGained { xp_amount, total_xp, new_level, leveled_up } => Some("[XP] +"@ + num(xp_amount)
            + " (total: "@ + num(total_xp) + ", level: "@ + num(new_level) + ")"@
            + (if leveled_up { " LEVEL UP!"@ } else { Seq::empty() })),
        AgentEvent::CharacterError { message } => Some("[CharacterError] "@ + message@),
        AgentEvent::CharacterCreated { id, name, level, class } => Some("[CharacterCreated] id="@ + signed_num(id) + " "@ + name@
            + " Lv."@ + num(level) + " "@ + class@),
        AgentEvent::StatsRolled { attributes: a, max_hp } => Some("[StatsRolled] STR:"@ + num(a.str as u64) + " DEX:"@
            + num(a.dex as u64) + " CON:"@ + num(a.con as u64) + " INT:"@ + num(a.int as u64) + " WIS:"@
            + num(a.wis as u64) + " CHA:"@ + num(a.cha as u64) + " HP:"@ + num(max_hp)),
        AgentEvent::Kicked { reason } => Some("[Kicked] "@ + reason@),
        AgentEvent::Unforwarded => None,
    }
}

fn push_num(out: &mut Vec<char>, n: u64)
    ensures
        final(out)@ == old(out)@ + num(n),
{
    let d = decimal_digits(n);
    extend_chars(out, &d);
}

fn push_int(out: &mut Vec<char>, v: i64)
    ensures
        final(out)@ == old(out)@ + signed_num(v),
{
    let d = decimal_int(v);
    extend_chars(out, &d);
}

fn push_two_digits(out: &mut Vec<char>, n: u64)
    ensures
        final(out)@ == old(out)@ + two_digits(n),
{
    let d = decimal_digits(n);
    if d.len() < 2 {
        proof {
            assert(Seq::new((2 - d@.len()) as nat, |i: int| '0') =~= seq!['0']);
        }
        out.push('0');
    }
    extend_chars(out, &d);
}

fn push_name(out: &mut Vec<char>, names: &PlayerNames, id: &String)
    ensures
        final(out)@ == old(out)@ + player_name_spec(*names, id@),
{
    let n = player_name(names, id.as_str());
    extend_str(out, n.as_str());
}

/// Write an event as a line for the LLM's prompt, or `None` for an event
/// that is not forwarded.
pub fn format_event(names: &PlayerNames, e: &AgentEvent) -> (r: Option<String>)
    ensures
        match event_text(*names, *e) {
            Some(t) => r matches Some(s) && s@ == t,
            None => r is None,
        },
{
    let mut o: Vec<char> = Vec::new();
    match e {
        AgentEvent::World { players, monsters } => {
            extend_str(&mut o, "[World] ");
            push_num(&mut o, players.len() as u64);
            extend_str(&mut o, " player(s), ");
            push_num(&mut o, monsters.len() as u64);
            extend_str(&mut o, " monster(s)");
            let mut i: usize = 0;
            let ghost head = o@;
            while i < players.len()
                invariant
                    i <= players@.len(),
                    o@ == head + player_lines(players@.subrange(0, i as int)),
                decreases players.len() - i,
            {
                proof {
                    assert(players@.subrange(0, i + 1).drop_last() =~= players@.subrange(0, i as int));
                }
                let p = &players[i];
                extend_str(&mut o, "\n  Player: ");
                extend_str(&mut o, p.name.as_str());
                extend_str(&mut o, " Lv.");
                push_num(&mut o, p.level);
                extend_str(&mut o, " HP ");
                push_int(&mut o, p.health);
                extend_str(&mut o, "/");
                push_int(&mut o, p.max_health);
                i = i + 1;
                proof {
                    assert(o@ =~= head + player_lines(players@.subrange(0, i as int)));
                }
            }
            proof {
                assert(players@.subrange(0, players@.len() as int) =~= players@);
            }
            let ghost mid = o@;
            let mut j: usize = 0;
            while j < monsters.len()
                invariant
                    j <= monsters@.len(),
                    o@ == mid + monster_lines(monsters@.subrange(0, j as int)),
                decreases monsters.len() - j,
            {
                proof {
                    assert(monsters@.subrange(0, j + 1).drop_last() =~= monsters@.subrange(0, j as int));
                }
                let m = &monsters[j];
                extend_str(&mut o, "\n  Monster: ");
                extend_str(&mut o, m.monster_type.as_str());
                extend_str(&mut o, " [");
                extend_str(&mut o, m.id.as_str());
                extend_str(&mut o, "] HP ");
                push_int(&mut o, m.health);
                extend_str(&mut o, "/");
                push_int(&mut o, m.max_health);
                j = j + 1;
                proof {
                    assert(o@ =~= mid + monster_lines(monsters@.subrange(0, j as int)));
                }
            }
            proof {
                assert(monsters@.subrange(0, monsters@.len() as int) =~= monsters@);
            }
        },
        AgentEvent::Time { year, month, day, hour, minute, is_night } => {
            extend_str(&mut o, "[Time] Y");
            push_num(&mut o, *year);
            extend_str(&mut o, " M");
            push_num(&mut o, *month);
            extend_str(&mut o, " D");
            push_num(&mut o, *day);
            extend_str(&mut o, " ");
            push_two_digits(&mut o, *hour);
            extend_str(&mut o, ":");
            push_two_digits(&mut o, *minute);
            extend_str(&mut o, " (");
            if *is_night {
                extend_str(&mut o, "night");
            } else {
                extend_str(&mut o, "day");
            }
            extend_str(&mut o, ")");
        },
        AgentEvent::Chat { player_id, message } => {
            extend_str(&mut o, "[Chat] ");
            push_name(&mut o, names, player_id);
            extend_str(&mut o, ": ");
            extend_str(&mut o, message.as_str());
        },
        AgentEvent::PlayerJoined { name } => {
            extend_str(&mut o, "[PlayerJoined] ");
            extend_str(&mut o, name.as_str());
        },
        AgentEvent::PlayerLeft { player_id } => {
            extend_str(&mut o, "[PlayerLeft] ");
            push_name(&mut o, names, player_id);
        },
        AgentEvent::MonsterSpawned { monster_id, monster_type } => {
            extend_str(&mut o, "[MonsterSpawned] ");
            extend_str(&mut o, monster_id.as_str());
            extend_str(&mut o, " (");
            extend_str(&mut o, monster_type.as_str());
            extend_str(&mut o, ")");
        },
        AgentEvent::MonsterDead { monster_id } => {
            extend_str(&mut o, "[MonsterDead] ");
            extend_str(&mut o, monster_id.as_str());
        },
        AgentEvent::PlayerAttacked { player_id, monster_id, hit, damage } => {
            extend_str(&mut o, "[Attack] ");
            push_name(&mut o, names, player_id);
            extend_str(&mut o, " -> ");
            extend_str(&mut o, monster_id.as_str());
            extend_str(&mut o, ": hit=");
            extend_str(&mut o, if *hit { "true" } else { "false" });
            extend_str(&mut o, " dmg=");
            push_int(&mut o, *damage);
        },
        AgentEvent::MonsterAttackedPlayer { monster_id, player_id, hit, damage, current_health } => {
            extend_str(&mut o, "[MonsterAttack] ");
            extend_str(&mut o, monster_id.as_str());
            extend_str(&mut o, " -> ");
            push_name(&mut o, names, player_id);
            extend_str(&mut o, ": hit=");
            extend_str(&mut o, if *hit { "true" } else { "false" });
            extend_str(&mut o, " dmg=");
            push_int(&mut o, *damage);
            extend_str(&mut o, " hp=");
            push_int(&mut o, *current_health);
        },
        AgentEvent::PlayerDead { player_id } => {
            extend_str(&mut o, "[PlayerDead] ");
            push_name(&mut o, names, player_id);
        },
        AgentEvent::PlayerRespawned { name, health, max_health } => {
            extend_str(&mut o, "[Respawn] ");
            extend_str(&mut o, name.as_str());
            extend_str(&mut o, " HP ");
            push_int(&mut o, *health);
            extend_str(&mut o, "/");
            push_int(&mut o, *max_health);
        },
        AgentEvent::XpGained { xp_amount, total_xp, new_level, leveled_up } => {
            extend_str(&mut o, "[XP] +");
            push_num(&mut o, *xp_amount);
            extend_str(&mut o, " (total: ");
            push_num(&mut o, *total_xp);
            extend_str(&mut o, ", level: ");
            push_num(&mut o, *new_level);
            extend_str(&mut o, ")");
            if *leveled_up {
                extend_str(&mut o, " LEVEL UP!");
            }
        },
        AgentEvent::CharacterError { message } => {
            extend_str(&mut o, "[CharacterError] ");
            extend_str(&mut o, message.as_str());
        },
        AgentEvent::CharacterCreated { id, name, level, class } => {
            extend_str(&mut o, "[CharacterCreated] id=");
            push_int(&mut o, *id);
            extend_str(&mut o, " ");
            extend_str(&mut o, name.as_str());
            extend_str(&mut o, " Lv.");
            push_num(&mut o, *level);
            extend_str(&mut o, " ");
            extend_str(&mut o, class.as_str());
        },
        AgentEvent::StatsRolled { attributes: a, max_hp } => {
            extend_str(&mut o, "[StatsRolled] STR:");
            push_num(&mut o, a.str as u64);
            extend_str(&mut o, " DEX:");
            push_num(&mut o, a.dex as u64);
            extend_str(&mut o, " CON:");
            push_num(&mut o, a.con as u64);
            extend_str(&mut o, " INT:");
            push_num(&mut o, a.int as u64);
            extend_str(&mut o, " WIS:");
            push_num(&mut o, a.wis as u64);
            extend_str(&mut o, " CHA:");
            push_num(&mut o, a.cha as u64);
            extend_str(&mut o, " HP:");
            push_num(&mut o, *max_hp);
        },
        AgentEvent::Kicked { reason } => {
            extend_str(&mut o, "[Kicked] ");
            extend_str(&mut o, reason.as_str());
        },
        AgentEvent::Unforwarded => {
            return None;
        },
    }
    proof {
        assert(o@ =~= event_text(*names, *e).unwrap());
    }
    Some(string_of(&o))
}

} // verus!
