//! Chat: slash commands, the `/who` online breakdown and the `/escape`
//! combat lockout.
use vstd::prelude::*;

use crate::text::{
    chars_eq_str, chars_of, dec_digits, decimal_digits, extend_chars, extend_str, occurs_at,
    occurs_at_exec, slice_chars, string_of, trim_chars, trim_spec, trim_str,
};

verus! {

/// How long after the last hit a player still counts as in combat (ms).
pub const OUT_OF_COMBAT_MS: u64 = 10000;

/// The program a player connected with.
#[derive(Debug, Clone, Copy, PartialEq, Eq, Structural)]
pub enum ClientKind {
    Web,
    Cli,
    Other,
    Unknown,
}

/// What `/who` needs to know of an online player.
#[derive(Debug, Clone, Copy, PartialEq, Eq, Structural)]
pub struct Presence {
    pub is_official_npc: bool,
    pub client_kind: ClientKind,
}

/// `/who` breakdown by client program; official NPCs are counted apart.
#[derive(Debug, Clone, Copy, PartialEq, Eq, Structural)]
pub struct OnlineCounts {
    pub web: u32,
    pub cli: u32,
    pub other: u32,
    pub official_npc: u32,
}

/// Number of players satisfying `f`.
pub open spec fn count_where(players: Seq<Presence>, f: spec_fn(Presence) -> bool) -> nat
    decreases players.len(),
{
    if players.len() == 0 {
        0
    } else {
        count_where(players.drop_last(), f) + if f(players.last()) { 1nat } else { 0nat }
    }
}

pub open spec fn is_web(p: Presence) -> bool {
    !p.is_official_npc && p.client_kind == ClientKind::Web
}

pub open spec fn is_cli(p: Presence) -> bool {
    !p.is_official_npc && p.client_kind == ClientKind::Cli
}

pub open spec fn is_other(p: Presence) -> bool {
    !p.is_official_npc && (p.client_kind == ClientKind::Other || p.client_kind == ClientKind::Unknown)
}

pub open spec fn is_npc(p: Presence) -> bool {
    p.is_official_npc
}

proof fn lemma_counts_partition(players: Seq<Presence>)
    ensures
        count_where(players, |p: Presence| is_web(p)) + count_where(players, |p: Presence| is_cli(p))
            + count_where(players, |p: Presence| is_other(p)) + count_where(players, |p: Presence| is_npc(p))
            == players.len(),
    decreases players.len(),
{
    if players.len() > 0 {
        lemma_counts_partition(players.drop_last());
    }
}

impl OnlineCounts {
    /// Count online players by client program.
    pub fn tally(players: &Vec<Presence>) -> (r: OnlineCounts)
        requires
            players@.len() <= u32::MAX,
        ensures
            r.web == count_where(players@, |p: Presence| is_web(p)),
            r.cli == count_where(players@, |p: Presence| is_cli(p)),
            r.other == count_where(players@, |p: Presence| is_other(p)),
            r.official_npc == count_where(players@, |p: Presence| is_npc(p)),
            r.web + r.cli + r.other + r.official_npc == players@.len(),
    {
        let mut c = OnlineCounts { web: 0, cli: 0, other: 0, official_npc: 0 };
        let mut i: usize = 0;
        while i < players.len()
            invariant
                i <= players@.len(),
                players@.len() <= u32::MAX,
                c.web == count_where(players@.take(i as int), |p: Presence| is_web(p)),
                c.cli == count_where(players@.take(i as int), |p: Presence| is_cli(p)),
                c.other == count_where(players@.take(i as int), |p: Presence| is_other(p)),
                c.official_npc == count_where(players@.take(i as int), |p: Presence| is_npc(p)),
            decreases players.len() - i,
        {
            proof {
                lemma_counts_partition(players@.take(i as int));
                assert(players@.take(i + 1).drop_last() =~= players@.take(i as int));
            }
            let p = players[i];
            if p.is_official_npc {
                c.official_npc = c.official_npc + 1;
            } else {
                match p.client_kind {
                    ClientKind::Web => { c.web = c.web + 1; },
                    ClientKind::Cli => { c.cli = c.cli + 1; },
                    ClientKind::Other | ClientKind::Unknown => { c.other = c.other + 1; },
                }
            }
            i = i + 1;
        }
        proof {
            assert(players@.take(players@.len() as int) =~= players@);
            lemma_counts_partition(players@);
        }
        c
    }

    /// `Online: {total} ({web} web, {cli} cli[, {other} other], {npc} npc)`;
    /// the `other` part only appears when non-zero.
    pub fn describe(&self) -> (r: String)
        requires
            self.web + self.cli + self.other + self.official_npc <= u32::MAX,
        ensures
            r@ == "Online: "@ + dec_digits((self.web + self.cli + self.other + self.official_npc) as nat) + " ("@
                + dec_digits(self.web as nat) + " web, "@ + dec_digits(self.cli as nat) + " cli"@
                + (if self.other > 0 { ", "@ + dec_digits(self.other as nat) + " other"@ } else { Seq::empty() })
                + ", "@ + dec_digits(self.official_npc as nat) + " npc)"@,
    {
        let total = self.web + self.cli + self.other + self.official_npc;
        let mut v: Vec<char> = Vec::new();
        extend_str(&mut v, "Online: ");
        extend_chars(&mut v, &decimal_digits(total as u64));
        extend_str(&mut v, " (");
        extend_chars(&mut v, &decimal_digits(self.web as u64));
        extend_str(&mut v, " web, ");
        extend_chars(&mut v, &decimal_digits(self.cli as u64));
        extend_str(&mut v, " cli");
        let ghost before_other = v@;
        if self.other > 0 {
            extend_str(&mut v, ", ");
            extend_chars(&mut v, &decimal_digits(self.other as u64));
            extend_str(&mut v, " other");
        }
        proof {
            if self.other > 0 {
                assert(v@ =~= before_other + (", "@ + dec_digits(self.other as nat) + " other"@));
            } else {
                assert(v@ =~= before_other + Seq::<char>::empty());
            }
        }
        extend_str(&mut v, ", ");
        extend_chars(&mut v, &decimal_digits(self.official_npc as u64));
        extend_str(&mut v, " npc)");
        let r = string_of(&v);
        proof {
            assert(r@ =~= "Online: "@ + dec_digits((self.web + self.cli + self.other + self.official_npc) as nat) + " ("@
                + dec_digits(self.web as nat) + " web, "@ + dec_digits(self.cli as nat) + " cli"@
                + (if self.other > 0 { ", "@ + dec_digits(self.other as nat) + " other"@ } else { Seq::empty() })
                + ", "@ + dec_digits(self.official_npc as nat) + " npc)"@);
        }
        r
    }
}

/// What a chat line asks for.
#[derive(Debug, PartialEq, Eq)]
pub enum ChatCommand {
    /// `/escape`: return to the world spawn.
    Escape,
    /// `/who`: report online counts to the sender only.
    Who,
    /// `/give <item>`: put an item in the sender's bag.
    Give(String),
    /// Anything else: say it to nearby players.
    Say,
}

/// Classify a chat line: `/escape` and `/who` after trimming; `/give `
/// at the very start (the item id is the trimmed rest); otherwise plain
/// chat.
pub fn parse_chat_command(message: &str) -> (r: ChatCommand)
    ensures
        trim_spec(message@) == "/escape"@ ==> r == ChatCommand::Escape,
        trim_spec(message@) != "/escape"@ && trim_spec(message@) == "/who"@ ==> r == ChatCommand::Who,
        trim_spec(message@) != "/escape"@ && trim_spec(message@) != "/who"@ ==> match r {
            ChatCommand::Give(item) => occurs_at(message@, "/give "@, 0)
                && item@ == trim_spec(message@.subrange(6, message@.len() as int)),
            ChatCommand::Say => !occurs_at(message@, "/give "@, 0),
            _ => false,
        },
{
    let t = trim_str(message);
    if chars_eq_str(&t, "/escape") {
        return ChatCommand::Escape;
    }
    if chars_eq_str(&t, "/who") {
        return ChatCommand::Who;
    }
    let v = chars_of(message);
    let give = chars_of("/give ");
    proof {
        reveal_strlit("/give ");
    }
    if occurs_at_exec(&v, &give, 0) {
        let rest = slice_chars(&v, 6, v.len());
        let item = trim_chars(&rest);
        return ChatCommand::Give(string_of(&item));
    }
    ChatCommand::Say
}

/// Less than `OUT_OF_COMBAT_MS` since the last hit (a clock that went
/// backwards counts as no time).
pub open spec fn in_combat_spec(now_ms: u64, last_combat_at: u64) -> bool {
    (if now_ms >= last_combat_at { now_ms - last_combat_at } else { 0 }) < OUT_OF_COMBAT_MS
}

/// Whether a player is still in combat.
pub fn in_combat(now_ms: u64, last_combat_at: u64) -> (r: bool)
    ensures
        r == in_combat_spec(now_ms, last_combat_at),
{
    let elapsed: u64 = if now_ms >= last_combat_at { now_ms - last_combat_at } else { 0 };
    elapsed < OUT_OF_COMBAT_MS
}

/// The outcome of `/escape` at `now_ms`: refused while the player is in
/// combat, else the player goes back to the world spawn. Also the message
/// the player receives.
pub fn escape_outcome(now_ms: u64, last_combat_at: u64) -> (r: (bool, String))
    ensures
        r.0 == !in_combat_spec(now_ms, last_combat_at),
        r.1@ == (if r.0 { "Escape: returned to the starting point."@ } else { "Escape: not while in combat."@ }),
{
    if in_combat(now_ms, last_combat_at) {
        (false, String::from_str("Escape: not while in combat."))
    } else {
        (true, String::from_str("Escape: returned to the starting point."))
    }
}

/// The reply to `/give {item_id}`, depending on whether the item was given.
pub fn give_reply(item_id: &str, given: bool) -> (r: String)
    ensures
        r@ == (if given { "Gave item: "@ } else { "Unknown item: "@ }) + item_id@,
{
    let head = if given { String::from_str("Gave item: ") } else { String::from_str("Unknown item: ") };
    head.concat(item_id)
}

/// A player stays in combat for exactly `OUT_OF_COMBAT_MS` after a hit:
/// one millisecond before that it still is, from then on it is not.
pub proof fn lemma_combat_lasts_window(last_combat_at: u64, now_ms: u64)
    ensures
        now_ms >= last_combat_at && now_ms - last_combat_at < OUT_OF_COMBAT_MS ==> in_combat_spec(now_ms, last_combat_at),
        now_ms >= last_combat_at && now_ms - last_combat_at >= OUT_OF_COMBAT_MS ==> !in_combat_spec(now_ms, last_combat_at),
        now_ms < last_combat_at ==> in_combat_spec(now_ms, last_combat_at),
{
}

} // verus!
