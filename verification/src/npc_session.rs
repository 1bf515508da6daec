//! How an NPC client sets up its session after logging in: retry the
//! login with account creation when the account is missing, delete the
//! characters that do not match the configuration, create the configured
//! character when none is left, and pick the character to play.
use vstd::prelude::*;

use crate::agent::{condition_spec, parse_condition, ScheduleCondition};
use crate::text::{
    chars_eq_str, chars_of, contains_seq, dec_digits, decimal_digits, extend_chars, find_seq, last_index_of_char,
    last_index_of_char_exec, occurs_at, occurs_at_exec, parse_u32_chars, parse_u32_spec, slice_chars, string_of,
};

verus! {

/// Whether a failed login is retried with `create_account` set: only when
/// the first attempt did not ask for it and the server said the account
/// does not exist.
pub fn retry_with_create_account(create_account: bool, error: &str) -> (r: bool)
    ensures
        r == (!create_account && contains_seq(error@, "Account not found"@)),
{
    if create_account {
        return false;
    }
    let e = chars_of(error);
    let p = chars_of("Account not found");
    find_seq(&e, &p).is_some()
}

/// A character of the account, as the server lists it.
#[derive(Debug, Clone)]
pub struct CharSummary {
    pub id: i64,
    pub name: String,
    /// The character's class, by its number.
    pub class: u8,
}

/// Whether a character differs from the configured name or class (an
/// unset one matches anything).
pub open spec fn mismatches(c: CharSummary, desired_name: Option<Seq<char>>, desired_class: Option<u8>) -> bool {
    (desired_class matches Some(k) && c.class != k) || (desired_name matches Some(n) && c.name@ != n)
}

/// The ids of the mismatching characters, in order.
pub open spec fn deleted_ids(chars: Seq<CharSummary>, dn: Option<Seq<char>>, dc: Option<u8>) -> Seq<i64>
    decreases chars.len(),
{
    if chars.len() == 0 {
        Seq::empty()
    } else {
        let rest = deleted_ids(chars.drop_last(), dn, dc);
        if mismatches(chars.last(), dn, dc) { rest.push(chars.last().id) } else { rest }
    }
}

/// The matching characters, in order.
pub open spec fn kept_chars(chars: Seq<CharSummary>, dn: Option<Seq<char>>, dc: Option<u8>) -> Seq<CharSummary>
    decreases chars.len(),
{
    if chars.len() == 0 {
        Seq::empty()
    } else {
        let rest = kept_chars(chars.drop_last(), dn, dc);
        if mismatches(chars.last(), dn, dc) { rest } else { rest.push(chars.last()) }
    }
}

/// A character to create.
#[derive(Debug)]
pub struct CreatePlan {
    pub name: String,
    /// The configured class; `None` creates the default class (the knight).
    pub class: Option<u8>,
}

/// Which character the session enters.
#[derive(Debug, PartialEq, Eq)]
pub enum EnterPlan {
    /// None: the NPC runs without an LLM, or has no character.
    Nothing,
    /// This existing character.
    Existing(i64),
    /// The character created by the plan, once the server confirms it.
    Created,
}

/// What the session does with the account's characters.
#[derive(Debug)]
pub struct CharacterPlan {
    /// Characters to delete, in order.
    pub delete: Vec<i64>,
    /// Characters that stay.
    pub keep: Vec<CharSummary>,
    pub create: Option<CreatePlan>,
    pub enter: EnterPlan,
}

/// Plan the session's characters: delete those whose class or name
/// differs from the configured one, create the configured character when
/// none is left, and (with an LLM) enter the first remaining character, or
/// the created one.
pub fn plan_characters(
    chars: &Vec<CharSummary>,
    desired_name: Option<&str>,
    desired_class: Option<u8>,
    llm_enabled: bool,
) -> (r: CharacterPlan)
    ensures
        ({
            let dn = match desired_name { Some(n) => Some(n@), None => None };
            &&& r.delete@ == deleted_ids(chars@, dn, desired_class)
            &&& r.keep@.len() == kept_chars(chars@, dn, desired_class).len()
            &&& forall|i: int| 0 <= i < r.keep@.len() ==> {
                let a = #[trigger] r.keep@[i];
                let b = kept_chars(chars@, dn, desired_class)[i];
                a.id == b.id && a.name@ == b.name@ && a.class == b.class
            }
            &&& match r.create {
                Some(c) => r.keep@.len() == 0 && (desired_name matches Some(n) && c.name@ == n@) && c.class == desired_class,
                None => r.keep@.len() > 0 || desired_name is None,
            }
            &&& r.enter == if !llm_enabled {
                EnterPlan::Nothing
            } else if r.keep@.len() > 0 {
                EnterPlan::Existing(r.keep@[0].id)
            } else if r.create is Some {
                EnterPlan::Created
            } else {
                EnterPlan::Nothing
            }
        }),
{
    let ghost dn = match desired_name { Some(n) => Some(n@), None => None::<Seq<char>> };
    let want: Option<Vec<char>> = match desired_name {
        Some(n) => Some(chars_of(n)),
        None => None,
    };
    let mut delete: Vec<i64> = Vec::new();
    let mut keep: Vec<CharSummary> = Vec::new();
    let mut i: usize = 0;
    while i < chars.len()
        invariant
            i <= chars@.len(),
            want matches Some(w) ==> dn == Some(w@),
            want is None ==> dn is None,
            dn == (match desired_name { Some(n) => Some(n@), None => None::<Seq<char>> }),
            delete@ == deleted_ids(chars@.subrange(0, i as int), dn, desired_class),
            keep@.len() == kept_chars(chars@.subrange(0, i as int), dn, desired_class).len(),
            forall|j: int| 0 <= j < keep@.len() ==> {
                let a = #[trigger] keep@[j];
                let b = kept_chars(chars@.subrange(0, i as int), dn, desired_class)[j];
                a.id == b.id && a.name@ == b.name@ && a.class == b.class
            },
        decreases chars.len() - i,
    {
        let c = &chars[i];
        let ghost pre = chars@.subrange(0, i as int);
        proof {
            assert(chars@.subrange(0, i + 1).drop_last() =~= pre);
            assert(chars@.subrange(0, i + 1).last() == chars@[i as int]);
        }
        let class_off = match desired_class {
            Some(k) => c.class != k,
            None => false,
        };
        let name_off = match &want {
            Some(w) => !chars_eq_str(w, c.name.as_str()),
            None => false,
        };
        if class_off || name_off {
            delete.push(c.id);
        } else {
            let copy = CharSummary { id: c.id, name: c.name.clone(), class: c.class };
            keep.push(copy);
        }
        i = i + 1;
    }
    proof {
        assert(chars@.subrange(0, chars@.len() as int) =~= chars@);
    }
    let create = if keep.len() == 0 {
        match desired_name {
            Some(n) => Some(CreatePlan { name: n.to_string(), class: desired_class }),
            None => None,
        }
    } else {
        None
    };
    let enter = if !llm_enabled {
        EnterPlan::Nothing
    } else if keep.len() > 0 {
        EnterPlan::Existing(keep[0].id)
    } else if create.is_some() {
        EnterPlan::Created
    } else {
        EnterPlan::Nothing
    };
    CharacterPlan { delete, keep, create, enter }
}

/// Whether every `at` field of a schedule parses.
pub open spec fn schedule_valid(ats: Seq<String>) -> bool {
    forall|i: int| 0 <= i < ats.len() ==> (#[trigger] condition_spec(ats[i]@)) is Ok
}

/// The conditions of a schedule, checked all at load time: every entry's
/// condition when all parse, otherwise none (the schedule is dropped).
pub fn schedule_conditions(ats: &Vec<String>) -> (r: Option<Vec<ScheduleCondition>>)
    ensures
        r is Some <==> schedule_valid(ats@),
        r matches Some(v) ==> v@.len() == ats@.len()
            && forall|i: int| 0 <= i < v@.len() ==> Ok::<ScheduleCondition, crate::agent::ConditionError>(#[trigger] v@[i]) == condition_spec(ats@[i]@),
{
    let mut v: Vec<ScheduleCondition> = Vec::new();
    let mut i: usize = 0;
    while i < ats.len()
        invariant
            i <= ats@.len(),
            v@.len() == i,
            forall|k: int| 0 <= k < i ==> Ok::<ScheduleCondition, crate::agent::ConditionError>(#[trigger] v@[k]) == condition_spec(ats@[k]@),
        decreases ats.len() - i,
    {
        match parse_condition(ats[i].as_str()) {
            Ok(c) => {
                v.push(c);
            },
            Err(_) => {
                proof {
                    assert(!(condition_spec(ats@[i as int]@) is Ok));
                }
                return None;
            },
        }
        i = i + 1;
    }
    proof {
        assert forall|k: int| 0 <= k < ats@.len() implies (#[trigger] condition_spec(ats@[k]@)) is Ok by {
            assert(Ok::<ScheduleCondition, crate::agent::ConditionError>(v@[k]) == condition_spec(ats@[k]@));
        }
    }
    Some(v)
}

/// `s` with every occurrence of `from` replaced by `to`, scanning left to
/// right without overlaps (`str::replace`).
pub open spec fn replace_all(s: Seq<char>, from: Seq<char>, to: Seq<char>) -> Seq<char>
    decreases s.len(),
{
    if s.len() == 0 {
        s
    } else if from.len() > 0 && occurs_at(s, from, 0) {
        to + replace_all(s.subrange(from.len() as int, s.len() as int), from, to)
    } else {
        seq![s[0]] + replace_all(s.drop_first(), from, to)
    }
}

/// Replace every occurrence of `from` in `s` by `to`.
pub fn replace_chars(s: &Vec<char>, from: &str, to: &str) -> (r: Vec<char>)
    ensures
        r@ == replace_all(s@, from@, to@),
{
    let f = chars_of(from);
    let t = chars_of(to);
    let mut out: Vec<char> = Vec::new();
    let mut i: usize = 0;
    proof {
        assert(s@.subrange(0, s@.len() as int) =~= s@);
    }
    while i < s.len()
        invariant
            i <= s@.len(),
            f@ == from@,
            t@ == to@,
            replace_all(s@, from@, to@) == out@ + replace_all(s@.subrange(i as int, s@.len() as int), from@, to@),
        decreases s.len() - i,
    {
        let ghost rest = s@.subrange(i as int, s@.len() as int);
        if f.len() > 0 && occurs_at_exec(s, &f, i) {
            proof {
                assert(rest.subrange(0, f@.len() as int) =~= s@.subrange(i as int, i + f@.len()));
                assert(occurs_at(rest, f@, 0));
                assert(rest.subrange(f@.len() as int, rest.len() as int) =~= s@.subrange(i + f@.len(), s@.len() as int));
            }
            let ghost before = out@;
            extend_chars(&mut out, &t);
            i = i + f.len();
            proof {
                assert(before + (t@ + replace_all(s@.subrange(i as int, s@.len() as int), from@, to@))
                    =~= out@ + replace_all(s@.subrange(i as int, s@.len() as int), from@, to@));
            }
        } else {
            proof {
                if f@.len() > 0 {
                    assert(!occurs_at(s@, f@, i as int));
                    if occurs_at(rest, f@, 0) {
                        assert(rest.subrange(0, f@.len() as int) =~= s@.subrange(i as int, i + f@.len()));
                        assert(false);
                    }
                }
                assert(rest.drop_first() =~= s@.subrange(i + 1, s@.len() as int));
                assert(rest[0] == s@[i as int]);
            }
            let ghost before = out@;
            out.push(s[i]);
            i = i + 1;
            proof {
                assert(before + (seq![s@[i - 1]] + replace_all(s@.subrange(i as int, s@.len() as int), from@, to@))
                    =~= out@ + replace_all(s@.subrange(i as int, s@.len() as int), from@, to@));
            }
        }
    }
    proof {
        assert(out@ + replace_all(s@.subrange(i as int, s@.len() as int), from@, to@) =~= out@);
    }
    out
}

/// The game server's URL with its WebSocket scheme made HTTP.
pub open spec fn http_url(server_url: Seq<char>) -> Seq<char> {
    replace_all(replace_all(server_url, "wss://"@, "https://"@), "ws://"@, "http://"@)
}

/// The port at the end of an HTTP URL (after its last `:`), if it parses
/// as a `u16`.
pub open spec fn url_port(h: Seq<char>) -> Option<u32> {
    let c = last_index_of_char(h, ':');
    if c < 0 {
        None
    } else {
        match parse_u32_spec(h.subrange(c + 1, h.len() as int)) {
            Some(p) => if p <= 65535 { Some(p) } else { None },
            None => None,
        }
    }
}

/// The REST API's base URL: the server's URL over HTTP, on the next port.
pub open spec fn api_base_url_spec(server_url: Seq<char>) -> Seq<char> {
    let h = http_url(server_url);
    match url_port(h) {
        Some(p) => h.subrange(0, last_index_of_char(h, ':') + 1) + dec_digits((p + 1) as nat),
        None => h,
    }
}

/// The REST API's base URL for a game server URL: `ws://` becomes
/// `http://`, `wss://` becomes `https://`, and a trailing port is bumped
/// by one (the API listens next to the game).
pub fn api_base_url(server_url: &str) -> (r: String)
    requires
        url_port(http_url(server_url@)) != Some(65535u32),
    ensures
        r@ == api_base_url_spec(server_url@),
{
    let u = chars_of(server_url);
    let a = replace_chars(&u, "wss://", "https://");
    let h = replace_chars(&a, "ws://", "http://");
    match last_index_of_char_exec(&h, ':') {
        Some(c) => {
            let tail = slice_chars(&h, c + 1, h.len());
            match parse_u32_chars(&tail) {
                Some(p) => {
                    if p <= 65535 {
                        let mut out = slice_chars(&h, 0, c + 1);
                        let d = decimal_digits((p + 1) as u64);
                        extend_chars(&mut out, &d);
                        string_of(&out)
                    } else {
                        string_of(&h)
                    }
                },
                None => string_of(&h),
            }
        },
        None => string_of(&h),
    }
}

} // verus!
