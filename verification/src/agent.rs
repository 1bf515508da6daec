//! The agent client's decision rules: configuration defaults, NPC
//! schedules, event urgency, and reading the JSON reply out of an LLM's
//! text.
use vstd::prelude::*;

use crate::text::{
    chars_eq_str, chars_of, extend_str, find_first, find_from, index_of_char, index_of_char_from,
    last_index_of_char, last_index_of_char_exec, occurs_at, occurs_at_exec, parse_u32_chars,
    parse_u32_spec, slice_chars, string_of, trim_chars, trim_spec, trim_str,
};

verus! {

/// Which LLM backend drives an NPC.
#[derive(Debug, Clone, Copy, PartialEq, Eq, Structural)]
pub enum LlmType {
    /// No LLM driver (MCP or direct mode).
    Disabled,
    Claude,
    Openrouter,
    Codex,
}

impl LlmType {
    /// The backend when the configuration names none.
    pub fn default_type() -> (r: LlmType)
        ensures
            r == LlmType::Disabled,
    {
        LlmType::Disabled
    }
}

/// How the client proves who it is to the game server.
#[derive(Debug, Clone, Copy, PartialEq, Eq, Structural)]
pub enum AuthMode {
    /// Shared secret from the server's `data/npc_token`.
    NpcToken,
    /// The runner's own Google account.
    Google,
}

impl AuthMode {
    /// The mode when the configuration names none.
    pub fn default_mode() -> (r: AuthMode)
        ensures
            r == AuthMode::NpcToken,
    {
        AuthMode::NpcToken
    }
}

/// Default minimum interval between LLM prompts, in seconds.
pub fn default_min_interval_secs() -> (r: u64)
    ensures
        r == 5,
{
    5
}

/// Default debounce window for batching urgent events, in seconds.
pub fn default_debounce_secs() -> (r: u64)
    ensures
        r == 2,
{
    2
}

/// Default interval between prompts while nothing happens, in seconds.
pub fn default_idle_interval_secs() -> (r: u64)
    ensures
        r == 3600,
{
    3600
}

/// Default window during which recent activity keeps prompting, in
/// seconds.
pub fn default_activity_window_secs() -> (r: u64)
    ensures
        r == 30,
{
    30
}

/// Default cap on concurrent LLM calls across NPCs.
pub fn default_max_concurrent() -> (r: usize)
    ensures
        r == 2,
{
    2
}

/// Default terrain source.
pub fn default_terrain() -> (r: String)
    ensures
        r@ == "../data/terrain"@,
{
    String::from_str("../data/terrain")
}

/// Default disk cache for tiles fetched over HTTP.
pub fn default_terrain_cache() -> (r: String)
    ensures
        r@ == "data/cache/height"@,
{
    String::from_str("data/cache/height")
}

/// Whether a terrain source is an `http://` or `https://` origin.
pub fn is_http_source(terrain: &str) -> (r: bool)
    ensures
        r == (occurs_at(terrain@, "http://"@, 0) || occurs_at(terrain@, "https://"@, 0)),
{
    let v = chars_of(terrain);
    occurs_at_exec(&v, &chars_of("http://"), 0) || occurs_at_exec(&v, &chars_of("https://"), 0)
}

/// Settings of the command-line LLM backend.
#[derive(Debug, Clone)]
pub struct ClaudeConfig {
    pub model: String,
    pub min_interval_secs: u64,
    pub debounce_secs: u64,
    pub system_prompt_file: String,
}

/// Default model of the command-line backend.
pub fn default_model() -> (r: String)
    ensures
        r@ == "sonnet"@,
{
    String::from_str("sonnet")
}

/// Default minimum interval between prompts of one backend, in seconds.
pub fn default_min_interval() -> (r: u64)
    ensures
        r == 5,
{
    5
}

/// Default debounce window of one backend, in seconds.
pub fn default_debounce() -> (r: u64)
    ensures
        r == 2,
{
    2
}

/// Default system prompt file of one backend.
pub fn default_system_prompt_file() -> (r: String)
    ensures
        r@ == "data/system_prompt.txt"@,
{
    String::from_str("data/system_prompt.txt")
}

/// Default model of the OpenRouter backend.
pub fn default_openrouter_model() -> (r: String)
    ensures
        r@ == "openrouter/hunter-alpha"@,
{
    String::from_str("openrouter/hunter-alpha")
}

/// Default cap on tokens in one OpenRouter reply.
pub fn default_max_tokens() -> (r: u32)
    ensures
        r == 1024,
{
    1024
}

impl Default for ClaudeConfig {
    /// The settings when the configuration gives none: the `sonnet` model,
    /// 5 s between prompts, a 2 s debounce, `data/system_prompt.txt`.
    fn default() -> (r: ClaudeConfig)
        ensures
            r.model@ == "sonnet"@,
            r.min_interval_secs == 5,
            r.debounce_secs == 2,
            r.system_prompt_file@ == "data/system_prompt.txt"@,
    {
        ClaudeConfig {
            model: default_model(),
            min_interval_secs: default_min_interval(),
            debounce_secs: default_debounce(),
            system_prompt_file: default_system_prompt_file(),
        }
    }
}

/// Parameters of the `enter_game` tool.
#[derive(Debug, Clone, Copy, PartialEq, Eq)]
pub struct EnterGameParams {
    pub character_id: i64,
}

/// Parameters of the `create_character` tool.
#[derive(Debug, Clone)]
pub struct CreateCharacterParams {
    pub character_name: String,
    pub character_class: String,
}

/// Parameters of the `say` tool.
#[derive(Debug, Clone)]
pub struct SayParams {
    pub message: String,
}

/// How urgently an event needs the LLM's attention.
#[derive(Debug, Clone, Copy, PartialEq, Eq, Structural)]
pub enum EventUrgency {
    /// Processed immediately (damage to self, death, direct chat, kick).
    Urgent,
    /// Batched with the next prompt.
    Routine,
    /// Never sent to the LLM.
    Noise,
}

/// The kinds of server events the urgency rule distinguishes.
#[derive(Debug, Clone, Copy, PartialEq, Eq, Structural)]
pub enum EventKind {
    MonsterAttackedPlayer,
    PlayerDead,
    ChatMessage,
    Kicked,
    PlayerAttacked,
    /// World state changes (joins, spawns, XP, health, torches...).
    WorldChange,
    /// High-frequency movement, time sync and housing updates.
    Background,
    /// Auth and character events, and anything else.
    Other,
}

/// The urgency of an event, given whether it concerns this agent's own
/// player (`about_self`).
pub open spec fn urgency_spec(kind: EventKind, about_self: bool) -> EventUrgency {
    match kind {
        EventKind::MonsterAttackedPlayer => if about_self { EventUrgency::Urgent } else { EventUrgency::Routine },
        EventKind::PlayerDead => if about_self { EventUrgency::Urgent } else { EventUrgency::Routine },
        EventKind::ChatMessage => if !about_self { EventUrgency::Urgent } else { EventUrgency::Noise },
        EventKind::Kicked => EventUrgency::Urgent,
        EventKind::PlayerAttacked => if !about_self { EventUrgency::Urgent } else { EventUrgency::Routine },
        EventKind::WorldChange => EventUrgency::Routine,
        EventKind::Background => EventUrgency::Noise,
        EventKind::Other => EventUrgency::Routine,
    }
}

/// Classify how urgent an event is: being attacked or dying is urgent for
/// oneself, chat from others and another player's attack are urgent, a
/// kick is always urgent; movement and housing chatter is noise.
pub fn classify_event(self_player_id: Option<&str>, kind: EventKind, subject_player_id: Option<&str>) -> (r: EventUrgency)
    ensures
        r == urgency_spec(kind, match (self_player_id, subject_player_id) {
            (Some(a), Some(b)) => a@ == b@,
            _ => false,
        }),
{
    let about_self = match (self_player_id, subject_player_id) {
        (Some(a), Some(b)) => crate::text::chars_eq(&chars_of(a), &chars_of(b)),
        _ => false,
    };
    match kind {
        EventKind::MonsterAttackedPlayer => if about_self { EventUrgency::Urgent } else { EventUrgency::Routine },
        EventKind::PlayerDead => if about_self { EventUrgency::Urgent } else { EventUrgency::Routine },
        EventKind::ChatMessage => if !about_self { EventUrgency::Urgent } else { EventUrgency::Noise },
        EventKind::Kicked => EventUrgency::Urgent,
        EventKind::PlayerAttacked => if !about_self { EventUrgency::Urgent } else { EventUrgency::Routine },
        EventKind::WorldChange => EventUrgency::Routine,
        EventKind::Background => EventUrgency::Noise,
        EventKind::Other => EventUrgency::Routine,
    }
}

/// When a schedule entry applies.
#[derive(Debug, Clone, Copy, PartialEq, Eq, Structural)]
pub enum ScheduleCondition {
    Day,
    Night,
    Time { hour: u32, minute: u32 },
    /// Fires every hour at the given minute (`*:MM`).
    Recurring { minute: u32 },
}

/// Why a schedule condition could not be parsed.
#[derive(Debug, Clone, Copy, PartialEq, Eq, Structural)]
pub enum ConditionError {
    /// No `:` in a time condition.
    Invalid,
    /// The minute is not a `u32`.
    InvalidMinute,
    /// The hour is neither `*` nor a `u32`.
    InvalidHour,
}

/// The condition an `at` field denotes: `day`, `night`, `H:MM`/`HH:MM`,
/// or `*:MM`; hour and minute are trimmed and parsed as `u32`.
pub open spec fn condition_spec(at: Seq<char>) -> Result<ScheduleCondition, ConditionError> {
    if at == "day"@ {
        Ok(ScheduleCondition::Day)
    } else if at == "night"@ {
        Ok(ScheduleCondition::Night)
    } else {
        let c = index_of_char(at, ':');
        if c < 0 {
            Err(ConditionError::Invalid)
        } else {
            let h = trim_spec(at.subrange(0, c));
            let m = trim_spec(at.subrange(c + 1, at.len() as int));
            match parse_u32_spec(m) {
                None => Err(ConditionError::InvalidMinute),
                Some(minute) => if h == "*"@ {
                    Ok(ScheduleCondition::Recurring { minute })
                } else {
                    match parse_u32_spec(h) {
                        None => Err(ConditionError::InvalidHour),
                        Some(hour) => Ok(ScheduleCondition::Time { hour, minute }),
                    }
                },
            }
        }
    }
}

impl ConditionError {
    /// The error message for the given `at` text.
    pub fn message(&self, at: &str) -> (r: String)
        ensures
            r@ == (match *self {
                ConditionError::Invalid => "invalid schedule condition: "@,
                ConditionError::InvalidMinute => "invalid minute in: "@,
                ConditionError::InvalidHour => "invalid hour in: "@,
            }) + at@,
    {
        let head = match self {
            ConditionError::Invalid => String::from_str("invalid schedule condition: "),
            ConditionError::InvalidMinute => String::from_str("invalid minute in: "),
            ConditionError::InvalidHour => String::from_str("invalid hour in: "),
        };
        head.concat(at)
    }
}

/// Parse the `at` field of a schedule entry.
pub fn parse_condition(at: &str) -> (r: Result<ScheduleCondition, ConditionError>)
    ensures
        r == condition_spec(at@),
{
    let v = chars_of(at);
    if chars_eq_str(&v, "day") {
        return Ok(ScheduleCondition::Day);
    }
    if chars_eq_str(&v, "night") {
        return Ok(ScheduleCondition::Night);
    }
    proof {
        assert(v@.subrange(0, v@.len() as int) =~= v@);
    }
    let c = match index_of_char_from(&v, ':', 0) {
        Some(c) => c,
        None => return Err(ConditionError::Invalid),
    };
    let h = trim_chars(&slice_chars(&v, 0, c));
    let m = trim_chars(&slice_chars(&v, c + 1, v.len()));
    let minute = match parse_u32_chars(&m) {
        Some(x) => x,
        None => return Err(ConditionError::InvalidMinute),
    };
    if chars_eq_str(&h, "*") {
        return Ok(ScheduleCondition::Recurring { minute });
    }
    match parse_u32_chars(&h) {
        Some(hour) => Ok(ScheduleCondition::Time { hour, minute }),
        None => Err(ConditionError::InvalidHour),
    }
}

/// Whether a condition holds at the given game time.
pub open spec fn condition_matches(c: ScheduleCondition, is_night: Option<bool>, game_hour: Option<u32>, game_minute: Option<u32>) -> bool {
    match c {
        ScheduleCondition::Day => is_night == Some(false),
        ScheduleCondition::Night => is_night == Some(true),
        ScheduleCondition::Time { hour, minute } => match (game_hour, game_minute) {
            (Some(gh), Some(gm)) => gh * 60 + gm >= hour * 60 + minute,
            _ => false,
        },
        ScheduleCondition::Recurring { minute } => match (game_hour, game_minute) {
            (Some(_), Some(gm)) => gm >= minute,
            _ => false,
        },
    }
}

/// Whether the time arithmetic of a condition stays within `u32`.
pub open spec fn condition_in_range(c: Option<ScheduleCondition>) -> bool {
    match c {
        Some(ScheduleCondition::Time { hour, minute }) => hour * 60 + minute <= u32::MAX,
        _ => true,
    }
}

/// The last entry (by index) among the first `n` whose condition holds.
pub open spec fn last_match(conditions: Seq<Option<ScheduleCondition>>, is_night: Option<bool>, game_hour: Option<u32>, game_minute: Option<u32>, n: int) -> Option<int>
    decreases n,
{
    if n <= 0 {
        None
    } else {
        match conditions[n - 1] {
            Some(c) => if condition_matches(c, is_night, game_hour, game_minute) {
                Some(n - 1)
            } else {
                last_match(conditions, is_night, game_hour, game_minute, n - 1)
            },
            None => last_match(conditions, is_night, game_hour, game_minute, n - 1),
        }
    }
}

/// What `last_match` finds is an entry among the first `n` whose
/// condition holds.
pub proof fn lemma_last_match_found(conditions: Seq<Option<ScheduleCondition>>, is_night: Option<bool>, game_hour: Option<u32>, game_minute: Option<u32>, n: int)
    ensures
        match last_match(conditions, is_night, game_hour, game_minute, n) {
            None => true,
            Some(i) => 0 <= i < n && conditions[i] is Some
                && condition_matches(conditions[i]->0, is_night, game_hour, game_minute),
        },
    decreases n,
{
    if n > 0 {
        lemma_last_match_found(conditions, is_night, game_hour, game_minute, n - 1);
    }
}

/// Which schedule entry is active: the last one whose condition holds.
/// Also returns the game hour when that entry is recurring, so a recurring
/// entry re-triggers each hour.
pub fn resolve_active_schedule(
    conditions: &Vec<Option<ScheduleCondition>>,
    is_night: Option<bool>,
    game_hour: Option<u32>,
    game_minute: Option<u32>,
) -> (r: (Option<usize>, Option<u32>))
    requires
        forall|i: int| 0 <= i < conditions@.len() ==> condition_in_range(#[trigger] conditions@[i]),
        match (game_hour, game_minute) {
            (Some(h), Some(m)) => h * 60 + m <= u32::MAX,
            _ => true,
        },
    ensures
        match last_match(conditions@, is_night, game_hour, game_minute, conditions@.len() as int) {
            None => r == (None::<usize>, None::<u32>),
            Some(i) => r.0 == Some(i as usize) && r.1 == (match conditions@[i] {
                Some(ScheduleCondition::Recurring { .. }) => game_hour,
                _ => None::<u32>,
            }),
        },
{
    let mut best: Option<usize> = None;
    let mut i: usize = 0;
    while i < conditions.len()
        invariant
            i <= conditions@.len(),
            forall|k: int| 0 <= k < conditions@.len() ==> condition_in_range(#[trigger] conditions@[k]),
            match (game_hour, game_minute) {
                (Some(h), Some(m)) => h * 60 + m <= u32::MAX,
                _ => true,
            },
            match last_match(conditions@, is_night, game_hour, game_minute, i as int) {
                None => best.is_none(),
                Some(k) => best == Some(k as usize),
            },
        decreases conditions.len() - i,
    {
        let matched = match conditions[i] {
            None => false,
            Some(c) => {
                match c {
                    ScheduleCondition::Day => is_night == Some(false),
                    ScheduleCondition::Night => is_night == Some(true),
                    ScheduleCondition::Time { hour, minute } => match (game_hour, game_minute) {
                        (Some(gh), Some(gm)) => gh * 60 + gm >= hour * 60 + minute,
                        _ => false,
                    },
                    ScheduleCondition::Recurring { minute } => match (game_hour, game_minute) {
                        (Some(_), Some(gm)) => gm >= minute,
                        _ => false,
                    },
                }
            },
        };
        if matched {
            best = Some(i);
        }
        i = i + 1;
    }
    proof {
        lemma_last_match_found(conditions@, is_night, game_hour, game_minute, conditions@.len() as int);
    }
    let hour_for_recurring = match best {
        Some(b) => match conditions[b] {
            Some(ScheduleCondition::Recurring { .. }) => game_hour,
            _ => None,
        },
        None => None,
    };
    (best, hour_for_recurring)
}

/// The system prompt file of the configured backend (`None` without one).
pub fn system_prompt_file_for(llm: LlmType, claude: &str, openrouter: &str, codex: &str) -> (r: Option<String>)
    ensures
        match llm {
            LlmType::Claude => (r matches Some(f) && f@ == claude@),
            LlmType::Openrouter => (r matches Some(f) && f@ == openrouter@),
            LlmType::Codex => (r matches Some(f) && f@ == codex@),
            LlmType::Disabled => r is None,
        },
{
    match llm {
        LlmType::Claude => Some(String::from_str(claude)),
        LlmType::Openrouter => Some(String::from_str(openrouter)),
        LlmType::Codex => Some(String::from_str(codex)),
        LlmType::Disabled => None,
    }
}

/// The three-tier system prompt: the template, then the NPC's instance
/// prompt if it has one, then its memories under a heading when the memory
/// file holds more than whitespace; parts are separated by a blank line.
pub open spec fn system_prompt_spec(template: Seq<char>, instance: Option<Seq<char>>, memory: Option<Seq<char>>) -> Seq<char> {
    let with_instance = match instance {
        Some(i) => template + "\n\n"@ + i,
        None => template,
    };
    match memory {
        Some(m) => if trim_spec(m).len() > 0 { with_instance + "\n\n"@ + "=== YOUR MEMORIES ===\n"@ + m } else { with_instance },
        None => with_instance,
    }
}

/// Compose the three-tier system prompt from the texts of its files.
pub fn compose_system_prompt(template: &str, instance: Option<&str>, memory: Option<&str>) -> (r: String)
    ensures
        r@ == system_prompt_spec(template@, match instance { Some(i) => Some(i@), None => None },
            match memory { Some(m) => Some(m@), None => None }),
{
    let mut v: Vec<char> = chars_of(template);
    if let Some(i) = instance {
        extend_str(&mut v, "\n\n");
        extend_str(&mut v, i);
    }
    let ghost with_instance = v@;
    if let Some(m) = memory {
        if trim_str(m).len() > 0 {
            extend_str(&mut v, "\n\n");
            extend_str(&mut v, "=== YOUR MEMORIES ===\n");
            extend_str(&mut v, m);
        }
    }
    proof {
        assert(v@ =~= system_prompt_spec(template@, match instance { Some(i) => Some(i@), None => None },
            match memory { Some(m) => Some(m@), None => None }));
    }
    string_of(&v)
}

/// What the character-class table says of a configured class name.
#[derive(Debug, Clone, Copy, PartialEq, Eq, Structural)]
pub enum ClassCheck {
    /// No class has that name.
    Unknown,
    /// A class only operators may give (merchant, guard...).
    NotSelectable,
    /// A class players may pick.
    Selectable,
}

/// What the Google-mode check reads of one `[[npcs]]` entry: its registry
/// id, its character class (with what the class table says of it) and its
/// character name.
#[derive(Debug, Clone)]
pub struct GoogleModeNpc {
    pub id: Option<String>,
    pub character_class: Option<(String, ClassCheck)>,
    pub character_name: Option<String>,
}

/// Why an NPC entry cannot run under Google sign-in.
#[derive(Debug, Clone, Copy, PartialEq, Eq, Structural)]
pub enum GoogleModeFailure {
    /// It is a registry (operator) NPC.
    OperatorNpc,
    /// Its class is unknown.
    UnknownClass,
    /// Its class is not selectable by players.
    NotSelectable,
    /// It has no character name.
    MissingCharacterName,
}

/// The first failing check of one entry, in the order: registry id,
/// class, character name.
pub open spec fn npc_failure(n: GoogleModeNpc) -> Option<GoogleModeFailure> {
    if n.id is Some {
        Some(GoogleModeFailure::OperatorNpc)
    } else if n.character_class matches Some((_, ClassCheck::Unknown)) {
        Some(GoogleModeFailure::UnknownClass)
    } else if n.character_class matches Some((_, ClassCheck::NotSelectable)) {
        Some(GoogleModeFailure::NotSelectable)
    } else if n.character_name is None {
        Some(GoogleModeFailure::MissingCharacterName)
    } else {
        None
    }
}

/// The first entry among the first `k` that fails, with its failure.
pub open spec fn first_google_mode_failure(npcs: Seq<GoogleModeNpc>, k: int) -> Option<(int, GoogleModeFailure)>
    decreases k,
{
    if k <= 0 {
        None
    } else {
        match first_google_mode_failure(npcs, k - 1) {
            Some(f) => Some(f),
            None => match npc_failure(npcs[k - 1]) {
                Some(f) => Some((k - 1, f)),
                None => None,
            },
        }
    }
}

proof fn lemma_first_failure_stable(npcs: Seq<GoogleModeNpc>, k: int, m: int)
    requires
        0 <= k <= m,
        first_google_mode_failure(npcs, k) is Some,
    ensures
        first_google_mode_failure(npcs, m) == first_google_mode_failure(npcs, k),
    decreases m - k,
{
    if m > k {
        lemma_first_failure_stable(npcs, k, m - 1);
    }
}

/// Under `[auth] mode = "google"` every NPC entry must be a plain player
/// agent: no registry id, a known class that players may pick (when one
/// is given), and a character name. The first offending entry is reported
/// with its failure.
pub fn check_google_mode_config(npcs: &Vec<GoogleModeNpc>) -> (r: Result<(), (usize, GoogleModeFailure)>)
    ensures
        match first_google_mode_failure(npcs@, npcs@.len() as int) {
            None => r is Ok,
            Some((i, f)) => r == Err::<(), (usize, GoogleModeFailure)>((i as usize, f)),
        },
{
    let mut i: usize = 0;
    while i < npcs.len()
        invariant
            i <= npcs@.len(),
            first_google_mode_failure(npcs@, i as int) is None,
        decreases npcs.len() - i,
    {
        let n = &npcs[i];
        let failure: Option<GoogleModeFailure> = if n.id.is_some() {
            Some(GoogleModeFailure::OperatorNpc)
        } else {
            match &n.character_class {
                Some((_, ClassCheck::Unknown)) => Some(GoogleModeFailure::UnknownClass),
                Some((_, ClassCheck::NotSelectable)) => Some(GoogleModeFailure::NotSelectable),
                _ => if n.character_name.is_none() { Some(GoogleModeFailure::MissingCharacterName) } else { None },
            }
        };
        if let Some(f) = failure {
            proof {
                assert(npc_failure(npcs@[i as int]) == Some(f));
                assert(first_google_mode_failure(npcs@, i + 1) == Some((i as int, f)));
                lemma_first_failure_stable(npcs@, i + 1, npcs@.len() as int);
            }
            return Err((i, f));
        }
        assert(npc_failure(npcs@[i as int]) is None);
        i = i + 1;
    }
    Ok(())
}

/// The error message for a failing entry; `class_debug` is the entry's
/// class name as Rust's `{:?}` renders it (used for an unknown class).
pub open spec fn google_mode_message_spec(n: GoogleModeNpc, f: GoogleModeFailure, class_debug: Seq<char>) -> Seq<char> {
    match f {
        GoogleModeFailure::OperatorNpc => "[[npcs]] id = \""@ + (match n.id { Some(i) => i@, None => Seq::empty() })
            + "\" is an operator NPC and cannot run under [auth] mode = \"google\"; give character_name/character_class instead"@,
        GoogleModeFailure::UnknownClass => "unknown character_class "@ + class_debug,
        GoogleModeFailure::NotSelectable => "character_class = \""@
            + (match n.character_class { Some((c, _)) => c@, None => Seq::empty() }) + "\" is not selectable by players"@,
        GoogleModeFailure::MissingCharacterName => "[auth] mode = \"google\" needs a character_name in every [[npcs]]"@,
    }
}

/// The error message for a failing entry.
pub fn google_mode_message(n: &GoogleModeNpc, f: GoogleModeFailure, class_debug: &str) -> (r: String)
    ensures
        r@ == google_mode_message_spec(*n, f, class_debug@),
{
    let mut v: Vec<char> = Vec::new();
    match f {
        GoogleModeFailure::OperatorNpc => {
            extend_str(&mut v, "[[npcs]] id = \"");
            if let Some(id) = &n.id {
                extend_str(&mut v, id.as_str());
            }
            extend_str(&mut v, "\" is an operator NPC and cannot run under [auth] mode = \"google\"; give character_name/character_class instead");
        },
        GoogleModeFailure::UnknownClass => {
            extend_str(&mut v, "unknown character_class ");
            extend_str(&mut v, class_debug);
        },
        GoogleModeFailure::NotSelectable => {
            extend_str(&mut v, "character_class = \"");
            if let Some((c, _)) = &n.character_class {
                extend_str(&mut v, c.as_str());
            }
            extend_str(&mut v, "\" is not selectable by players");
        },
        GoogleModeFailure::MissingCharacterName => {
            extend_str(&mut v, "[auth] mode = \"google\" needs a character_name in every [[npcs]]");
        },
    }
    proof {
        assert(v@ =~= google_mode_message_spec(*n, f, class_debug@));
    }
    string_of(&v)
}

/// The text between the first fence opened by `open` and the next
/// closing triple backtick, trimmed; `None` when there is no such fence.
pub open spec fn fenced_block(t: Seq<char>, open: Seq<char>) -> Option<Seq<char>> {
    let a = find_from(t, open, 0);
    let after = t.subrange(a + open.len(), t.len() as int);
    let e = find_from(after, "```"@, 0);
    if a >= 0 && e >= 0 { Some(trim_spec(after.subrange(0, e))) } else { None }
}

/// The JSON part of an LLM reply: the trimmed reply's first ```` ```json ````
/// block, else its first ```` ``` ```` block, else the span from its first
/// `{` to its last `}`, else the whole trimmed reply.
pub open spec fn extract_json_spec(text: Seq<char>) -> Seq<char> {
    let t = trim_spec(text);
    match fenced_block(t, "```json"@) {
        Some(b) => b,
        None => match fenced_block(t, "```"@) {
            Some(b) => b,
            None => {
                let s = index_of_char(t, '{');
                let e = last_index_of_char(t, '}');
                if s >= 0 && e >= 0 { t.subrange(s, e + 1) } else { t }
            },
        },
    }
}

/// Whether the brace span is well formed when it is used: a reply whose
/// last `}` comes more than one character before its first `{` has no
/// span to return.
pub open spec fn extract_json_defined(text: Seq<char>) -> bool {
    let t = trim_spec(text);
    fenced_block(t, "```json"@) is None && fenced_block(t, "```"@) is None
        && index_of_char(t, '{') >= 0 && last_index_of_char(t, '}') >= 0
        ==> index_of_char(t, '{') <= last_index_of_char(t, '}') + 1
}

fn fenced_block_exec(t: &Vec<char>, open: &str) -> (r: Option<Vec<char>>)
    ensures
        match r {
            Some(b) => fenced_block(t@, open@) == Some(b@),
            None => fenced_block(t@, open@) is None,
        },
{
    let o = chars_of(open);
    let a = match find_first(t, &o) {
        Some(a) => a,
        None => return None,
    };
    proof {
        crate::text::lemma_find_from_bounds(t@, o@, 0);
        assert(occurs_at(t@, o@, a as int));
        assert(a + o@.len() <= t@.len());
    }
    let olen = o.len();
    assert(a + olen <= t.len());
    let after = slice_chars(t, a + olen, t.len());
    let close = chars_of("```");
    match find_first(&after, &close) {
        Some(e) => {
            proof {
                crate::text::lemma_find_from_bounds(after@, close@, 0);
            }
            Some(trim_chars(&slice_chars(&after, 0, e)))
        },
        None => None,
    }
}

/// Pull the JSON out of an LLM reply that may wrap it in a fenced code
/// block or in prose.
pub fn extract_json(text: &str) -> (r: String)
    requires
        extract_json_defined(text@),
    ensures
        r@ == extract_json_spec(text@),
{
    let t = trim_str(text);
    if let Some(b) = fenced_block_exec(&t, "```json") {
        return string_of(&b);
    }
    if let Some(b) = fenced_block_exec(&t, "```") {
        return string_of(&b);
    }
    proof {
        assert(t@.subrange(0, t@.len() as int) =~= t@);
    }
    if let Some(s) = index_of_char_from(&t, '{', 0) {
        if let Some(e) = last_index_of_char_exec(&t, '}') {
            return string_of(&slice_chars(&t, s, e + 1));
        }
    }
    string_of(&t)
}

} // verus!
