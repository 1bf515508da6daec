//! When the NPC client prompts its LLM. Every wake-up of the driver loop is
//! an event for `driver_step`, which returns the new timers and what the
//! loop does next. Times are milliseconds on a monotonic clock.
use vstd::prelude::*;

use crate::agent::EventUrgency;

verus! {

/// How soon a prompt is served, most urgent first.
#[derive(Debug, Clone, Copy, PartialEq, Eq, Structural)]
pub enum LlmPriority {
    Urgent,
    Routine,
    Idle,
}

/// Position of a priority, most urgent lowest.
pub open spec fn rank(p: LlmPriority) -> int {
    match p {
        LlmPriority::Urgent => 0,
        LlmPriority::Routine => 1,
        LlmPriority::Idle => 2,
    }
}

/// The more urgent of two priorities.
pub open spec fn more_urgent(a: LlmPriority, b: LlmPriority) -> LlmPriority {
    if rank(b) < rank(a) { b } else { a }
}

/// The prompt priority an event's urgency asks for: noise asks for none.
pub open spec fn priority_of(u: EventUrgency) -> LlmPriority {
    match u {
        EventUrgency::Urgent => LlmPriority::Urgent,
        EventUrgency::Routine => LlmPriority::Routine,
        EventUrgency::Noise => LlmPriority::Idle,
    }
}

/// The most urgent of `p` and the priorities of `us`.
pub open spec fn fold_priority(p: LlmPriority, us: Seq<EventUrgency>) -> LlmPriority
    decreases us.len(),
{
    if us.len() == 0 {
        p
    } else {
        more_urgent(fold_priority(p, us.drop_last()), priority_of(us.last()))
    }
}

/// Milliseconds from `t` to `now`, 0 if `t` is later.
pub open spec fn elapsed(now: u64, t: u64) -> u64 {
    if now >= t { (now - t) as u64 } else { 0 }
}

/// The driver's configured intervals, in ms.
#[derive(Debug, Clone, Copy, PartialEq, Eq, Structural)]
pub struct DriverIntervals {
    /// Least time between two prompts.
    pub min_interval: u64,
    /// Wait after a prompt is wanted before it is sent, to batch events.
    pub debounce: u64,
    /// Time between prompts when nothing is happening.
    pub idle_interval: u64,
    /// How long after chat or combat the driver counts as active.
    pub activity_window: u64,
}

/// The driver's timers.
#[derive(Debug, Clone, Copy, PartialEq, Eq, Structural)]
pub struct DriverTimers {
    pub last_prompt_at: u64,
    /// Since when a prompt is wanted.
    pub prompt_pending_since: Option<u64>,
    pub last_activity_at: u64,
    /// The most urgent priority asked for since the last prompt.
    pub pending_urgency: LlmPriority,
    /// A prompt has been submitted and its reply has not arrived.
    pub in_flight: bool,
}

/// What woke the driver.
#[derive(Debug, Clone)]
pub enum DriverEvent {
    /// An urgent event arrived.
    UrgentNotified { now: u64 },
    /// The submitted prompt finished (answered or failed).
    LlmDone { now: u64 },
    /// A wake-up of the loop; `in_combat` says whether an attack target is set.
    Tick { now: u64, in_combat: bool },
    /// The events drained for a prompt: `skip` when the NPC sleeps or no
    /// human player is near, the urgency of each drained server event, and
    /// whether any agent event was drained.
    Drained { skip: bool, urgencies: Vec<EventUrgency>, agent_events: bool },
}

/// What the loop does next.
#[derive(Debug, Clone, Copy, PartialEq, Eq, Structural)]
pub enum DriverAction {
    /// Nothing until the next wake-up.
    Wait,
    /// Drain the buffered events and answer with `Drained`.
    Drain,
    /// Build the prompt from the drained events and submit it.
    Submit(LlmPriority),
}

/// Whether the driver counts as active (a target, or recent activity).
pub open spec fn is_active(cfg: DriverIntervals, s: DriverTimers, now: u64, in_combat: bool) -> bool {
    in_combat || elapsed(now, s.last_activity_at) < cfg.activity_window
}

/// The timers after a tick opens a prompt window when the interval has
/// passed.
pub open spec fn opened(cfg: DriverIntervals, s: DriverTimers, now: u64, in_combat: bool) -> DriverTimers {
    let active = is_active(cfg, s, now, in_combat);
    let interval = if active { cfg.min_interval } else { cfg.idle_interval };
    if s.prompt_pending_since is None && elapsed(now, s.last_prompt_at) >= interval {
        DriverTimers {
            prompt_pending_since: Some(now),
            pending_urgency: if s.pending_urgency == LlmPriority::Idle && active { LlmPriority::Routine } else { s.pending_urgency },
            ..s
        }
    } else {
        s
    }
}

/// Whether a prompt is due at `now`: wanted for at least the debounce time
/// and the minimum interval passed since the last prompt.
pub open spec fn prompt_due(cfg: DriverIntervals, s: DriverTimers, now: u64) -> bool {
    &&& s.prompt_pending_since matches Some(t)
    &&& elapsed(now, t) >= cfg.debounce
    &&& elapsed(now, s.last_prompt_at) >= cfg.min_interval
}

fn elapsed_exec(now: u64, t: u64) -> (r: u64)
    ensures
        r == elapsed(now, t),
{
    if now >= t { now - t } else { 0 }
}

fn more_urgent_exec(a: LlmPriority, b: LlmPriority) -> (r: LlmPriority)
    ensures
        r == more_urgent(a, b),
{
    let rb: u8 = match b { LlmPriority::Urgent => 0, LlmPriority::Routine => 1, LlmPriority::Idle => 2 };
    let ra: u8 = match a { LlmPriority::Urgent => 0, LlmPriority::Routine => 1, LlmPriority::Idle => 2 };
    if rb < ra { b } else { a }
}

/// The priority of a prompt: the most urgent of `pending` and of the
/// drained events' urgencies.
pub fn prompt_priority(pending: LlmPriority, urgencies: &Vec<EventUrgency>) -> (r: LlmPriority)
    ensures
        r == fold_priority(pending, urgencies@),
{
    let mut p = pending;
    let mut i: usize = 0;
    while i < urgencies.len()
        invariant
            i <= urgencies@.len(),
            p == fold_priority(pending, urgencies@.subrange(0, i as int)),
        decreases urgencies.len() - i,
    {
        proof {
            assert(urgencies@.subrange(0, i + 1).drop_last() =~= urgencies@.subrange(0, i as int));
        }
        let q = match urgencies[i] {
            EventUrgency::Urgent => LlmPriority::Urgent,
            EventUrgency::Routine => LlmPriority::Routine,
            EventUrgency::Noise => LlmPriority::Idle,
        };
        p = more_urgent_exec(p, q);
        i = i + 1;
    }
    proof {
        assert(urgencies@.subrange(0, urgencies@.len() as int) =~= urgencies@);
    }
    p
}

/// One step of the driver. An urgent event marks activity, raises the
/// pending priority to urgent and opens a prompt window; a finished prompt
/// restarts the interval. A tick with no prompt in flight opens a window
/// once the interval (the short one while active, else the idle one) has
/// passed, and asks for a drain once the window is older than the debounce
/// time and the minimum interval has passed. The drained events are
/// prompted at the most urgent of their priorities, unless the prompt is
/// skipped or there is nothing to say; either way the pending priority
/// resets.
pub fn driver_step(cfg: DriverIntervals, s: DriverTimers, ev: DriverEvent) -> (r: (DriverTimers, DriverAction))
    ensures
        match ev {
            DriverEvent::UrgentNotified { now } => r == (DriverTimers {
                last_activity_at: now,
                pending_urgency: LlmPriority::Urgent,
                prompt_pending_since: if s.prompt_pending_since is None && !s.in_flight { Some(now) } else { s.prompt_pending_since },
                ..s
            }, DriverAction::Wait),
            DriverEvent::LlmDone { now } => r == (DriverTimers { in_flight: false, last_prompt_at: now, ..s }, DriverAction::Wait),
            DriverEvent::Tick { now, in_combat } => if s.in_flight {
                r == (s, DriverAction::Wait)
            } else if prompt_due(cfg, opened(cfg, s, now, in_combat), now) {
                r == (DriverTimers { prompt_pending_since: None, ..opened(cfg, s, now, in_combat) }, DriverAction::Drain)
            } else {
                r == (opened(cfg, s, now, in_combat), DriverAction::Wait)
            },
            DriverEvent::Drained { skip, urgencies, agent_events } => if !skip && (urgencies@.len() > 0 || agent_events) {
                r == (DriverTimers { pending_urgency: LlmPriority::Idle, in_flight: true, ..s },
                    DriverAction::Submit(fold_priority(s.pending_urgency, urgencies@)))
            } else {
                r == (DriverTimers { pending_urgency: LlmPriority::Idle, ..s }, DriverAction::Wait)
            },
        },
{
    match ev {
        DriverEvent::UrgentNotified { now } => {
            let pending = if s.prompt_pending_since.is_none() && !s.in_flight { Some(now) } else { s.prompt_pending_since };
            (DriverTimers {
                last_prompt_at: s.last_prompt_at,
                prompt_pending_since: pending,
                last_activity_at: now,
                pending_urgency: LlmPriority::Urgent,
                in_flight: s.in_flight,
            }, DriverAction::Wait)
        },
        DriverEvent::LlmDone { now } => {
            (DriverTimers {
                last_prompt_at: now,
                prompt_pending_since: s.prompt_pending_since,
                last_activity_at: s.last_activity_at,
                pending_urgency: s.pending_urgency,
                in_flight: false,
            }, DriverAction::Wait)
        },
        DriverEvent::Tick { now, in_combat } => {
            if s.in_flight {
                return (s, DriverAction::Wait);
            }
            let active = in_combat || elapsed_exec(now, s.last_activity_at) < cfg.activity_window;
            let interval = if active { cfg.min_interval } else { cfg.idle_interval };
            let mut t = s;
            if t.prompt_pending_since.is_none() && elapsed_exec(now, t.last_prompt_at) >= interval {
                t.prompt_pending_since = Some(now);
                if t.pending_urgency == LlmPriority::Idle && active {
                    t.pending_urgency = LlmPriority::Routine;
                }
            }
            let ready = match t.prompt_pending_since {
                Some(since) => elapsed_exec(now, since) >= cfg.debounce,
                None => false,
            };
            if !ready || elapsed_exec(now, t.last_prompt_at) < cfg.min_interval {
                return (t, DriverAction::Wait);
            }
            t.prompt_pending_since = None;
            (t, DriverAction::Drain)
        },
        DriverEvent::Drained { skip, urgencies, agent_events } => {
            let mut t = s;
            t.pending_urgency = LlmPriority::Idle;
            if skip || (urgencies.len() == 0 && !agent_events) {
                return (t, DriverAction::Wait);
            }
            let p = prompt_priority(s.pending_urgency, &urgencies);
            t.in_flight = true;
            (t, DriverAction::Submit(p))
        },
    }
}

/// Recent activity makes the driver active even out of combat: on a tick
/// with nothing pending, when the last activity is less than the activity
/// window ago and the minimum interval has passed since the last prompt, a
/// prompt window opens now, at routine priority or above.
pub proof fn lemma_activity_opens_window(cfg: DriverIntervals, s: DriverTimers, now: u64)
    requires
        s.prompt_pending_since is None,
        now >= s.last_activity_at,
        now - s.last_activity_at < cfg.activity_window,
        now >= s.last_prompt_at,
        now - s.last_prompt_at >= cfg.min_interval,
    ensures
        opened(cfg, s, now, false).prompt_pending_since == Some(now),
        opened(cfg, s, now, false).pending_urgency != LlmPriority::Idle,
{
}

/// Out of combat and without recent activity, a window opens only once the
/// idle interval has passed since the last prompt.
pub proof fn lemma_idle_waits_for_idle_interval(cfg: DriverIntervals, s: DriverTimers, now: u64)
    requires
        s.prompt_pending_since is None,
        now >= s.last_activity_at,
        now - s.last_activity_at >= cfg.activity_window,
        now >= s.last_prompt_at,
    ensures
        (opened(cfg, s, now, false).prompt_pending_since is Some) == (now - s.last_prompt_at >= cfg.idle_interval),
        opened(cfg, s, now, false).pending_urgency == s.pending_urgency,
{
}

/// A prompt takes the most urgent priority asked for: urgent when the
/// pending priority or any drained event is urgent, idle only when the
/// pending priority is idle and every drained event is noise, routine
/// otherwise.
pub proof fn lemma_prompt_priority_most_urgent(p: LlmPriority, us: Seq<EventUrgency>)
    ensures
        (fold_priority(p, us) == LlmPriority::Urgent)
            <==> (p == LlmPriority::Urgent || exists|i: int| 0 <= i < us.len() && us[i] == EventUrgency::Urgent),
        (fold_priority(p, us) == LlmPriority::Idle)
            <==> (p == LlmPriority::Idle && forall|i: int| 0 <= i < us.len() ==> us[i] == EventUrgency::Noise),
    decreases us.len(),
{
    if us.len() > 0 {
        let init = us.drop_last();
        lemma_prompt_priority_most_urgent(p, init);
        assert forall|i: int| 0 <= i < init.len() implies init[i] == us[i] by {}
        if exists|i: int| 0 <= i < us.len() && us[i] == EventUrgency::Urgent {
            let i = choose|i: int| 0 <= i < us.len() && us[i] == EventUrgency::Urgent;
            if i < us.len() - 1 {
                assert(init[i] == EventUrgency::Urgent);
            }
        }
        if exists|i: int| 0 <= i < init.len() && init[i] == EventUrgency::Urgent {
            let i = choose|i: int| 0 <= i < init.len() && init[i] == EventUrgency::Urgent;
            assert(us[i] == EventUrgency::Urgent);
        }
        if !(forall|i: int| 0 <= i < us.len() ==> us[i] == EventUrgency::Noise) {
            let i = choose|i: int| 0 <= i < us.len() && us[i] != EventUrgency::Noise;
            if i < us.len() - 1 {
                assert(init[i] != EventUrgency::Noise);
            }
        }
    }
}

/// A drain is asked for only when a prompt has been wanted for at least
/// the debounce time and the minimum interval has passed since the last
/// prompt (a time stamp later than `now` counts as no time passed).
pub proof fn lemma_prompt_due_waits(cfg: DriverIntervals, s: DriverTimers, now: u64)
    requires
        prompt_due(cfg, s, now),
    ensures
        s.prompt_pending_since is Some,
        now >= s.prompt_pending_since.unwrap() ==> now - s.prompt_pending_since.unwrap() >= cfg.debounce,
        now < s.prompt_pending_since.unwrap() ==> cfg.debounce == 0,
        now >= s.last_prompt_at ==> now - s.last_prompt_at >= cfg.min_interval,
        now < s.last_prompt_at ==> cfg.min_interval == 0,
{
}

} // verus!
