use onlinerpg::agent::EventUrgency;
use onlinerpg::driver::{driver_step, prompt_priority, DriverAction, DriverEvent, DriverIntervals, DriverTimers, LlmPriority};

fn cfg() -> DriverIntervals {
    DriverIntervals { min_interval: 5_000, debounce: 2_000, idle_interval: 60_000, activity_window: 30_000 }
}

fn idle_timers() -> DriverTimers {
    DriverTimers {
        last_prompt_at: 100_000,
        prompt_pending_since: None,
        last_activity_at: 0,
        pending_urgency: LlmPriority::Idle,
        in_flight: false,
    }
}

#[test]
fn urgent_event_opens_window_and_debounces() {
    let (s, a) = driver_step(cfg(), idle_timers(), DriverEvent::UrgentNotified { now: 110_000 });
    assert_eq!(a, DriverAction::Wait);
    assert_eq!(s.prompt_pending_since, Some(110_000));
    assert_eq!(s.pending_urgency, LlmPriority::Urgent);
    assert_eq!(s.last_activity_at, 110_000);
    // Within the debounce time: wait.
    let (s, a) = driver_step(cfg(), s, DriverEvent::Tick { now: 111_000, in_combat: false });
    assert_eq!(a, DriverAction::Wait);
    // After it: drain.
    let (s, a) = driver_step(cfg(), s, DriverEvent::Tick { now: 112_000, in_combat: false });
    assert_eq!(a, DriverAction::Drain);
    assert_eq!(s.prompt_pending_since, None);
    let (s, a) = driver_step(cfg(), s, DriverEvent::Drained { skip: false, urgencies: vec![EventUrgency::Routine], agent_events: false });
    assert_eq!(a, DriverAction::Submit(LlmPriority::Urgent));
    assert!(s.in_flight);
    assert_eq!(s.pending_urgency, LlmPriority::Idle);
}

#[test]
fn idle_driver_waits_for_the_idle_interval() {
    let (s, a) = driver_step(cfg(), idle_timers(), DriverEvent::Tick { now: 150_000, in_combat: false });
    assert_eq!(a, DriverAction::Wait);
    assert_eq!(s.prompt_pending_since, None);
    let (s, a) = driver_step(cfg(), s, DriverEvent::Tick { now: 160_000, in_combat: false });
    assert_eq!(a, DriverAction::Wait);
    assert_eq!(s.prompt_pending_since, Some(160_000));
    assert_eq!(s.pending_urgency, LlmPriority::Idle);
}

#[test]
fn combat_uses_the_short_interval_and_routine_priority() {
    let (s, _) = driver_step(cfg(), idle_timers(), DriverEvent::Tick { now: 105_000, in_combat: true });
    assert_eq!(s.prompt_pending_since, Some(105_000));
    assert_eq!(s.pending_urgency, LlmPriority::Routine);
}

#[test]
fn nothing_while_a_prompt_is_in_flight() {
    let mut t = idle_timers();
    t.in_flight = true;
    t.prompt_pending_since = Some(0);
    let (s, a) = driver_step(cfg(), t, DriverEvent::Tick { now: 500_000, in_combat: true });
    assert_eq!(a, DriverAction::Wait);
    assert_eq!(s, t);
    let (s, a) = driver_step(cfg(), s, DriverEvent::LlmDone { now: 500_500 });
    assert_eq!(a, DriverAction::Wait);
    assert!(!s.in_flight);
    assert_eq!(s.last_prompt_at, 500_500);
    // The minimum interval holds the pending prompt back.
    let (_, a) = driver_step(cfg(), s, DriverEvent::Tick { now: 503_000, in_combat: true });
    assert_eq!(a, DriverAction::Wait);
    let (_, a) = driver_step(cfg(), s, DriverEvent::Tick { now: 505_500, in_combat: true });
    assert_eq!(a, DriverAction::Drain);
}

#[test]
fn skipped_or_empty_drain_submits_nothing() {
    let mut t = idle_timers();
    t.pending_urgency = LlmPriority::Urgent;
    let (s, a) = driver_step(cfg(), t, DriverEvent::Drained { skip: true, urgencies: vec![EventUrgency::Urgent], agent_events: true });
    assert_eq!(a, DriverAction::Wait);
    assert_eq!(s.pending_urgency, LlmPriority::Idle);
    assert!(!s.in_flight);
    let (_, a) = driver_step(cfg(), t, DriverEvent::Drained { skip: false, urgencies: vec![], agent_events: false });
    assert_eq!(a, DriverAction::Wait);
    let (_, a) = driver_step(cfg(), idle_timers(), DriverEvent::Drained { skip: false, urgencies: vec![], agent_events: true });
    assert_eq!(a, DriverAction::Submit(LlmPriority::Idle));
}

#[test]
fn priority_is_the_most_urgent() {
    assert_eq!(prompt_priority(LlmPriority::Idle, &vec![EventUrgency::Noise, EventUrgency::Routine]), LlmPriority::Routine);
    assert_eq!(prompt_priority(LlmPriority::Idle, &vec![EventUrgency::Noise]), LlmPriority::Idle);
    assert_eq!(prompt_priority(LlmPriority::Routine, &vec![EventUrgency::Urgent, EventUrgency::Noise]), LlmPriority::Urgent);
}
