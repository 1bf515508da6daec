use onlinerpg::agent::{
    classify_event, default_activity_window_secs, default_debounce, default_debounce_secs,
    default_idle_interval_secs, default_max_concurrent, default_max_tokens, default_min_interval,
    default_min_interval_secs, default_model, default_openrouter_model, default_system_prompt_file,
    default_terrain, default_terrain_cache, extract_json, is_http_source, parse_condition,
    resolve_active_schedule, AuthMode, ClaudeConfig, ConditionError, EventKind, EventUrgency,
    LlmType, ScheduleCondition,
};

#[test]
fn config_defaults() {
    assert_eq!(AuthMode::default_mode(), AuthMode::NpcToken);
    assert_eq!(LlmType::default_type(), LlmType::Disabled);
    assert_eq!(default_min_interval_secs(), 5);
    assert_eq!(default_debounce_secs(), 2);
    assert_eq!(default_idle_interval_secs(), 3600);
    assert_eq!(default_activity_window_secs(), 30);
    assert_eq!(default_max_concurrent(), 2);
    assert_eq!(default_terrain(), "../data/terrain");
    assert_eq!(default_terrain_cache(), "data/cache/height");
    assert_eq!(default_model(), "sonnet");
    assert_eq!(default_min_interval(), 5);
    assert_eq!(default_debounce(), 2);
    assert_eq!(default_system_prompt_file(), "data/system_prompt.txt");
    assert_eq!(default_openrouter_model(), "openrouter/hunter-alpha");
    assert_eq!(default_max_tokens(), 1024);
    let c = ClaudeConfig::default();
    assert_eq!(c.model, "sonnet");
    assert_eq!(c.min_interval_secs, 5);
    assert_eq!(c.debounce_secs, 2);
    assert_eq!(c.system_prompt_file, "data/system_prompt.txt");
}

#[test]
fn terrain_dir_still_parses_as_an_alias() {
    assert!(!is_http_source("/data/terrain"));
    assert!(is_http_source("https://example.test"));
    assert!(is_http_source("http://127.0.0.1:10015"));
    assert!(!is_http_source("ftp://x"));
}

#[test]
fn schedule_conditions_parse() {
    assert_eq!(parse_condition("day"), Ok(ScheduleCondition::Day));
    assert_eq!(parse_condition("night"), Ok(ScheduleCondition::Night));
    assert_eq!(parse_condition("7:30"), Ok(ScheduleCondition::Time { hour: 7, minute: 30 }));
    assert_eq!(parse_condition(" 18 : 05 "), Ok(ScheduleCondition::Time { hour: 18, minute: 5 }));
    assert_eq!(parse_condition("*:00"), Ok(ScheduleCondition::Recurring { minute: 0 }));
    assert_eq!(parse_condition("noon"), Err(ConditionError::Invalid));
    assert_eq!(parse_condition("7:xx"), Err(ConditionError::InvalidMinute));
    assert_eq!(parse_condition("h:30"), Err(ConditionError::InvalidHour));
    assert_eq!(parse_condition("Day"), Err(ConditionError::Invalid));
    assert_eq!(ConditionError::InvalidMinute.message("7:xx"), "invalid minute in: 7:xx");
    assert_eq!(ConditionError::Invalid.message("noon"), "invalid schedule condition: noon");
}

#[test]
fn active_schedule_is_the_last_match() {
    let schedule = vec![
        Some(ScheduleCondition::Day),
        Some(ScheduleCondition::Time { hour: 8, minute: 0 }),
        None,
        Some(ScheduleCondition::Time { hour: 20, minute: 0 }),
        Some(ScheduleCondition::Recurring { minute: 30 }),
    ];
    assert_eq!(resolve_active_schedule(&schedule, Some(false), Some(9), Some(15)), (Some(1), None));
    assert_eq!(resolve_active_schedule(&schedule, Some(false), Some(9), Some(45)), (Some(4), Some(9)));
    assert_eq!(resolve_active_schedule(&schedule, Some(true), Some(21), Some(0)), (Some(3), None));
    assert_eq!(resolve_active_schedule(&schedule, Some(false), None, None), (Some(0), None));
    assert_eq!(resolve_active_schedule(&schedule, None, None, None), (None, None));
    assert_eq!(resolve_active_schedule(&vec![], Some(true), Some(1), Some(1)), (None, None));
}

#[test]
fn event_urgency() {
    assert_eq!(classify_event(Some("7"), EventKind::MonsterAttackedPlayer, Some("7")), EventUrgency::Urgent);
    assert_eq!(classify_event(Some("7"), EventKind::MonsterAttackedPlayer, Some("8")), EventUrgency::Routine);
    assert_eq!(classify_event(Some("7"), EventKind::ChatMessage, Some("8")), EventUrgency::Urgent);
    assert_eq!(classify_event(Some("7"), EventKind::ChatMessage, Some("7")), EventUrgency::Noise);
    assert_eq!(classify_event(None, EventKind::PlayerDead, Some("7")), EventUrgency::Routine);
    assert_eq!(classify_event(None, EventKind::Kicked, None), EventUrgency::Urgent);
    assert_eq!(classify_event(Some("7"), EventKind::Background, Some("7")), EventUrgency::Noise);
    assert_eq!(classify_event(Some("7"), EventKind::WorldChange, None), EventUrgency::Routine);
}

#[test]
fn json_is_pulled_out_of_replies() {
    assert_eq!(extract_json("  {\"a\": 1}  "), "{\"a\": 1}");
    assert_eq!(extract_json("Sure!\n```json\n {\"a\": 1} \n```\nbye"), "{\"a\": 1}");
    assert_eq!(extract_json("```\n{\"b\": 2}\n```"), "{\"b\": 2}");
    assert_eq!(extract_json("I think {\"c\": {\"d\": 3}} is right."), "{\"c\": {\"d\": 3}}");
    assert_eq!(extract_json("no json here"), "no json here");
    assert_eq!(extract_json("```json {\"x\": 1}"), "{\"x\": 1}");
    assert_eq!(extract_json("}{"), "");
}

use onlinerpg::agent::{check_google_mode_config, google_mode_message, ClassCheck, GoogleModeFailure, GoogleModeNpc};

fn npc(id: Option<&str>, class: Option<(&str, ClassCheck)>, name: Option<&str>) -> GoogleModeNpc {
    GoogleModeNpc {
        id: id.map(|s| s.to_string()),
        character_class: class.map(|(c, k)| (c.to_string(), k)),
        character_name: name.map(|s| s.to_string()),
    }
}

#[test]
fn google_mode_rejects_registry_npcs() {
    let npcs = vec![npc(Some("karl"), None, None)];
    let (i, f) = check_google_mode_config(&npcs).unwrap_err();
    assert_eq!((i, f), (0, GoogleModeFailure::OperatorNpc));
    let err = google_mode_message(&npcs[i], f, "");
    assert!(err.contains("karl"), "{err}");
}

#[test]
fn google_mode_rejects_operator_only_classes() {
    for class in ["merchant", "guard"] {
        let npcs = vec![npc(None, Some((class, ClassCheck::NotSelectable)), Some("A"))];
        let r = check_google_mode_config(&npcs);
        assert_eq!(r, Err((0, GoogleModeFailure::NotSelectable)), "{class}");
        assert_eq!(
            google_mode_message(&npcs[0], GoogleModeFailure::NotSelectable, ""),
            format!("character_class = \"{class}\" is not selectable by players")
        );
    }
}

#[test]
fn google_mode_accepts_a_plain_player_agent() {
    let npcs = vec![npc(None, Some(("ranger", ClassCheck::Selectable)), Some("Jake's Agent"))];
    assert!(check_google_mode_config(&npcs).is_ok());
}

#[test]
fn google_mode_needs_a_character_name() {
    let npcs = vec![npc(None, Some(("ranger", ClassCheck::Selectable)), None)];
    assert_eq!(check_google_mode_config(&npcs), Err((0, GoogleModeFailure::MissingCharacterName)));
}

#[test]
fn google_mode_reports_the_first_offender() {
    let npcs = vec![
        npc(None, None, Some("ok")),
        npc(None, Some(("wizzard", ClassCheck::Unknown)), Some("B")),
        npc(Some("karl"), None, None),
    ];
    assert_eq!(check_google_mode_config(&npcs), Err((1, GoogleModeFailure::UnknownClass)));
    assert_eq!(
        google_mode_message(&npcs[1], GoogleModeFailure::UnknownClass, &format!("{:?}", "wizzard")),
        "unknown character_class \"wizzard\""
    );
    assert!(check_google_mode_config(&vec![]).is_ok());
}

use onlinerpg::agent::{compose_system_prompt, system_prompt_file_for};

#[test]
fn system_prompt_tiers() {
    assert_eq!(compose_system_prompt("T", None, None), "T");
    assert_eq!(compose_system_prompt("T", Some("I"), None), "T\n\nI");
    assert_eq!(compose_system_prompt("T", Some("I"), Some("  \n")), "T\n\nI");
    assert_eq!(
        compose_system_prompt("T", Some("I"), Some("met Karl")),
        "T\n\nI\n\n=== YOUR MEMORIES ===\nmet Karl"
    );
    assert_eq!(compose_system_prompt("T", None, Some("m")), "T\n\n=== YOUR MEMORIES ===\nm");
}

#[test]
fn prompt_file_follows_the_backend() {
    assert_eq!(system_prompt_file_for(LlmType::Claude, "c", "o", "x"), Some("c".to_string()));
    assert_eq!(system_prompt_file_for(LlmType::Openrouter, "c", "o", "x"), Some("o".to_string()));
    assert_eq!(system_prompt_file_for(LlmType::Codex, "c", "o", "x"), Some("x".to_string()));
    assert_eq!(system_prompt_file_for(LlmType::Disabled, "c", "o", "x"), None);
}
