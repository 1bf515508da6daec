use onlinerpg::npc_session::api_base_url;
use onlinerpg::npc_session::replace_chars;
use onlinerpg::agent::ScheduleCondition;
use onlinerpg::npc_session::schedule_conditions;
use onlinerpg::npc_session::{plan_characters, retry_with_create_account, CharSummary, EnterPlan};

fn ch(id: i64, name: &str, class: u8) -> CharSummary {
    CharSummary { id, name: name.to_string(), class }
}

#[test]
fn login_retried_with_creation_only_when_account_missing() {
    assert!(retry_with_create_account(false, "Authentication failed: Account not found"));
    assert!(!retry_with_create_account(true, "Account not found"));
    assert!(!retry_with_create_account(false, "Invalid password"));
}

#[test]
fn mismatching_characters_are_deleted() {
    let chars = vec![ch(1, "Rica", 2), ch(2, "Bob", 2), ch(3, "Rica", 1)];
    let plan = plan_characters(&chars, Some("Rica"), Some(2), true);
    assert_eq!(plan.delete, vec![2, 3]);
    assert_eq!(plan.keep.len(), 1);
    assert_eq!(plan.keep[0].id, 1);
    assert!(plan.create.is_none());
    assert_eq!(plan.enter, EnterPlan::Existing(1));
}

#[test]
fn configured_character_created_when_none_left() {
    let chars = vec![ch(7, "Old", 0)];
    let plan = plan_characters(&chars, Some("Rica"), None, true);
    assert_eq!(plan.delete, vec![7]);
    let c = plan.create.unwrap();
    assert_eq!(c.name, "Rica");
    assert_eq!(c.class, None);
    assert_eq!(plan.enter, EnterPlan::Created);
}

#[test]
fn no_configuration_keeps_everything() {
    let chars = vec![ch(4, "A", 0), ch(5, "B", 1)];
    let plan = plan_characters(&chars, None, None, true);
    assert!(plan.delete.is_empty());
    assert_eq!(plan.keep.len(), 2);
    assert_eq!(plan.enter, EnterPlan::Existing(4));
}

#[test]
fn without_llm_nothing_is_entered() {
    let chars = vec![ch(4, "A", 0)];
    let plan = plan_characters(&chars, None, None, false);
    assert_eq!(plan.enter, EnterPlan::Nothing);
    let empty: Vec<CharSummary> = Vec::new();
    let plan = plan_characters(&empty, None, None, true);
    assert!(plan.create.is_none());
    assert_eq!(plan.enter, EnterPlan::Nothing);
}

#[test]
fn api_url_is_http_on_the_next_port() {
    assert_eq!(api_base_url("ws://host:10015"), "http://host:10016");
    assert_eq!(api_base_url("wss://game.example.org:443"), "https://game.example.org:444");
    assert_eq!(api_base_url("ws://host"), "http://host");
    assert_eq!(api_base_url("ws://host:abc"), "http://host:abc");
}

#[test]
fn replace_scans_left_to_right() {
    let s: Vec<char> = "aaa-ws://x-ws://".chars().collect();
    let r: String = replace_chars(&s, "ws://", "http://").into_iter().collect();
    assert_eq!(r, "aaa-http://x-http://");
    let s: Vec<char> = "aaaa".chars().collect();
    let r: String = replace_chars(&s, "aa", "b").into_iter().collect();
    assert_eq!(r, "bb");
}

#[test]
fn schedule_dropped_when_any_entry_is_invalid() {
    let ok = vec!["day".to_string(), "8:30".to_string(), "*:00".to_string()];
    assert_eq!(
        schedule_conditions(&ok),
        Some(vec![
            ScheduleCondition::Day,
            ScheduleCondition::Time { hour: 8, minute: 30 },
            ScheduleCondition::Recurring { minute: 0 },
        ])
    );
    let bad = vec!["night".to_string(), "noon".to_string()];
    assert_eq!(schedule_conditions(&bad), None);
}
