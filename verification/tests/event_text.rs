use onlinerpg::auth::CharacterAttributes;
use onlinerpg::event_text::{format_event, player_name, AgentEvent, MonsterLine, PlayerLine, PlayerNames};

fn names() -> PlayerNames {
    PlayerNames {
        self_id: Some("p1".to_string()),
        self_name: Some("Rica".to_string()),
        nearby: vec![("p2".to_string(), "Bob".to_string()), ("p3".to_string(), "Cid".to_string())],
    }
}

#[test]
fn player_names_resolve_self_then_nearby_then_id() {
    assert_eq!(player_name(&names(), "p1"), "Rica");
    assert_eq!(player_name(&names(), "p3"), "Cid");
    assert_eq!(player_name(&names(), "p9"), "p9");
    let anon = PlayerNames { self_id: Some("p1".to_string()), self_name: None, nearby: vec![] };
    assert_eq!(player_name(&anon, "p1"), "p1");
}

#[test]
fn chat_and_combat_lines() {
    let chat = AgentEvent::Chat { player_id: "p2".to_string(), message: "hello".to_string() };
    assert_eq!(format_event(&names(), &chat), Some("[Chat] Bob: hello".to_string()));
    let atk = AgentEvent::MonsterAttackedPlayer {
        monster_id: "m7".to_string(),
        player_id: "p1".to_string(),
        hit: true,
        damage: 4,
        current_health: -2,
    };
    assert_eq!(format_event(&names(), &atk), Some("[MonsterAttack] m7 -> Rica: hit=true dmg=4 hp=-2".to_string()));
    let pa = AgentEvent::PlayerAttacked { player_id: "p9".to_string(), monster_id: "m1".to_string(), hit: false, damage: 0 };
    assert_eq!(format_event(&names(), &pa), Some("[Attack] p9 -> m1: hit=false dmg=0".to_string()));
}

#[test]
fn time_is_zero_padded() {
    let t = AgentEvent::Time { year: 3, month: 4, day: 12, hour: 7, minute: 5, is_night: true };
    assert_eq!(format_event(&names(), &t), Some("[Time] Y3 M4 D12 07:05 (night)".to_string()));
    let t = AgentEvent::Time { year: 1, month: 1, day: 1, hour: 13, minute: 30, is_night: false };
    assert_eq!(format_event(&names(), &t), Some("[Time] Y1 M1 D1 13:30 (day)".to_string()));
}

#[test]
fn world_summary_lists_players_then_monsters() {
    let w = AgentEvent::World {
        players: vec![PlayerLine { name: "Bob".to_string(), level: 3, health: 10, max_health: 12 }],
        monsters: vec![MonsterLine { monster_type: "wolf".to_string(), id: "m1".to_string(), health: 5, max_health: 8 }],
    };
    assert_eq!(
        format_event(&names(), &w),
        Some("[World] 1 player(s), 1 monster(s)\n  Player: Bob Lv.3 HP 10/12\n  Monster: wolf [m1] HP 5/8".to_string())
    );
}

#[test]
fn xp_stats_and_unforwarded() {
    let xp = AgentEvent::XpGained { xp_amount: 50, total_xp: 350, new_level: 3, leveled_up: true };
    assert_eq!(format_event(&names(), &xp), Some("[XP] +50 (total: 350, level: 3) LEVEL UP!".to_string()));
    let a = CharacterAttributes { str: 10, dex: 12, con: 14, int: 8, wis: 9, cha: 18, guard: 0 };
    let st = AgentEvent::StatsRolled { attributes: a, max_hp: 12 };
    assert_eq!(
        format_event(&names(), &st),
        Some("[StatsRolled] STR:10 DEX:12 CON:14 INT:8 WIS:9 CHA:18 HP:12".to_string())
    );
    assert_eq!(format_event(&names(), &AgentEvent::Unforwarded), None);
    let k = AgentEvent::Kicked { reason: "idle".to_string() };
    assert_eq!(format_event(&names(), &k), Some("[Kicked] idle".to_string()));
}

#[test]
fn tracked_names_follow_joins_snapshots_and_departures() {
    let mut n = PlayerNames::new();
    n.joined("p1".to_string(), "Rica".to_string());
    assert_eq!(player_name(&n, "p1"), "Rica");
    n.world_state(vec![("p1".to_string(), "Rica II".to_string()), ("p2".to_string(), "Bob".to_string())]);
    assert_eq!(n.self_name, Some("Rica II".to_string()));
    assert_eq!(player_name(&n, "p2"), "Bob");
    n.player_joined("p3".to_string(), "Cid".to_string());
    n.player_joined("p2".to_string(), "Bobby".to_string());
    assert_eq!(player_name(&n, "p2"), "Bobby");
    assert_eq!(player_name(&n, "p3"), "Cid");
    assert_eq!(n.nearby.len(), 3);
    n.player_left("p2");
    assert_eq!(player_name(&n, "p2"), "p2");
    assert_eq!(player_name(&n, "p3"), "Cid");
    n.player_left("p9");
    assert_eq!(n.nearby.len(), 2);
}
