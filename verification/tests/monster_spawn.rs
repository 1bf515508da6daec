use onlinerpg::monster_spawn::{
    check_spawn_limits, find_ambient_rule, plan_spawn_requests, AmbientCap, IdState, MonsterSlot,
    SpawnRejection, SpawnRequest,
};

fn slot(alive: bool, owner: Option<u64>, ty: &str) -> MonsterSlot {
    MonsterSlot { alive, owner_id: owner, monster_type: ty.to_string() }
}

fn caps() -> Vec<AmbientCap> {
    vec![
        AmbientCap { monster_type: "wolf".to_string(), max_per_player: 2 },
        AmbientCap { monster_type: "boar".to_string(), max_per_player: 1 },
        AmbientCap { monster_type: "wolf".to_string(), max_per_player: 9 },
    ]
}

#[test]
fn ambient_rule_is_the_first_naming_the_type() {
    assert_eq!(find_ambient_rule(&caps(), "wolf"), Some(0));
    assert_eq!(find_ambient_rule(&caps(), "boar"), Some(1));
    assert_eq!(find_ambient_rule(&caps(), "dragon"), None);
}

#[test]
fn spawn_limits() {
    let ms = vec![
        slot(true, Some(1), "wolf"),
        slot(true, Some(1), "wolf"),
        slot(false, Some(1), "wolf"),
        slot(true, Some(2), "wolf"),
        slot(true, None, "boar"),
    ];
    assert_eq!(check_spawn_limits(&ms, "wolf", Some(1), 4, Some(2)), Err(SpawnRejection::TotalLimit { alive: 4 }));
    assert_eq!(check_spawn_limits(&ms, "wolf", Some(1), 10, Some(2)), Err(SpawnRejection::PlayerLimit { owned: 2 }));
    assert_eq!(check_spawn_limits(&ms, "wolf", Some(2), 10, Some(2)), Ok(()));
    assert_eq!(check_spawn_limits(&ms, "boar", Some(1), 10, Some(1)), Ok(()));
    assert_eq!(check_spawn_limits(&ms, "wolf", Some(1), 10, None), Ok(()));
    assert_eq!(check_spawn_limits(&ms, "wolf", None, 10, Some(0)), Err(SpawnRejection::PlayerLimit { owned: 0 }));
}

#[test]
fn player_numbers_are_stable_and_distinct() {
    let mut ids = IdState::new();
    assert_eq!(ids.get_or_assign_player_number(42), 1);
    assert_eq!(ids.get_or_assign_player_number(7), 2);
    assert_eq!(ids.get_or_assign_player_number(42), 1);
    assert_eq!(ids.remove_player(42), Some(1));
    assert_eq!(ids.remove_player(42), None);
    assert_eq!(ids.get_or_assign_player_number(42), 3);
}

#[test]
fn monster_names_count_per_owner() {
    let mut ids = IdState::new();
    assert_eq!(ids.next_monster_id(Some(42)), "m1_1");
    assert_eq!(ids.next_monster_id(Some(42)), "m1_2");
    assert_eq!(ids.next_monster_id(None), "m0_1");
    assert_eq!(ids.next_monster_id(Some(9)), "m2_1");
    assert_eq!(ids.next_monster_id(Some(42)), "m1_3");
    assert_eq!(ids.remove_player(42), Some(1));
    assert_eq!(ids.next_monster_id(Some(42)), "m3_1");
}

#[test]
fn spawn_plan_respects_caps_and_the_global_limit() {
    let ms = vec![slot(true, Some(1), "wolf"), slot(true, Some(1), "wolf"), slot(true, Some(2), "boar")];
    let rules = vec![
        AmbientCap { monster_type: "wolf".to_string(), max_per_player: 2 },
        AmbientCap { monster_type: "boar".to_string(), max_per_player: 1 },
    ];
    let plan = plan_spawn_requests(&rules, &vec![1, 2], &ms, 100);
    assert_eq!(
        plan,
        vec![SpawnRequest { player_id: 2, rule: 0 }, SpawnRequest { player_id: 1, rule: 1 }]
    );
    let plan = plan_spawn_requests(&rules, &vec![1, 2], &ms, 4);
    assert_eq!(plan, vec![SpawnRequest { player_id: 2, rule: 0 }]);
    assert!(plan_spawn_requests(&rules, &vec![1, 2], &ms, 3).is_empty());
    assert!(plan_spawn_requests(&rules, &vec![], &ms, 100).is_empty());
    assert!(plan_spawn_requests(&vec![], &vec![1], &ms, 100).is_empty());
}

use onlinerpg::monster_ai::{after_stagger, react_to_hit, AiState, HitReaction};

#[test]
fn monsters_react_to_hits() {
    assert_eq!(react_to_hit(AiState::Dead, 10, true, 3, 3, true), None);
    assert_eq!(react_to_hit(AiState::Walk, 10, true, 3, 3, true), Some((7, HitReaction::Stagger)));
    assert_eq!(react_to_hit(AiState::Walk, 10, true, 30, 3, false), Some((0, HitReaction::Die)));
    assert_eq!(react_to_hit(AiState::Attack, 2, false, 30, 3, true), Some((2, HitReaction::Flee)));
    assert_eq!(react_to_hit(AiState::Attack, 2, false, 30, 3, false), Some((2, HitReaction::Attack)));
    assert_eq!(react_to_hit(AiState::Idle, 9, false, 5, 3, true), Some((9, HitReaction::Attack)));
    assert_eq!(after_stagger(2, 3, true), AiState::Flee);
    assert_eq!(after_stagger(2, 3, false), AiState::Attack);
    assert_eq!(after_stagger(4, 3, true), AiState::Attack);
}
