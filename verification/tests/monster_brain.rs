use onlinerpg::monster_ai::{brain_tick, AiState, BrainStep, Senses, TickAction};

fn quiet() -> Senses {
    Senses {
        timer_done: false,
        chance: false,
        return_roll: false,
        walk: false,
        path_found: false,
        reached: false,
        has_destination: false,
        has_target: false,
        target_alive: false,
        beyond_leash: false,
        beyond_chase: false,
        in_attack_range: false,
        at_home: false,
        needs_path: false,
    }
}

#[test]
fn dead_monsters_do_nothing() {
    let r = brain_tick(AiState::Attack, 0, 3, Senses { timer_done: true, has_target: true, target_alive: true, in_attack_range: true, ..quiet() });
    assert_eq!(r.action, TickAction::Nothing);
    assert_eq!(r.state, AiState::Attack);
}

#[test]
fn fighter_strikes_in_range_after_cooldown() {
    let s = Senses { has_target: true, target_alive: true, in_attack_range: true, ..quiet() };
    assert_eq!(brain_tick(AiState::Attack, 10, 3, s).action, TickAction::Nothing);
    let r = brain_tick(AiState::Attack, 10, 3, Senses { timer_done: true, ..s });
    assert_eq!(r, BrainStep { state: AiState::Attack, restart_timer: true, drop_target: false, action: TickAction::MoveAndAttack });
}

#[test]
fn fighter_gives_up_beyond_the_leash() {
    let s = Senses { has_target: true, target_alive: true, beyond_leash: true, return_roll: true, path_found: true, ..quiet() };
    let r = brain_tick(AiState::Attack, 10, 3, s);
    assert_eq!(r, BrainStep { state: AiState::Return, restart_timer: true, drop_target: true, action: TickAction::Move });
    let r = brain_tick(AiState::Attack, 10, 3, Senses { return_roll: false, ..s });
    assert_eq!(r.state, AiState::Idle);
    assert!(r.drop_target);
}

#[test]
fn staggered_monster_flees_when_low() {
    let s = Senses { timer_done: true, chance: true, path_found: true, ..quiet() };
    assert_eq!(brain_tick(AiState::Hit, 2, 3, s).state, AiState::Flee);
    assert_eq!(brain_tick(AiState::Hit, 5, 3, s).state, AiState::Attack);
    assert_eq!(brain_tick(AiState::Hit, 2, 3, Senses { timer_done: false, ..s }).state, AiState::Hit);
}

#[test]
fn idle_monster_starts_walking_on_its_check() {
    let r = brain_tick(AiState::Idle, 5, 1, Senses { timer_done: true, chance: true, walk: true, path_found: true, ..quiet() });
    assert_eq!(r.state, AiState::Walk);
    assert_eq!(r.action, TickAction::Move);
    let r = brain_tick(AiState::Idle, 5, 1, Senses { timer_done: true, chance: true, path_found: false, ..quiet() });
    assert_eq!(r, BrainStep { state: AiState::Idle, restart_timer: true, drop_target: false, action: TickAction::Nothing });
}

#[test]
fn returning_monster_idles_at_home() {
    assert_eq!(brain_tick(AiState::Return, 5, 1, Senses { at_home: true, ..quiet() }).state, AiState::Idle);
    assert_eq!(brain_tick(AiState::Return, 5, 1, quiet()).action, TickAction::Move);
}
