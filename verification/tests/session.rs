use onlinerpg::session::{google_sign_in_error, MessageKind, Route};
use onlinerpg::session::{restore_saved_state, RestoredState};
use onlinerpg::auth::CharacterAttributes;
use onlinerpg::session::{ConnectionState, EnterGameGate};

fn attrs() -> CharacterAttributes {
    CharacterAttributes { str: 12, dex: 11, con: 14, int: 9, wis: 10, cha: 13, guard: 0 }
}

#[test]
fn fresh_connection_must_authenticate_first() {
    let s = ConnectionState::new();
    assert_eq!(s.require_auth("CreateCharacter"), Err("Authenticate first".to_string()));
    assert_eq!(s.enter_game_gate(), EnterGameGate::Refused("Authenticate first".to_string()));
    assert_eq!(s.check_auth_request(), Ok(()));
    assert!(!s.should_drop(60, 0));
    assert!(s.should_drop(61, 0));
}

#[test]
fn character_flow_after_authentication() {
    let mut s = ConnectionState::new();
    s.finish_auth("alice".to_string(), false);
    assert_eq!(s.check_auth_request(), Err("Already authenticated".to_string()));
    assert_eq!(s.creation_inputs(), Err("Roll attributes first".to_string()));
    assert_eq!(s.accept_rolled_stats(attrs()), Ok(()));
    assert_eq!(s.creation_inputs(), Ok(("alice".to_string(), attrs())));
    s.character_created();
    assert_eq!(s.creation_inputs(), Err("Roll attributes first".to_string()));
    assert_eq!(s.enter_game_gate(), EnterGameGate::Proceed("alice".to_string()));
    s.entered_game(5);
    assert_eq!(s.enter_game_gate(), EnterGameGate::AlreadyInGame);
    assert_eq!(
        s.character_gate("DeleteCharacter"),
        Err("Cannot DeleteCharacter while in game".to_string())
    );
    assert_eq!(
        s.accept_rolled_stats(attrs()),
        Err("Cannot RollCharacterStats while in game".to_string())
    );
    assert!(!s.should_drop(1000, 30));
    assert!(s.should_drop(1000, 31));
}

#[test]
fn rolling_stats_needs_authentication() {
    let mut s = ConnectionState::new();
    assert_eq!(s.accept_rolled_stats(attrs()), Err("Authenticate first".to_string()));
    assert!(s.pending_character_attributes.is_none());
    s.finish_auth("npc_karl".to_string(), true);
    assert!(s.is_npc);
    assert_eq!(s.require_not_in_game("RollCharacterStats"), Ok(()));
}

#[test]
fn saved_state_caps_health_and_leaves_lost_dungeons() {
    assert_eq!(restore_saved_state(Some(30), 20, 0, false), RestoredState { health: 20, floor_level: 0, to_world_spawn: false });
    assert_eq!(restore_saved_state(Some(7), 20, 2, false), RestoredState { health: 7, floor_level: 2, to_world_spawn: false });
    assert_eq!(restore_saved_state(None, 20, -3, true), RestoredState { health: 20, floor_level: -3, to_world_spawn: false });
    assert_eq!(restore_saved_state(None, 20, -3, false), RestoredState { health: 20, floor_level: 0, to_world_spawn: true });
}

#[test]
fn messages_are_routed_by_connection_state() {
    let mut c = ConnectionState::new();
    assert_eq!(c.route(MessageKind::Authenticate), Route::Handle);
    assert_eq!(c.route(MessageKind::InGame), Route::NotInGame);
    assert_eq!(c.route(MessageKind::Heartbeat), Route::Heartbeat);
    assert_eq!(c.route(MessageKind::HouseBroadcast), Route::Ignore);
    c.finish_auth("npc_rica".to_string(), true);
    assert_eq!(c.route(MessageKind::Authenticate), Route::AlreadyAuthenticated);
    assert_eq!(c.route(MessageKind::CharacterRequest), Route::Handle);
    c.entered_game(42);
    assert_eq!(c.route(MessageKind::InGame), Route::InGameAs(42));
    // A human client in the same state is routed the same way.
    let mut h = ConnectionState::new();
    h.finish_auth("alice".to_string(), false);
    h.entered_game(42);
    assert_eq!(h.route(MessageKind::InGame), c.route(MessageKind::InGame));
}

#[test]
fn google_sign_in_refusals() {
    assert_eq!(google_sign_in_error(false, true), Some("Google sign-in is not configured on this server".to_string()));
    assert_eq!(google_sign_in_error(true, false), Some("Google sign-in verification failed".to_string()));
    assert_eq!(google_sign_in_error(true, true), None);
}
