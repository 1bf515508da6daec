use onlinerpg::chat::{in_combat, parse_chat_command, ChatCommand, ClientKind, OnlineCounts, Presence};
use onlinerpg::game_state::GameState;
use onlinerpg::game_time::GameDateTime;
use onlinerpg::housing::{
    next_house_id, parse_chunk_from_id, rooms_overlap, validate_rooms, HouseError, HousingIO, RoomSpec,
};
use onlinerpg::npc_schedule::{NpcIO, NpcNameError};

fn p(npc: bool, kind: ClientKind) -> Presence {
    Presence { is_official_npc: npc, client_kind: kind }
}

#[test]
fn who_counts_by_client_and_npc() {
    let players = vec![p(false, ClientKind::Web), p(false, ClientKind::Cli), p(true, ClientKind::Cli)];
    let c = OnlineCounts::tally(&players);
    assert_eq!(c, OnlineCounts { web: 1, cli: 1, other: 0, official_npc: 1 });
    assert_eq!(c.describe(), "Online: 3 (1 web, 1 cli, 1 npc)");
    let players = vec![p(false, ClientKind::Unknown), p(false, ClientKind::Other), p(false, ClientKind::Web)];
    let c = OnlineCounts::tally(&players);
    assert_eq!(c.describe(), "Online: 3 (1 web, 0 cli, 2 other, 0 npc)");
    assert_eq!(OnlineCounts::tally(&vec![]).describe(), "Online: 0 (0 web, 0 cli, 0 npc)");
}

#[test]
fn chat_commands() {
    assert_eq!(parse_chat_command("  /escape "), ChatCommand::Escape);
    assert_eq!(parse_chat_command("/who"), ChatCommand::Who);
    assert_eq!(parse_chat_command("/give  iron_sword "), ChatCommand::Give("iron_sword".to_string()));
    assert_eq!(parse_chat_command(" /give x"), ChatCommand::Say);
    assert_eq!(parse_chat_command("hello"), ChatCommand::Say);
}

#[test]
fn combat_window() {
    assert!(in_combat(15_000, 10_000));
    assert!(!in_combat(20_000, 10_000));
    assert!(in_combat(5_000, 10_000));
}

#[test]
fn game_clock_roundtrip() {
    let start = GameState::default_start_datetime();
    assert_eq!(start, GameDateTime { year: 217, month: 1, day: 1, hour: 0, minute: 0 });
    assert_eq!(GameState::datetime_to_total_game_seconds(&start), 0);
    let d = GameDateTime { year: 218, month: 3, day: 15, hour: 13, minute: 45 };
    let s = GameState::datetime_to_total_game_seconds(&d);
    assert_eq!(s, ((360 + 2 * 30 + 14) * 1440 + 13 * 60 + 45) * 60);
    assert_eq!(GameState::total_game_seconds_to_datetime(s), d);
    assert_eq!(GameState::total_game_seconds_to_datetime(s + 59), d);
    assert_eq!(GameState::total_game_seconds_to_datetime(-5), start);
}

#[test]
fn out_of_range_dates_are_clamped() {
    let d = GameDateTime { year: 100, month: 13, day: 0, hour: 30, minute: 99 };
    let clamped = GameDateTime { year: 217, month: 12, day: 1, hour: 23, minute: 59 };
    assert_eq!(
        GameState::datetime_to_total_game_seconds(&d),
        GameState::datetime_to_total_game_seconds(&clamped)
    );
}

fn room(x: i16, z: i16, sx: u8, sz: u8, floor: u8) -> RoomSpec {
    RoomSpec { local_x: x, local_z: z, size_x: sx, size_z: sz, floor_level: floor }
}

#[test]
fn house_validation_order() {
    assert_eq!(validate_rooms(&vec![], &vec![]), Err(HouseError::NoRooms));
    assert_eq!(
        validate_rooms(&vec![room(0, 0, 2, 3, 0)], &vec![true]),
        Err(HouseError::RoomSizeX { room: 0, size: 2 })
    );
    assert_eq!(
        validate_rooms(&vec![room(0, 0, 3, 3, 0), room(5, 0, 3, 7, 0)], &vec![true, true]),
        Err(HouseError::RoomSizeZ { room: 1, size: 7 })
    );
    assert_eq!(
        validate_rooms(&vec![room(0, 0, 3, 3, 0)], &vec![false]),
        Err(HouseError::RoomWallHeight { room: 0 })
    );
    assert_eq!(
        validate_rooms(&vec![room(0, 0, 3, 3, 0), room(2, 2, 3, 3, 0)], &vec![true, true]),
        Err(HouseError::RoomsOverlap { first: 0, second: 1 })
    );
    assert_eq!(validate_rooms(&vec![room(0, 0, 3, 3, 0), room(3, 0, 3, 3, 0)], &vec![true, true]), Ok(()));
    assert_eq!(validate_rooms(&vec![room(0, 0, 3, 3, 0), room(0, 0, 3, 3, 1)], &vec![true, true]), Ok(()));
}

#[test]
fn overlap_needs_same_floor_and_intersection() {
    assert!(rooms_overlap(&room(0, 0, 3, 3, 0), &room(2, 2, 3, 3, 0)));
    assert!(!rooms_overlap(&room(0, 0, 3, 3, 0), &room(3, 0, 3, 3, 0)));
    assert!(!rooms_overlap(&room(0, 0, 3, 3, 0), &room(0, 0, 3, 3, 1)));
    assert!(rooms_overlap(&room(-2, -2, 3, 3, 0), &room(0, 0, 3, 3, 0)));
}

#[test]
fn house_error_messages() {
    assert_eq!(HouseError::NoRooms.message(""), "House must have at least one room");
    assert_eq!(HouseError::RoomSizeX { room: 0, size: 2 }.message(""), "Room 0 size_x (2) must be 3-6");
    assert_eq!(HouseError::RoomSizeZ { room: 3, size: 7 }.message(""), "Room 3 size_z (7) must be 3-6");
    assert_eq!(HouseError::RoomWallHeight { room: 1 }.message("12.5"), "Room 1 wall_height (12.5) must be 0-10");
    assert_eq!(HouseError::RoomsOverlap { first: 0, second: 2 }.message(""), "Rooms 0 and 2 overlap");
}

#[test]
fn house_ids_and_chunks() {
    assert_eq!(parse_chunk_from_id("r-24_+07_1"), Some((-24, 7)));
    assert_eq!(parse_chunk_from_id("r+03_-01"), Some((3, -1)));
    assert_eq!(parse_chunk_from_id("x+03_-01_1"), None);
    assert_eq!(parse_chunk_from_id("r+03"), None);
    assert_eq!(parse_chunk_from_id("rab_+01_1"), None);
    assert_eq!(next_house_id(-24, 7, &vec![]), "r-24_+07_1");
    let existing = vec![
        "r-24_+07_1".to_string(),
        "r-24_+07_9".to_string(),
        "r-24_+07_x".to_string(),
        "r+01_+07_40".to_string(),
    ];
    assert_eq!(next_house_id(-24, 7, &existing), "r-24_+07_10");
    assert_eq!(parse_chunk_from_id(&next_house_id(5, -3, &existing)), Some((5, -3)));
}

#[test]
fn housing_paths() {
    let io = HousingIO::new("data/houses".to_string());
    assert_eq!(io.chunk_dir(-1, 2), "data/houses/r-01_+02");
    assert_eq!(io.house_path(-1, 2, "r-01_+02_3"), "data/houses/r-01_+02/r-01_+02_3.json");
}

#[test]
fn npc_names_cannot_escape_the_base_dir() {
    assert_eq!(NpcIO::validate_name("karl"), Ok(()));
    assert_eq!(NpcIO::validate_name(""), Err(NpcNameError::InvalidName));
    assert_eq!(NpcIO::validate_name("../etc"), Err(NpcNameError::InvalidName));
    assert_eq!(NpcIO::validate_name("a/b"), Err(NpcNameError::InvalidName));
    assert_eq!(NpcIO::validate_name("a\\b"), Err(NpcNameError::InvalidName));
    assert_eq!(NpcIO::validate_name("a.b"), Ok(()));
    let io = NpcIO::new("data/npcs".to_string());
    assert_eq!(io.schedule_path("karl"), Ok("data/npcs/karl/schedule.json".to_string()));
    assert_eq!(io.schedule_path(".."), Err(NpcNameError::InvalidName));
}

use onlinerpg::chat::{escape_outcome, give_reply};

#[test]
fn escape_outcome_depends_on_combat() {
    assert_eq!(escape_outcome(15_000, 10_000), (false, "Escape: not while in combat.".to_string()));
    assert_eq!(escape_outcome(20_000, 10_000), (true, "Escape: returned to the starting point.".to_string()));
}

#[test]
fn give_replies() {
    assert_eq!(give_reply("iron_sword", true), "Gave item: iron_sword");
    assert_eq!(give_reply("nope", false), "Unknown item: nope");
}
