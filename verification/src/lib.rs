use vstd::prelude::*;

pub mod terrain;
pub mod text;
pub mod deals;
pub mod game_time;
pub mod game_state;
pub mod auth;
pub mod access;
pub mod character_hp;
pub mod housing;
pub mod npc_schedule;
pub mod chat;
pub mod agent;
pub mod vitals;
pub mod monster_spawn;
pub mod session;
pub mod google_keys;
pub mod monster_ai;
pub mod doors;
pub mod interaction;
pub mod events;
pub mod attack;
pub mod npc_session;
pub mod driver;
pub mod event_text;
pub mod visibility;
pub mod movement;

verus! {

} // verus!
