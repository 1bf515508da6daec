# onlinerpg

A library of rules used by a small online role-playing game's server
and by its LLM-driven NPC client, written in Verus with the contracts
proved. The networked server and client themselves (their sockets, the
shared message types, the LLM backends) are not part of this crate:
`app/` holds only the I/O around what the library covers.

## Layout

- `src/` — the verified library.
  - `deals.rs`, `game_state.rs` — haggling: price bands from CHA, buy and
    sell prices, daily discount budgets, the single-use deal book; NPC
    salaries.
  - `game_time.rs` — the game calendar and its conversion to and from game
    seconds.
  - `character_hp.rs`, `vitals.rs` — maximum HP at level 1 and per level,
    regeneration out of combat, the HP cost of a lost level.
  - `monster_spawn.rs` — spawn caps, monster naming, the ambient spawn plan.
  - `monster_ai.rs` — a client-driven monster's brain: its reaction to
    an attack and its tick from idling through fighting to returning home.
  - `movement.rs` — the waypoint queue of a walking player, and who may
    move a monster.
  - `interaction.rs` — furniture in use, one player per object.
  - `session.rs` — the per-connection protocol state and the routing of
    client messages, the same for NPC and human clients.
  - `auth.rs`, `access.rs`, `google_keys.rs` — account and character
    requests, the NPC token check, REST write access, Google key lookup
    and the Google ID-token check.
  - `housing.rs`, `doors.rs`, `terrain.rs`, `npc_schedule.rs` — house
    validation and ids, open doors, terrain tile paths and default tiles, NPC schedule paths.
  - `chat.rs`, `agent.rs` — chat commands and `/who`; the NPC client's
    schedules, event urgency and reply parsing.
  - `visibility.rs` — who sees a moving player leave, appear or move.
  - `attack.rs` — a player's blow on a monster, the kill's experience and
    the HP rolled on level-up.
  - `events.rs`, `event_text.rs`, `driver.rs`, `npc_session.rs` — the NPC
    client's event buffer, the prompt lines for events, when the LLM is
    prompted, and the login and character setup of a session.
  - `text.rs` — the string and number formatting everything above uses.
- `tests/` — tests run against the compiled library.
- `app/` — the process shell: configuration files, the SQLite account
  database, schedule files, Google key fetching.
