//! The state of one client connection and the protocol rules around it:
//! a connection authenticates once, may roll stats and manage characters
//! only while authenticated and out of game, and enters the game at most
//! once. Unauthenticated and silent connections are dropped.
use vstd::prelude::*;

use crate::auth::CharacterAttributes;
use crate::text::{chars_of, extend_str, string_of};

verus! {

/// Seconds without a heartbeat after which an in-game connection is dropped.
pub const HEARTBEAT_TIMEOUT_SECS: u64 = 30;
/// Seconds an unauthenticated connection may stay open.
pub const UNAUTH_TIMEOUT_SECS: u64 = 60;

/// What a connection knows about its client.
#[derive(Debug)]
pub struct ConnectionState {
    pub account_name: Option<String>,
    pub player_id: Option<u64>,
    pub pending_character_attributes: Option<CharacterAttributes>,
    pub is_npc: bool,
}

/// What to do with an `EnterGame` request.
#[derive(Debug, PartialEq, Eq)]
pub enum EnterGameGate {
    /// The client is already in game: ignore the request.
    AlreadyInGame,
    /// The client must authenticate first; reply with this message.
    Refused(String),
    /// Go on, for this account.
    Proceed(String),
}

/// The reply to a character request from an unauthenticated client.
pub open spec fn authenticate_first() -> Seq<char> {
    "Authenticate first"@
}

/// The reply to a character request from a client in game.
pub open spec fn not_while_in_game(action: Seq<char>) -> Seq<char> {
    "Cannot "@ + action + " while in game"@
}

impl ConnectionState {
    /// A connection in game is authenticated, and so is one holding rolled
    /// stats.
    pub open spec fn wf(&self) -> bool {
        &&& self.player_id is Some ==> self.account_name is Some
        &&& self.pending_character_attributes is Some ==> self.account_name is Some
    }

    /// The account name's characters, if authenticated.
    pub open spec fn account_view(&self) -> Option<Seq<char>> {
        match self.account_name {
            Some(a) => Some(a@),
            None => None,
        }
    }

    /// A fresh connection: unauthenticated, not in game, no rolled stats.
    pub fn new() -> (r: ConnectionState)
        ensures
            r.wf(),
            r.account_name is None,
            r.player_id is None,
            r.pending_character_attributes is None,
            !r.is_npc,
    {
        ConnectionState { account_name: None, player_id: None, pending_character_attributes: None, is_npc: false }
    }

    /// The authenticated account, or the reply for an unauthenticated
    /// client.
    pub fn require_auth(&self, action: &str) -> (r: Result<String, String>)
        ensures
            match self.account_name {
                Some(a) => r matches Ok(n) && n@ == a@,
                None => r matches Err(m) && m@ == authenticate_first(),
            },
    {
        match &self.account_name {
            Some(name) => Ok(name.clone()),
            None => Err(String::from_str("Authenticate first")),
        }
    }

    /// Refuse `action` while the client is in game.
    pub fn require_not_in_game(&self, action: &str) -> (r: Result<(), String>)
        ensures
            self.player_id is Some ==> (r matches Err(m) && m@ == not_while_in_game(action@)),
            self.player_id is None ==> r is Ok,
    {
        if self.player_id.is_some() {
            let mut v: Vec<char> = chars_of("Cannot ");
            extend_str(&mut v, action);
            extend_str(&mut v, " while in game");
            proof {
                assert(v@ =~= not_while_in_game(action@));
            }
            Err(string_of(&v))
        } else {
            Ok(())
        }
    }

    /// An authentication request is refused once the connection is
    /// authenticated.
    pub fn check_auth_request(&self) -> (r: Result<(), String>)
        ensures
            self.account_name is Some ==> (r matches Err(m) && m@ == "Already authenticated"@),
            self.account_name is None ==> r is Ok,
    {
        if self.account_name.is_some() {
            Err(String::from_str("Already authenticated"))
        } else {
            Ok(())
        }
    }

    /// Mark the connection authenticated as `account_name`, dropping any
    /// rolled stats.
    pub fn finish_auth(&mut self, account_name: String, is_npc: bool)
        requires
            old(self).wf(),
        ensures
            final(self).wf(),
            final(self).account_view() == Some(account_name@),
            final(self).is_npc == is_npc,
            final(self).pending_character_attributes is None,
            final(self).player_id == old(self).player_id,
    {
        self.account_name = Some(account_name);
        self.is_npc = is_npc;
        self.pending_character_attributes = None;
    }

    /// The checks of a character request (create, delete, roll): not in
    /// game, then authenticated.
    pub fn character_gate(&self, action: &str) -> (r: Result<String, String>)
        ensures
            self.player_id is Some ==> (r matches Err(m) && m@ == not_while_in_game(action@)),
            self.player_id is None ==> match self.account_name {
                Some(a) => r matches Ok(n) && n@ == a@,
                None => r matches Err(m) && m@ == authenticate_first(),
            },
    {
        self.require_not_in_game(action)?;
        self.require_auth(action)
    }

    /// Keep freshly rolled stats for the next character creation, if the
    /// character gate lets the roll through.
    pub fn accept_rolled_stats(&mut self, attributes: CharacterAttributes) -> (r: Result<(), String>)
        requires
            old(self).wf(),
        ensures
            final(self).wf(),
            old(self).player_id is Some ==> (r matches Err(m) && m@ == not_while_in_game("RollCharacterStats"@)),
            old(self).player_id is None && old(self).account_name is None ==> (r matches Err(m) && m@ == authenticate_first()),
            r is Ok <==> (old(self).player_id is None && old(self).account_name is Some),
            r is Ok ==> final(self).pending_character_attributes == Some(attributes),
            r is Err ==> final(self).pending_character_attributes == old(self).pending_character_attributes,
            final(self).account_name == old(self).account_name,
            final(self).player_id == old(self).player_id,
            final(self).is_npc == old(self).is_npc,
    {
        match self.character_gate("RollCharacterStats") {
            Ok(_) => {
                self.pending_character_attributes = Some(attributes);
                Ok(())
            },
            Err(m) => Err(m),
        }
    }

    /// The account and rolled stats a character creation needs, or the
    /// reply refusing it.
    pub fn creation_inputs(&self) -> (r: Result<(String, CharacterAttributes), String>)
        ensures
            self.player_id is Some ==> (r matches Err(m) && m@ == not_while_in_game("CreateCharacter"@)),
            self.player_id is None && self.account_name is None ==> (r matches Err(m) && m@ == authenticate_first()),
            self.player_id is None && self.account_name is Some ==> match self.pending_character_attributes {
                Some(a) => r matches Ok((n, b)) && n@ == self.account_name.unwrap()@ && b == a,
                None => r matches Err(m) && m@ == "Roll attributes first"@,
            },
    {
        let account = self.character_gate("CreateCharacter")?;
        match &self.pending_character_attributes {
            Some(a) => Ok((account, *a)),
            None => Err(String::from_str("Roll attributes first")),
        }
    }

    /// A character was created: the rolled stats are used up.
    pub fn character_created(&mut self)
        requires
            old(self).wf(),
        ensures
            final(self).wf(),
            final(self).pending_character_attributes is None,
            final(self).account_name == old(self).account_name,
            final(self).player_id == old(self).player_id,
            final(self).is_npc == old(self).is_npc,
    {
        self.pending_character_attributes = None;
    }

    /// What to do with an `EnterGame` request.
    pub fn enter_game_gate(&self) -> (r: EnterGameGate)
        ensures
            self.player_id is Some ==> r == EnterGameGate::AlreadyInGame,
            self.player_id is None && self.account_name is None ==> (r matches EnterGameGate::Refused(m) && m@ == authenticate_first()),
            self.player_id is None && self.account_name is Some ==> (r matches EnterGameGate::Proceed(n) && n@ == self.account_name.unwrap()@),
    {
        if self.player_id.is_some() {
            return EnterGameGate::AlreadyInGame;
        }
        match self.require_auth("EnterGame") {
            Ok(n) => EnterGameGate::Proceed(n),
            Err(m) => EnterGameGate::Refused(m),
        }
    }

    /// The connection entered the game as `player_id`.
    pub fn entered_game(&mut self, player_id: u64)
        requires
            old(self).wf(),
            old(self).account_name is Some,
        ensures
            final(self).wf(),
            final(self).player_id == Some(player_id),
            final(self).account_name == old(self).account_name,
            final(self).pending_character_attributes == old(self).pending_character_attributes,
            final(self).is_npc == old(self).is_npc,
    {
        self.player_id = Some(player_id);
    }

    /// Whether the periodic check drops the connection: unauthenticated for
    /// longer than `UNAUTH_TIMEOUT_SECS`, or in game without a heartbeat for
    /// longer than `HEARTBEAT_TIMEOUT_SECS`.
    pub fn should_drop(&self, secs_since_connect: u64, secs_since_heartbeat: u64) -> (r: bool)
        ensures
            r == ((self.account_name is None && secs_since_connect > UNAUTH_TIMEOUT_SECS)
                || (self.player_id is Some && secs_since_heartbeat > HEARTBEAT_TIMEOUT_SECS)),
    {
        (self.account_name.is_none() && secs_since_connect > UNAUTH_TIMEOUT_SECS)
            || (self.player_id.is_some() && secs_since_heartbeat > HEARTBEAT_TIMEOUT_SECS)
    }
}

/// How a returning character starts.
#[derive(Debug, Clone, Copy, PartialEq, Eq, Structural)]
pub struct RestoredState {
    pub health: u32,
    pub floor_level: i32,
    /// The character starts at the world spawn, not where it was saved.
    pub to_world_spawn: bool,
}

/// A returning character's saved state: its saved health capped at its
/// maximum HP (full health when none was saved), and its floor. A negative
/// floor is inside a dungeon: it is kept when the dungeon could be
/// re-entered, else the character starts at the world spawn on floor 0.
pub fn restore_saved_state(saved_health: Option<u32>, max_hp: u32, floor_level: i32, dungeon_reentered: bool) -> (r: RestoredState)
    ensures
        r.health == match saved_health {
            Some(h) => if h < max_hp { h } else { max_hp },
            None => max_hp,
        },
        r.to_world_spawn == (floor_level < 0 && !dungeon_reentered),
        r.floor_level == if r.to_world_spawn { 0 } else { floor_level },
{
    let health = match saved_health {
        Some(h) => if h < max_hp { h } else { max_hp },
        None => max_hp,
    };
    if floor_level < 0 && !dungeon_reentered {
        RestoredState { health, floor_level: 0, to_world_spawn: true }
    } else {
        RestoredState { health, floor_level, to_world_spawn: false }
    }
}

/// How the dispatch sorts a client message.
#[derive(Debug, Clone, Copy, PartialEq, Eq, Structural)]
pub enum MessageKind {
    /// A Google or NPC sign-in.
    Authenticate,
    /// Rolling stats, creating or deleting a character.
    CharacterRequest,
    EnterGame,
    Heartbeat,
    /// Client-side house broadcasts, which go through the REST API instead.
    HouseBroadcast,
    /// Anything a player does in the world: moving, chatting, fighting,
    /// trading, using objects.
    InGame,
}

/// Where a client message goes.
#[derive(Debug, Clone, Copy, PartialEq, Eq, Structural)]
pub enum Route {
    /// Refused: reply `Already authenticated`.
    AlreadyAuthenticated,
    /// To its handler, which applies its own gates.
    Handle,
    /// To the game, on behalf of this player.
    InGameAs(u64),
    /// Dropped: the client is not in game.
    NotInGame,
    /// Refresh the heartbeat.
    Heartbeat,
    /// Dropped without a reply.
    Ignore,
}

/// Where a message goes, from whether the connection is authenticated and
/// which player it plays. NPC and human clients are routed alike: the
/// route does not depend on the kind of client.
pub open spec fn route_spec(authenticated: bool, player_id: Option<u64>, kind: MessageKind) -> Route {
    match kind {
        MessageKind::Authenticate => if authenticated { Route::AlreadyAuthenticated } else { Route::Handle },
        MessageKind::CharacterRequest => Route::Handle,
        MessageKind::EnterGame => Route::Handle,
        MessageKind::Heartbeat => Route::Heartbeat,
        MessageKind::HouseBroadcast => Route::Ignore,
        MessageKind::InGame => match player_id {
            Some(p) => Route::InGameAs(p),
            None => Route::NotInGame,
        },
    }
}

/// The reply refusing a Google sign-in: when the server has no Google
/// client id, or when the token does not verify; `None` when it verified.
pub fn google_sign_in_error(configured: bool, verified: bool) -> (r: Option<String>)
    ensures
        !configured ==> (r matches Some(m) && m@ == "Google sign-in is not configured on this server"@),
        configured && !verified ==> (r matches Some(m) && m@ == "Google sign-in verification failed"@),
        configured && verified ==> r is None,
{
    if !configured {
        Some(String::from_str("Google sign-in is not configured on this server"))
    } else if !verified {
        Some(String::from_str("Google sign-in verification failed"))
    } else {
        None
    }
}

impl ConnectionState {
    /// Route a client message.
    pub fn route(&self, kind: MessageKind) -> (r: Route)
        ensures
            r == route_spec(self.account_name is Some, self.player_id, kind),
    {
        match kind {
            MessageKind::Authenticate => if self.account_name.is_some() { Route::AlreadyAuthenticated } else { Route::Handle },
            MessageKind::CharacterRequest => Route::Handle,
            MessageKind::EnterGame => Route::Handle,
            MessageKind::Heartbeat => Route::Heartbeat,
            MessageKind::HouseBroadcast => Route::Ignore,
            MessageKind::InGame => match self.player_id {
                Some(p) => Route::InGameAs(p),
                None => Route::NotInGame,
            },
        }
    }
}

/// Agents act under the same rules as players: two connections in the
/// same authentication and game state route every message alike, whatever
/// kind of client each is.
pub proof fn lemma_same_rules(a: ConnectionState, b: ConnectionState, kind: MessageKind)
    requires
        (a.account_name is Some) == (b.account_name is Some),
        a.player_id == b.player_id,
    ensures
        route_spec(a.account_name is Some, a.player_id, kind) == route_spec(b.account_name is Some, b.player_id, kind),
{
}

} // verus!
