//! The brain of a client-driven monster: how it reacts to being attacked
//! (the damage it takes, death, the stagger of a hit, fleeing when its
//! health is low) and how each tick moves it between idling, patrolling,
//! fighting, fleeing and returning home. Chance rolls, timers, distances
//! and path finding are measured by the caller and passed in.
use vstd::prelude::*;

verus! {

/// The states of a monster's brain.
#[derive(Debug, Clone, Copy, PartialEq, Eq, Structural)]
pub enum AiState {
    Idle,
    Walk,
    Run,
    Attack,
    Hit,
    Dead,
    Flee,
    Return,
}

/// What a monster does next after being attacked.
#[derive(Debug, Clone, Copy, PartialEq, Eq, Structural)]
pub enum HitReaction {
    /// Health reached zero.
    Die,
    /// A landed blow: stagger first (and decide on fleeing afterwards).
    Stagger,
    /// A miss while low on health with a successful flee roll: run home.
    Flee,
    /// A miss otherwise: fight back at once.
    Attack,
}

/// Health after an attack: a landed blow removes `damage` (not below 0),
/// a miss removes nothing.
pub open spec fn health_after_hit(health: u32, hit: bool, damage: u32) -> u32 {
    if hit && damage <= health { (health - damage) as u32 } else if hit { 0 } else { health }
}

/// The reaction to an attack, given the health afterwards.
pub open spec fn hit_reaction_spec(new_health: u32, hit: bool, flee_threshold: u32, flee_roll: bool) -> HitReaction {
    if new_health == 0 {
        HitReaction::Die
    } else if hit {
        HitReaction::Stagger
    } else if new_health <= flee_threshold && flee_roll {
        HitReaction::Flee
    } else {
        HitReaction::Attack
    }
}

/// React to an attack by a player: a dead monster ignores it; otherwise
/// the new health and what to do next. `flee_roll` is whether the chance
/// roll against the monster's flee chance succeeded.
pub fn react_to_hit(state: AiState, health: u32, hit: bool, damage: u32, flee_threshold: u32, flee_roll: bool) -> (r: Option<(u32, HitReaction)>)
    ensures
        state == AiState::Dead ==> r is None,
        state != AiState::Dead ==> r == Some((
            health_after_hit(health, hit, damage),
            hit_reaction_spec(health_after_hit(health, hit, damage), hit, flee_threshold, flee_roll),
        )),
{
    if state == AiState::Dead {
        return None;
    }
    let h: u32 = if hit { if damage <= health { health - damage } else { 0 } } else { health };
    let reaction = if h == 0 {
        HitReaction::Die
    } else if hit {
        HitReaction::Stagger
    } else if h <= flee_threshold && flee_roll {
        HitReaction::Flee
    } else {
        HitReaction::Attack
    };
    Some((h, reaction))
}

/// After the stagger of a hit: flee when health is at or below the
/// threshold and the flee roll succeeds, else attack.
pub fn after_stagger(health: u32, flee_threshold: u32, flee_roll: bool) -> (r: AiState)
    ensures
        r == (if health <= flee_threshold && flee_roll { AiState::Flee } else { AiState::Attack }),
{
    if health <= flee_threshold && flee_roll { AiState::Flee } else { AiState::Attack }
}

/// An attack never heals a monster, and a monster only dies from a blow
/// that lands.
pub proof fn lemma_hits_only_hurt(health: u32, hit: bool, damage: u32, flee_threshold: u32, flee_roll: bool)
    ensures
        health_after_hit(health, hit, damage) <= health,
        !hit ==> health_after_hit(health, hit, damage) == health,
        hit_reaction_spec(health_after_hit(health, hit, damage), hit, flee_threshold, flee_roll) == HitReaction::Die
            ==> hit || health == 0,
{
}

/// What a monster senses on a tick, measured by the caller.
#[derive(Debug, Clone, Copy, PartialEq, Eq, Structural)]
pub struct Senses {
    /// The current state's timer reached its limit (idle check, hit
    /// stagger, flee duration, attack cooldown).
    pub timer_done: bool,
    /// The current state's chance roll succeeded (idle: start moving;
    /// patrol arrival: stop and idle; stagger: flee).
    pub chance: bool,
    /// The roll to walk home (rather than idle) when disengaging succeeded.
    pub return_roll: bool,
    /// A new random move is a walk rather than a run.
    pub walk: bool,
    /// The path this tick asked for was found.
    pub path_found: bool,
    /// Following the path reached its end this tick.
    pub reached: bool,
    /// A patrol has a destination.
    pub has_destination: bool,
    /// The monster has a target player.
    pub has_target: bool,
    /// The target is near and alive.
    pub target_alive: bool,
    /// The monster is farther from its spawn than its leash.
    pub beyond_leash: bool,
    /// The target is beyond the chase range.
    pub beyond_chase: bool,
    /// The target is within attack range.
    pub in_attack_range: bool,
    /// The monster is back at its spawn.
    pub at_home: bool,
    /// A return needs a new path (none left to follow).
    pub needs_path: bool,
}

/// What a tick sends to the server.
#[derive(Debug, Clone, Copy, PartialEq, Eq, Structural)]
pub enum TickAction {
    Nothing,
    /// A move message with the monster's state.
    Move,
    /// A move message, then an attack on the target.
    MoveAndAttack,
}

/// The result of a tick.
#[derive(Debug, Clone, Copy, PartialEq, Eq, Structural)]
pub struct BrainStep {
    pub state: AiState,
    /// The state timer restarts.
    pub restart_timer: bool,
    /// The target is forgotten.
    pub drop_target: bool,
    pub action: TickAction,
}

/// Going idle: announced with a move message.
pub open spec fn to_idle(drop_target: bool) -> BrainStep {
    BrainStep { state: AiState::Idle, restart_timer: true, drop_target, action: TickAction::Move }
}

/// Starting a random walk or run; without a path the monster stays idle,
/// silently.
pub open spec fn to_move(s: Senses) -> BrainStep {
    if s.path_found {
        BrainStep { state: if s.walk { AiState::Walk } else { AiState::Run }, restart_timer: true, drop_target: false, action: TickAction::Move }
    } else {
        BrainStep { state: AiState::Idle, restart_timer: true, drop_target: false, action: TickAction::Nothing }
    }
}

/// Fleeing home; without a path the monster idles, silently.
pub open spec fn to_flee(s: Senses) -> BrainStep {
    if s.path_found {
        BrainStep { state: AiState::Flee, restart_timer: true, drop_target: false, action: TickAction::Move }
    } else {
        BrainStep { state: AiState::Idle, restart_timer: true, drop_target: false, action: TickAction::Nothing }
    }
}

/// Disengaging: walk home if the return roll succeeds and a path exists,
/// else go idle.
pub open spec fn to_return(s: Senses, drop_target: bool) -> BrainStep {
    if s.return_roll && s.path_found {
        BrainStep { state: AiState::Return, restart_timer: true, drop_target, action: TickAction::Move }
    } else {
        to_idle(drop_target)
    }
}

/// One tick of a monster's brain.
pub open spec fn brain_tick_spec(state: AiState, health: u32, flee_threshold: u32, s: Senses) -> BrainStep {
    let stay = BrainStep { state, restart_timer: false, drop_target: false, action: TickAction::Nothing };
    if state == AiState::Dead || health == 0 {
        stay
    } else {
        match state {
            AiState::Idle => if !s.timer_done {
                stay
            } else if s.chance {
                to_move(s)
            } else {
                BrainStep { restart_timer: true, ..stay }
            },
            AiState::Walk | AiState::Run => if !s.has_destination {
                to_idle(false)
            } else if s.reached {
                if s.chance { to_idle(false) } else { to_move(s) }
            } else {
                stay
            },
            AiState::Hit => if !s.timer_done {
                stay
            } else if health <= flee_threshold && s.chance {
                to_flee(s)
            } else {
                BrainStep { state: AiState::Attack, restart_timer: true, drop_target: false, action: TickAction::Move }
            },
            AiState::Attack => if !s.has_target {
                to_idle(false)
            } else if !s.target_alive {
                to_idle(true)
            } else if s.beyond_leash || s.beyond_chase {
                to_return(s, true)
            } else if s.in_attack_range {
                if s.timer_done {
                    BrainStep { restart_timer: true, action: TickAction::MoveAndAttack, ..stay }
                } else {
                    stay
                }
            } else if s.reached {
                to_idle(true)
            } else {
                BrainStep { action: TickAction::Move, ..stay }
            },
            AiState::Flee => if s.timer_done || s.reached {
                to_return(s, true)
            } else {
                BrainStep { action: TickAction::Move, ..stay }
            },
            AiState::Return => if s.at_home || (s.needs_path && !s.path_found) {
                to_idle(false)
            } else {
                BrainStep { action: TickAction::Move, ..stay }
            },
            AiState::Dead => stay,
        }
    }
}

fn idle_step(drop_target: bool) -> (r: BrainStep)
    ensures
        r == to_idle(drop_target),
{
    BrainStep { state: AiState::Idle, restart_timer: true, drop_target, action: TickAction::Move }
}

fn return_step(s: Senses, drop_target: bool) -> (r: BrainStep)
    ensures
        r == to_return(s, drop_target),
{
    if s.return_roll && s.path_found {
        BrainStep { state: AiState::Return, restart_timer: true, drop_target, action: TickAction::Move }
    } else {
        idle_step(drop_target)
    }
}

fn move_step(s: Senses) -> (r: BrainStep)
    ensures
        r == to_move(s),
{
    if s.path_found {
        BrainStep { state: if s.walk { AiState::Walk } else { AiState::Run }, restart_timer: true, drop_target: false, action: TickAction::Move }
    } else {
        BrainStep { state: AiState::Idle, restart_timer: true, drop_target: false, action: TickAction::Nothing }
    }
}

/// One tick of a monster's brain: a dead monster does nothing; an idle one
/// may start a random move when its check comes; a patrolling one idles or
/// moves on at its destination; a staggered one flees or fights back when
/// the stagger ends; a fighting one forgets a dead or missing target, gives
/// up beyond its leash or chase range, strikes in range when its cooldown
/// ends, and otherwise chases (giving up when its path runs out); a fleeing
/// one turns home when the flight ends; a returning one idles at home or
/// when no path leads there.
pub fn brain_tick(state: AiState, health: u32, flee_threshold: u32, s: Senses) -> (r: BrainStep)
    ensures
        r == brain_tick_spec(state, health, flee_threshold, s),
{
    let stay = BrainStep { state, restart_timer: false, drop_target: false, action: TickAction::Nothing };
    if state == AiState::Dead || health == 0 {
        return stay;
    }
    match state {
        AiState::Idle => if !s.timer_done {
            stay
        } else if s.chance {
            move_step(s)
        } else {
            BrainStep { restart_timer: true, ..stay }
        },
        AiState::Walk | AiState::Run => if !s.has_destination {
            idle_step(false)
        } else if s.reached {
            if s.chance { idle_step(false) } else { move_step(s) }
        } else {
            stay
        },
        AiState::Hit => if !s.timer_done {
            stay
        } else if health <= flee_threshold && s.chance {
            if s.path_found {
                BrainStep { state: AiState::Flee, restart_timer: true, drop_target: false, action: TickAction::Move }
            } else {
                BrainStep { state: AiState::Idle, restart_timer: true, drop_target: false, action: TickAction::Nothing }
            }
        } else {
            BrainStep { state: AiState::Attack, restart_timer: true, drop_target: false, action: TickAction::Move }
        },
        AiState::Attack => if !s.has_target {
            idle_step(false)
        } else if !s.target_alive {
            idle_step(true)
        } else if s.beyond_leash || s.beyond_chase {
            return_step(s, true)
        } else if s.in_attack_range {
            if s.timer_done {
                BrainStep { restart_timer: true, action: TickAction::MoveAndAttack, ..stay }
            } else {
                stay
            }
        } else if s.reached {
            idle_step(true)
        } else {
            BrainStep { action: TickAction::Move, ..stay }
        },
        AiState::Flee => if s.timer_done || s.reached {
            return_step(s, true)
        } else {
            BrainStep { action: TickAction::Move, ..stay }
        },
        AiState::Return => if s.at_home || (s.needs_path && !s.path_found) {
            idle_step(false)
        } else {
            BrainStep { action: TickAction::Move, ..stay }
        },
        AiState::Dead => stay,
    }
}

/// A monster attacks only from the fight state, and only a living one
/// acts at all.
pub proof fn lemma_attacks_only_when_fighting(state: AiState, health: u32, flee_threshold: u32, s: Senses)
    ensures
        brain_tick_spec(state, health, flee_threshold, s).action == TickAction::MoveAndAttack
            ==> state == AiState::Attack && health > 0 && s.in_attack_range && s.timer_done,
        state == AiState::Dead || health == 0 ==> brain_tick_spec(state, health, flee_threshold, s).action == TickAction::Nothing,
{
}

/// A fighting monster gives up a target beyond its chase range or once it
/// strays beyond its leash, whatever else it senses: it forgets the target
/// and leaves the fight, walking home when the return roll succeeds and a
/// path exists, otherwise idling.
pub proof fn lemma_gives_up_out_of_range(health: u32, flee_threshold: u32, s: Senses)
    requires
        health > 0,
        s.has_target,
        s.target_alive,
        s.beyond_chase || s.beyond_leash,
    ensures
        ({
            let r = brain_tick_spec(AiState::Attack, health, flee_threshold, s);
            &&& r.drop_target
            &&& r.state != AiState::Attack
            &&& r.state == (if s.return_roll && s.path_found { AiState::Return } else { AiState::Idle })
            &&& r.action == TickAction::Move
        }),
{
}

/// A fighting monster in range of a living target strikes exactly when
/// its cooldown is over, and keeps its target either way.
pub proof fn lemma_strikes_when_ready(health: u32, flee_threshold: u32, s: Senses)
    requires
        health > 0,
        s.has_target,
        s.target_alive,
        !s.beyond_chase,
        !s.beyond_leash,
        s.in_attack_range,
    ensures
        ({
            let r = brain_tick_spec(AiState::Attack, health, flee_threshold, s);
            &&& r.state == AiState::Attack
            &&& !r.drop_target
            &&& (r.action == TickAction::MoveAndAttack) == s.timer_done
        }),
{
}

/// A fighting monster whose target is dead or gone forgets it and idles.
pub proof fn lemma_lost_target_idles(health: u32, flee_threshold: u32, s: Senses)
    requires
        health > 0,
        s.has_target,
        !s.target_alive,
    ensures
        brain_tick_spec(AiState::Attack, health, flee_threshold, s).state == AiState::Idle,
        brain_tick_spec(AiState::Attack, health, flee_threshold, s).drop_target,
{
}

/// When a stagger ends, a monster flees only if its health is at or below
/// the flee threshold, the flee roll succeeds and a path home exists;
/// failing the threshold or the roll, it fights back.
pub proof fn lemma_stagger_ends(health: u32, flee_threshold: u32, s: Senses)
    requires
        health > 0,
        s.timer_done,
    ensures
        (brain_tick_spec(AiState::Hit, health, flee_threshold, s).state == AiState::Flee)
            <==> (health <= flee_threshold && s.chance && s.path_found),
        !(health <= flee_threshold && s.chance) ==> brain_tick_spec(AiState::Hit, health, flee_threshold, s).state == AiState::Attack,
        !s.timer_done ==> brain_tick_spec(AiState::Hit, health, flee_threshold, s).state == AiState::Hit,
{
}

/// The quiet states: an idle monster waits for its check and then, on a
/// successful roll with a path, walks or runs; a patrol without a
/// destination idles, and at its destination idles or moves on; a fleeing
/// monster keeps running until its flight ends or its path runs out, then
/// drops its target and turns home; a returning one idles once home.
pub proof fn lemma_quiet_states(health: u32, flee_threshold: u32, s: Senses)
    requires
        health > 0,
    ensures
        !s.timer_done ==> brain_tick_spec(AiState::Idle, health, flee_threshold, s).state == AiState::Idle
            && brain_tick_spec(AiState::Idle, health, flee_threshold, s).action == TickAction::Nothing,
        s.timer_done && s.chance && s.path_found ==> brain_tick_spec(AiState::Idle, health, flee_threshold, s).state
            == (if s.walk { AiState::Walk } else { AiState::Run })
            && brain_tick_spec(AiState::Idle, health, flee_threshold, s).action == TickAction::Move,
        s.timer_done && !s.chance ==> brain_tick_spec(AiState::Idle, health, flee_threshold, s).state == AiState::Idle,
        !s.has_destination ==> brain_tick_spec(AiState::Walk, health, flee_threshold, s).state == AiState::Idle
            && brain_tick_spec(AiState::Run, health, flee_threshold, s).state == AiState::Idle,
        s.has_destination && !s.reached ==> brain_tick_spec(AiState::Walk, health, flee_threshold, s).state == AiState::Walk
            && brain_tick_spec(AiState::Run, health, flee_threshold, s).state == AiState::Run,
        s.has_destination && s.reached && s.chance ==> brain_tick_spec(AiState::Walk, health, flee_threshold, s).state == AiState::Idle,
        (s.timer_done || s.reached) ==> brain_tick_spec(AiState::Flee, health, flee_threshold, s).drop_target
            && brain_tick_spec(AiState::Flee, health, flee_threshold, s).state != AiState::Flee,
        !(s.timer_done || s.reached) ==> brain_tick_spec(AiState::Flee, health, flee_threshold, s).state == AiState::Flee
            && brain_tick_spec(AiState::Flee, health, flee_threshold, s).action == TickAction::Move,
        s.at_home ==> brain_tick_spec(AiState::Return, health, flee_threshold, s).state == AiState::Idle,
        !s.at_home && !s.needs_path ==> brain_tick_spec(AiState::Return, health, flee_threshold, s).state == AiState::Return
            && brain_tick_spec(AiState::Return, health, flee_threshold, s).action == TickAction::Move,
{
}

} // verus!
