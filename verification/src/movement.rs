//! Movement requests a client may make: the queue of waypoints a player's
//! walk follows, and who may move a monster. Distances and speeds are
//! measured by the caller, which hands in whether a leg or a monster step
//! is within its limit.
use vstd::prelude::*;

verus! {

/// Most waypoints queued for one player.
pub const MAX_QUEUED_WAYPOINTS: usize = 32;

/// The queue after a move request: a request whose leg is too long
/// changes nothing; a fresh (not appended) request replaces the queue; an
/// appended leg goes last, dropping the oldest leg when the queue is full.
pub open spec fn queue_after<T>(queue: Seq<T>, leg: T, append: bool, in_range: bool) -> Seq<T> {
    if !in_range {
        queue
    } else if !append {
        seq![leg]
    } else if queue.len() >= MAX_QUEUED_WAYPOINTS {
        queue.drop_first().push(leg)
    } else {
        queue.push(leg)
    }
}

/// Queue a walk leg. `in_range` is whether the leg, measured from the
/// queue's last waypoint when appending and from the player otherwise, is
/// within the longest accepted move. Returns whether the leg was queued.
pub fn enqueue_leg<T>(queue: &mut Vec<T>, leg: T, append: bool, in_range: bool) -> (r: bool)
    requires
        old(queue)@.len() <= MAX_QUEUED_WAYPOINTS,
    ensures
        r == in_range,
        final(queue)@ == queue_after(old(queue)@, leg, append, in_range),
        final(queue)@.len() <= MAX_QUEUED_WAYPOINTS,
{
    if !in_range {
        return false;
    }
    if !append {
        queue.clear();
    } else if queue.len() >= MAX_QUEUED_WAYPOINTS {
        let ghost before = queue@;
        queue.remove(0);
        proof {
            assert(queue@ =~= before.drop_first());
        }
    }
    queue.push(leg);
    proof {
        if !append {
            assert(queue@ =~= seq![leg]);
        }
    }
    true
}

/// Whether a client's monster move applies: the monster is alive, the
/// moving player owns it (a monster nobody owns is moved by no client),
/// and the step is within what the monster could run since its last move.
pub fn monster_move_allowed(mover: u64, owner: Option<u64>, monster_dead: bool, within_speed: bool) -> (r: bool)
    ensures
        r == (!monster_dead && owner == Some(mover) && within_speed),
{
    if monster_dead || !within_speed {
        return false;
    }
    match owner {
        Some(o) => o == mover,
        None => false,
    }
}

} // verus!
