//! Who sees a moving player change: after a move (or a floor change) the
//! players in view before and after are compared; those no longer in view
//! and the mover lose sight of each other, those newly in view and the
//! mover see each other appear, and those in view throughout get the
//! position update. Which players are within the radius is measured by
//! the caller; monsters and ground items are compared the same way.
use vstd::prelude::*;

verus! {

/// The change in what a moving player sees.
#[derive(Debug)]
pub struct VisibilityDiff {
    /// In view before, not after.
    pub left: Vec<u64>,
    /// In view after, not before.
    pub entered: Vec<u64>,
    /// In view before and after.
    pub stayed: Vec<u64>,
}

fn contains_id(v: &Vec<u64>, x: u64) -> (r: bool)
    ensures
        r == v@.contains(x),
{
    let mut i: usize = 0;
    while i < v.len()
        invariant
            i <= v@.len(),
            forall|j: int| 0 <= j < i ==> v@[j] != x,
        decreases v.len() - i,
    {
        if v[i] == x {
            proof {
                assert(v@[i as int] == x);
            }
            return true;
        }
        i = i + 1;
    }
    false
}

/// The ids of `from` that satisfy `keep`, each once, in order of first
/// appearance; `keep` is whether `other` holds the id (`want_in`) or not.
fn select(from: &Vec<u64>, other: &Vec<u64>, want_in: bool, mover: u64) -> (r: Vec<u64>)
    ensures
        r@.no_duplicates(),
        forall|y: u64| r@.contains(y) <==> (from@.contains(y) && other@.contains(y) == want_in && y != mover),
{
    let mut out: Vec<u64> = Vec::new();
    let mut i: usize = 0;
    while i < from.len()
        invariant
            i <= from@.len(),
            out@.no_duplicates(),
            forall|y: u64| out@.contains(y) <==> (from@.subrange(0, i as int).contains(y) && other@.contains(y) == want_in && y != mover),
        decreases from.len() - i,
    {
        let x = from[i];
        let ghost prev = out@;
        proof {
            assert forall|y: u64| from@.subrange(0, i + 1).contains(y) <==> (from@.subrange(0, i as int).contains(y) || y == x) by {
                if from@.subrange(0, i + 1).contains(y) {
                    let j = choose|j: int| 0 <= j < i + 1 && #[trigger] from@.subrange(0, i + 1)[j] == y;
                    if j < i {
                        assert(from@.subrange(0, i as int)[j] == y);
                    }
                }
                if from@.subrange(0, i as int).contains(y) {
                    let j = choose|j: int| 0 <= j < i && #[trigger] from@.subrange(0, i as int)[j] == y;
                    assert(from@.subrange(0, i + 1)[j] == y);
                }
                if y == x {
                    assert(from@.subrange(0, i + 1)[i as int] == y);
                }
            }
        }
        let in_other = contains_id(other, x);
        let seen = contains_id(&out, x);
        if x != mover && in_other == want_in && !seen {
            let ghost before = out@;
            out.push(x);
            proof {
                assert forall|a: int, b: int| 0 <= a < b < out@.len() implies out@[a] != out@[b] by {
                    if b == before.len() {
                        assert(before[a] == out@[a]);
                        assert(before.contains(out@[a]));
                    } else {
                        assert(before[a] == out@[a] && before[b] == out@[b]);
                    }
                }
                assert forall|y: u64| out@.contains(y) <==> (before.contains(y) || y == x) by {
                    if out@.contains(y) {
                        let j = choose|j: int| 0 <= j < out@.len() && #[trigger] out@[j] == y;
                        if j < before.len() {
                            assert(before[j] == y);
                        }
                    }
                    if before.contains(y) {
                        let j = choose|j: int| 0 <= j < before.len() && #[trigger] before[j] == y;
                        assert(out@[j] == y);
                    }
                    if y == x {
                        assert(out@[before.len() as int] == y);
                    }
                }
            }
        }
        proof {
            assert forall|y: u64| out@.contains(y) <==> (from@.subrange(0, i + 1).contains(y) && other@.contains(y) == want_in && y != mover) by {
                if y != x {
                    if out@.contains(y) {
                        assert(prev.contains(y));
                    }
                }
            }
        }
        i = i + 1;
    }
    proof {
        assert(from@.subrange(0, from@.len() as int) =~= from@);
    }
    out
}

/// Compare who `mover` saw before a move with who it sees after (the
/// mover itself never counts): each id once, in the order of the list it
/// comes from.
pub fn visibility_diff(mover: u64, old_visible: &Vec<u64>, new_visible: &Vec<u64>) -> (r: VisibilityDiff)
    ensures
        r.left@.no_duplicates(),
        r.entered@.no_duplicates(),
        r.stayed@.no_duplicates(),
        forall|y: u64| r.left@.contains(y) <==> (old_visible@.contains(y) && !new_visible@.contains(y) && y != mover),
        forall|y: u64| r.entered@.contains(y) <==> (new_visible@.contains(y) && !old_visible@.contains(y) && y != mover),
        forall|y: u64| r.stayed@.contains(y) <==> (new_visible@.contains(y) && old_visible@.contains(y) && y != mover),
{
    let left = select(old_visible, new_visible, false, mover);
    let entered = select(new_visible, old_visible, false, mover);
    let stayed = select(new_visible, old_visible, true, mover);
    VisibilityDiff { left, entered, stayed }
}

} // verus!
