//! Furniture in use: which object (bed, chair...) each player interacts
//! with. An object can be used by one player at a time; a request for an
//! object another player holds is refused as occupied.
use vstd::prelude::*;

verus! {

/// The object each player uses, as pairs (player, object id).
pub struct Occupancy {
    holders: Vec<(u64, u32)>,
}

impl Occupancy {
    /// No player occurs twice, and no object is held twice.
    pub closed spec fn wf(&self) -> bool {
        forall|i: int, j: int| 0 <= i < j < self.holders@.len() ==> {
            &&& (#[trigger] self.holders@[i]).0 != (#[trigger] self.holders@[j]).0
            &&& self.holders@[i].1 != self.holders@[j].1
        }
    }

    closed spec fn holds(&self, p: u64) -> bool {
        exists|i: int| 0 <= i < self.holders@.len() && (#[trigger] self.holders@[i]).0 == p
    }

    /// The object each player uses.
    pub closed spec fn view(&self) -> Map<u64, u32> {
        Map::new(
            |p: u64| self.holds(p),
            |p: u64| {
                let i = choose|i: int| 0 <= i < self.holders@.len() && (#[trigger] self.holders@[i]).0 == p;
                self.holders@[i].1
            },
        )
    }

    /// Whether players other than `p` hold `f`.
    pub open spec fn held_by_other(m: Map<u64, u32>, p: u64, f: u32) -> bool {
        exists|q: u64| q != p && #[trigger] m.dom().contains(q) && m[q] == f
    }

    /// The view is injective: no two players use one object.
    pub open spec fn exclusive(m: Map<u64, u32>) -> bool {
        forall|p: u64, q: u64| #![trigger m[p], m[q]]
            p != q && m.dom().contains(p) && m.dom().contains(q) ==> m[p] != m[q]
    }

    proof fn lemma_view_at(&self, i: int)
        requires
            self.wf(),
            0 <= i < self.holders@.len(),
        ensures
            self.view().dom().contains(self.holders@[i].0),
            self.view()[self.holders@[i].0] == self.holders@[i].1,
    {
        let p = self.holders@[i].0;
        assert(self.holds(p));
        let j = choose|j: int| 0 <= j < self.holders@.len() && (#[trigger] self.holders@[j]).0 == p;
        if j != i {
            if i < j {
                assert(self.holders@[i].0 != self.holders@[j].0);
            } else {
                assert(self.holders@[j].0 != self.holders@[i].0);
            }
        }
    }

    proof fn lemma_exclusive(&self)
        requires
            self.wf(),
        ensures
            Self::exclusive(self.view()),
    {
        assert forall|p: u64, q: u64| #![trigger self.view()[p], self.view()[q]]
            p != q && self.view().dom().contains(p) && self.view().dom().contains(q)
            implies self.view()[p] != self.view()[q] by {
            let i = choose|i: int| 0 <= i < self.holders@.len() && (#[trigger] self.holders@[i]).0 == p;
            let j = choose|j: int| 0 <= j < self.holders@.len() && (#[trigger] self.holders@[j]).0 == q;
            self.lemma_view_at(i);
            self.lemma_view_at(j);
            if i < j {
                assert(self.holders@[i].1 != self.holders@[j].1);
            } else if j < i {
                assert(self.holders@[j].1 != self.holders@[i].1);
            }
        }
    }

    /// Nobody uses anything.
    pub fn new() -> (r: Occupancy)
        ensures
            r.wf(),
            r.view() == Map::<u64, u32>::empty(),
    {
        let r = Occupancy { holders: Vec::new() };
        proof {
            assert(r.view() =~= Map::<u64, u32>::empty());
        }
        r
    }

    /// The object `player` uses, if any.
    pub fn object_of(&self, player: u64) -> (r: Option<u32>)
        requires
            self.wf(),
        ensures
            r == (if self.view().dom().contains(player) { Some(self.view()[player]) } else { None::<u32> }),
    {
        let mut i: usize = 0;
        while i < self.holders.len()
            invariant
                self.wf(),
                i <= self.holders@.len(),
                forall|j: int| 0 <= j < i ==> (#[trigger] self.holders@[j]).0 != player,
            decreases self.holders.len() - i,
        {
            if self.holders[i].0 == player {
                proof {
                    self.lemma_view_at(i as int);
                }
                return Some(self.holders[i].1);
            }
            i = i + 1;
        }
        None
    }

    /// Whether a player other than `player` uses object `f`.
    pub fn is_held_by_other(&self, player: u64, f: u32) -> (r: bool)
        requires
            self.wf(),
        ensures
            r == Self::held_by_other(self.view(), player, f),
    {
        let mut i: usize = 0;
        while i < self.holders.len()
            invariant
                self.wf(),
                i <= self.holders@.len(),
                forall|j: int| 0 <= j < i ==> !((#[trigger] self.holders@[j]).1 == f && self.holders@[j].0 != player),
            decreases self.holders.len() - i,
        {
            if self.holders[i].1 == f && self.holders[i].0 != player {
                proof {
                    self.lemma_view_at(i as int);
                    let q = self.holders@[i as int].0;
                    assert(self.view().dom().contains(q));
                }
                return true;
            }
            i = i + 1;
        }
        proof {
            if Self::held_by_other(self.view(), player, f) {
                let q = choose|q: u64| q != player && #[trigger] self.view().dom().contains(q) && self.view()[q] == f;
                let j = choose|j: int| 0 <= j < self.holders@.len() && (#[trigger] self.holders@[j]).0 == q;
                self.lemma_view_at(j);
            }
        }
        false
    }

    /// Forget what `player` uses.
    pub fn release(&mut self, player: u64)
        requires
            old(self).wf(),
        ensures
            final(self).wf(),
            final(self).view() == old(self).view().remove(player),
    {
        let ghost before = self.holders@;
        let ghost old_view = self.view();
        let mut kept: Vec<(u64, u32)> = Vec::new();
        let ghost mut idx: Seq<int> = Seq::empty();
        let mut i: usize = 0;
        while i < self.holders.len()
            invariant
                self.holders@ == before,
                i <= before.len(),
                kept@.len() == idx.len(),
                forall|a: int| 0 <= a < idx.len() ==> 0 <= #[trigger] idx[a] < i,
                forall|a: int, b: int| 0 <= a < b < idx.len() ==> #[trigger] idx[a] < #[trigger] idx[b],
                forall|a: int| 0 <= a < idx.len() ==> kept@[a] == before[#[trigger] idx[a]],
                forall|a: int| 0 <= a < kept@.len() ==> (#[trigger] kept@[a]).0 != player,
                forall|b: int| 0 <= b < i && (#[trigger] before[b]).0 != player
                    ==> exists|a: int| 0 <= a < idx.len() && idx[a] == b,
                forall|x: int, y: int| 0 <= x < y < before.len() ==> {
                    &&& (#[trigger] before[x]).0 != (#[trigger] before[y]).0
                    &&& before[x].1 != before[y].1
                },
            decreases before.len() - i,
        {
            let h = self.holders[i];
            if h.0 != player {
                proof {
                    let old_idx = idx;
                    idx = idx.push(i as int);
                    assert forall|b: int| 0 <= b < i + 1 && (#[trigger] before[b]).0 != player
                        implies exists|a: int| 0 <= a < idx.len() && idx[a] == b by {
                        if b == i {
                            assert(idx[old_idx.len() as int] == b);
                        } else {
                            let a = choose|a: int| 0 <= a < old_idx.len() && old_idx[a] == b;
                            assert(idx[a] == b);
                        }
                    }
                }
                kept.push(h);
            }
            i = i + 1;
        }
        let ghost old_self = *self;
        self.holders = kept;
        proof {
            assert forall|a: int, b: int| 0 <= a < b < self.holders@.len() implies {
                &&& (#[trigger] self.holders@[a]).0 != (#[trigger] self.holders@[b]).0
                &&& self.holders@[a].1 != self.holders@[b].1
            } by {
                assert(idx[a] < idx[b]);
            }
            let target = old_view.remove(player);
            assert forall|p: u64| #[trigger] self.view().dom().contains(p) == target.dom().contains(p) by {
                if self.holds(p) {
                    let a = choose|a: int| 0 <= a < self.holders@.len() && (#[trigger] self.holders@[a]).0 == p;
                    old_self.lemma_view_at(idx[a]);
                }
                if target.dom().contains(p) {
                    let b = choose|b: int| 0 <= b < before.len() && (#[trigger] before[b]).0 == p;
                    let a = choose|a: int| 0 <= a < idx.len() && idx[a] == b;
                    assert(self.holders@[a].0 == p);
                }
            }
            assert forall|p: u64| #[trigger] self.view().dom().contains(p) implies self.view()[p] == target[p] by {
                let a = choose|a: int| 0 <= a < self.holders@.len() && (#[trigger] self.holders@[a]).0 == p;
                self.lemma_view_at(a);
                old_self.lemma_view_at(idx[a]);
            }
            assert(self.view() =~= target);
        }
    }

    /// Set what `player` interacts with (`None` to stop). Refused, with
    /// nothing changed, when another player already uses the object.
    /// Returns whether the request was applied.
    pub fn set_interaction(&mut self, player: u64, object_id: Option<u32>) -> (r: bool)
        requires
            old(self).wf(),
        ensures
            final(self).wf(),
            r == !(match object_id {
                Some(f) => Self::held_by_other(old(self).view(), player, f),
                None => false,
            }),
            r ==> final(self).view() == (match object_id {
                Some(f) => old(self).view().insert(player, f),
                None => old(self).view().remove(player),
            }),
            !r ==> final(self).view() == old(self).view(),
    {
        if let Some(f) = object_id {
            if self.is_held_by_other(player, f) {
                return false;
            }
        }
        let ghost mid_view = self.view().remove(player);
        self.release(player);
        if let Some(f) = object_id {
            let ghost before = self.holders@;
            let ghost released = *self;
            proof {
                assert forall|j: int| 0 <= j < before.len() implies (#[trigger] before[j]).1 != f && before[j].0 != player by {
                    released.lemma_view_at(j);
                }
            }
            self.holders.push((player, f));
            proof {
                let n = before.len() as int;
                assert forall|a: int, b: int| 0 <= a < b < self.holders@.len() implies {
                    &&& (#[trigger] self.holders@[a]).0 != (#[trigger] self.holders@[b]).0
                    &&& self.holders@[a].1 != self.holders@[b].1
                } by {
                    assert(self.holders@[a] == before[a]);
                    if b < n {
                        assert(self.holders@[b] == before[b]);
                    }
                }
                let target = mid_view.insert(player, f);
                assert forall|p: u64| #[trigger] self.view().dom().contains(p) == target.dom().contains(p) by {
                    if self.holds(p) {
                        let a = choose|a: int| 0 <= a < self.holders@.len() && (#[trigger] self.holders@[a]).0 == p;
                        if a < n {
                            assert(self.holders@[a] == before[a]);
                            released.lemma_view_at(a);
                        }
                    }
                    if mid_view.dom().contains(p) {
                        let b = choose|b: int| 0 <= b < before.len() && (#[trigger] before[b]).0 == p;
                        assert(self.holders@[b] == before[b]);
                    }
                    if p == player {
                        assert(self.holders@[n].0 == player);
                    }
                }
                assert forall|p: u64| #[trigger] self.view().dom().contains(p) implies self.view()[p] == target[p] by {
                    let a = choose|a: int| 0 <= a < self.holders@.len() && (#[trigger] self.holders@[a]).0 == p;
                    self.lemma_view_at(a);
                    if a < n {
                        assert(self.holders@[a] == before[a]);
                        released.lemma_view_at(a);
                    }
                }
                assert(self.view() =~= target);
            }
        }
        true
    }
}

/// Whatever requests are applied, no two players ever use one object: a
/// fresh occupancy is exclusive, and so is every state `set_interaction`
/// and `release` leave.
pub proof fn lemma_occupancy_exclusive(o: Occupancy)
    requires
        o.wf(),
    ensures
        Occupancy::exclusive(o.view()),
{
    o.lemma_exclusive();
}

} // verus!
