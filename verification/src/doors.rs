//! Which house doors stand open. A door is named by its house, room, wall
//! side and wall segment; toggling opens a closed door and closes an open
//! one, and rebuilding or deleting a house closes all its doors.
use vstd::prelude::*;

use crate::text::{chars_eq, chars_of};

verus! {

/// One door: house id, room index, wall side (an index fixed by the house
/// format) and segment index along that wall.
#[derive(Debug)]
pub struct DoorKey {
    pub house_id: String,
    pub room_index: u32,
    pub wall_dir: u8,
    pub segment_index: u32,
}

/// A door as plain values.
pub type DoorKeyView = (Seq<char>, u32, u8, u32);

impl DoorKey {
    pub open spec fn key_view(&self) -> DoorKeyView {
        (self.house_id@, self.room_index, self.wall_dir, self.segment_index)
    }

    fn same(&self, other: &DoorKey) -> (b: bool)
        ensures
            b == (self.key_view() == other.key_view()),
    {
        self.room_index == other.room_index && self.wall_dir == other.wall_dir
            && self.segment_index == other.segment_index
            && chars_eq(&chars_of(self.house_id.as_str()), &chars_of(other.house_id.as_str()))
    }
}

/// The doors after a toggle of `k`.
pub open spec fn toggle_spec(s: Set<DoorKeyView>, k: DoorKeyView) -> Set<DoorKeyView> {
    if s.contains(k) { s.remove(k) } else { s.insert(k) }
}

/// The doors after the doors of house `h` are closed.
pub open spec fn close_house_spec(s: Set<DoorKeyView>, h: Seq<char>) -> Set<DoorKeyView> {
    s.filter(|k: DoorKeyView| k.0 != h)
}

/// The open doors, each once.
pub struct OpenDoors {
    keys: Vec<DoorKey>,
}

impl OpenDoors {
    /// No door occurs twice.
    pub closed spec fn wf(&self) -> bool {
        forall|i: int, j: int| 0 <= i < j < self.keys@.len()
            ==> (#[trigger] self.keys@[i]).key_view() != (#[trigger] self.keys@[j]).key_view()
    }

    /// The open doors as a set.
    pub closed spec fn view(&self) -> Set<DoorKeyView> {
        Set::new(|k: DoorKeyView| exists|i: int| 0 <= i < self.keys@.len() && (#[trigger] self.keys@[i]).key_view() == k)
    }

    /// All doors closed.
    pub fn new() -> (r: OpenDoors)
        ensures
            r.wf(),
            r.view() == Set::<DoorKeyView>::empty(),
    {
        let r = OpenDoors { keys: Vec::new() };
        proof {
            assert(r.view() =~= Set::<DoorKeyView>::empty());
        }
        r
    }

    fn find(&self, key: &DoorKey) -> (r: Option<usize>)
        ensures
            match r {
                Some(i) => i < self.keys@.len() && self.keys@[i as int].key_view() == key.key_view(),
                None => !self.view().contains(key.key_view()),
            },
    {
        let mut i: usize = 0;
        while i < self.keys.len()
            invariant
                i <= self.keys@.len(),
                forall|j: int| 0 <= j < i ==> (#[trigger] self.keys@[j]).key_view() != key.key_view(),
            decreases self.keys.len() - i,
        {
            if self.keys[i].same(key) {
                return Some(i);
            }
            i = i + 1;
        }
        None
    }

    /// Whether a door is open.
    pub fn is_open(&self, key: &DoorKey) -> (r: bool)
        ensures
            r == self.view().contains(key.key_view()),
    {
        let r = self.find(key);
        proof {
            if let Some(i) = r {
                assert(self.keys@[i as int].key_view() == key.key_view());
            }
        }
        r.is_some()
    }

    /// Whether no door is open.
    pub fn is_empty(&self) -> (r: bool)
        ensures
            r == (self.view() == Set::<DoorKeyView>::empty()),
    {
        proof {
            if self.keys@.len() > 0 {
                assert(self.view().contains(self.keys@[0].key_view()));
            } else {
                assert(self.view() =~= Set::<DoorKeyView>::empty());
            }
        }
        self.keys.len() == 0
    }

    /// Open a closed door or close an open one; returns whether it is open
    /// now.
    pub fn toggle(&mut self, key: DoorKey) -> (r: bool)
        requires
            old(self).wf(),
        ensures
            final(self).wf(),
            r == !old(self).view().contains(key.key_view()),
            final(self).view() == toggle_spec(old(self).view(), key.key_view()),
    {
        let ghost k = key.key_view();
        let ghost before = self.keys@;
        match self.find(&key) {
            Some(i) => {
                self.keys.remove(i);
                proof {
                    assert(old(self).view().contains(k)) by {
                        assert(before[i as int].key_view() == k);
                    }
                    assert forall|a: int, b: int| 0 <= a < b < self.keys@.len() implies
                        (#[trigger] self.keys@[a]).key_view() != (#[trigger] self.keys@[b]).key_view() by {
                        let a0 = if a < i { a } else { a + 1 };
                        let b0 = if b < i { b } else { b + 1 };
                        assert(self.keys@[a] == before[a0]);
                        assert(self.keys@[b] == before[b0]);
                    }
                    assert forall|x: DoorKeyView| #[trigger] self.view().contains(x) == old(self).view().remove(k).contains(x) by {
                        if self.view().contains(x) {
                            let a = choose|a: int| 0 <= a < self.keys@.len() && (#[trigger] self.keys@[a]).key_view() == x;
                            let a0 = if a < i { a } else { a + 1 };
                            assert(self.keys@[a] == before[a0]);
                            assert(a0 != i);
                            if a0 < i {
                                assert(before[a0].key_view() != before[i as int].key_view());
                            } else {
                                assert(before[i as int].key_view() != before[a0].key_view());
                            }
                        }
                        if old(self).view().remove(k).contains(x) {
                            let b = choose|b: int| 0 <= b < before.len() && (#[trigger] before[b]).key_view() == x;
                            assert(b != i);
                            let a = if b < i { b } else { b - 1 };
                            assert(self.keys@[a] == before[b]);
                        }
                    }
                    assert(self.view() =~= old(self).view().remove(k));
                }
                false
            },
            None => {
                self.keys.push(key);
                proof {
                    let n = before.len() as int;
                    assert(self.keys@[n].key_view() == k);
                    assert forall|a: int, b: int| 0 <= a < b < self.keys@.len() implies
                        (#[trigger] self.keys@[a]).key_view() != (#[trigger] self.keys@[b]).key_view() by {
                        assert(self.keys@[a] == before[a]);
                        if b < n {
                            assert(self.keys@[b] == before[b]);
                        } else {
                            assert(old(self).view().contains(before[a].key_view()));
                        }
                    }
                    assert forall|x: DoorKeyView| #[trigger] self.view().contains(x) == old(self).view().insert(k).contains(x) by {
                        if self.view().contains(x) {
                            let a = choose|a: int| 0 <= a < self.keys@.len() && (#[trigger] self.keys@[a]).key_view() == x;
                            if a < n {
                                assert(self.keys@[a] == before[a]);
                            }
                        }
                        if old(self).view().contains(x) {
                            let b = choose|b: int| 0 <= b < before.len() && (#[trigger] before[b]).key_view() == x;
                            assert(self.keys@[b] == before[b]);
                        }
                    }
                    assert(self.view() =~= old(self).view().insert(k));
                }
                true
            },
        }
    }

    /// Close every door of house `house_id`.
    pub fn clear_for_house(&mut self, house_id: &str)
        requires
            old(self).wf(),
        ensures
            final(self).wf(),
            final(self).view() == close_house_spec(old(self).view(), house_id@),
    {
        let h = chars_of(house_id);
        let ghost before = self.keys@;
        let mut kept: Vec<DoorKey> = Vec::new();
        let ghost mut idx: Seq<int> = Seq::empty();
        let mut rest: Vec<DoorKey> = Vec::new();
        std::mem::swap(&mut rest, &mut self.keys);
        while rest.len() > 0
            invariant
                h@ == house_id@,
                rest@.len() <= before.len(),
                rest@ == before.subrange(0, rest@.len() as int),
                kept@.len() == idx.len(),
                forall|a: int| 0 <= a < idx.len() ==> rest@.len() <= #[trigger] idx[a] < before.len(),
                forall|a: int, b: int| 0 <= a < b < idx.len() ==> #[trigger] idx[a] > #[trigger] idx[b],
                forall|a: int| 0 <= a < idx.len() ==> kept@[a] == before[#[trigger] idx[a]],
                forall|a: int| 0 <= a < kept@.len() ==> (#[trigger] kept@[a]).house_id@ != house_id@,
                forall|b: int| rest@.len() <= b < before.len() && (#[trigger] before[b]).house_id@ != house_id@
                    ==> exists|a: int| 0 <= a < idx.len() && idx[a] == b,
                forall|i: int, j: int| 0 <= i < j < before.len()
                    ==> (#[trigger] before[i]).key_view() != (#[trigger] before[j]).key_view(),
            decreases rest.len(),
        {
            let ghost m = rest@.len() - 1;
            let k = rest.pop().unwrap();
            proof {
                assert(k == before[m]);
                assert(rest@ =~= before.subrange(0, m));
            }
            if !chars_eq(&chars_of(k.house_id.as_str()), &h) {
                proof {
                    let old_idx = idx;
                    idx = idx.push(m);
                    assert forall|b: int| m <= b < before.len() && (#[trigger] before[b]).house_id@ != house_id@
                        implies exists|a: int| 0 <= a < idx.len() && idx[a] == b by {
                        if b == m {
                            assert(idx[old_idx.len() as int] == b);
                        } else {
                            let a = choose|a: int| 0 <= a < old_idx.len() && old_idx[a] == b;
                            assert(idx[a] == b);
                        }
                    }
                }
                kept.push(k);
            }
        }
        self.keys = kept;
        proof {
            assert forall|a: int, b: int| 0 <= a < b < self.keys@.len() implies
                (#[trigger] self.keys@[a]).key_view() != (#[trigger] self.keys@[b]).key_view() by {
                assert(idx[a] > idx[b]);
            }
            let target = close_house_spec(old(self).view(), house_id@);
            assert forall|x: DoorKeyView| #[trigger] self.view().contains(x) == target.contains(x) by {
                if self.view().contains(x) {
                    let a = choose|a: int| 0 <= a < self.keys@.len() && (#[trigger] self.keys@[a]).key_view() == x;
                    assert(before[idx[a]].key_view() == x);
                    assert(old(self).view().contains(x));
                }
                if target.contains(x) {
                    let b = choose|b: int| 0 <= b < before.len() && (#[trigger] before[b]).key_view() == x;
                    let a = choose|a: int| 0 <= a < idx.len() && idx[a] == b;
                    assert(self.keys@[a].key_view() == x);
                }
            }
            assert(self.view() =~= target);
        }
    }

    /// The open doors of house `house_id`, as (room, wall side, segment).
    pub fn open_in_house(&self, house_id: &str) -> (r: Vec<(u32, u8, u32)>)
        requires
            self.wf(),
        ensures
            forall|d: (u32, u8, u32)| r@.contains(d)
                <==> self.view().contains((house_id@, d.0, d.1, d.2)),
    {
        let h = chars_of(house_id);
        let mut out: Vec<(u32, u8, u32)> = Vec::new();
        let mut i: usize = 0;
        while i < self.keys.len()
            invariant
                i <= self.keys@.len(),
                h@ == house_id@,
                forall|d: (u32, u8, u32)| out@.contains(d) <==> exists|j: int| 0 <= j < i
                    && (#[trigger] self.keys@[j]).key_view() == (house_id@, d.0, d.1, d.2),
            decreases self.keys.len() - i,
        {
            let k = &self.keys[i];
            if chars_eq(&chars_of(k.house_id.as_str()), &h) {
                let d = (k.room_index, k.wall_dir, k.segment_index);
                let ghost before = out@;
                out.push(d);
                proof {
                    assert forall|e: (u32, u8, u32)| out@.contains(e) <==> exists|j: int| 0 <= j < i + 1
                        && (#[trigger] self.keys@[j]).key_view() == (house_id@, e.0, e.1, e.2) by {
                        if out@.contains(e) {
                            let a = choose|a: int| 0 <= a < out@.len() && out@[a] == e;
                            if a < before.len() {
                                assert(before.contains(e));
                            } else {
                                assert(self.keys@[i as int].key_view() == (house_id@, e.0, e.1, e.2));
                            }
                        }
                        if exists|j: int| 0 <= j < i + 1 && (#[trigger] self.keys@[j]).key_view() == (house_id@, e.0, e.1, e.2) {
                            let j = choose|j: int| 0 <= j < i + 1 && (#[trigger] self.keys@[j]).key_view() == (house_id@, e.0, e.1, e.2);
                            if j < i {
                                assert(before.contains(e));
                                let a = choose|a: int| 0 <= a < before.len() && before[a] == e;
                                assert(out@[a] == e);
                            } else {
                                assert(out@[before.len() as int] == e);
                            }
                        }
                    }
                }
            } else {
                proof {
                    assert forall|e: (u32, u8, u32)| out@.contains(e) <==> exists|j: int| 0 <= j < i + 1
                        && (#[trigger] self.keys@[j]).key_view() == (house_id@, e.0, e.1, e.2) by {
                        if exists|j: int| 0 <= j < i + 1 && (#[trigger] self.keys@[j]).key_view() == (house_id@, e.0, e.1, e.2) {
                            let j = choose|j: int| 0 <= j < i + 1 && (#[trigger] self.keys@[j]).key_view() == (house_id@, e.0, e.1, e.2);
                            assert(j != i);
                        }
                    }
                }
            }
            i = i + 1;
        }
        out
    }
}

/// Toggling a door twice leaves the doors as they were; closing a house's
/// doors leaves every other house's doors alone and opens none.
pub proof fn lemma_door_laws(s: Set<DoorKeyView>, k: DoorKeyView, h: Seq<char>)
    ensures
        toggle_spec(toggle_spec(s, k), k) == s,
        forall|x: DoorKeyView| x.0 != h ==> (close_house_spec(s, h).contains(x) == s.contains(x)),
        forall|x: DoorKeyView| x.0 == h ==> !close_house_spec(s, h).contains(x),
{
    if s.contains(k) {
        assert(s.remove(k).insert(k) =~= s);
    } else {
        assert(s.insert(k).remove(k) =~= s);
    }
}

} // verus!
