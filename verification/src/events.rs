//! The NPC client's event buffer: server events wait here until the next
//! prompt. Ordinary events queue up to a cap, the oldest dropped first;
//! high-frequency updates keep only the latest one per monster, per player,
//! and for the game clock.
use vstd::prelude::*;

use crate::text::chars_eq;
use crate::text::chars_of;

verus! {

/// Most ordinary events kept between two prompts.
pub const MAX_EVENTS: usize = 200;

/// Where an event goes in the buffer.
#[derive(Debug, Clone)]
pub enum EventSlot {
    /// A monster moved: only its latest move is kept.
    MonsterMoved(String),
    /// A player moved: only its latest move is kept.
    PlayerMoved(String),
    /// A game clock update: only the latest is kept.
    TimeSync,
    /// Anything else: queued.
    Other,
}

/// The last `MAX_EVENTS` of a queue.
pub open spec fn capped<T>(s: Seq<T>) -> Seq<T> {
    if s.len() > MAX_EVENTS { s.subrange(s.len() - MAX_EVENTS, s.len() as int) } else { s }
}

/// Index of the entry for `k`, or -1.
pub open spec fn key_index<T>(s: Seq<(Seq<char>, T)>, k: Seq<char>) -> int
    decreases s.len(),
{
    if s.len() == 0 {
        -1
    } else if s.last().0 == k {
        s.len() - 1
    } else {
        key_index(s.drop_last(), k)
    }
}

/// `s` with the entry for `k` replaced by `v`, or `(k, v)` appended.
pub open spec fn put_latest<T>(s: Seq<(Seq<char>, T)>, k: Seq<char>, v: T) -> Seq<(Seq<char>, T)> {
    let i = key_index(s, k);
    if i >= 0 { s.update(i, (k, v)) } else { s.push((k, v)) }
}

/// The values of keyed entries, in order.
pub open spec fn values_of<T>(s: Seq<(Seq<char>, T)>) -> Seq<T> {
    s.map_values(|p: (Seq<char>, T)| p.1)
}

/// The events waiting for the next prompt.
pub struct EventBuffer<T> {
    events: Vec<T>,
    latest_time: Option<T>,
    latest_monster_moves: Vec<(String, T)>,
    latest_player_moves: Vec<(String, T)>,
}

/// Keyed entries as plain values.
pub open spec fn keyed_view<T>(s: Seq<(String, T)>) -> Seq<(Seq<char>, T)> {
    s.map_values(|p: (String, T)| (p.0@, p.1))
}

proof fn lemma_key_index<T>(s: Seq<(Seq<char>, T)>, k: Seq<char>, i: int)
    requires
        -1 <= i < s.len(),
        forall|j: int| i < j < s.len() ==> (#[trigger] s[j]).0 != k,
        0 <= i ==> s[i].0 == k,
    ensures
        key_index(s, k) == i,
    decreases s.len(),
{
    if s.len() > 0 && i < s.len() - 1 {
        assert forall|j: int| i < j < s.drop_last().len() implies (#[trigger] s.drop_last()[j]).0 != k by {
            assert(s.drop_last()[j] == s[j]);
        }
        lemma_key_index(s.drop_last(), k, i);
    }
}

/// No key has two entries.
pub open spec fn keys_unique<T>(s: Seq<(Seq<char>, T)>) -> bool {
    forall|a: int, b: int| 0 <= a < b < s.len() ==> (#[trigger] s[a]).0 != (#[trigger] s[b]).0
}

/// What `key_index` finds: the last entry for `k`, or no entry at all.
proof fn lemma_key_index_meaning<T>(s: Seq<(Seq<char>, T)>, k: Seq<char>)
    ensures
        -1 <= key_index(s, k) < s.len(),
        key_index(s, k) >= 0 ==> s[key_index(s, k)].0 == k,
        key_index(s, k) < 0 ==> forall|j: int| 0 <= j < s.len() ==> (#[trigger] s[j]).0 != k,
    decreases s.len(),
{
    if s.len() > 0 && s.last().0 != k {
        lemma_key_index_meaning(s.drop_last(), k);
        if key_index(s, k) < 0 {
            assert forall|j: int| 0 <= j < s.len() implies (#[trigger] s[j]).0 != k by {
                if j < s.len() - 1 {
                    assert(s[j] == s.drop_last()[j]);
                }
            }
        } else {
            assert(s[key_index(s, k)] == s.drop_last()[key_index(s, k)]);
        }
    }
}

/// Putting the latest entry for a key keeps the keys unique.
proof fn lemma_put_latest_unique<T>(s: Seq<(Seq<char>, T)>, k: Seq<char>, v: T)
    requires
        keys_unique(s),
    ensures
        keys_unique(put_latest(s, k, v)),
{
    lemma_key_index_meaning(s, k);
    let r = put_latest(s, k, v);
    assert forall|a: int, b: int| 0 <= a < b < r.len() implies (#[trigger] r[a]).0 != (#[trigger] r[b]).0 by {
        if key_index(s, k) < 0 {
            if b == s.len() {
                assert(r[a] == s[a]);
            } else {
                assert(r[a] == s[a] && r[b] == s[b]);
            }
        }
    }
}

/// Replace or append the latest entry for key `k`.
fn put_latest_exec<T>(v: &mut Vec<(String, T)>, k: String, x: T)
    ensures
        keyed_view(final(v)@) == put_latest(keyed_view(old(v)@), k@, x),
{
    let ghost before = keyed_view(v@);
    let kc = chars_of(k.as_str());
    let mut i: usize = v.len();
    while i > 0
        invariant
            i <= v@.len(),
            v@ == old(v)@,
            before == keyed_view(v@),
            kc@ == k@,
            forall|j: int| i <= j < v@.len() ==> (#[trigger] before[j]).0 != k@,
        decreases i,
    {
        if chars_eq(&chars_of(v[i - 1].0.as_str()), &kc) {
            proof {
                assert(before[i - 1].0 == k@);
                lemma_key_index(before, k@, i - 1);
            }
            v.set(i - 1, (k, x));
            proof {
                assert(keyed_view(v@) =~= before.update(i - 1, (k@, x)));
            }
            return;
        }
        i = i - 1;
    }
    proof {
        lemma_key_index(before, k@, -1);
    }
    v.push((k, x));
    proof {
        assert(keyed_view(v@) =~= before.push((k@, x)));
    }
}

/// Take the values of keyed entries, in order, leaving none.
fn drain_values<T>(v: &mut Vec<(String, T)>, out: &mut Vec<T>)
    ensures
        final(v)@.len() == 0,
        final(out)@ == old(out)@ + values_of(keyed_view(old(v)@)),
{
    let ghost all = values_of(keyed_view(v@));
    let ghost start = out@;
    while v.len() > 0
        invariant
            all.len() >= v@.len(),
            out@ == start + all.subrange(0, all.len() - v@.len()),
            values_of(keyed_view(v@)) == all.subrange(all.len() - v@.len(), all.len() as int),
        decreases v.len(),
    {
        let ghost n = v@.len();
        let ghost old_v = v@;
        proof {
            assert(values_of(keyed_view(old_v))[0] == old_v[0].1);
            assert(all.subrange(all.len() - n, all.len() as int)[0] == all[all.len() - n]);
        }
        let (_, x) = v.remove(0);
        proof {
            assert(x == all[all.len() - n]);
            assert(v@ =~= old_v.subrange(1, n as int));
            assert forall|j: int| 0 <= j < v@.len() implies
                #[trigger] values_of(keyed_view(v@))[j] == all.subrange(all.len() - v@.len(), all.len() as int)[j] by {
                assert(values_of(keyed_view(v@))[j] == v@[j].1);
                assert(v@[j] == old_v[j + 1]);
                assert(values_of(keyed_view(old_v))[j + 1] == old_v[j + 1].1);
            }
        }
        out.push(x);
        proof {
            assert(out@ =~= start + all.subrange(0, all.len() - v@.len()));
            assert(values_of(keyed_view(v@)) =~= all.subrange(all.len() - v@.len(), all.len() as int));
        }
    }
    proof {
        assert(all.subrange(0, all.len() as int) =~= all);
    }
}

impl<T> EventBuffer<T> {
    /// The queued ordinary events, oldest first.
    pub closed spec fn queued(&self) -> Seq<T> {
        self.events@
    }

    /// The latest clock update.
    pub closed spec fn time(&self) -> Option<T> {
        self.latest_time
    }

    /// The latest move of each monster, by first appearance.
    pub closed spec fn monster_moves(&self) -> Seq<(Seq<char>, T)> {
        keyed_view(self.latest_monster_moves@)
    }

    /// The latest move of each player, by first appearance.
    pub closed spec fn player_moves(&self) -> Seq<(Seq<char>, T)> {
        keyed_view(self.latest_player_moves@)
    }

    /// The queue holds at most `MAX_EVENTS` events, and no monster or
    /// player has two moves kept.
    pub closed spec fn wf(&self) -> bool {
        &&& self.events@.len() <= MAX_EVENTS
        &&& keys_unique(keyed_view(self.latest_monster_moves@))
        &&& keys_unique(keyed_view(self.latest_player_moves@))
    }

    /// An empty buffer.
    pub fn new() -> (r: EventBuffer<T>)
        ensures
            r.wf(),
            r.queued() == Seq::<T>::empty(),
            r.time() is None,
            r.monster_moves() == Seq::<(Seq<char>, T)>::empty(),
            r.player_moves() == Seq::<(Seq<char>, T)>::empty(),
    {
        let r = EventBuffer {
            events: Vec::new(),
            latest_time: None,
            latest_monster_moves: Vec::new(),
            latest_player_moves: Vec::new(),
        };
        proof {
            assert(keyed_view(r.latest_monster_moves@) =~= Seq::<(Seq<char>, T)>::empty());
            assert(keyed_view(r.latest_player_moves@) =~= Seq::<(Seq<char>, T)>::empty());
        }
        r
    }

    /// Buffer an event: a move replaces the entity's previous move, a clock
    /// update the previous one; anything else is queued, dropping the
    /// oldest beyond `MAX_EVENTS`.
    pub fn push_event(&mut self, slot: EventSlot, msg: T)
        requires
            old(self).wf(),
        ensures
            final(self).wf(),
            match slot {
                EventSlot::MonsterMoved(id) => {
                    &&& final(self).monster_moves() == put_latest(old(self).monster_moves(), id@, msg)
                    &&& final(self).queued() == old(self).queued()
                    &&& final(self).time() == old(self).time()
                    &&& final(self).player_moves() == old(self).player_moves()
                },
                EventSlot::PlayerMoved(id) => {
                    &&& final(self).player_moves() == put_latest(old(self).player_moves(), id@, msg)
                    &&& final(self).queued() == old(self).queued()
                    &&& final(self).time() == old(self).time()
                    &&& final(self).monster_moves() == old(self).monster_moves()
                },
                EventSlot::TimeSync => {
                    &&& final(self).time() == Some(msg)
                    &&& final(self).queued() == old(self).queued()
                    &&& final(self).monster_moves() == old(self).monster_moves()
                    &&& final(self).player_moves() == old(self).player_moves()
                },
                EventSlot::Other => {
                    &&& final(self).queued() == capped(old(self).queued().push(msg))
                    &&& final(self).time() == old(self).time()
                    &&& final(self).monster_moves() == old(self).monster_moves()
                    &&& final(self).player_moves() == old(self).player_moves()
                },
            },
    {
        match slot {
            EventSlot::MonsterMoved(id) => {
                proof {
                    lemma_put_latest_unique(keyed_view(self.latest_monster_moves@), id@, msg);
                }
                put_latest_exec(&mut self.latest_monster_moves, id, msg);
            },
            EventSlot::PlayerMoved(id) => {
                proof {
                    lemma_put_latest_unique(keyed_view(self.latest_player_moves@), id@, msg);
                }
                put_latest_exec(&mut self.latest_player_moves, id, msg);
            },
            EventSlot::TimeSync => {
                self.latest_time = Some(msg);
            },
            EventSlot::Other => {
                let ghost pushed = self.events@.push(msg);
                self.events.push(msg);
                if self.events.len() > MAX_EVENTS {
                    self.events.remove(0);
                    proof {
                        assert(self.events@ =~= pushed.subrange(pushed.len() - MAX_EVENTS, pushed.len() as int));
                    }
                }
            },
        }
    }

    /// Take everything for a prompt: the queued events, then the latest
    /// clock update, then the latest monster moves, then the latest player
    /// moves. The buffer is left empty.
    pub fn drain_events(&mut self) -> (r: Vec<T>)
        requires
            old(self).wf(),
        ensures
            final(self).wf(),
            r@ == old(self).queued() + (match old(self).time() { Some(t) => seq![t], None => Seq::<T>::empty() })
                + values_of(old(self).monster_moves()) + values_of(old(self).player_moves()),
            final(self).queued() == Seq::<T>::empty(),
            final(self).time() is None,
            final(self).monster_moves() == Seq::<(Seq<char>, T)>::empty(),
            final(self).player_moves() == Seq::<(Seq<char>, T)>::empty(),
    {
        let mut out: Vec<T> = Vec::new();
        std::mem::swap(&mut out, &mut self.events);
        let mut t: Option<T> = None;
        std::mem::swap(&mut t, &mut self.latest_time);
        if let Some(x) = t {
            out.push(x);
        }
        drain_values(&mut self.latest_monster_moves, &mut out);
        drain_values(&mut self.latest_player_moves, &mut out);
        proof {
            assert(keyed_view(self.latest_monster_moves@) =~= Seq::<(Seq<char>, T)>::empty());
            assert(keyed_view(self.latest_player_moves@) =~= Seq::<(Seq<char>, T)>::empty());
        }
        out
    }
}

/// The queue never holds more than `MAX_EVENTS` events, and at most one
/// move (the latest) is kept per monster and per player: every buffer that
/// `new`, `push_event` and `drain_events` leave is well formed, and a well
/// formed one is within the cap with one entry per id.
pub proof fn lemma_buffer_bounds<T>(b: &EventBuffer<T>)
    requires
        b.wf(),
    ensures
        b.queued().len() <= MAX_EVENTS,
        keys_unique(b.monster_moves()),
        keys_unique(b.player_moves()),
{
}

} // verus!
