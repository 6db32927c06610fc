//! The connection directory: the set of live sessions and their outbound
//! delivery queues, shared by the accept path (inserts), the fan-out path
//! (enqueues) and each session's outbound duty (dequeues). As with the
//! registry, the caller serializes access; each operation is one atomic step.
//!
//! Every queue is bounded by `QUEUE_CAPACITY`. Fan-out is fire-and-forget per
//! recipient with a drop-newest policy: a payload for a session whose queue
//! is full is dropped for that session alone, so a slow client never blocks
//! or fails delivery to the others. Within one queue, order of delivery is
//! the order of enqueueing.

use vstd::prelude::*;

use crate::events::{ServerEvent, ServerEventView, copy_server_event};

verus! {

/// How many outbound payloads one session's queue can hold.
pub const QUEUE_CAPACITY: usize = 16;

/// One live session's directory entry.
struct Entry {
    id: u128,
    addr: String,
    queue: Vec<ServerEvent>,
}

/// The mathematical value of a directory entry: the session's identifier,
/// its remote address, and the queued payloads in delivery order.
#[verifier::ext_equal]
pub struct EntryView {
    pub id: u128,
    pub addr: Seq<char>,
    pub queue: Seq<ServerEventView>,
}

impl View for Entry {
    type V = EntryView;

    closed spec fn view(&self) -> EntryView {
        EntryView { id: self.id, addr: self.addr@, queue: self.queue@.map_values(|e: ServerEvent| e@) }
    }
}

spec fn dir_view(entries: Seq<Entry>) -> Seq<EntryView> {
    entries.map_values(|e: Entry| e@)
}

/// Some entry in `dir` belongs to session `id`.
pub open spec fn dir_contains_id(dir: Seq<EntryView>, id: u128) -> bool {
    exists|i: int| 0 <= i < dir.len() && (#[trigger] dir[i]).id == id
}

/// The index of session `id`'s entry; meaningful only when
/// `dir_contains_id(dir, id)` holds and identifiers are unique.
pub open spec fn entry_index_of(dir: Seq<EntryView>, id: u128) -> int {
    choose|i: int| 0 <= i < dir.len() && (#[trigger] dir[i]).id == id
}

/// The directory's invariant: one entry per session, queues within bound.
pub open spec fn dir_wf(dir: Seq<EntryView>) -> bool {
    &&& forall|i: int, j: int|
        #![trigger dir[i], dir[j]]
        0 <= i < j < dir.len() ==> dir[i].id != dir[j].id
    &&& forall|i: int| 0 <= i < dir.len() ==> (#[trigger] dir[i]).queue.len() <= QUEUE_CAPACITY
}

/// `dir` after one fan-out of `payload`: the payload is appended to every
/// queue with room, exactly once each; a full queue is left as it was.
pub open spec fn fan_out(dir: Seq<EntryView>, payload: ServerEventView) -> Seq<EntryView> {
    dir.map_values(
        |e: EntryView|
            if e.queue.len() < QUEUE_CAPACITY {
                EntryView { id: e.id, addr: e.addr, queue: e.queue.push(payload) }
            } else {
                e
            },
    )
}

/// `dir` without session `id`'s entry, order of the others preserved;
/// `dir` itself when no entry has that identifier.
pub open spec fn drop_entry(dir: Seq<EntryView>, id: u128) -> Seq<EntryView> {
    if dir_contains_id(dir, id) {
        dir.remove(entry_index_of(dir, id))
    } else {
        dir
    }
}

/// The set of live sessions and their outbound queues.
pub struct Directory {
    entries: Vec<Entry>,
}

impl View for Directory {
    type V = Seq<EntryView>;

    closed spec fn view(&self) -> Seq<EntryView> {
        dir_view(self.entries@)
    }
}

impl Directory {
    /// The directory's invariant; constructors establish it and every
    /// operation preserves it.
    pub open spec fn wf(&self) -> bool {
        dir_wf(self@)
    }

    /// An empty directory.
    pub fn new() -> (r: Directory)
        ensures
            r@ == Seq::<EntryView>::empty(),
            r.wf(),
    {
        let r = Directory { entries: Vec::new() };
        proof {
            assert(r@ =~= Seq::<EntryView>::empty());
        }
        r
    }

    /// The number of live sessions.
    pub fn len(&self) -> (n: usize)
        ensures
            n == self@.len(),
    {
        self.entries.len()
    }

    /// Whether session `id` has an entry.
    #[verifier::loop_isolation(false)]
    pub fn contains(&self, id: u128) -> (b: bool)
        ensures
            b == dir_contains_id(self@, id),
    {
        let n = self.entries.len();
        let mut i: usize = 0;
        while i < n
            invariant
                n == self.entries.len(),
                i <= n,
                forall|k: int| 0 <= k < i ==> (#[trigger] self@[k]).id != id,
            decreases n - i,
        {
            if self.entries[i].id == id {
                proof {
                    assert(self@[i as int].id == id);
                }
                return true;
            }
            i += 1;
        }
        false
    }

    /// Creates an empty outbound queue for a new session.
    pub fn register(&mut self, id: u128, addr: String)
        requires
            old(self).wf(),
            !dir_contains_id(old(self)@, id),
        ensures
            final(self).wf(),
            final(self)@ == old(self)@.push(
                EntryView { id, addr: addr@, queue: Seq::<ServerEventView>::empty() },
            ),
    {
        let ghost prior = self@;
        self.entries.push(Entry { id, addr, queue: Vec::new() });
        proof {
            assert(self@ =~~= prior.push(
                EntryView { id, addr: addr@, queue: Seq::<ServerEventView>::empty() },
            ));
            assert forall|i: int, j: int|
                #![trigger self@[i], self@[j]]
                0 <= i < j < self@.len() implies self@[i].id != self@[j].id by {
                if j == self@.len() - 1 {
                    if prior[i].id == id {
                        assert(dir_contains_id(prior, id));
                    }
                }
            }
        }
    }

    /// Removes session `id`'s entry; safe to call for a session that never
    /// registered successfully.
    #[verifier::loop_isolation(false)]
    pub fn unregister(&mut self, id: u128)
        requires
            old(self).wf(),
        ensures
            final(self).wf(),
            final(self)@ == drop_entry(old(self)@, id),
            !dir_contains_id(final(self)@, id),
    {
        let ghost prior = self@;
        let n = self.entries.len();
        let mut i: usize = 0;
        while i < n
            invariant
                n == self.entries.len(),
                i <= n,
                self@ == prior,
                forall|k: int| 0 <= k < i ==> (#[trigger] prior[k]).id != id,
            decreases n - i,
        {
            if self.entries[i].id == id {
                self.entries.remove(i);
                proof {
                    assert(prior[i as int].id == id);
                    assert(dir_contains_id(prior, id));
                    let j = entry_index_of(prior, id);
                    assert(0 <= j < prior.len() && prior[j].id == id);
                    assert(j == i) by {
                        if j != i {
                            assert(prior[j].id != prior[i as int].id);
                        }
                    }
                    assert(self@ =~= prior.remove(i as int));
                    assert forall|a: int, b: int|
                        #![trigger self@[a], self@[b]]
                        0 <= a < b < self@.len() implies self@[a].id != self@[b].id by {
                        let a0 = if a < i { a } else { a + 1 };
                        let b0 = if b < i { b } else { b + 1 };
                        assert(self@[a] == prior[a0] && self@[b] == prior[b0]);
                    }
                    assert forall|k: int| 0 <= k < self@.len() implies (#[trigger] self@[k]).id
                        != id by {
                        let k0 = if k < i { k } else { k + 1 };
                        assert(self@[k] == prior[k0]);
                        if k0 != i {
                            assert(prior[k0].id != prior[i as int].id || prior[i as int].id
                                != prior[k0].id);
                        }
                    }
                }
                return ;
            }
            i += 1;
        }
        proof {
            assert(!dir_contains_id(prior, id));
        }
    }

    /// Enqueues `payload` onto every live session's queue with room, exactly
    /// once each; a full queue for one recipient does not block or fail
    /// delivery to the others (the payload is dropped for that recipient).
    #[verifier::loop_isolation(false)]
    pub fn broadcast(&mut self, payload: &ServerEvent)
        requires
            old(self).wf(),
        ensures
            final(self).wf(),
            final(self)@ == fan_out(old(self)@, payload@),
    {
        let n = self.entries.len();
        let mut i: usize = 0;
        while i < n
            invariant
                n == self.entries.len(),
                i <= n,
                forall|k: int| #![trigger self@[k]]
                    0 <= k < i ==> self@[k] == fan_out(old(self)@, payload@)[k],
                forall|k: int| #![trigger self@[k]] i <= k < n ==> self@[k] == old(self)@[k],
            decreases n - i,
        {
            let ghost before = self.entries@;
            proof {
                assert(dir_view(before) == self@);
                assert forall|k: int|
                    0 <= k < i implies #[trigger] dir_view(before)[k] == fan_out(
                    old(self)@,
                    payload@,
                )[k] by {
                    assert(self@[k] == fan_out(old(self)@, payload@)[k]);
                }
                assert forall|k: int| i <= k < n implies #[trigger] dir_view(before)[k] == old(
                    self,
                )@[k] by {
                    assert(self@[k] == old(self)@[k]);
                }
            }
            let mut entry = self.entries.remove(i);
            let ghost entry_was = entry@;
            proof {
                assert(entry == before[i as int]);
                assert(entry_was == dir_view(before)[i as int]);
                assert(entry_was == old(self)@[i as int]);
            }
            if entry.queue.len() < QUEUE_CAPACITY {
                entry.queue.push(copy_server_event(payload));
                proof {
                    assert(entry@.queue =~= entry_was.queue.push(payload@));
                    assert(entry@ =~~= (EntryView {
                        id: entry_was.id,
                        addr: entry_was.addr,
                        queue: entry_was.queue.push(payload@),
                    }));
                }
            }
            let ghost entry_now = entry;
            self.entries.insert(i, entry);
            proof {
                lemma_remove_insert_is_update(before, i as int, entry_now);
                assert(self.entries@ == before.update(i as int, entry_now));
                assert forall|k: int|
                    0 <= k < i + 1 implies #[trigger] self@[k] == fan_out(old(self)@, payload@)[k] by {
                    if k == i {
                        assert(self@[k] == entry_now@);
                        assert(fan_out(old(self)@, payload@)[k] == (if old(self)@[k].queue.len()
                            < QUEUE_CAPACITY {
                            EntryView {
                                id: old(self)@[k].id,
                                addr: old(self)@[k].addr,
                                queue: old(self)@[k].queue.push(payload@),
                            }
                        } else {
                            old(self)@[k]
                        }));
                    } else {
                        assert(self@[k] == before[k]@);
                        assert(before[k]@ == dir_view(before)[k]);
                    }
                }
                assert forall|k: int| i + 1 <= k < n implies #[trigger] self@[k] == old(self)@[
                    k
                ] by {
                    assert(self@[k] == before[k]@);
                    assert(before[k]@ == dir_view(before)[k]);
                }
            }
            i += 1;
        }
        proof {
            assert(self@ =~~= fan_out(old(self)@, payload@));
            let f = fan_out(old(self)@, payload@);
            assert forall|a: int, b: int|
                #![trigger f[a], f[b]]
                0 <= a < b < f.len() implies f[a].id != f[b].id by {
                assert(old(self)@[a].id != old(self)@[b].id);
            }
            assert forall|k: int| 0 <= k < f.len() implies (#[trigger] f[k]).queue.len()
                <= QUEUE_CAPACITY by {
                assert(old(self)@[k].queue.len() <= QUEUE_CAPACITY);
            }
        }
    }

    /// Takes the next payload, in enqueue order, from session `id`'s queue.
    /// `None` when the session has no entry or its queue is empty.
    #[verifier::loop_isolation(false)]
    pub fn pop_next(&mut self, id: u128) -> (r: Option<ServerEvent>)
        requires
            old(self).wf(),
        ensures
            final(self).wf(),
            ({
                let dir = old(self)@;
                let j = entry_index_of(dir, id);
                if dir_contains_id(dir, id) && dir[j].queue.len() > 0 {
                    &&& r is Some
                    &&& r->Some_0@ == dir[j].queue[0]
                    &&& final(self)@ == dir.update(
                        j,
                        (EntryView { id: dir[j].id, addr: dir[j].addr, queue: dir[j].queue.drop_first() }),
                    )
                } else {
                    &&& r is None
                    &&& final(self)@ == dir
                }
            }),
    {
        let ghost prior = self@;
        let n = self.entries.len();
        let mut i: usize = 0;
        while i < n
            invariant
                n == self.entries.len(),
                i <= n,
                self@ == prior,
                forall|k: int| 0 <= k < i ==> (#[trigger] prior[k]).id != id,
            decreases n - i,
        {
            if self.entries[i].id == id {
                proof {
                    assert(prior[i as int].id == id);
                    assert(dir_contains_id(prior, id));
                    let j = entry_index_of(prior, id);
                    assert(0 <= j < prior.len() && prior[j].id == id);
                    assert(j == i) by {
                        if j != i {
                            assert(prior[j].id != prior[i as int].id);
                        }
                    }
                }
                if self.entries[i].queue.len() > 0 {
                    let ghost before = self.entries@;
                    let mut entry = self.entries.remove(i);
                    let ghost entry_was = entry@;
                    proof {
                        assert(entry == before[i as int]);
                        assert(entry_was == dir_view(before)[i as int]);
                        assert(entry_was == prior[i as int]);
                    }
                    let ev = entry.queue.remove(0);
                    let ghost entry_now = entry;
                    self.entries.insert(i, entry);
                    proof {
                        lemma_remove_insert_is_update(before, i as int, entry_now);
                        assert(self.entries@ == before.update(i as int, entry_now));
                        assert(ev@ == entry_was.queue[0]);
                        assert(entry_now@.queue =~= entry_was.queue.drop_first());
                        assert forall|k: int| 0 <= k < self@.len() && k != i implies #[trigger] self@[k]
                            == prior[k] by {
                            assert(self@[k] == before[k]@);
                        }
                        assert(self@ =~~= prior.update(
                            i as int,
                            (EntryView {
                                id: entry_was.id,
                                addr: entry_was.addr,
                                queue: entry_was.queue.drop_first(),
                            }),
                        ));
                        assert forall|a: int, b: int|
                            #![trigger self@[a], self@[b]]
                            0 <= a < b < self@.len() implies self@[a].id != self@[b].id by {
                            assert(prior[a].id != prior[b].id);
                            assert(self@[a].id == prior[a].id && self@[b].id == prior[b].id);
                        }
                        assert forall|k: int| 0 <= k < self@.len() implies (#[trigger] self@[k]).queue.len()
                            <= QUEUE_CAPACITY by {
                            assert(prior[k].queue.len() <= QUEUE_CAPACITY);
                        }
                    }
                    return Some(ev);
                } else {
                    return None;
                }
            }
            i += 1;
        }
        proof {
            assert(!dir_contains_id(prior, id));
        }
        None
    }
}

/// Fan-out keeps per-recipient order: when two payloads are fanned out one
/// after the other, every recipient with room for both holds them in its
/// queue in exactly that order, each exactly once, after what was already
/// queued. Together with `pop_next` handing out the front of the queue, a
/// recipient that receives both observes them in the order they were issued.
pub proof fn lemma_fan_out_order(
    dir: Seq<EntryView>,
    first: ServerEventView,
    second: ServerEventView,
    k: int,
)
    requires
        0 <= k < dir.len(),
        dir[k].queue.len() + 2 <= QUEUE_CAPACITY,
    ensures
        ({
            let q = fan_out(fan_out(dir, first), second)[k].queue;
            let n = dir[k].queue.len() as int;
            &&& q.len() == n + 2
            &&& q == dir[k].queue.push(first).push(second)
            &&& q[n] == first
            &&& q[n + 1] == second
        }),
{
}

/// Taking an element out and putting another back at the same place is one
/// in-place update.
proof fn lemma_remove_insert_is_update<A>(s: Seq<A>, i: int, v: A)
    requires
        0 <= i < s.len(),
    ensures
        s.remove(i).insert(i, v) == s.update(i, v),
{
    s.remove_ensures(i);
    s.remove(i).insert_ensures(i, v);
    assert(s.remove(i).insert(i, v) =~= s.update(i, v));
}

} // verus!
