use vstd::prelude::*;
use tokio::sync::mpsc::UnboundedSender;

verus! {

#[verifier::external_type_specification]
#[verifier::external_body]
#[verifier::reject_recursive_types(T)]
pub struct ExUnboundedSender<T>(UnboundedSender<T>);

/// Relies on tokio's `UnboundedSender::send`: it queues the payload without
/// blocking and fails only when the receiving half is gone. The payload is
/// recorded in the connection's log of what it was handed either way; the
/// connection's id, room and queue stay as they were.
#[verifier::external_body]
fn deliver(c: &mut Connection, payload: String) -> (ok: bool)
    ensures
        final(c).id == old(c).id,
        final(c).room == old(c).room,
        final(c).outbound == old(c).outbound,
        final(c).sent@ == old(c).sent@.push(payload@),
{
    c.outbound.send(payload).is_ok()
}

/// One live connection: its id, the room it was opened for, the queue that
/// its writer task drains, and every payload handed to that queue, in order.
pub struct Connection {
    pub id: u128,
    pub room: i64,
    pub outbound: UnboundedSender<String>,
    pub sent: Ghost<Seq<Seq<char>>>,
}

/// What happened when a payload was handed to one recipient.
#[derive(Clone, Copy, Debug, PartialEq, Eq, Structural)]
pub struct Delivery {
    pub conn: u128,
    pub delivered: bool,
}

/// Some entry of `s` is connection `id` bound to `room`.
pub open spec fn seq_holds(s: Seq<(u128, i64)>, id: u128, room: i64) -> bool {
    exists|i: int| 0 <= i < s.len() && #[trigger] s[i] == (id, room)
}

/// Changing, adding or removing the entry of `id` leaves the entries of
/// every other id as they were.
proof fn lemma_others_kept(s: Seq<(u128, i64)>, t: Seq<(u128, i64)>, id: u128)
    requires
        forall|j: int| 0 <= j < t.len() && #[trigger] t[j].0 != id ==> s.contains(t[j]),
        forall|j: int| 0 <= j < s.len() && #[trigger] s[j].0 != id ==> t.contains(s[j]),
    ensures
        forall|k: u128, q: i64| k != id ==> (seq_holds(t, k, q) <==> seq_holds(s, k, q)),
{
    assert forall|k: u128, q: i64| k != id implies (seq_holds(t, k, q) <==> seq_holds(s, k, q)) by {
        if seq_holds(t, k, q) {
            let j = choose|j: int| 0 <= j < t.len() && #[trigger] t[j] == (k, q);
            assert(t[j].0 != id);
        }
        if seq_holds(s, k, q) {
            let j = choose|j: int| 0 <= j < s.len() && #[trigger] s[j] == (k, q);
            assert(s[j].0 != id);
        }
    }
}

/// Every live connection, keyed by connection id.
pub struct ConnectionRegistry {
    entries: Vec<Connection>,
}

impl ConnectionRegistry {
    /// The (id, room) pairs of the live connections.
    pub closed spec fn view(&self) -> Seq<(u128, i64)> {
        self.entries@.map_values(|c: Connection| (c.id, c.room))
    }

    /// What each live connection was handed, position by position with the
    /// view.
    pub closed spec fn logs(&self) -> Seq<Seq<Seq<char>>> {
        self.entries@.map_values(|c: Connection| c.sent@)
    }

    /// No two live connections share an id, and each has a log.
    pub open spec fn wf(&self) -> bool {
        &&& self.logs().len() == self@.len()
        &&& forall|i: int, j: int|
            0 <= i < j < self@.len() ==> #[trigger] self@[i].0 != #[trigger] self@[j].0
    }

    /// Connection `id` is live and bound to `room`.
    pub open spec fn holds(&self, id: u128, room: i64) -> bool {
        seq_holds(self@, id, room)
    }

    /// Connection `id` is live.
    pub open spec fn has(&self, id: u128) -> bool {
        exists|i: int| 0 <= i < self@.len() && #[trigger] self@[i].0 == id
    }

    /// The position of connection `id`, when it is live.
    pub open spec fn index_of(&self, id: u128) -> int {
        choose|i: int| 0 <= i < self@.len() && #[trigger] self@[i].0 == id
    }

    /// `next` is this registry with connection `id` bound to `room` and an
    /// empty log: in place when `id` was live, at the end when it was not.
    pub open spec fn after_register(&self, next: &Self, id: u128, room: i64) -> bool {
        &&& next.wf()
        &&& if self.has(id) {
            &&& next@ == self@.update(self.index_of(id), (id, room))
            &&& next.logs() == self.logs().update(self.index_of(id), Seq::<Seq<char>>::empty())
        } else {
            &&& next@ == self@.push((id, room))
            &&& next.logs() == self.logs().push(Seq::<Seq<char>>::empty())
        }
        &&& next.holds(id, room)
        &&& forall|k: u128, q: i64| k != id ==> (next.holds(k, q) <==> self.holds(k, q))
        &&& forall|q: i64| #[trigger] next.holds(id, q) ==> q == room
        &&& next@.len() == self@.len() + if self.has(id) { 0int } else { 1int }
    }

    /// `next` is this registry without connection `id` and its log.
    pub open spec fn after_deregister(&self, next: &Self, id: u128) -> bool {
        &&& next.wf()
        &&& if self.has(id) {
            &&& next@ == self@.remove(self.index_of(id))
            &&& next.logs() == self.logs().remove(self.index_of(id))
        } else {
            &&& next@ == self@
            &&& next.logs() == self.logs()
        }
        &&& !next.has(id)
        &&& forall|k: u128, q: i64| k != id ==> (next.holds(k, q) <==> self.holds(k, q))
        &&& next@.len() == self@.len() - if self.has(id) { 1int } else { 0int }
    }

    /// `ds` names every live connection of `room` but `exclude` exactly once,
    /// and no other.
    pub open spec fn fan_out(&self, room: i64, exclude: u128, ds: Seq<Delivery>) -> bool {
        &&& forall|j: int| 0 <= j < ds.len() ==> {
            &&& self.holds(#[trigger] ds[j].conn, room)
            &&& ds[j].conn != exclude
        }
        &&& forall|id: u128| self.holds(id, room) && id != exclude
            ==> exists|j: int| 0 <= j < ds.len() && #[trigger] ds[j].conn == id
        &&& forall|j: int, k: int| 0 <= j < k < ds.len() ==> ds[j].conn != ds[k].conn
    }

    /// `next` is this registry after `payload` was handed once to every live
    /// connection of `room` but `exclude`: their logs gained exactly that
    /// payload, every other log and every (id, room) pair is unchanged.
    pub open spec fn handed_out(&self, next: &Self, room: i64, exclude: u128, payload: Seq<char>) -> bool {
        &&& next.wf()
        &&& next@ == self@
        &&& next.logs().len() == self.logs().len()
        &&& forall|i: int| #![trigger next.logs()[i]] 0 <= i < self@.len() ==> next.logs()[i] == if self@[i].1 == room
            && self@[i].0 != exclude {
            self.logs()[i].push(payload)
        } else {
            self.logs()[i]
        }
    }

    pub fn new() -> (r: Self)
        ensures
            r.wf(),
            r@.len() == 0,
    {
        ConnectionRegistry { entries: Vec::new() }
    }

    /// Number of live connections across all rooms.
    pub fn count(&self) -> (n: usize)
        ensures
            n == self@.len(),
    {
        self.entries.len()
    }

    proof fn lemma_index_of(&self, i: int)
        requires
            self.wf(),
            0 <= i < self@.len(),
        ensures
            self.has(self@[i].0),
            self.index_of(self@[i].0) == i,
    {
        let id = self@[i].0;
        assert(self@[i].0 == id);
        let j = self.index_of(id);
        assert(0 <= j < self@.len() && self@[j].0 == id);
        if j < i {
            assert(self@[j].0 != self@[i].0);
        } else if i < j {
            assert(self@[i].0 != self@[j].0);
        }
    }

    /// Position of connection `id`, if it is live.
    fn position(&self, id: u128) -> (r: Option<usize>)
        requires
            self.wf(),
        ensures
            match r {
                Some(i) => i < self@.len() && self@[i as int].0 == id && self.has(id)
                    && self.index_of(id) == i as int,
                None => !self.has(id),
            },
    {
        let mut i: usize = 0;
        while i < self.entries.len()
            invariant
                self.wf(),
                i <= self@.len(),
                self@.len() == self.entries@.len(),
                forall|k: int| 0 <= k < i ==> self@[k].0 != id,
            decreases self.entries.len() - i,
        {
            if self.entries[i].id == id {
                proof {
                    self.lemma_index_of(i as int);
                }
                return Some(i);
            }
            i = i + 1;
        }
        None
    }

    /// Whether connection `id` is live.
    pub fn contains(&self, id: u128) -> (r: bool)
        requires
            self.wf(),
        ensures
            r == self.has(id),
    {
        self.position(id).is_some()
    }

    /// Binds connection `id` to `room`. An id that is already live is
    /// rebound in place, so ids stay unique.
    pub fn register(&mut self, id: u128, room: i64, outbound: UnboundedSender<String>)
        requires
            old(self).wf(),
        ensures
            old(self).after_register(final(self), id, room),
    {
        let conn = Connection { id, room, outbound, sent: Ghost(Seq::empty()) };
        let ghost o = old(self)@;
        let ghost n = o.len() as int;
        match self.position(id) {
            Some(i) => {
                self.entries.set(i, conn);
                assert(self@ =~= o.update(i as int, (id, room)));
                assert(self.logs() =~= old(self).logs().update(i as int, Seq::<Seq<char>>::empty()));
                assert(self@[i as int] == (id, room));
                assert forall|q: i64| #[trigger] self.holds(id, q) implies q == room by {
                    let j = choose|j: int| 0 <= j < self@.len() && #[trigger] self@[j] == (id, q);
                    if j != i {
                        assert(o[j].0 == o[i as int].0);
                    }
                }
            },
            None => {
                self.entries.push(conn);
                assert(self@ =~= o.push((id, room)));
                assert(self.logs() =~= old(self).logs().push(Seq::<Seq<char>>::empty()));
                assert(self@[n] == (id, room));
                assert forall|q: i64| #[trigger] self.holds(id, q) implies q == room by {
                    let j = choose|j: int| 0 <= j < self@.len() && #[trigger] self@[j] == (id, q);
                    if j != n {
                        assert(o[j].0 == id);
                    }
                }
            },
        }
        proof {
            let t = self@;
            assert forall|j: int| 0 <= j < t.len() && #[trigger] t[j].0 != id implies o.contains(t[j]) by {
                assert(o[j] == t[j]);
            }
            assert forall|j: int| 0 <= j < o.len() && #[trigger] o[j].0 != id implies t.contains(o[j]) by {
                assert(t[j] == o[j]);
            }
            lemma_others_kept(o, t, id);
        }
    }

    /// Removes connection `id`. Removing an id that is not live changes
    /// nothing and is no error.
    pub fn deregister(&mut self, id: u128)
        requires
            old(self).wf(),
        ensures
            old(self).after_deregister(final(self), id),
    {
        let ghost o = old(self)@;
        match self.position(id) {
            Some(i) => {
                self.entries.remove(i);
                let ghost ii = i as int;
                assert(self@ =~= o.remove(ii));
                assert(self.logs() =~= old(self).logs().remove(ii));
                proof {
                    let t = self@;
                    assert forall|j: int| 0 <= j < t.len() && #[trigger] t[j].0 != id implies o.contains(t[j]) by {
                        if j < ii {
                            assert(o[j] == t[j]);
                        } else {
                            assert(o[j + 1] == t[j]);
                        }
                    }
                    assert forall|j: int| 0 <= j < o.len() && #[trigger] o[j].0 != id implies t.contains(o[j]) by {
                        if j < ii {
                            assert(t[j] == o[j]);
                        } else {
                            assert(j != ii);
                            assert(t[j - 1] == o[j]);
                        }
                    }
                    lemma_others_kept(o, t, id);
                }
                assert(!self.has(id)) by {
                    if self.has(id) {
                        let j = choose|j: int| 0 <= j < self@.len() && #[trigger] self@[j].0 == id;
                        if j < ii {
                            assert(o[j].0 == o[ii].0);
                        } else {
                            assert(o[j + 1].0 == o[ii].0);
                        }
                    }
                }
            },
            None => {},
        }
    }

    /// Hands `payload` to every live connection of `room` except `exclude`,
    /// each once, and lists them. A recipient whose queue is closed is listed
    /// as not delivered; the others are still served.
    pub fn broadcast(&mut self, room: i64, exclude: u128, payload: &String) -> (r: Vec<Delivery>)
        requires
            old(self).wf(),
        ensures
            old(self).fan_out(room, exclude, r@),
            old(self).handed_out(final(self), room, exclude, payload@),
    {
        let ghost o = *old(self);
        let mut r: Vec<Delivery> = Vec::new();
        let ghost mut idx: Seq<int> = Seq::empty();
        let mut i: usize = 0;
        while i < self.entries.len()
            invariant
                o.wf(),
                i <= o@.len(),
                self@ == o@,
                self.entries@.len() == o@.len(),
                self.logs().len() == o@.len(),
                forall|k: int| #![trigger self.logs()[k]] 0 <= k < o@.len() ==> self.logs()[k] == if k < i
                    && o@[k].1 == room && o@[k].0 != exclude {
                    o.logs()[k].push(payload@)
                } else {
                    o.logs()[k]
                },
                idx.len() == r@.len(),
                forall|j: int| #![trigger idx[j]] 0 <= j < idx.len() ==> {
                    &&& 0 <= idx[j] < i
                    &&& o@[idx[j]] == (r@[j].conn, room)
                    &&& r@[j].conn != exclude
                },
                forall|j: int, k: int| 0 <= j < k < idx.len() ==> idx[j] < idx[k],
                forall|k: int| #![trigger o@[k]] 0 <= k < i && o@[k].1 == room && o@[k].0 != exclude
                    ==> exists|j: int| 0 <= j < idx.len() && #[trigger] idx[j] == k,
            decreases o@.len() - i,
        {
            let cid = self.entries[i].id;
            let croom = self.entries[i].room;
            assert(o@[i as int] == (cid, croom));
            if croom == room && cid != exclude {
                let ghost before = *self;
                let ghost before_entries = self.entries@;
                let ok = deliver(&mut self.entries[i], payload.clone());
                assert(before_entries[i as int].sent@ == before.logs()[i as int]);
                assert(self.entries@[i as int].sent@ == before_entries[i as int].sent@.push(payload@));
                r.push(Delivery { conn: cid, delivered: ok });
                proof {
                    assert(self@ =~= before@);
                    assert forall|k: int| #![trigger self.logs()[k]] 0 <= k < o@.len() implies self.logs()[k]
                        == if k < i + 1 && o@[k].1 == room && o@[k].0 != exclude {
                        o.logs()[k].push(payload@)
                    } else {
                        o.logs()[k]
                    } by {
                        if k != i as int {
                            assert(self.entries@[k] == before_entries[k]);
                            assert(self.logs()[k] == before.logs()[k]);
                        } else {
                            assert(self.logs()[k] == self.entries@[k].sent@);
                            assert(before.logs()[k] == o.logs()[k]);
                        }
                    }
                    let old_idx = idx;
                    idx = idx.push(i as int);
                    assert forall|k: int| #![trigger o@[k]] 0 <= k < i + 1 && o@[k].1 == room && o@[k].0 != exclude
                        implies exists|j: int| 0 <= j < idx.len() && #[trigger] idx[j] == k by {
                        if k < i {
                            let j = choose|j: int| 0 <= j < old_idx.len() && #[trigger] old_idx[j] == k;
                            assert(idx[j] == k);
                        } else {
                            assert(idx[old_idx.len() as int] == k);
                        }
                    }
                }
            }
            i = i + 1;
        }
        proof {
            assert forall|id: u128| o.holds(id, room) && id != exclude
                implies exists|j: int| 0 <= j < r@.len() && #[trigger] r@[j].conn == id by {
                let k = choose|k: int| 0 <= k < o@.len() && #[trigger] o@[k] == (id, room);
                assert(o@[k].1 == room);
                let j = choose|j: int| 0 <= j < idx.len() && #[trigger] idx[j] == k;
                assert(r@[j].conn == id);
            }
            assert forall|j: int| 0 <= j < r@.len() implies {
                &&& o.holds(#[trigger] r@[j].conn, room)
                &&& r@[j].conn != exclude
            } by {
                assert(o@[idx[j]] == (r@[j].conn, room));
            }
            assert forall|j: int, k: int| 0 <= j < k < r@.len() implies r@[j].conn != r@[k].conn by {
                assert(idx[j] < idx[k]);
                assert(o@[idx[j]].0 == r@[j].conn);
                assert(o@[idx[k]].0 == r@[k].conn);
            }
        }
        r
    }
}

} // verus!
