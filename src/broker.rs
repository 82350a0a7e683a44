//! The broker protocol: the shared task queue and the tracker side-table.
//!
//! `TaskQueue` holds the queue's entries once they have been read and
//! decoded; lookups and removals by task id are decided on it. Pushing onto
//! it, and `TrackerTable` as a whole, are reference models of what the
//! broker's list push and hash set/get/delete do to the shared structures:
//! the laws below are stated over them.

use crate::envelope::Payload;
use vstd::prelude::*;

verus! {

/// Handle on a broker: where the shared queue and side-table live.
#[derive(Clone, Debug)]
pub struct Broker {
    connection_string: String,
}

impl Broker {
    pub closed spec fn spec_connection_string(&self) -> Seq<char> {
        self.connection_string@
    }

    pub fn new(connection_string: &str) -> (r: Broker)
        ensures
            r.spec_connection_string() == connection_string@,
    {
        Broker { connection_string: connection_string.to_owned() }
    }

    pub fn connection_string(&self) -> (r: &str)
        ensures
            r@ == self.spec_connection_string(),
    {
        self.connection_string.as_str()
    }
}

/// Why a lookup or removal by task id did not succeed.
#[derive(Debug, PartialEq, Eq, Structural)]
pub enum BrokerError {
    /// No decodable entry carries the task id.
    NotFound,
}

/// The entry is a decoded envelope whose task id is `id`.
pub open spec fn has_id(entry: Option<Payload>, id: Seq<char>) -> bool {
    entry matches Some(p) && p.headers.id@ == id
}

/// `i` is the position of the first entry of `q` with task id `id`.
pub open spec fn is_first_with_id(q: Seq<Option<Payload>>, id: Seq<char>, i: int) -> bool {
    &&& 0 <= i < q.len()
    &&& has_id(q[i], id)
    &&& forall|j: int| 0 <= j < i ==> !has_id(#[trigger] q[j], id)
}

/// Some entry of `q` has task id `id`.
pub open spec fn holds_id(q: Seq<Option<Payload>>, id: Seq<char>) -> bool {
    exists|j: int| 0 <= j < q.len() && has_id(#[trigger] q[j], id)
}

/// The envelopes that decoded, in queue order.
pub open spec fn decoded(q: Seq<Option<Payload>>) -> Seq<Payload>
    decreases q.len(),
{
    if q.len() == 0 {
        seq![]
    } else {
        match q[0] {
            Some(p) => seq![p] + decoded(q.drop_first()),
            None => decoded(q.drop_first()),
        }
    }
}

/// Keeps the entries that decoded, in order, and drops those that did not.
pub fn keep_decoded(entries: Vec<Option<Payload>>) -> (r: Vec<Payload>)
    ensures
        r@ == decoded(entries@),
{
    let mut rest = entries;
    let mut result: Vec<Payload> = Vec::new();
    while rest.len() > 0
        invariant
            result@ + decoded(rest@) == decoded(entries@),
        decreases rest.len(),
    {
        let ghost before = rest@;
        let entry = rest.remove(0);
        assert(rest@ == before.drop_first());
        match entry {
            Some(p) => {
                let ghost prev = result@;
                result.push(p);
                assert(result@ + decoded(rest@) == prev + decoded(before)) by {
                    assert(prev + decoded(before) == prev + (seq![p] + decoded(rest@)));
                    assert(result@ + decoded(rest@) =~= prev + (seq![p] + decoded(rest@)));
                }
            },
            None => {},
        }
    }
    assert(decoded(rest@) == Seq::<Payload>::empty());
    assert(result@ + decoded(rest@) =~= result@);
    result
}

/// First position in `q` of an entry with task id `id`.
fn first_position(q: &Vec<Option<Payload>>, id: &str) -> (r: Option<usize>)
    ensures
        r matches Some(i) ==> is_first_with_id(q@, id@, i as int),
        r is None ==> !holds_id(q@, id@),
{
    let key = id.to_owned();
    let mut i: usize = 0;
    while i < q.len()
        invariant
            i <= q@.len(),
            key@ == id@,
            forall|j: int| 0 <= j < i ==> !has_id(#[trigger] q@[j], id@),
        decreases q@.len() - i,
    {
        match &q[i] {
            Some(p) => {
                if p.headers.id == key {
                    return Some(i);
                }
            },
            None => {},
        }
        i = i + 1;
    }
    None
}

/// A snapshot of the shared task queue: its entries from head to tail, each
/// the envelope it decodes to, or `None` where it did not decode.
pub struct TaskQueue {
    entries: Vec<Option<Payload>>,
}

impl View for TaskQueue {
    type V = Seq<Option<Payload>>;

    closed spec fn view(&self) -> Seq<Option<Payload>> {
        self.entries@
    }
}

impl TaskQueue {
    pub fn from_entries(entries: Vec<Option<Payload>>) -> (r: TaskQueue)
        ensures
            r@ == entries@,
    {
        TaskQueue { entries }
    }

    pub fn len(&self) -> (r: usize)
        ensures
            r == self@.len(),
    {
        self.entries.len()
    }

    /// Puts `payload` at the head of the queue, where producers append: a
    /// reference model of the broker's list push.
    pub fn push_task(&mut self, payload: Payload)
        ensures
            final(self)@ == seq![Some(payload)] + old(self)@,
    {
        self.entries.insert(0, Some(payload));
        assert(self@ =~= seq![Some(payload)] + old(self)@);
    }

    /// The envelopes of the queue that decoded, head first; those that did
    /// not are skipped.
    pub fn list_tasks(self) -> (r: Vec<Payload>)
        ensures
            r@ == decoded(self@),
    {
        keep_decoded(self.entries)
    }

    /// The first envelope, from the head, whose task id is `task_id`.
    pub fn get_task(&self, task_id: &str) -> (r: Result<&Payload, BrokerError>)
        ensures
            r matches Ok(p) ==> exists|i: int|
                is_first_with_id(self@, task_id@, i) && self@[i] == Some(*p),
            r matches Err(e) ==> e == BrokerError::NotFound && !holds_id(self@, task_id@),
            r is Ok <==> holds_id(self@, task_id@),
    {
        match first_position(&self.entries, task_id) {
            Some(i) => {
                match &self.entries[i] {
                    Some(p) => {
                        assert(is_first_with_id(self@, task_id@, i as int) && self@[i as int]
                            == Some(*p));
                        Ok(p)
                    },
                    None => Err(BrokerError::NotFound),
                }
            },
            None => Err(BrokerError::NotFound),
        }
    }

    /// Removes the first entry, from the head, whose task id is `task_id`,
    /// and gives its position; `NotFound` leaves the queue as it was.
    pub fn delete_task(&mut self, task_id: &str) -> (r: Result<usize, BrokerError>)
        ensures
            r matches Ok(i) ==> is_first_with_id(old(self)@, task_id@, i as int) && final(self)@
                == old(self)@.remove(i as int),
            r matches Err(e) ==> e == BrokerError::NotFound && !holds_id(old(self)@, task_id@)
                && final(self)@ == old(self)@,
            r is Ok <==> holds_id(old(self)@, task_id@),
    {
        match first_position(&self.entries, task_id) {
            Some(i) => {
                let _removed = self.entries.remove(i);
                Ok(i)
            },
            None => Err(BrokerError::NotFound),
        }
    }
}

/// The queue after pushing `p` onto `q`.
pub open spec fn pushed(q: Seq<Option<Payload>>, p: Payload) -> Seq<Option<Payload>> {
    seq![Some(p)] + q
}

/// After a push, a lookup of the pushed envelope's id finds that very
/// envelope, at the head of the queue.
pub proof fn lemma_push_then_get(q: Seq<Option<Payload>>, p: Payload)
    ensures
        is_first_with_id(pushed(q, p), p.headers.id@, 0),
        pushed(q, p)[0] == Some(p),
{
}

/// A push, then a delete of the pushed id, leaves no entry with that id, so a
/// lookup of it is not found; this needs the id to be new to the queue, as a
/// fresh envelope's id is.
pub proof fn lemma_push_delete_then_get(q: Seq<Option<Payload>>, p: Payload, i: int)
    requires
        !holds_id(q, p.headers.id@),
        is_first_with_id(pushed(q, p), p.headers.id@, i),
    ensures
        i == 0,
        pushed(q, p).remove(i) == q,
        !holds_id(pushed(q, p).remove(i), p.headers.id@),
{
    assert(pushed(q, p).remove(0) =~= q);
}

/// No two trackers share a task id.
pub open spec fn ids_distinct(t: Seq<Payload>) -> bool {
    forall|i: int, j: int|
        0 <= i < t.len() && 0 <= j < t.len() && i != j ==> #[trigger] t[i].headers.id@
            != #[trigger] t[j].headers.id@
}

/// Some tracker of `t` is keyed by `id`.
pub open spec fn tracks_id(t: Seq<Payload>, id: Seq<char>) -> bool {
    exists|j: int| 0 <= j < t.len() && #[trigger] t[j].headers.id@ == id
}

/// The side-table after setting the tracker of `p`: a tracker with the same
/// id is replaced in place, and otherwise `p` is added after the others.
pub open spec fn set_tracker(t: Seq<Payload>, p: Payload) -> Seq<Payload>
    decreases t.len(),
{
    if t.len() == 0 {
        seq![p]
    } else if t[0].headers.id@ == p.headers.id@ {
        seq![p] + t.drop_first()
    } else {
        seq![t[0]] + set_tracker(t.drop_first(), p)
    }
}

/// The side-table after setting the trackers of `ps`, in order.
pub open spec fn set_trackers(t: Seq<Payload>, ps: Seq<Payload>) -> Seq<Payload>
    decreases ps.len(),
{
    if ps.len() == 0 {
        t
    } else {
        set_trackers(set_tracker(t, ps[0]), ps.drop_first())
    }
}

proof fn lemma_set_tracker_replaces(t: Seq<Payload>, p: Payload, i: int)
    requires
        0 <= i < t.len(),
        t[i].headers.id@ == p.headers.id@,
        forall|j: int| 0 <= j < i ==> #[trigger] t[j].headers.id@ != p.headers.id@,
    ensures
        set_tracker(t, p) == t.update(i, p),
    decreases t.len(),
{
    if i == 0 {
        assert(set_tracker(t, p) =~= t.update(i, p));
    } else {
        assert(t[0].headers.id@ != p.headers.id@);
        let rest = t.drop_first();
        assert forall|j: int| 0 <= j < i - 1 implies #[trigger] rest[j].headers.id@
            != p.headers.id@ by {
            assert(rest[j] == t[j + 1]);
        }
        lemma_set_tracker_replaces(rest, p, i - 1);
        assert(set_tracker(t, p) =~= t.update(i, p));
    }
}

proof fn lemma_set_tracker_adds(t: Seq<Payload>, p: Payload)
    requires
        !tracks_id(t, p.headers.id@),
    ensures
        set_tracker(t, p) == t.push(p),
    decreases t.len(),
{
    if t.len() == 0 {
        assert(set_tracker(t, p) =~= t.push(p));
    } else {
        assert(t[0].headers.id@ != p.headers.id@);
        let rest = t.drop_first();
        assert(!tracks_id(rest, p.headers.id@)) by {
            if tracks_id(rest, p.headers.id@) {
                let j = choose|j: int| 0 <= j < rest.len() && #[trigger] rest[j].headers.id@
                    == p.headers.id@;
                assert(t[j + 1].headers.id@ == p.headers.id@);
            }
        }
        lemma_set_tracker_adds(rest, p);
        assert(set_tracker(t, p) =~= t.push(p));
    }
}

/// Setting the trackers of envelopes whose ids are pairwise distinct, and new
/// to the table, adds each of them once: on an empty table the listing then
/// holds exactly those envelopes, as many as there were calls.
pub proof fn lemma_distinct_trackers_listed(t: Seq<Payload>, ps: Seq<Payload>)
    requires
        ids_distinct(t + ps),
    ensures
        set_trackers(t, ps) == t + ps,
        set_trackers(t, ps).len() == t.len() + ps.len(),
    decreases ps.len(),
{
    if ps.len() == 0 {
        assert(t + ps =~= t);
    } else {
        let both = t + ps;
        assert(!tracks_id(t, ps[0].headers.id@)) by {
            if tracks_id(t, ps[0].headers.id@) {
                let j = choose|j: int| 0 <= j < t.len() && #[trigger] t[j].headers.id@
                    == ps[0].headers.id@;
                assert(both[j] == t[j] && both[t.len() as int] == ps[0]);
            }
        }
        lemma_set_tracker_adds(t, ps[0]);
        assert(t.push(ps[0]) + ps.drop_first() =~= t + ps);
        lemma_distinct_trackers_listed(t.push(ps[0]), ps.drop_first());
    }
}

/// A reference model of the tracker side-table, a hash from task id to
/// envelope: one envelope per task id.
pub struct TrackerTable {
    entries: Vec<Payload>,
}

impl View for TrackerTable {
    type V = Seq<Payload>;

    closed spec fn view(&self) -> Seq<Payload> {
        self.entries@
    }
}

impl TrackerTable {
    pub open spec fn wf(&self) -> bool {
        ids_distinct(self@)
    }

    pub fn new() -> (r: TrackerTable)
        ensures
            r@ == Seq::<Payload>::empty(),
            r.wf(),
    {
        TrackerTable { entries: Vec::new() }
    }

    fn position_of(&self, id: &str) -> (r: Option<usize>)
        ensures
            r matches Some(i) ==> i < self@.len() && self@[i as int].headers.id@ == id@ && forall|
                j: int,
            | 0 <= j < i ==> #[trigger] self@[j].headers.id@ != id@,
            r is None ==> !tracks_id(self@, id@),
    {
        let key = id.to_owned();
        let mut i: usize = 0;
        while i < self.entries.len()
            invariant
                i <= self@.len(),
                key@ == id@,
                forall|j: int| 0 <= j < i ==> #[trigger] self@[j].headers.id@ != id@,
            decreases self@.len() - i,
        {
            if self.entries[i].headers.id == key {
                return Some(i);
            }
            i = i + 1;
        }
        None
    }

    /// Records `payload` under its task id, replacing the tracker that id had.
    pub fn create_task_tracker(&mut self, payload: Payload)
        requires
            old(self).wf(),
        ensures
            final(self).wf(),
            final(self)@ == set_tracker(old(self)@, payload),
    {
        match self.position_of(payload.headers.id.as_str()) {
            Some(i) => {
                proof {
                    lemma_set_tracker_replaces(self@, payload, i as int);
                }
                let _old = self.entries.remove(i);
                self.entries.insert(i, payload);
                assert(self@ =~= old(self)@.update(i as int, payload));
                assert(ids_distinct(self@)) by {
                    assert forall|a: int, b: int|
                        0 <= a < self@.len() && 0 <= b < self@.len() && a != b implies #[trigger] self@[a].headers.id@
                        != #[trigger] self@[b].headers.id@ by {
                        assert(old(self)@[a].headers.id@ == self@[a].headers.id@);
                        assert(old(self)@[b].headers.id@ == self@[b].headers.id@);
                    }
                }
            },
            None => {
                proof {
                    lemma_set_tracker_adds(self@, payload);
                }
                self.entries.push(payload);
                assert(ids_distinct(self@)) by {
                    assert forall|a: int, b: int|
                        0 <= a < self@.len() && 0 <= b < self@.len() && a != b implies #[trigger] self@[a].headers.id@
                        != #[trigger] self@[b].headers.id@ by {
                        let n = old(self)@.len() as int;
                        if a == n {
                            assert(old(self)@[b] == self@[b]);
                        } else if b == n {
                            assert(old(self)@[a] == self@[a]);
                        } else {
                            assert(old(self)@[a] == self@[a] && old(self)@[b] == self@[b]);
                        }
                    }
                }
            },
        }
    }

    /// The tracker recorded under `task_id`.
    pub fn get_task_tracker(&self, task_id: &str) -> (r: Result<&Payload, BrokerError>)
        ensures
            r matches Ok(p) ==> p.headers.id@ == task_id@ && exists|i: int|
                0 <= i < self@.len() && self@[i] == *p,
            r matches Err(e) ==> e == BrokerError::NotFound,
            r is Ok <==> tracks_id(self@, task_id@),
    {
        match self.position_of(task_id) {
            Some(i) => {
                let p = &self.entries[i];
                assert(self@[i as int] == *p);
                Ok(p)
            },
            None => Err(BrokerError::NotFound),
        }
    }

    /// Drops the tracker recorded under `task_id`, if there is one, and says
    /// whether there was.
    pub fn delete_task_tracker(&mut self, task_id: &str) -> (r: bool)
        requires
            old(self).wf(),
        ensures
            final(self).wf(),
            r == tracks_id(old(self)@, task_id@),
            r ==> exists|i: int|
                0 <= i < old(self)@.len() && old(self)@[i].headers.id@ == task_id@ && final(self)@
                    == old(self)@.remove(i),
            !r ==> final(self)@ == old(self)@,
            !tracks_id(final(self)@, task_id@),
    {
        match self.position_of(task_id) {
            Some(i) => {
                let _removed = self.entries.remove(i);
                assert(old(self)@[i as int].headers.id@ == task_id@ && self@ == old(self)@.remove(
                    i as int,
                ));
                assert(ids_distinct(self@)) by {
                    assert forall|a: int, b: int|
                        0 <= a < self@.len() && 0 <= b < self@.len() && a != b implies #[trigger] self@[a].headers.id@
                        != #[trigger] self@[b].headers.id@ by {
                        let a0 = if a < i { a } else { a + 1 };
                        let b0 = if b < i { b } else { b + 1 };
                        assert(self@[a] == old(self)@[a0] && self@[b] == old(self)@[b0]);
                    }
                }
                assert(!tracks_id(self@, task_id@)) by {
                    if tracks_id(self@, task_id@) {
                        let j = choose|j: int| 0 <= j < self@.len() && #[trigger] self@[j].headers.id@
                            == task_id@;
                        let j0 = if j < i { j } else { j + 1 };
                        assert(self@[j] == old(self)@[j0]);
                    }
                }
                true
            },
            None => false,
        }
    }

    /// All trackers of the table.
    pub fn list_task_trackers(self) -> (r: Vec<Payload>)
        ensures
            r@ == self@,
    {
        self.entries
    }
}

} // verus!
