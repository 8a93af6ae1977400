//! The session registry: the single source of truth for what is
//! running, a mapping from rendering-surface id to live session.
//!
//! Membership changes (insert at creation, detach at close) are the
//! whole interface; the caller serializes them behind one lock and never
//! holds that lock across process spawn, process kill or a network call.
//! Detaching is the de-duplication point of every teardown: of several
//! racing teardown attempts for one id, exactly one obtains the session.

use vstd::prelude::*;

use crate::session::Connection;

verus! {

/// Whether some entry carries `id`.
pub open spec fn seq_contains_id(s: Seq<(u64, Connection)>, id: u64) -> bool {
    exists|i: int| 0 <= i < s.len() && s[i].0 == id
}

/// Index of the first entry carrying `id`, or -1 when there is none.
pub open spec fn find_id(s: Seq<(u64, Connection)>, id: u64) -> int
    decreases s.len(),
{
    if s.len() == 0 {
        -1
    } else if s[0].0 == id {
        0
    } else {
        let r = find_id(s.skip(1), id);
        if r < 0 {
            -1
        } else {
            r + 1
        }
    }
}

/// Entry ids are pairwise distinct: at most one session per id.
pub open spec fn distinct_ids(s: Seq<(u64, Connection)>) -> bool {
    forall|i: int, j: int| 0 <= i < j < s.len() ==> s[i].0 != s[j].0
}

/// How many entries carry `id`.
pub open spec fn count_id(s: Seq<(u64, Connection)>, id: u64) -> nat
    decreases s.len(),
{
    if s.len() == 0 {
        0
    } else {
        count_id(s.drop_last(), id) + (if s.last().0 == id {
            1nat
        } else {
            0nat
        })
    }
}

/// What creation does to the registry: appends the session and
/// succeeds, unless the id is already present, in which case nothing
/// changes and it fails.
pub open spec fn create_spec(s: Seq<(u64, Connection)>, id: u64, c: Connection) -> (
    Seq<(u64, Connection)>,
    bool,
) {
    if seq_contains_id(s, id) {
        (s, false)
    } else {
        (s.push((id, c)), true)
    }
}

/// What removal does to the registry: detaches the entry for `id` and
/// succeeds, or changes nothing when the id is absent.
pub open spec fn remove_spec(s: Seq<(u64, Connection)>, id: u64) -> (Seq<(u64, Connection)>, bool) {
    if seq_contains_id(s, id) {
        (s.remove(find_id(s, id)), true)
    } else {
        (s, false)
    }
}

pub proof fn lemma_find_id(s: Seq<(u64, Connection)>, id: u64)
    ensures
        (find_id(s, id) >= 0) <==> seq_contains_id(s, id),
        find_id(s, id) >= 0 ==> find_id(s, id) < s.len() && s[find_id(s, id)].0 == id,
        forall|j: int| 0 <= j < find_id(s, id) ==> s[j].0 != id,
    decreases s.len(),
{
    if s.len() == 0 {
    } else if s[0].0 == id {
    } else {
        let t = s.skip(1);
        lemma_find_id(t, id);
        assert(forall|k: int| 0 <= k < t.len() ==> t[k] == s[k + 1]);
        if seq_contains_id(s, id) {
            let i = choose|i: int| 0 <= i < s.len() && s[i].0 == id;
            assert(i >= 1);
            assert(t[i - 1].0 == id);
            assert(seq_contains_id(t, id));
        }
        if seq_contains_id(t, id) {
            let i = choose|i: int| 0 <= i < t.len() && t[i].0 == id;
            assert(s[i + 1].0 == id);
            assert(seq_contains_id(s, id));
        }
        if find_id(s, id) >= 0 {
            assert forall|j: int| 0 <= j < find_id(s, id) implies s[j].0 != id by {
                if j >= 1 {
                    assert(s[j] == t[j - 1]);
                }
            }
        }
    }
}

proof fn lemma_find_id_first(s: Seq<(u64, Connection)>, id: u64, i: int)
    requires
        0 <= i < s.len(),
        s[i].0 == id,
        forall|j: int| 0 <= j < i ==> s[j].0 != id,
    ensures
        find_id(s, id) == i,
    decreases s.len(),
{
    if i == 0 {
    } else {
        let t = s.skip(1);
        assert(forall|k: int| 0 <= k < t.len() ==> t[k] == s[k + 1]);
        lemma_find_id_first(t, id, i - 1);
    }
}

proof fn lemma_count_zero(s: Seq<(u64, Connection)>, id: u64)
    ensures
        (count_id(s, id) == 0) <==> !seq_contains_id(s, id),
    decreases s.len(),
{
    if s.len() == 0 {
    } else {
        let t = s.drop_last();
        lemma_count_zero(t, id);
        assert(forall|k: int| 0 <= k < t.len() ==> t[k] == s[k]);
        if seq_contains_id(s, id) && s.last().0 != id {
            let i = choose|i: int| 0 <= i < s.len() && s[i].0 == id;
            assert(i < s.len() - 1);
            assert(t[i].0 == id);
            assert(seq_contains_id(t, id));
        }
        if seq_contains_id(t, id) {
            let i = choose|i: int| 0 <= i < t.len() && t[i].0 == id;
            assert(s[i].0 == id);
            assert(seq_contains_id(s, id));
        }
    }
}

pub proof fn lemma_remove_keeps_distinct(s: Seq<(u64, Connection)>, i: int)
    requires
        distinct_ids(s),
        0 <= i < s.len(),
    ensures
        distinct_ids(s.remove(i)),
{
    let t = s.remove(i);
    assert forall|p: int, q: int| 0 <= p < q < t.len() implies t[p].0 != t[q].0 by {
        let p0 = if p < i {
            p
        } else {
            p + 1
        };
        let q0 = if q < i {
            q
        } else {
            q + 1
        };
        assert(t[p] == s[p0]);
        assert(t[q] == s[q0]);
    }
}

pub proof fn lemma_remove_unique_id(s: Seq<(u64, Connection)>, id: u64)
    requires
        distinct_ids(s),
        seq_contains_id(s, id),
    ensures
        !seq_contains_id(s.remove(find_id(s, id)), id),
{
    lemma_find_id(s, id);
    let i = find_id(s, id);
    let t = s.remove(i);
    if seq_contains_id(t, id) {
        let k = choose|k: int| 0 <= k < t.len() && t[k].0 == id;
        let k0 = if k < i {
            k
        } else {
            k + 1
        };
        assert(t[k] == s[k0]);
        assert(s[k0].0 == id && s[i].0 == id && k0 != i);
    }
}

/// The registry proper.  The caller guards a value of this type with a
/// mutual-exclusion lock; every operation here is short and performs no
/// input/output while it mutates the structure.
pub struct SessionRegistry {
    entries: Vec<(u64, Connection)>,
}

impl SessionRegistry {
    /// The registered sessions, in creation order.
    pub closed spec fn entries_view(&self) -> Seq<(u64, Connection)> {
        self.entries@
    }

    /// At most one live session per id, ever.
    pub open spec fn wf(&self) -> bool {
        distinct_ids(self.entries_view())
    }

    /// Whether `id` is currently registered.
    pub open spec fn spec_contains(&self, id: u64) -> bool {
        seq_contains_id(self.entries_view(), id)
    }

    pub fn new() -> (r: SessionRegistry)
        ensures
            r.wf(),
            r.entries_view() == Seq::<(u64, Connection)>::empty(),
    {
        SessionRegistry { entries: Vec::new() }
    }

    pub fn len(&self) -> (n: usize)
        ensures
            n == self.entries_view().len(),
    {
        self.entries.len()
    }

    pub fn is_empty(&self) -> (r: bool)
        ensures
            r == (self.entries_view().len() == 0),
    {
        self.entries.is_empty()
    }

    fn position_of(&self, id: u64) -> (r: Option<usize>)
        ensures
            match r {
                Some(i) => i < self.entries_view().len() && find_id(self.entries_view(), id)
                    == i as int && self.entries_view()[i as int].0 == id,
                None => !self.spec_contains(id),
            },
    {
        let n = self.entries.len();
        let mut i: usize = 0;
        while i < n
            invariant
                n == self.entries_view().len(),
                i <= n,
                forall|j: int| 0 <= j < i ==> self.entries_view()[j].0 != id,
            decreases n - i,
        {
            if self.entries[i].0 == id {
                proof {
                    lemma_find_id_first(self.entries_view(), id, i as int);
                }
                return Some(i);
            }
            i += 1;
        }
        None
    }

    /// Registers a new session under `id`.  Never overwrites: when `id`
    /// is already present the registry is unchanged and the rejected
    /// session is handed back for the caller to tear down.
    pub fn create(&mut self, id: u64, c: Connection) -> (r: Result<(), Connection>)
        requires
            old(self).wf(),
        ensures
            final (self).wf(),
            final (self).entries_view() == create_spec(old(self).entries_view(), id, c).0,
            (r is Ok) == create_spec(old(self).entries_view(), id, c).1,
            match r {
                Ok(()) => !old(self).spec_contains(id),
                Err(rejected) => old(self).spec_contains(id) && rejected == c,
            },
    {
        match self.position_of(id) {
            Some(_) => Err(c),
            None => {
                let ghost s0 = self.entries_view();
                self.entries.push((id, c));
                proof {
                    assert forall|p: int, q: int|
                        0 <= p < q < self.entries_view().len() implies self.entries_view()[p].0
                        != self.entries_view()[q].0 by {
                        if q == s0.len() {
                            assert(self.entries_view()[p] == s0[p]);
                            assert(!seq_contains_id(s0, id));
                        } else {
                            assert(self.entries_view()[p] == s0[p]);
                            assert(self.entries_view()[q] == s0[q]);
                        }
                    }
                }
                Ok(())
            },
        }
    }

    /// Detaches and returns the session registered under `id`, leaving
    /// the others in order; finds nothing when `id` is absent.  Exclusive
    /// ownership moves to the caller, which performs the actual teardown
    /// after releasing the registry lock.
    pub fn remove(&mut self, id: u64) -> (r: Option<Connection>)
        requires
            old(self).wf(),
        ensures
            final (self).wf(),
            final (self).entries_view() == remove_spec(old(self).entries_view(), id).0,
            (r is Some) == remove_spec(old(self).entries_view(), id).1,
            match r {
                Some(c) => old(self).spec_contains(id) && (id, c) == old(self).entries_view()[find_id(
                    old(self).entries_view(),
                    id,
                )],
                None => !old(self).spec_contains(id),
            },
    {
        match self.position_of(id) {
            Some(i) => {
                proof {
                    lemma_remove_keeps_distinct(self.entries_view(), i as int);
                }
                let e = self.entries.remove(i);
                Some(e.1)
            },
            None => None,
        }
    }

    /// A read-only listing for display purposes: id and displayed
    /// metadata of every session, in creation order, exposing no mutable
    /// internals.
    pub fn snapshot(&self) -> (v: Vec<(u64, String, String, String)>)
        ensures
            v@.len() == self.entries_view().len(),
            forall|i: int|
                0 <= i < v@.len() ==> {
                    &&& v@[i].0 == self.entries_view()[i].0
                    &&& v@[i].1@ == self.entries_view()[i].1.spec_creator()
                    &&& v@[i].2@ == self.entries_view()[i].1.spec_creation()
                    &&& v@[i].3@ == self.entries_view()[i].1.spec_timeout()
                },
    {
        let n = self.entries.len();
        let mut v: Vec<(u64, String, String, String)> = Vec::new();
        let mut i: usize = 0;
        while i < n
            invariant
                n == self.entries_view().len(),
                i <= n,
                v@.len() == i,
                forall|k: int|
                    0 <= k < i ==> {
                        &&& v@[k].0 == self.entries_view()[k].0
                        &&& v@[k].1@ == self.entries_view()[k].1.spec_creator()
                        &&& v@[k].2@ == self.entries_view()[k].1.spec_creation()
                        &&& v@[k].3@ == self.entries_view()[k].1.spec_timeout()
                    },
            decreases n - i,
        {
            let e = &self.entries[i];
            v.push((e.0, e.1.creator_text(), e.1.creation_text(), e.1.timeout_text()));
            i += 1;
        }
        v
    }
}

/// The body of an independent teardown unit, and of an explicit close
/// request: detaches the session for `id` — removal from the registry
/// is the de-duplication point, so of several racing attempts exactly
/// one proceeds — then kills its process.  Returns whether the kill
/// signal was delivered and the reader-task handle for the caller to
/// await after releasing the registry lock, or `None` when the id was
/// already absent.
pub fn teardown(reg: &mut SessionRegistry, id: u64) -> (r: Option<
    (bool, tokio::task::JoinHandle<()>),
>)
    requires
        old(reg).wf(),
    ensures
        final (reg).wf(),
        final (reg).entries_view() == remove_spec(old(reg).entries_view(), id).0,
        (r is Some) == old(reg).spec_contains(id),
        match r {
            Some(t) => t.1 == old(reg).entries_view()[find_id(old(reg).entries_view(), id)]
                .1.spec_reader(),
            None => !old(reg).spec_contains(id),
        },
{
    match reg.remove(id) {
        Some(c) => {
            let (delivered, join) = c.close();
            Some((delivered, join))
        },
        None => None,
    }
}

/// At most one session per id: of any number of creation attempts for
/// one id, serialized by the registry lock, exactly the first succeeds;
/// every later attempt fails, changes nothing, and hands its session
/// back; and the registry ends with exactly one entry for the id.
pub proof fn lemma_at_most_one_session_per_id(
    s: Seq<(u64, Connection)>,
    id: u64,
    c1: Connection,
    c2: Connection,
)
    requires
        !seq_contains_id(s, id),
    ensures
        create_spec(s, id, c1).1,
        !create_spec(create_spec(s, id, c1).0, id, c2).1,
        create_spec(create_spec(s, id, c1).0, id, c2).0 == create_spec(s, id, c1).0,
        count_id(create_spec(s, id, c1).0, id) == 1,
{
    let t = s.push((id, c1));
    assert(t[s.len() as int].0 == id);
    assert(seq_contains_id(t, id));
    lemma_count_zero(s, id);
    assert(t.drop_last() =~= s);
    assert(count_id(t, id) == 1);
}

/// Idempotent close: the first removal for an id detaches its session;
/// an immediately repeated removal finds nothing and changes nothing,
/// so the detached session — and with it the process kill and the
/// reader-task join — happens exactly once.
pub proof fn lemma_idempotent_close(s: Seq<(u64, Connection)>, id: u64)
    requires
        distinct_ids(s),
        seq_contains_id(s, id),
    ensures
        remove_spec(s, id).1,
        !seq_contains_id(remove_spec(s, id).0, id),
        !remove_spec(remove_spec(s, id).0, id).1,
        remove_spec(remove_spec(s, id).0, id).0 == remove_spec(s, id).0,
{
    lemma_remove_unique_id(s, id);
}

/// Single teardown under race: when end-of-stream and deadline expiry
/// both request teardown of one session in the same iteration window,
/// the two removal attempts are serialized by the registry lock;
/// whichever runs first obtains the session, the other finds the id
/// already absent, and the registry ends with no entry for the id — the
/// process is killed and the reader task joined exactly once.
pub proof fn lemma_single_teardown(s: Seq<(u64, Connection)>, id: u64)
    requires
        distinct_ids(s),
        seq_contains_id(s, id),
    ensures
        remove_spec(s, id).1,
        !remove_spec(remove_spec(s, id).0, id).1,
        remove_spec(remove_spec(s, id).0, id).0 == remove_spec(s, id).0,
        !seq_contains_id(remove_spec(remove_spec(s, id).0, id).0, id),
        count_id(remove_spec(remove_spec(s, id).0, id).0, id) == 0,
{
    lemma_remove_unique_id(s, id);
    lemma_count_zero(remove_spec(s, id).0, id);
}

} // verus!
