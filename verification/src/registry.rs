//! The registry of live sessions: a finite map from session identifiers to
//! sessions.

use vstd::prelude::*;
use crate::models::{Session, SessionView, Team, TeamView, Timestamp};
use crate::session::{BuzzOutcome, NotFound};

verus! {

/// One live session under its identifier.
struct Entry {
    id: String,
    session: Session,
}

/// All live sessions, each under its own identifier.
///
/// The registry owns its sessions: they are reached only through its
/// operations, and a session that was removed is gone.
pub struct SessionRegistry {
    entries: Vec<Entry>,
}

/// Whether position `i` of `entries` holds the session named `id`.
spec fn id_at(entries: Seq<Entry>, id: Seq<char>, i: int) -> bool {
    0 <= i < entries.len() && entries[i].id@ == id
}

/// No identifier stands at two positions.
spec fn distinct_ids(entries: Seq<Entry>) -> bool {
    forall|i: int, j: int|
        0 <= i < entries.len() && 0 <= j < entries.len() && i != j ==> entries[i].id@
            != entries[j].id@
}

/// The map that `entries` stands for.
spec fn entries_map(entries: Seq<Entry>) -> Map<Seq<char>, SessionView> {
    Map::new(
        |id: Seq<char>| exists|i: int| id_at(entries, id, i),
        |id: Seq<char>| entries[choose|i: int| id_at(entries, id, i)].session@,
    )
}

/// Every session has its full roster.
spec fn rosters_full(entries: Seq<Entry>) -> bool {
    forall|i: int| 0 <= i < entries.len() ==> (#[trigger] entries[i]).session@.wf()
}

proof fn lemma_lookup(entries: Seq<Entry>, i: int)
    requires
        distinct_ids(entries),
        0 <= i < entries.len(),
    ensures
        entries_map(entries).contains_key(entries[i].id@),
        entries_map(entries)[entries[i].id@] == entries[i].session@,
{
    let id = entries[i].id@;
    assert(id_at(entries, id, i));
    let j = choose|j: int| id_at(entries, id, j);
    assert(id_at(entries, id, j));
    assert(j == i);
}

proof fn lemma_absent(entries: Seq<Entry>, id: Seq<char>)
    requires
        forall|i: int| !id_at(entries, id, i),
    ensures
        !entries_map(entries).contains_key(id),
{
}

proof fn lemma_absent_converse(entries: Seq<Entry>, id: Seq<char>)
    requires
        !entries_map(entries).contains_key(id),
    ensures
        forall|i: int| !id_at(entries, id, i),
{
}

proof fn lemma_push(entries: Seq<Entry>, entry: Entry)
    requires
        distinct_ids(entries),
        forall|i: int| !id_at(entries, entry.id@, i),
    ensures
        distinct_ids(entries.push(entry)),
        entries_map(entries.push(entry)) == entries_map(entries).insert(entry.id@, entry.session@),
{
    let after = entries.push(entry);
    let last = entries.len() as int;
    assert forall|i: int, j: int|
        0 <= i < after.len() && 0 <= j < after.len() && i != j implies after[i].id@
        != after[j].id@ by {
        if i < last && j < last {
            assert(after[i] == entries[i] && after[j] == entries[j]);
        } else if i < last {
            assert(!id_at(entries, entry.id@, i));
        } else {
            assert(!id_at(entries, entry.id@, j));
        }
    }
    let expected = entries_map(entries).insert(entry.id@, entry.session@);
    assert forall|id: Seq<char>| entries_map(after).contains_key(id) <==> expected.contains_key(
        id,
    ) by {
        if entries_map(after).contains_key(id) {
            let k = choose|k: int| id_at(after, id, k);
            assert(id_at(after, id, k));
            if k < last {
                assert(id_at(entries, id, k));
            }
        }
        if expected.contains_key(id) {
            if id == entry.id@ {
                assert(id_at(after, id, last));
            } else {
                let k = choose|k: int| id_at(entries, id, k);
                assert(id_at(entries, id, k));
                assert(id_at(after, id, k));
            }
        }
    }
    assert forall|id: Seq<char>| entries_map(after).contains_key(id) implies entries_map(after)[id]
        == expected[id] by {
        let k = choose|k: int| id_at(after, id, k);
        assert(id_at(after, id, k));
        lemma_lookup(after, k);
        if k < last {
            assert(id_at(entries, id, k));
            lemma_lookup(entries, k);
        }
    }
    assert(entries_map(after) =~= expected);
}

proof fn lemma_update(entries: Seq<Entry>, i: int, entry: Entry)
    requires
        distinct_ids(entries),
        0 <= i < entries.len(),
        entry.id@ == entries[i].id@,
    ensures
        distinct_ids(entries.update(i, entry)),
        entries_map(entries.update(i, entry)) == entries_map(entries).insert(
            entry.id@,
            entry.session@,
        ),
{
    let after = entries.update(i, entry);
    assert forall|a: int, b: int|
        0 <= a < after.len() && 0 <= b < after.len() && a != b implies after[a].id@
        != after[b].id@ by {
        assert(after[a].id@ == entries[a].id@);
        assert(after[b].id@ == entries[b].id@);
    }
    let expected = entries_map(entries).insert(entry.id@, entry.session@);
    assert forall|id: Seq<char>| entries_map(after).contains_key(id) <==> expected.contains_key(
        id,
    ) by {
        if entries_map(after).contains_key(id) {
            let k = choose|k: int| id_at(after, id, k);
            assert(id_at(after, id, k));
            assert(after[k].id@ == entries[k].id@);
            assert(id_at(entries, id, k));
        }
        if expected.contains_key(id) {
            if id == entry.id@ {
                assert(id_at(after, id, i));
            } else {
                let k = choose|k: int| id_at(entries, id, k);
                assert(id_at(entries, id, k));
                assert(after[k].id@ == entries[k].id@);
                assert(id_at(after, id, k));
            }
        }
    }
    assert forall|id: Seq<char>| entries_map(after).contains_key(id) implies entries_map(after)[id]
        == expected[id] by {
        let k = choose|k: int| id_at(after, id, k);
        assert(id_at(after, id, k));
        lemma_lookup(after, k);
        if k != i {
            assert(after[k] == entries[k]);
            lemma_lookup(entries, k);
        }
    }
    assert(entries_map(after) =~= expected);
}

proof fn lemma_remove(entries: Seq<Entry>, i: int)
    requires
        distinct_ids(entries),
        0 <= i < entries.len(),
    ensures
        distinct_ids(entries.remove(i)),
        entries_map(entries.remove(i)) == entries_map(entries).remove(entries[i].id@),
{
    let after = entries.remove(i);
    assert forall|a: int| 0 <= a < after.len() implies #[trigger] after[a] == entries[if a < i {
        a
    } else {
        a + 1
    }] by {}
    assert forall|a: int, b: int|
        0 <= a < after.len() && 0 <= b < after.len() && a != b implies after[a].id@
        != after[b].id@ by {
        let a0 = if a < i { a } else { a + 1 };
        let b0 = if b < i { b } else { b + 1 };
        assert(after[a] == entries[a0] && after[b] == entries[b0]);
    }
    let expected = entries_map(entries).remove(entries[i].id@);
    assert forall|id: Seq<char>| entries_map(after).contains_key(id) <==> expected.contains_key(
        id,
    ) by {
        if entries_map(after).contains_key(id) {
            let k = choose|k: int| id_at(after, id, k);
            assert(id_at(after, id, k));
            let k0 = if k < i { k } else { k + 1 };
            assert(after[k] == entries[k0]);
            assert(id_at(entries, id, k0));
        }
        if expected.contains_key(id) {
            let k = choose|k: int| id_at(entries, id, k);
            assert(id_at(entries, id, k));
            assert(k != i);
            let k1 = if k < i { k } else { k - 1 };
            assert(after[k1] == entries[k]);
            assert(id_at(after, id, k1));
        }
    }
    assert forall|id: Seq<char>| entries_map(after).contains_key(id) implies entries_map(after)[id]
        == expected[id] by {
        let k = choose|k: int| id_at(after, id, k);
        assert(id_at(after, id, k));
        lemma_lookup(after, k);
        let k0 = if k < i { k } else { k + 1 };
        assert(after[k] == entries[k0]);
        lemma_lookup(entries, k0);
    }
    assert(entries_map(after) =~= expected);
}

/// What an attempt on the buzz lock of the session named `id` by the team at
/// `index` reports.
pub open spec fn acquire_outcome_in(
    sessions: Map<Seq<char>, SessionView>,
    id: Seq<char>,
    index: int,
) -> Result<BuzzOutcome, NotFound> {
    if sessions.contains_key(id) {
        sessions[id].acquire_outcome(index)
    } else {
        Err(NotFound)
    }
}

/// `sessions` after the team at `index` of the session named `id` tried to
/// take the buzz lock.
pub open spec fn after_acquire_in(
    sessions: Map<Seq<char>, SessionView>,
    id: Seq<char>,
    index: int,
) -> Map<Seq<char>, SessionView> {
    if sessions.contains_key(id) {
        sessions.insert(id, sessions[id].after_acquire(index))
    } else {
        sessions
    }
}

/// `sessions` after the buzz lock of the session named `id` was released.
pub open spec fn after_release_in(
    sessions: Map<Seq<char>, SessionView>,
    id: Seq<char>,
) -> Map<Seq<char>, SessionView> {
    if sessions.contains_key(id) {
        sessions.insert(id, sessions[id].after_release())
    } else {
        sessions
    }
}

/// `sessions` after the team at `index` of the session named `id` was
/// replaced by `team`.
pub open spec fn after_set_team_in(
    sessions: Map<Seq<char>, SessionView>,
    id: Seq<char>,
    index: int,
    team: TeamView,
) -> Map<Seq<char>, SessionView> {
    if sessions.contains_key(id) {
        sessions.insert(id, sessions[id].after_set_team(index, team))
    } else {
        sessions
    }
}

/// What is left of `sessions` once every session that has expired at `now`
/// under a time-to-live of `ttl_seconds` seconds is removed.
pub open spec fn without_expired(
    sessions: Map<Seq<char>, SessionView>,
    now: Timestamp,
    ttl_seconds: u64,
) -> Map<Seq<char>, SessionView> {
    Map::new(
        |id: Seq<char>|
            sessions.contains_key(id) && !sessions[id].created_at.expired_at(now, ttl_seconds),
        |id: Seq<char>| sessions[id],
    )
}

impl View for SessionRegistry {
    type V = Map<Seq<char>, SessionView>;

    closed spec fn view(&self) -> Map<Seq<char>, SessionView> {
        entries_map(self.entries@)
    }
}

impl SessionRegistry {
    /// The registry is well formed: no identifier names two sessions, and
    /// every session has its full roster.
    pub closed spec fn wf(&self) -> bool {
        distinct_ids(self.entries@) && rosters_full(self.entries@)
    }

    /// An empty registry.
    pub fn new() -> (registry: SessionRegistry)
        ensures
            registry.wf(),
            registry@ == Map::<Seq<char>, SessionView>::empty(),
    {
        let registry = SessionRegistry { entries: Vec::new() };
        assert(registry@ =~= Map::<Seq<char>, SessionView>::empty()) by {
            assert forall|id: Seq<char>| !registry@.contains_key(id) by {
                assert forall|i: int| !id_at(registry.entries@, id, i) by {}
            }
        }
        registry
    }

    /// Every session of a well-formed registry has its full roster.
    pub proof fn lemma_rosters_full(&self, id: Seq<char>)
        requires
            self.wf(),
            self@.contains_key(id),
        ensures
            self@[id].wf(),
    {
        let k = choose|k: int| id_at(self.entries@, id, k);
        assert(id_at(self.entries@, id, k));
        lemma_lookup(self.entries@, k);
    }

    /// The position of the session named `id`, if there is one.
    fn find(&self, id: &str) -> (found: Option<usize>)
        requires
            self.wf(),
        ensures
            match found {
                Some(i) => {
                    &&& id_at(self.entries@, id@, i as int)
                    &&& self@.contains_key(id@)
                    &&& self@[id@] == self.entries@[i as int].session@
                },
                None => !self@.contains_key(id@) && forall|i: int| !id_at(self.entries@, id@, i),
            },
    {
        let wanted = id.to_owned();
        let mut i: usize = 0;
        while i < self.entries.len()
            invariant
                i <= self.entries@.len(),
                self.wf(),
                wanted@ == id@,
                forall|k: int| 0 <= k < i ==> !id_at(self.entries@, id@, k),
            decreases self.entries@.len() - i,
        {
            if self.entries[i].id == wanted {
                proof {
                    lemma_lookup(self.entries@, i as int);
                }
                return Some(i);
            }
            i += 1;
        }
        proof {
            lemma_absent(self.entries@, id@);
        }
        None
    }

    /// Whether a session named `id` is live.
    pub fn contains(&self, id: &str) -> (present: bool)
        requires
            self.wf(),
        ensures
            present == self@.contains_key(id@),
    {
        self.find(id).is_some()
    }

    /// Puts `session` under `id`. A session that was there under the same
    /// identifier is replaced.
    pub fn insert(&mut self, id: String, session: Session)
        requires
            old(self).wf(),
            session@.wf(),
        ensures
            final(self).wf(),
            final(self)@ == old(self)@.insert(id@, session@),
    {
        match self.find(id.as_str()) {
            Some(i) => {
                self.entries[i].session = session;
                proof {
                    lemma_update(old(self).entries@, i as int, self.entries@[i as int]);
                    assert(self.entries@ =~= old(self).entries@.update(
                        i as int,
                        self.entries@[i as int],
                    ));
                }
            },
            None => {
                let entry = Entry { id, session };
                proof {
                    lemma_push(self.entries@, entry);
                }
                self.entries.push(entry);
            },
        }
    }

    /// Starts a session created at `now` under the identifier `id`.
    pub fn create_with(&mut self, id: String, now: Timestamp)
        requires
            old(self).wf(),
        ensures
            final(self).wf(),
            final(self)@ == old(self)@.insert(id@, SessionView::fresh(now)),
    {
        self.insert(id, Session::new(now));
    }

    /// A copy of the roster of the session named `id`.
    pub fn get_teams(&self, id: &str) -> (roster: Result<Vec<Team>, NotFound>)
        requires
            self.wf(),
        ensures
            roster is Ok <==> self@.contains_key(id@),
            roster is Ok ==> {
                &&& roster->Ok_0@.len() == self@[id@].teams.len()
                &&& forall|i: int|
                    0 <= i < roster->Ok_0@.len() ==> roster->Ok_0@[i]@ == self@[id@].teams[i]
            },
    {
        match self.find(id) {
            Some(i) => Ok(self.entries[i].session.teams_snapshot()),
            None => Err(NotFound),
        }
    }

    /// Replaces the team at `team_index` of the session named `id` and
    /// returns a copy of the team now stored there. `NotFound` without the
    /// session or without the team; nothing changes then.
    pub fn set_team(&mut self, id: &str, team_index: usize, team: Team) -> (stored: Result<
        Team,
        NotFound,
    >)
        requires
            old(self).wf(),
        ensures
            final(self).wf(),
            stored is Ok <==> old(self)@.contains_key(id@) && old(self)@[id@].valid_index(
                team_index as int,
            ),
            stored is Ok ==> stored->Ok_0@ == team@,
            final(self)@ == after_set_team_in(old(self)@, id@, team_index as int, team@),
    {
        match self.find(id) {
            Some(i) => {
                let stored = self.entries[i].session.set_team(team_index, team);
                proof {
                    lemma_update(old(self).entries@, i as int, self.entries@[i as int]);
                    assert(self.entries@ =~= old(self).entries@.update(
                        i as int,
                        self.entries@[i as int],
                    ));
                }
                stored
            },
            None => {
                Err(NotFound)
            },
        }
    }

    /// The team at `team_index` of the session named `id` tries to take the
    /// buzz lock. `NotFound` without the session; else as the session
    /// decides.
    pub fn acquire_buzz(&mut self, id: &str, team_index: usize) -> (outcome: Result<
        BuzzOutcome,
        NotFound,
    >)
        requires
            old(self).wf(),
        ensures
            final(self).wf(),
            outcome == acquire_outcome_in(old(self)@, id@, team_index as int),
            final(self)@ == after_acquire_in(old(self)@, id@, team_index as int),
    {
        match self.find(id) {
            Some(i) => {
                let outcome = self.entries[i].session.acquire_buzz(team_index);
                proof {
                    lemma_update(old(self).entries@, i as int, self.entries@[i as int]);
                    assert(self.entries@ =~= old(self).entries@.update(
                        i as int,
                        self.entries@[i as int],
                    ));
                }
                outcome
            },
            None => {
                Err(NotFound)
            },
        }
    }

    /// Releases the buzz lock of the session named `id`, whoever holds it.
    /// `NotFound` without the session.
    pub fn release_buzz(&mut self, id: &str) -> (done: Result<(), NotFound>)
        requires
            old(self).wf(),
        ensures
            final(self).wf(),
            done is Ok <==> old(self)@.contains_key(id@),
            final(self)@ == after_release_in(old(self)@, id@),
    {
        match self.find(id) {
            Some(i) => {
                self.entries[i].session.release_buzz();
                proof {
                    lemma_update(old(self).entries@, i as int, self.entries@[i as int]);
                    assert(self.entries@ =~= old(self).entries@.update(
                        i as int,
                        self.entries@[i as int],
                    ));
                }
                Ok(())
            },
            None => {
                Err(NotFound)
            },
        }
    }

    /// Hands the session named `id` to `operation`, which has it to itself
    /// and gives back the session to keep and a value; the value is
    /// returned. `NotFound` without the session: `operation` is not called
    /// then, and nothing changes.
    ///
    /// `operation` has to accept every session with a full roster, and to
    /// give back a session with a full roster.
    pub fn with_session<T, F: FnOnce(Session) -> (Session, T)>(
        &mut self,
        id: &str,
        operation: F,
    ) -> (outcome: Result<T, NotFound>)
        requires
            old(self).wf(),
            forall|session: Session| session@.wf() ==> operation.requires((session,)),
            forall|session: Session, output: (Session, T)|
                session@.wf() && operation.ensures((session,), output) ==> output.0@.wf(),
        ensures
            final(self).wf(),
            outcome is Ok <==> old(self)@.contains_key(id@),
            !old(self)@.contains_key(id@) ==> final(self)@ == old(self)@,
            old(self)@.contains_key(id@) ==> exists|session: Session, output: (Session, T)|
                {
                    &&& session@ == old(self)@[id@]
                    &&& #[trigger] operation.ensures((session,), output)
                    &&& final(self)@ == old(self)@.insert(id@, output.0@)
                    &&& outcome == Ok::<T, NotFound>(output.1)
                },
    {
        match self.find(id) {
            Some(i) => {
                proof {
                    lemma_remove(self.entries@, i as int);
                }
                let taken = self.entries.remove(i);
                let ghost before = taken.session;
                let output = operation(taken.session);
                let ghost witness = output;
                let entry = Entry { id: taken.id, session: output.0 };
                proof {
                    assert forall|k: int| !id_at(self.entries@, entry.id@, k) by {
                        lemma_absent_converse(self.entries@, entry.id@);
                    }
                    lemma_push(self.entries@, entry);
                    assert(old(self)@.remove(id@).insert(id@, entry.session@) =~= old(self)@.insert(
                        id@,
                        witness.0@,
                    ));
                }
                self.entries.push(entry);
                assert(operation.ensures((before,), witness));
                Ok(output.1)
            },
            None => Err(NotFound),
        }
    }

    /// Removes the session named `id` and says whether there was one.
    pub fn remove(&mut self, id: &str) -> (removed: bool)
        requires
            old(self).wf(),
        ensures
            final(self).wf(),
            removed == old(self)@.contains_key(id@),
            final(self)@ == old(self)@.remove(id@),
    {
        match self.find(id) {
            Some(i) => {
                proof {
                    lemma_remove(self.entries@, i as int);
                }
                self.entries.remove(i);
                true
            },
            None => {
                assert(self@ =~= self@.remove(id@));
                false
            },
        }
    }

    /// Removes every session that has expired at `now` under a time-to-live
    /// of `ttl_seconds` seconds: every session whose age is at least the
    /// time-to-live. The others stay as they are.
    pub fn sweep_expired(&mut self, now: Timestamp, ttl_seconds: u64)
        requires
            old(self).wf(),
        ensures
            final(self).wf(),
            final(self)@ == without_expired(old(self)@, now, ttl_seconds),
    {
        let mut i: usize = 0;
        while i < self.entries.len()
            invariant
                i <= self.entries@.len(),
                self.wf(),
                without_expired(self@, now, ttl_seconds) == without_expired(
                    old(self)@,
                    now,
                    ttl_seconds,
                ),
                forall|k: int|
                    0 <= k < i ==> !(#[trigger] self.entries@[k]).session.created_at.expired_at(
                        now,
                        ttl_seconds,
                    ),
            decreases self.entries@.len() - i,
        {
            if self.entries[i].session.created_at.is_expired(now, ttl_seconds) {
                proof {
                    lemma_remove(self.entries@, i as int);
                    lemma_lookup(self.entries@, i as int);
                    assert(without_expired(self@.remove(self.entries@[i as int].id@), now, ttl_seconds)
                        =~= without_expired(self@, now, ttl_seconds));
                }
                self.entries.remove(i);
            } else {
                i += 1;
            }
        }
        proof {
            assert forall|id: Seq<char>| self@.contains_key(id) implies !self@[id].created_at.expired_at(
                now,
                ttl_seconds,
            ) by {
                let k = choose|k: int| id_at(self.entries@, id, k);
                assert(id_at(self.entries@, id, k));
                lemma_lookup(self.entries@, k);
            }
            assert(self@ =~= without_expired(self@, now, ttl_seconds));
        }
    }
}

} // verus!
