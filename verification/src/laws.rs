//! What holds of sessions and of the registry whatever is done to them.

use vstd::prelude::*;
use crate::models::{SessionView, TeamView, Timestamp};
use crate::registry::{
    acquire_outcome_in, after_acquire_in, after_release_in, after_set_team_in, without_expired,
};
use crate::session::{BuzzOutcome, LockState, NotFound};

verus! {

/// Every session of `sessions` has its full roster and a consistent lock.
pub open spec fn all_consistent(sessions: Map<Seq<char>, SessionView>) -> bool {
    forall|id: Seq<char>|
        sessions.contains_key(id) ==> (#[trigger] sessions[id]).wf()
            && sessions[id].lock_consistent()
}

/// A session that was just created has three teams, each with score 0 and
/// without the lock; its lock is released; and any team of the roster that
/// buzzes is granted the lock.
pub proof fn lemma_fresh_session(created_at: Timestamp, index: int)
    ensures
        SessionView::fresh(created_at).wf(),
        SessionView::fresh(created_at).teams.len() == 3,
        forall|i: int|
            0 <= i < 3 ==> (#[trigger] SessionView::fresh(created_at).teams[i]).score == 0
                && !SessionView::fresh(created_at).teams[i].buzz_lock_owned,
        SessionView::fresh(created_at).lock_consistent(),
        SessionView::fresh(created_at).lock_state() == LockState::Released,
        0 <= index < 3 ==> SessionView::fresh(created_at).acquire_outcome(index) == Ok::<
            BuzzOutcome,
            NotFound,
        >(BuzzOutcome::Granted),
{
}

/// While the lock is consistent, the lock is in the state `Locked(index)`
/// exactly when the team at `index` owns it, and in the state `Released`
/// exactly when no team does.
pub proof fn lemma_lock_state(session: SessionView, index: int)
    requires
        session.lock_consistent(),
    ensures
        session.lock_state() == LockState::Locked(index) <==> session.owns(index),
        session.lock_state() == LockState::Released <==> forall|i: int| !session.owns(i),
{
    if session.buzz_lock {
        let owner = choose|i: int| session.owns(i);
        assert(session.owns(owner));
    }
}

/// An attempt on the lock keeps the roster full and the lock consistent,
/// whatever its outcome.
pub proof fn lemma_acquire_keeps_consistent(session: SessionView, index: int)
    requires
        session.wf(),
        session.lock_consistent(),
    ensures
        session.after_acquire(index).wf(),
        session.after_acquire(index).lock_consistent(),
        session.acquire_outcome(index) == Ok::<BuzzOutcome, NotFound>(BuzzOutcome::Granted)
            ==> session.after_acquire(index).lock_state() == LockState::Locked(index),
        session.acquire_outcome(index) != Ok::<BuzzOutcome, NotFound>(BuzzOutcome::Granted)
            ==> session.after_acquire(index) == session,
{
    let after = session.after_acquire(index);
    if !session.buzz_lock && session.valid_index(index) {
        assert(after.owns(index));
        assert forall|i: int, j: int| after.owns(i) && after.owns(j) implies i == j by {
            if i != index {
                assert(session.owns(i));
            }
            if j != index {
                assert(session.owns(j));
            }
        }
        lemma_lock_state(after, index);
    }
}

/// A release keeps the roster full and leaves the lock consistent and
/// released, with no team owning it, whatever the session was before.
pub proof fn lemma_release_makes_consistent(session: SessionView)
    requires
        session.wf(),
    ensures
        session.after_release().wf(),
        session.after_release().lock_consistent(),
        session.after_release().lock_state() == LockState::Released,
        forall|i: int| !session.after_release().owns(i),
{
}

/// Replacing a team keeps the roster full. It keeps the lock consistent
/// where the new team's buzz ownership is that of the team it replaces.
pub proof fn lemma_set_team_keeps_consistent(session: SessionView, index: int, team: TeamView)
    requires
        session.wf(),
        session.lock_consistent(),
        session.valid_index(index) ==> team.buzz_lock_owned
            == session.teams[index].buzz_lock_owned,
    ensures
        session.after_set_team(index, team).wf(),
        session.after_set_team(index, team).lock_consistent(),
{
    let after = session.after_set_team(index, team);
    if session.valid_index(index) {
        assert forall|i: int| after.owns(i) == session.owns(i) by {}
        if session.buzz_lock {
            let owner = choose|i: int| session.owns(i);
            assert(session.owns(owner));
            assert(after.owns(owner));
        }
        assert forall|i: int, j: int| after.owns(i) && after.owns(j) implies i == j by {
            assert(session.owns(i) && session.owns(j));
        }
    }
}

/// A registry all of whose sessions are consistent stays so when a session
/// is started, when a team buzzes, when a lock is released, when a session
/// is closed and when expired sessions are swept.
pub proof fn lemma_registry_keeps_consistent(
    sessions: Map<Seq<char>, SessionView>,
    id: Seq<char>,
    index: int,
    now: Timestamp,
    ttl_seconds: u64,
)
    requires
        all_consistent(sessions),
    ensures
        all_consistent(sessions.insert(id, SessionView::fresh(now))),
        all_consistent(after_acquire_in(sessions, id, index)),
        all_consistent(after_release_in(sessions, id)),
        all_consistent(sessions.remove(id)),
        all_consistent(without_expired(sessions, now, ttl_seconds)),
{
    lemma_fresh_session(now, 0);
    if sessions.contains_key(id) {
        lemma_acquire_keeps_consistent(sessions[id], index);
        lemma_release_makes_consistent(sessions[id]);
    }
}

/// A registry all of whose sessions are consistent stays so when a team is
/// replaced by one with the same buzz ownership.
pub proof fn lemma_registry_set_team_keeps_consistent(
    sessions: Map<Seq<char>, SessionView>,
    id: Seq<char>,
    index: int,
    team: TeamView,
)
    requires
        all_consistent(sessions),
        sessions.contains_key(id) && sessions[id].valid_index(index) ==> team.buzz_lock_owned
            == sessions[id].teams[index].buzz_lock_owned,
    ensures
        all_consistent(after_set_team_in(sessions, id, index, team)),
{
    if sessions.contains_key(id) {
        lemma_set_team_keeps_consistent(sessions[id], index, team);
    }
}

/// First buzz wins. Of two attempts on one session, made one after the
/// other in either order, at most one is granted. Where the lock is free and
/// both teams are of the roster, the first is granted and the second is
/// refused as contended.
pub proof fn lemma_first_buzz_wins(session: SessionView, first: int, second: int)
    ensures
        !(session.acquire_outcome(first) == Ok::<BuzzOutcome, NotFound>(BuzzOutcome::Granted)
            && session.after_acquire(first).acquire_outcome(second) == Ok::<
            BuzzOutcome,
            NotFound,
        >(BuzzOutcome::Granted)),
        !session.buzz_lock && session.valid_index(first) && session.valid_index(second) ==> {
            &&& session.acquire_outcome(first) == Ok::<BuzzOutcome, NotFound>(
                BuzzOutcome::Granted,
            )
            &&& session.after_acquire(first).acquire_outcome(second) == Ok::<
                BuzzOutcome,
                NotFound,
            >(BuzzOutcome::Contended)
            &&& session.acquire_outcome(second) == Ok::<BuzzOutcome, NotFound>(
                BuzzOutcome::Granted,
            )
            &&& session.after_acquire(second).acquire_outcome(first) == Ok::<
                BuzzOutcome,
                NotFound,
            >(BuzzOutcome::Contended)
        },
{
}

/// First buzz wins in the registry: of two attempts on the session named
/// `id`, made one after the other through the registry, at most one is
/// granted; where the session is live, its lock free and both teams of its
/// roster, the first is granted and the second refused as contended.
pub proof fn lemma_first_buzz_wins_in(
    sessions: Map<Seq<char>, SessionView>,
    id: Seq<char>,
    first: int,
    second: int,
)
    ensures
        !(acquire_outcome_in(sessions, id, first) == Ok::<BuzzOutcome, NotFound>(
            BuzzOutcome::Granted,
        ) && acquire_outcome_in(after_acquire_in(sessions, id, first), id, second) == Ok::<
            BuzzOutcome,
            NotFound,
        >(BuzzOutcome::Granted)),
        sessions.contains_key(id) && !sessions[id].buzz_lock && sessions[id].valid_index(first)
            && sessions[id].valid_index(second) ==> {
            &&& acquire_outcome_in(sessions, id, first) == Ok::<BuzzOutcome, NotFound>(
                BuzzOutcome::Granted,
            )
            &&& acquire_outcome_in(after_acquire_in(sessions, id, first), id, second) == Ok::<
                BuzzOutcome,
                NotFound,
            >(BuzzOutcome::Contended)
        },
{
    if sessions.contains_key(id) {
        lemma_first_buzz_wins(sessions[id], first, second);
    }
}

/// Releasing twice is the same as releasing once: the second release finds
/// the session still there and changes nothing, and no team owns the lock.
pub proof fn lemma_release_idempotent(sessions: Map<Seq<char>, SessionView>, id: Seq<char>)
    requires
        sessions.contains_key(id),
    ensures
        after_release_in(sessions, id).contains_key(id),
        after_release_in(after_release_in(sessions, id), id) == after_release_in(sessions, id),
        forall|i: int| !after_release_in(sessions, id)[id].owns(i),
{
    let once = sessions[id].after_release();
    assert(once.after_release().teams =~= once.teams);
    assert(after_release_in(after_release_in(sessions, id), id) =~= after_release_in(
        sessions,
        id,
    ));
}

/// Sessions do not touch each other. Two attempts on the locks of two
/// different sessions report the same and leave the same registry in
/// either order, and so do a release in one session and an attempt in
/// another.
pub proof fn lemma_sessions_independent(
    sessions: Map<Seq<char>, SessionView>,
    one: Seq<char>,
    other: Seq<char>,
    i: int,
    j: int,
)
    requires
        one != other,
    ensures
        acquire_outcome_in(after_acquire_in(sessions, one, i), other, j) == acquire_outcome_in(
            sessions,
            other,
            j,
        ),
        after_acquire_in(after_acquire_in(sessions, one, i), other, j) == after_acquire_in(
            after_acquire_in(sessions, other, j),
            one,
            i,
        ),
        acquire_outcome_in(after_release_in(sessions, one), other, j) == acquire_outcome_in(
            sessions,
            other,
            j,
        ),
        after_acquire_in(after_release_in(sessions, one), other, j) == after_release_in(
            after_acquire_in(sessions, other, j),
            one,
        ),
{
    assert(after_acquire_in(after_acquire_in(sessions, one, i), other, j) =~= after_acquire_in(
        after_acquire_in(sessions, other, j),
        one,
        i,
    ));
    assert(after_acquire_in(after_release_in(sessions, one), other, j) =~= after_release_in(
        after_acquire_in(sessions, other, j),
        one,
    ));
}

/// A session created at some instant is gone after a sweep at any instant
/// from its creation plus the time-to-live on, and is still there,
/// unchanged, after a sweep at any earlier instant.
pub proof fn lemma_expiry(
    sessions: Map<Seq<char>, SessionView>,
    id: Seq<char>,
    now: Timestamp,
    ttl_seconds: u64,
)
    requires
        sessions.contains_key(id),
    ensures
        now.total_nanos() >= sessions[id].created_at.total_nanos() + ttl_seconds * 1_000_000_000
            ==> !without_expired(sessions, now, ttl_seconds).contains_key(id),
        now.total_nanos() < sessions[id].created_at.total_nanos() + ttl_seconds * 1_000_000_000
            ==> without_expired(sessions, now, ttl_seconds).contains_key(id) && without_expired(
            sessions,
            now,
            ttl_seconds,
        )[id] == sessions[id],
{
}

} // verus!
