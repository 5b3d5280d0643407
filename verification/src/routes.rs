//! The operations that the request layer offers, each with the status and
//! the body of its reply.

use vstd::prelude::*;
use crate::clock::current_time;
use crate::ids::{fresh_session_id, is_hyphenated_id};
use crate::models::{SessionView, Team, Timestamp};
use crate::registry::{
    after_acquire_in, after_release_in, after_set_team_in, SessionRegistry,
};
use crate::session::{BuzzOutcome, NotFound};

verus! {

/// Status of a reply to a request that was carried out.
pub const STATUS_OK: u16 = 200;

/// Status of a reply to a request for a session or a team that is not there.
pub const STATUS_NOT_FOUND: u16 = 404;

/// Starts a new session under a new random identifier and returns the
/// identifier. The session has three default teams and is created now.
///
/// Should the identifier name a live session already, that session is
/// replaced by the new one.
pub fn start_session(registry: &mut SessionRegistry) -> (session_id: String)
    requires
        old(registry).wf(),
    ensures
        final(registry).wf(),
        is_hyphenated_id(session_id@),
        exists|now: Timestamp|
            final(registry)@ == old(registry)@.insert(
                session_id@,
                #[trigger] SessionView::fresh(now),
            ),
{
    let session_id = fresh_session_id();
    let now = current_time();
    registry.create_with(session_id.clone(), now);
    assert(registry@ == old(registry)@.insert(session_id@, SessionView::fresh(now)));
    session_id
}

/// Looks for the session named `session_id`: replies with the identifier
/// where it is live, with nothing where it is not.
pub fn get_session_id(registry: &SessionRegistry, session_id: String) -> (reply: (
    u16,
    Option<String>,
))
    requires
        registry.wf(),
    ensures
        registry@.contains_key(session_id@) ==> reply.0 == STATUS_OK && reply.1 is Some
            && reply.1->Some_0@ == session_id@,
        !registry@.contains_key(session_id@) ==> reply.0 == STATUS_NOT_FOUND && reply.1 is None,
{
    if registry.contains(session_id.as_str()) {
        (STATUS_OK, Some(session_id))
    } else {
        (STATUS_NOT_FOUND, None)
    }
}

/// Replies with a copy of the roster of the session named `session_id`.
pub fn get_session_team_info(registry: &SessionRegistry, session_id: &str) -> (reply: (
    u16,
    Option<Vec<Team>>,
))
    requires
        registry.wf(),
    ensures
        registry@.contains_key(session_id@) ==> {
            &&& reply.0 == STATUS_OK
            &&& reply.1 is Some
            &&& reply.1->Some_0@.len() == registry@[session_id@].teams.len()
            &&& forall|i: int|
                0 <= i < reply.1->Some_0@.len() ==> reply.1->Some_0@[i]@
                    == registry@[session_id@].teams[i]
        },
        !registry@.contains_key(session_id@) ==> reply.0 == STATUS_NOT_FOUND && reply.1 is None,
{
    match registry.get_teams(session_id) {
        Ok(roster) => (STATUS_OK, Some(roster)),
        Err(NotFound) => (STATUS_NOT_FOUND, None),
    }
}

/// Replaces the team at `team_index` of the session named `session_id` by
/// `updated_team`, buzz ownership included, and replies with the team now
/// stored. Without the session, or without the team, nothing changes.
pub fn modify_session_team_info(
    registry: &mut SessionRegistry,
    session_id: &str,
    team_index: usize,
    updated_team: Team,
) -> (reply: (u16, Option<Team>))
    requires
        old(registry).wf(),
    ensures
        final(registry).wf(),
        final(registry)@ == after_set_team_in(
            old(registry)@,
            session_id@,
            team_index as int,
            updated_team@,
        ),
        old(registry)@.contains_key(session_id@) && old(registry)@[session_id@].valid_index(
            team_index as int,
        ) ==> {
            &&& reply.0 == STATUS_OK
            &&& reply.1 is Some
            &&& reply.1->Some_0@ == updated_team@
        },
        !(old(registry)@.contains_key(session_id@) && old(registry)@[session_id@].valid_index(
            team_index as int,
        )) ==> {
            &&& reply.0 == STATUS_NOT_FOUND
            &&& reply.1 is None
            &&& final(registry)@ == old(registry)@
        },
{
    match registry.set_team(session_id, team_index, updated_team) {
        Ok(stored) => (STATUS_OK, Some(stored)),
        Err(NotFound) => {
            assert(registry@ =~= old(registry)@);
            (STATUS_NOT_FOUND, None)
        },
    }
}

/// Closes the session named `session_id`: removes it, and replies whether
/// there was one.
pub fn close_session(registry: &mut SessionRegistry, session_id: &str) -> (reply: (u16, bool))
    requires
        old(registry).wf(),
    ensures
        final(registry).wf(),
        final(registry)@ == old(registry)@.remove(session_id@),
        reply.1 == old(registry)@.contains_key(session_id@),
        reply.0 == if reply.1 {
            STATUS_OK
        } else {
            STATUS_NOT_FOUND
        },
{
    if registry.remove(session_id) {
        (STATUS_OK, true)
    } else {
        (STATUS_NOT_FOUND, false)
    }
}

/// Releases the buzz lock of the session named `session_id`, whoever holds
/// it, and replies with a message.
pub fn release_buzz_lock(registry: &mut SessionRegistry, session_id: &str) -> (reply: (
    u16,
    &'static str,
))
    requires
        old(registry).wf(),
    ensures
        final(registry).wf(),
        final(registry)@ == after_release_in(old(registry)@, session_id@),
        old(registry)@.contains_key(session_id@) ==> reply.0 == STATUS_OK && reply.1@
            == "Buzz lock released"@,
        !old(registry)@.contains_key(session_id@) ==> reply.0 == STATUS_NOT_FOUND && reply.1@
            == "Session not found"@,
{
    match registry.release_buzz(session_id) {
        Ok(()) => (STATUS_OK, "Buzz lock released"),
        Err(NotFound) => (STATUS_NOT_FOUND, "Session not found"),
    }
}

/// The reply to an attempt on the buzz lock: whether the session was there,
/// and what the session decided.
pub open spec fn buzz_reply(present: bool, outcome: Result<BuzzOutcome, NotFound>) -> (
    u16,
    Seq<char>,
) {
    if !present {
        (STATUS_NOT_FOUND, "Session not found"@)
    } else {
        match outcome {
            Ok(BuzzOutcome::Granted) => (STATUS_OK, "Success"@),
            Ok(BuzzOutcome::Contended) => (STATUS_OK, "Fail"@),
            Err(NotFound) => (STATUS_NOT_FOUND, "Team not found"@),
        }
    }
}

/// The team at `team_index` of the session named `session_id` buzzes: it
/// gets the lock where the lock is free, and is refused where it is held.
/// Replies with a message that tells the four outcomes apart: granted,
/// refused, no such team, no such session.
pub fn set_buzz_lock_owned(registry: &mut SessionRegistry, session_id: &str, team_index: usize) -> (reply: (
    u16,
    &'static str,
))
    requires
        old(registry).wf(),
    ensures
        final(registry).wf(),
        (reply.0, reply.1@) == buzz_reply(
            old(registry)@.contains_key(session_id@),
            old(registry)@[session_id@].acquire_outcome(team_index as int),
        ),
        final(registry)@ == after_acquire_in(old(registry)@, session_id@, team_index as int),
{
    if !registry.contains(session_id) {
        return (STATUS_NOT_FOUND, "Session not found");
    }
    match registry.acquire_buzz(session_id, team_index) {
        Ok(BuzzOutcome::Granted) => (STATUS_OK, "Success"),
        Ok(BuzzOutcome::Contended) => (STATUS_OK, "Fail"),
        Err(NotFound) => (STATUS_NOT_FOUND, "Team not found"),
    }
}

} // verus!
