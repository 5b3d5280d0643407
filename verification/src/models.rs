//! The data of a quiz: questions, teams, sessions, and the instants at which
//! sessions are created.

use vstd::prelude::*;

verus! {

/// Number of teams in every session.
pub const TEAM_COUNT: usize = 3;

/// Nanoseconds in one second.
pub const NANOS_PER_SECOND: i128 = 1_000_000_000;

/// A question of the quiz.
#[derive(Debug, PartialEq, Eq)]
pub struct Question {
    /// Unique identifier of the question.
    pub id: String,
    /// The text of the question.
    pub question_text: String,
    /// The answer to the question.
    pub answer_text: String,
    /// Where the answer is found.
    pub reference_text: String,
    /// Whether the answer has been revealed.
    pub revealed: bool,
}

/// A team taking part in a session.
#[derive(Debug, PartialEq, Eq)]
pub struct Team {
    /// Display name.
    pub team_name: String,
    /// Current score; changed by explicit update only.
    pub score: i32,
    /// Whether this team holds the buzz lock.
    pub buzz_lock_owned: bool,
}

/// What a [`Team`] is, as a mathematical value.
pub struct TeamView {
    pub team_name: Seq<char>,
    pub score: int,
    pub buzz_lock_owned: bool,
}

impl TeamView {
    /// The same team with its buzz ownership set to `owned`.
    pub open spec fn with_ownership(self, owned: bool) -> TeamView {
        TeamView { team_name: self.team_name, score: self.score, buzz_lock_owned: owned }
    }
}

impl View for Team {
    type V = TeamView;

    open spec fn view(&self) -> TeamView {
        TeamView {
            team_name: self.team_name@,
            score: self.score as int,
            buzz_lock_owned: self.buzz_lock_owned,
        }
    }
}

impl Clone for Team {
    fn clone(&self) -> (copy: Team)
        ensures
            copy@ == self@,
    {
        Team {
            team_name: self.team_name.clone(),
            score: self.score,
            buzz_lock_owned: self.buzz_lock_owned,
        }
    }
}

/// An instant: whole seconds since the Unix epoch and the nanoseconds since
/// the last second boundary.
#[derive(Clone, Copy, Debug, PartialEq, Eq, Structural)]
pub struct Timestamp {
    pub seconds: i64,
    pub nanos: u32,
}

impl Timestamp {
    /// Nanoseconds since the Unix epoch.
    pub open spec fn total_nanos(self) -> int {
        self.seconds * 1_000_000_000 + self.nanos
    }

    /// Whether something created at `self` has, at `now`, reached the age of
    /// `ttl_seconds` seconds.
    pub open spec fn expired_at(self, now: Timestamp, ttl_seconds: u64) -> bool {
        now.total_nanos() - self.total_nanos() >= ttl_seconds * 1_000_000_000
    }

    /// Nanoseconds since the Unix epoch.
    pub fn as_nanos(&self) -> (n: i128)
        ensures
            n == self.total_nanos(),
    {
        (self.seconds as i128) * NANOS_PER_SECOND + (self.nanos as i128)
    }

    /// Decides whether something created at `self` has expired at `now`
    /// under a time-to-live of `ttl_seconds` seconds: whether its age is at
    /// least the time-to-live.
    pub fn is_expired(&self, now: Timestamp, ttl_seconds: u64) -> (expired: bool)
        ensures
            expired == self.expired_at(now, ttl_seconds),
    {
        let age: i128 = now.as_nanos() - self.as_nanos();
        let limit: i128 = (ttl_seconds as i128) * NANOS_PER_SECOND;
        age >= limit
    }
}

/// One quiz game in progress.
#[derive(Debug, PartialEq, Eq)]
pub struct Session {
    /// The roster, fixed at three teams for the session's lifetime.
    pub teams: Vec<Team>,
    /// Whether the buzz lock is held.
    pub buzz_lock: bool,
    /// When the session was created; never changed.
    pub created_at: Timestamp,
}

/// What a [`Session`] is, as a mathematical value.
pub struct SessionView {
    pub teams: Seq<TeamView>,
    pub buzz_lock: bool,
    pub created_at: Timestamp,
}

impl View for Session {
    type V = SessionView;

    open spec fn view(&self) -> SessionView {
        SessionView {
            teams: Seq::new(self.teams@.len(), |i: int| self.teams@[i]@),
            buzz_lock: self.buzz_lock,
            created_at: self.created_at,
        }
    }
}

} // verus!
