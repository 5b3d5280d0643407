//! The buzz lock of one session and the operations on its roster.

use vstd::prelude::*;
use crate::models::{Session, SessionView, Team, TeamView, Timestamp, TEAM_COUNT};

verus! {

/// The one failure: the session or the team that was asked for does not exist.
#[derive(Clone, Copy, Debug, PartialEq, Eq, Structural)]
pub struct NotFound;

/// How an attempt to take the buzz lock ended, where it was made at all.
#[derive(Clone, Copy, Debug, PartialEq, Eq, Structural)]
pub enum BuzzOutcome {
    /// The lock was free and now belongs to the team that asked.
    Granted,
    /// The lock was already held; nothing changed.
    Contended,
}

/// The state of a session's buzz lock.
pub enum LockState {
    /// No team holds the lock.
    Released,
    /// The team at this index holds the lock.
    Locked(int),
}

impl SessionView {
    /// The team called `name` with no points and no buzz ownership.
    pub open spec fn default_team(name: Seq<char>) -> TeamView {
        TeamView { team_name: name, score: 0, buzz_lock_owned: false }
    }

    /// A session as it is right after creation.
    pub open spec fn fresh(created_at: Timestamp) -> SessionView {
        SessionView {
            teams: seq![
                Self::default_team("Team 1"@),
                Self::default_team("Team 2"@),
                Self::default_team("Team 3"@),
            ],
            buzz_lock: false,
            created_at,
        }
    }

    /// Whether `index` names a team of the roster.
    pub open spec fn valid_index(self, index: int) -> bool {
        0 <= index < self.teams.len()
    }

    /// Whether the team at `index` holds the lock.
    pub open spec fn owns(self, index: int) -> bool {
        self.valid_index(index) && self.teams[index].buzz_lock_owned
    }

    /// The roster has exactly three teams.
    pub open spec fn wf(self) -> bool {
        self.teams.len() == TEAM_COUNT
    }

    /// The session's flag and the teams' flags agree: at most one team owns
    /// the lock, and one does exactly when the session's lock is held.
    pub open spec fn lock_consistent(self) -> bool {
        &&& self.buzz_lock <==> exists|i: int| self.owns(i)
        &&& forall|i: int, j: int| self.owns(i) && self.owns(j) ==> i == j
    }

    /// The state of the lock, read from the session's flag and the owner.
    pub open spec fn lock_state(self) -> LockState {
        if self.buzz_lock {
            LockState::Locked(choose|i: int| self.owns(i))
        } else {
            LockState::Released
        }
    }

    /// What an attempt by the team at `index` to take the lock reports.
    pub open spec fn acquire_outcome(self, index: int) -> Result<BuzzOutcome, NotFound> {
        if self.buzz_lock {
            Ok(BuzzOutcome::Contended)
        } else if self.valid_index(index) {
            Ok(BuzzOutcome::Granted)
        } else {
            Err(NotFound)
        }
    }

    /// The session after an attempt by the team at `index` to take the lock.
    pub open spec fn after_acquire(self, index: int) -> SessionView {
        if !self.buzz_lock && self.valid_index(index) {
            SessionView {
                teams: self.teams.update(index, self.teams[index].with_ownership(true)),
                buzz_lock: true,
                created_at: self.created_at,
            }
        } else {
            self
        }
    }

    /// The session after the lock was released.
    pub open spec fn after_release(self) -> SessionView {
        SessionView {
            teams: Seq::new(self.teams.len(), |i: int| self.teams[i].with_ownership(false)),
            buzz_lock: false,
            created_at: self.created_at,
        }
    }

    /// The session after the team at `index` was replaced by `team`.
    pub open spec fn after_set_team(self, index: int, team: TeamView) -> SessionView {
        if self.valid_index(index) {
            SessionView {
                teams: self.teams.update(index, team),
                buzz_lock: self.buzz_lock,
                created_at: self.created_at,
            }
        } else {
            self
        }
    }
}

impl Session {
    /// A new session created at `created_at`: three default teams, no points,
    /// the lock released.
    pub fn new(created_at: Timestamp) -> (session: Session)
        ensures
            session@ == SessionView::fresh(created_at),
    {
        let mut teams: Vec<Team> = Vec::new();
        teams.push(Team { team_name: "Team 1".to_owned(), score: 0, buzz_lock_owned: false });
        teams.push(Team { team_name: "Team 2".to_owned(), score: 0, buzz_lock_owned: false });
        teams.push(Team { team_name: "Team 3".to_owned(), score: 0, buzz_lock_owned: false });
        let session = Session { teams, buzz_lock: false, created_at };
        assert(session@.teams =~= SessionView::fresh(created_at).teams);
        session
    }

    /// A copy of the roster as it is now.
    pub fn teams_snapshot(&self) -> (roster: Vec<Team>)
        ensures
            roster@.len() == self@.teams.len(),
            forall|i: int| 0 <= i < roster@.len() ==> roster@[i]@ == self@.teams[i],
    {
        let mut roster: Vec<Team> = Vec::new();
        let mut i: usize = 0;
        while i < self.teams.len()
            invariant
                i <= self.teams@.len(),
                roster@.len() == i,
                forall|k: int| 0 <= k < i ==> roster@[k]@ == self.teams@[k]@,
            decreases self.teams@.len() - i,
        {
            roster.push(self.teams[i].clone());
            i += 1;
        }
        roster
    }

    /// The team at `team_index` tries to take the buzz lock.
    ///
    /// While the lock is held, by whichever team, the attempt is refused with
    /// `Contended` and nothing changes. While it is free, a team of the
    /// roster gets it (`Granted`): the session's flag and that team's flag
    /// are set. An index outside the roster is `NotFound`.
    pub fn acquire_buzz(&mut self, team_index: usize) -> (outcome: Result<BuzzOutcome, NotFound>)
        ensures
            outcome == old(self)@.acquire_outcome(team_index as int),
            final(self)@ == old(self)@.after_acquire(team_index as int),
    {
        if self.buzz_lock {
            return Ok(BuzzOutcome::Contended);
        }
        if team_index < self.teams.len() {
            self.teams[team_index].buzz_lock_owned = true;
            self.buzz_lock = true;
            assert(self@.teams =~= old(self)@.after_acquire(team_index as int).teams);
            Ok(BuzzOutcome::Granted)
        } else {
            Err(NotFound)
        }
    }

    /// Releases the buzz lock, whoever holds it: the session's flag and every
    /// team's flag are cleared.
    pub fn release_buzz(&mut self)
        ensures
            final(self)@ == old(self)@.after_release(),
    {
        self.buzz_lock = false;
        let mut i: usize = 0;
        while i < self.teams.len()
            invariant
                i <= self.teams@.len(),
                self.teams@.len() == old(self).teams@.len(),
                self.buzz_lock == false,
                self.created_at == old(self).created_at,
                forall|k: int| 0 <= k < i ==> self.teams@[k]@ == old(self).teams@[k]@.with_ownership(false),
                forall|k: int| i <= k < self.teams@.len() ==> self.teams@[k] == old(self).teams@[k],
            decreases self.teams@.len() - i,
        {
            self.teams[i].buzz_lock_owned = false;
            i += 1;
        }
        assert(self@.teams =~= old(self)@.after_release().teams);
    }

    /// Replaces the team at `team_index` by `team`, name, score and buzz
    /// ownership alike, and returns a copy of the team now stored there. An
    /// index outside the roster is `NotFound`, and nothing changes.
    pub fn set_team(&mut self, team_index: usize, team: Team) -> (stored: Result<Team, NotFound>)
        ensures
            stored is Ok <==> old(self)@.valid_index(team_index as int),
            stored is Ok ==> stored->Ok_0@ == team@,
            final(self)@ == old(self)@.after_set_team(team_index as int, team@),
    {
        if team_index < self.teams.len() {
            let copy = team.clone();
            self.teams[team_index] = team;
            assert(self@.teams =~= old(self)@.after_set_team(team_index as int, team@).teams);
            Ok(copy)
        } else {
            Err(NotFound)
        }
    }
}

} // verus!
