use buzzer_sessions::models::{Question, Session, Team, Timestamp};
use buzzer_sessions::session::{BuzzOutcome, NotFound};

fn named(name: &str, score: i32, owned: bool) -> Team {
    Team { team_name: name.to_string(), score, buzz_lock_owned: owned }
}

#[test]
fn new_session_fields() {
    let created = Timestamp { seconds: 42, nanos: 7 };
    let session = Session::new(created);
    assert_eq!(session.teams.len(), 3);
    assert!(!session.buzz_lock);
    assert_eq!(session.created_at, created);
    assert_eq!(session.teams[0], named("Team 1", 0, false));
    assert_eq!(session.teams[1], named("Team 2", 0, false));
    assert_eq!(session.teams[2], named("Team 3", 0, false));
}

#[test]
fn session_acquire_sets_both_flags() {
    let mut session = Session::new(Timestamp { seconds: 0, nanos: 0 });
    assert_eq!(session.acquire_buzz(1), Ok(BuzzOutcome::Granted));
    assert!(session.buzz_lock);
    assert!(!session.teams[0].buzz_lock_owned);
    assert!(session.teams[1].buzz_lock_owned);
    assert!(!session.teams[2].buzz_lock_owned);
}

#[test]
fn session_acquire_refused_while_locked() {
    let mut session = Session::new(Timestamp { seconds: 0, nanos: 0 });
    assert_eq!(session.acquire_buzz(1), Ok(BuzzOutcome::Granted));
    assert_eq!(session.acquire_buzz(1), Ok(BuzzOutcome::Contended));
    assert_eq!(session.acquire_buzz(0), Ok(BuzzOutcome::Contended));
    assert!(!session.teams[0].buzz_lock_owned);
    assert!(session.teams[1].buzz_lock_owned);
}

#[test]
fn session_acquire_invalid_index() {
    let mut session = Session::new(Timestamp { seconds: 0, nanos: 0 });
    assert_eq!(session.acquire_buzz(3), Err(NotFound));
    assert_eq!(session.acquire_buzz(usize::MAX), Err(NotFound));
    assert!(!session.buzz_lock);
}

#[test]
fn session_release_clears_everything() {
    let mut session = Session::new(Timestamp { seconds: 0, nanos: 0 });
    assert_eq!(session.set_team(0, named("A", 3, true)), Ok(named("A", 3, true)));
    assert_eq!(session.set_team(2, named("C", 5, true)), Ok(named("C", 5, true)));
    session.release_buzz();
    assert!(!session.buzz_lock);
    assert_eq!(session.teams[0], named("A", 3, false));
    assert_eq!(session.teams[1], named("Team 2", 0, false));
    assert_eq!(session.teams[2], named("C", 5, false));
    session.release_buzz();
    assert!(!session.buzz_lock);
    assert_eq!(session.teams[0], named("A", 3, false));
}

#[test]
fn session_set_team_out_of_range() {
    let mut session = Session::new(Timestamp { seconds: 0, nanos: 0 });
    assert_eq!(session.set_team(3, named("A", 3, false)), Err(NotFound));
    assert_eq!(session.teams.len(), 3);
    assert_eq!(session.teams[2], named("Team 3", 0, false));
}

#[test]
fn snapshot_is_a_copy() {
    let mut session = Session::new(Timestamp { seconds: 0, nanos: 0 });
    let before = session.teams_snapshot();
    assert_eq!(session.acquire_buzz(0), Ok(BuzzOutcome::Granted));
    assert!(!before[0].buzz_lock_owned);
    assert!(session.teams_snapshot()[0].buzz_lock_owned);
    assert_eq!(before.len(), 3);
}

#[test]
fn team_clone_keeps_every_field() {
    let team = named("Lions", -12, true);
    let copy = team.clone();
    assert_eq!(copy, team);
    assert_eq!(copy.team_name, "Lions");
    assert_eq!(copy.score, -12);
    assert!(copy.buzz_lock_owned);
}

#[test]
fn question_holds_its_fields() {
    let question = Question {
        id: "q1".to_string(),
        question_text: "Who?".to_string(),
        answer_text: "They".to_string(),
        reference_text: "Page 1".to_string(),
        revealed: false,
    };
    assert_eq!(question.id, "q1");
    assert_eq!(question.question_text, "Who?");
    assert_eq!(question.answer_text, "They");
    assert_eq!(question.reference_text, "Page 1");
    assert!(!question.revealed);
}

#[test]
fn timestamp_as_nanos_exact() {
    assert_eq!(Timestamp { seconds: 0, nanos: 0 }.as_nanos(), 0);
    assert_eq!(Timestamp { seconds: 3, nanos: 5 }.as_nanos(), 3_000_000_005);
    assert_eq!(Timestamp { seconds: -1, nanos: 999_999_999 }.as_nanos(), -1);
    assert_eq!(
        Timestamp { seconds: i64::MAX, nanos: u32::MAX }.as_nanos(),
        9_223_372_036_854_775_807i128 * 1_000_000_000 + 4_294_967_295
    );
    assert_eq!(
        Timestamp { seconds: i64::MIN, nanos: 0 }.as_nanos(),
        -9_223_372_036_854_775_808i128 * 1_000_000_000
    );
}

#[test]
fn timestamp_expiry_boundary() {
    let created = Timestamp { seconds: 100, nanos: 500 };
    assert!(!created.is_expired(Timestamp { seconds: 3700, nanos: 499 }, 3600));
    assert!(created.is_expired(Timestamp { seconds: 3700, nanos: 500 }, 3600));
    assert!(created.is_expired(Timestamp { seconds: 3700, nanos: 501 }, 3600));
    assert!(!created.is_expired(Timestamp { seconds: 50, nanos: 0 }, 3600));
    assert!(created.is_expired(created, 0));
    assert!(!created.is_expired(created, 1));
}

#[test]
fn timestamp_expiry_at_the_limits_of_the_range() {
    let earliest = Timestamp { seconds: i64::MIN, nanos: 0 };
    let latest = Timestamp { seconds: i64::MAX, nanos: u32::MAX };
    assert!(!latest.is_expired(earliest, 0));
    assert!(earliest.is_expired(latest, 3600));
    assert!(earliest.is_expired(latest, u64::MAX));
    assert!(earliest.is_expired(Timestamp { seconds: i64::MAX, nanos: 0 }, u64::MAX));
    let just_short = Timestamp { seconds: i64::MAX - 1, nanos: 999_999_999 };
    assert!(!earliest.is_expired(just_short, u64::MAX));
}
