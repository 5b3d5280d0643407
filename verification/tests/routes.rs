use buzzer_sessions::models::{Team, Timestamp};
use buzzer_sessions::registry::SessionRegistry;
use buzzer_sessions::routes::{STATUS_NOT_FOUND, STATUS_OK};
use buzzer_sessions::utils::{SESSION_TTL_SECONDS, SWEEP_INTERVAL_SECONDS};
use buzzer_sessions::{
    cleanup_sessions, close_session, get_session_id, get_session_team_info,
    modify_session_team_info, release_buzz_lock, set_buzz_lock_owned, start_session,
};

fn plain(name: &str, score: i32, owned: bool) -> Team {
    Team { team_name: name.to_string(), score, buzz_lock_owned: owned }
}

#[test]
fn status_values() {
    assert_eq!(STATUS_OK, 200);
    assert_eq!(STATUS_NOT_FOUND, 404);
    assert_eq!(SESSION_TTL_SECONDS, 3600);
    assert_eq!(SWEEP_INTERVAL_SECONDS, 600);
}

#[test]
fn start_session_returns_a_hyphenated_identifier() {
    let mut registry = SessionRegistry::new();
    let id = start_session(&mut registry);
    assert_eq!(id.len(), 36);
    for (i, c) in id.chars().enumerate() {
        if i == 8 || i == 13 || i == 18 || i == 23 {
            assert_eq!(c, '-');
        } else {
            assert!(c.is_ascii_digit() || ('a'..='f').contains(&c));
        }
    }
}

#[test]
fn start_session_inserts_a_default_session() {
    let mut registry = SessionRegistry::new();
    let id = start_session(&mut registry);
    assert!(registry.contains(&id));
    let reply = get_session_team_info(&registry, &id);
    assert_eq!(reply.0, 200);
    assert_eq!(
        reply.1,
        Some(vec![plain("Team 1", 0, false), plain("Team 2", 0, false), plain("Team 3", 0, false)])
    );
    for index in 0..3usize {
        let mut other = SessionRegistry::new();
        let other_id = start_session(&mut other);
        assert_eq!(set_buzz_lock_owned(&mut other, &other_id, index), (200, "Success"));
    }
}

#[test]
fn start_session_gives_distinct_identifiers() {
    let mut registry = SessionRegistry::new();
    let first = start_session(&mut registry);
    let second = start_session(&mut registry);
    assert_ne!(first, second);
    assert!(registry.contains(&first));
    assert!(registry.contains(&second));
}

#[test]
fn get_session_id_replies() {
    let mut registry = SessionRegistry::new();
    let id = start_session(&mut registry);
    assert_eq!(get_session_id(&registry, id.clone()), (200, Some(id)));
    assert_eq!(get_session_id(&registry, "missing-id".to_string()), (404, None));
}

#[test]
fn get_session_team_info_missing() {
    let registry = SessionRegistry::new();
    assert_eq!(get_session_team_info(&registry, "missing-id"), (404, None));
}

#[test]
fn modify_session_team_info_replies() {
    let mut registry = SessionRegistry::new();
    registry.create_with("S1".to_string(), Timestamp { seconds: 1, nanos: 0 });
    assert_eq!(
        modify_session_team_info(&mut registry, "missing-id", 0, plain("A", 1, false)),
        (404, None)
    );
    assert_eq!(
        modify_session_team_info(&mut registry, "S1", 99, plain("A", 1, false)),
        (404, None)
    );
    assert_eq!(
        modify_session_team_info(&mut registry, "S1", 1, plain("A", 1, false)),
        (200, Some(plain("A", 1, false)))
    );
    assert_eq!(
        get_session_team_info(&registry, "S1"),
        (200, Some(vec![plain("Team 1", 0, false), plain("A", 1, false), plain("Team 3", 0, false)]))
    );
}

#[test]
fn buzz_replies_scenario() {
    let mut registry = SessionRegistry::new();
    registry.create_with("S1".to_string(), Timestamp { seconds: 1, nanos: 0 });
    assert_eq!(set_buzz_lock_owned(&mut registry, "S1", 1), (200, "Success"));
    assert_eq!(set_buzz_lock_owned(&mut registry, "S1", 2), (200, "Fail"));
    assert_eq!(release_buzz_lock(&mut registry, "S1"), (200, "Buzz lock released"));
    assert_eq!(set_buzz_lock_owned(&mut registry, "S1", 2), (200, "Success"));
    assert_eq!(release_buzz_lock(&mut registry, "S1"), (200, "Buzz lock released"));
    assert_eq!(release_buzz_lock(&mut registry, "S1"), (200, "Buzz lock released"));
    assert_eq!(set_buzz_lock_owned(&mut registry, "S1", 3), (404, "Team not found"));
    assert_eq!(set_buzz_lock_owned(&mut registry, "nope", 0), (404, "Session not found"));
    assert_eq!(release_buzz_lock(&mut registry, "nope"), (404, "Session not found"));
}

#[test]
fn close_session_replies() {
    let mut registry = SessionRegistry::new();
    registry.create_with("S1".to_string(), Timestamp { seconds: 1, nanos: 0 });
    assert_eq!(close_session(&mut registry, "S1"), (200, true));
    assert_eq!(get_session_team_info(&registry, "S1"), (404, None));
    assert_eq!(close_session(&mut registry, "S1"), (404, false));
}

#[test]
fn cleanup_removes_old_sessions_and_keeps_new_ones() {
    let mut registry = SessionRegistry::new();
    registry.create_with("ancient".to_string(), Timestamp { seconds: 0, nanos: 0 });
    let id = start_session(&mut registry);
    cleanup_sessions(&mut registry);
    assert!(!registry.contains("ancient"));
    assert!(registry.contains(&id));
}

#[test]
fn cleanup_keeps_sessions_from_the_future() {
    let mut registry = SessionRegistry::new();
    registry.create_with("far".to_string(), Timestamp { seconds: i64::MAX, nanos: 0 });
    cleanup_sessions(&mut registry);
    assert!(registry.contains("far"));
}
