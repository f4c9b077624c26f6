//! Tests of the session directory: creation, joining, aggregates, teardown
//! and removal.

use matchdir::engine::Engine;
use matchdir::models::{EngineError, JoinOutcome, RemoveOutcome};
use matchdir::MAX_PLAYERS;

#[test]
fn insert_creates_a_pristine_session() {
    let mut e = Engine::new();
    assert_eq!(e.insert_session(7, "192.168.0.9:7777".to_string()), Ok(()));
    assert_eq!(e.session_count(), 1);
    let row = e.index_row_of(7).unwrap();
    assert_eq!(row.session_id, 7);
    assert_eq!(row.skill_sum, 0);
    assert_eq!(row.player_count, 0);
    assert_eq!(row.rank_tier, None);
    assert!(row.is_empty);
    assert_eq!(e.server_address_of(7).unwrap(), "192.168.0.9:7777");
    assert_eq!(e.roster_of(7).unwrap().len(), 0);
}

#[test]
fn duplicate_identifier_rejected() {
    let mut e = Engine::new();
    assert_eq!(e.insert_session(7, "a:1".to_string()), Ok(()));
    assert_eq!(e.insert_session(7, "b:2".to_string()), Err(EngineError::DuplicateSession));
    assert_eq!(e.server_address_of(7).unwrap(), "a:1");
}

#[test]
fn created_sessions_get_distinct_identifiers() {
    let mut e = Engine::new();
    let first = e.create_session("a:1".to_string()).unwrap();
    let second = e.create_session("b:2".to_string()).unwrap();
    assert_ne!(first, second);
    assert_eq!(e.session_count(), 2);
}

#[test]
fn join_flips_empty_flag_exactly_when_roster_fills() {
    let mut e = Engine::new();
    e.insert_session(1, "a:1".to_string()).unwrap();
    assert!(e.index_row_of(1).unwrap().is_empty);
    assert_eq!(e.roster_of(1).unwrap().len(), 0);
    let r = e.join(1, "player-a".to_string(), &vec![20], 3);
    assert_eq!(r, Ok(JoinOutcome::Joined));
    let row = e.index_row_of(1).unwrap();
    assert!(!row.is_empty);
    assert_eq!(e.roster_of(1).unwrap().len(), 1);
}

#[test]
fn join_recomputes_the_average_exactly() {
    // A session holding one player rated 20, joined by one rated 40, must
    // record an average of exactly 30: a sum of 60 over 2 occupants.
    let mut e = Engine::new();
    e.insert_session(1, "a:1".to_string()).unwrap();
    assert_eq!(e.join(1, "player-a".to_string(), &vec![20], 3), Ok(JoinOutcome::Joined));
    let row = e.index_row_of(1).unwrap();
    assert_eq!(row.skill_sum, 20);
    assert_eq!(row.player_count, 1);
    assert_eq!(e.join(1, "player-b".to_string(), &vec![20, 40], 4), Ok(JoinOutcome::Joined));
    let row = e.index_row_of(1).unwrap();
    assert_eq!(row.skill_sum, 60);
    assert_eq!(row.player_count, 2);
    assert_eq!(row.skill_sum / (row.player_count as u128), 30);
    assert_eq!(row.rank_tier, Some(4));
}

#[test]
fn join_on_unknown_session_fails() {
    let mut e = Engine::new();
    assert_eq!(
        e.join(99, "player-a".to_string(), &vec![20], 3),
        Err(EngineError::SessionNotFound)
    );
}

#[test]
fn two_joins_keep_both_players() {
    let mut e = Engine::new();
    e.insert_session(1, "a:1".to_string()).unwrap();
    e.join(1, "player-a".to_string(), &vec![10], 1).unwrap();
    e.join(1, "player-b".to_string(), &vec![10, 20], 2).unwrap();
    let roster = e.roster_of(1).unwrap();
    assert_eq!(roster.len(), 2);
    assert!(roster.iter().any(|p| p == "player-a"));
    assert!(roster.iter().any(|p| p == "player-b"));
    assert_eq!(roster, vec!["player-a".to_string(), "player-b".to_string()]);
}

#[test]
fn filling_a_session_tears_it_down() {
    let mut e = Engine::new();
    e.insert_session(1, "a:1".to_string()).unwrap();
    let mut ratings: Vec<u64> = Vec::new();
    for n in 0..MAX_PLAYERS {
        ratings.push(100 + n as u64);
        let r = e.join(1, format!("player-{}", n), &ratings, 1).unwrap();
        if n + 1 == MAX_PLAYERS {
            assert_eq!(r, JoinOutcome::SessionFull);
        } else {
            assert_eq!(r, JoinOutcome::Joined);
        }
    }
    // The filled session is gone from both stores and can never be placed.
    assert!(e.roster_of(1).is_none());
    assert!(e.index_row_of(1).is_none());
    assert_eq!(e.session_count(), 0);
    assert!(matches!(e.place(100), Err(EngineError::NoSessionAvailable)));
}

#[test]
fn filled_session_never_placed_while_others_remain() {
    let mut e = Engine::new();
    e.insert_session(1, "full:1".to_string()).unwrap();
    e.insert_session(2, "other:2".to_string()).unwrap();
    e.join(2, "resident".to_string(), &vec![100], 1).unwrap();
    let mut ratings: Vec<u64> = Vec::new();
    for n in 0..MAX_PLAYERS {
        ratings.push(100);
        e.join(1, format!("player-{}", n), &ratings, 1).unwrap();
    }
    // Placement must offer the surviving session, not the torn-down one.
    let resp = e.place(100).unwrap();
    assert_eq!(resp.session_id, 2);
    assert_eq!(resp.server_address, "other:2");
}

#[test]
fn placement_prefers_closest_open_session() {
    let mut e = Engine::new();
    e.insert_session(1, "low:1".to_string()).unwrap();
    e.insert_session(2, "mid:2".to_string()).unwrap();
    e.insert_session(3, "high:3".to_string()).unwrap();
    e.join(1, "a".to_string(), &vec![10], 1).unwrap();
    e.join(2, "b".to_string(), &vec![50], 1).unwrap();
    e.join(3, "c".to_string(), &vec![90], 1).unwrap();
    let resp = e.place(48).unwrap();
    assert_eq!(resp.session_id, 2);
    assert_eq!(resp.server_address, "mid:2");
}

#[test]
fn placement_falls_back_to_an_empty_session() {
    let mut e = Engine::new();
    e.insert_session(9, "empty:9".to_string()).unwrap();
    let resp = e.place(12345).unwrap();
    assert_eq!(resp.session_id, 9);
    assert_eq!(resp.server_address, "empty:9");
}

#[test]
fn removing_a_session_deletes_both_stores() {
    let mut e = Engine::new();
    e.insert_session(1, "a:1".to_string()).unwrap();
    assert_eq!(e.delete_session(1), RemoveOutcome::Removed);
    assert!(e.index_row_of(1).is_none());
    assert!(e.roster_of(1).is_none());
    assert_eq!(e.session_count(), 0);
}

#[test]
fn removing_a_nonexistent_session_is_harmless() {
    let mut e = Engine::new();
    e.insert_session(1, "a:1".to_string()).unwrap();
    assert_eq!(e.delete_session(42), RemoveOutcome::NotPresent);
    // The directory is untouched.
    assert_eq!(e.session_count(), 1);
    assert_eq!(e.server_address_of(1).unwrap(), "a:1");
    // And removing from an empty directory is just as harmless.
    let mut empty = Engine::new();
    assert_eq!(empty.delete_session(42), RemoveOutcome::NotPresent);
    assert_eq!(empty.session_count(), 0);
}
