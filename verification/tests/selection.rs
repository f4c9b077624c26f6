//! Tests of the placement-selection policy.

use matchdir::models::{EngineError, SessionIndex};
use matchdir::select::select_session;

fn open_row(session_id: u128, skill_sum: u128, player_count: usize) -> SessionIndex {
    SessionIndex { session_id, skill_sum, player_count, rank_tier: Some(1), is_empty: false }
}

fn empty_row(session_id: u128) -> SessionIndex {
    SessionIndex { session_id, skill_sum: 0, player_count: 0, rank_tier: None, is_empty: true }
}

#[test]
fn closest_average_wins() {
    // Averages 10, 50 and 90; a requester rated 48 is closest to 50.
    let rows = vec![open_row(101, 10, 1), open_row(102, 50, 1), open_row(103, 90, 1)];
    assert_eq!(select_session(&rows, 48), Ok(102));
}

#[test]
fn closest_average_wins_regardless_of_order() {
    let rows = vec![open_row(103, 90, 1), open_row(101, 10, 1), open_row(102, 50, 1)];
    assert_eq!(select_session(&rows, 48), Ok(102));
}

#[test]
fn tie_broken_by_first_encountered() {
    // Both rows are at distance 10 from the requester; the earlier one wins.
    let rows = vec![open_row(201, 40, 1), open_row(202, 60, 1)];
    assert_eq!(select_session(&rows, 50), Ok(201));
    let rows = vec![open_row(202, 60, 1), open_row(201, 40, 1)];
    assert_eq!(select_session(&rows, 50), Ok(202));
}

#[test]
fn fractional_averages_compared_exactly() {
    // Average 30 (sum 60 over 2 players) against average 50 (one player):
    // a requester rated 45 is 15 away from the first and 5 from the second.
    let rows = vec![open_row(301, 60, 2), open_row(302, 50, 1)];
    assert_eq!(select_session(&rows, 45), Ok(302));
    // A requester rated 35 is 5 away from the first and 15 from the second.
    assert_eq!(select_session(&rows, 35), Ok(301));
}

#[test]
fn empty_row_selected_when_nothing_is_open() {
    // With no open row, the empty row is chosen whatever the rating.
    let rows = vec![empty_row(401)];
    assert_eq!(select_session(&rows, 0), Ok(401));
    assert_eq!(select_session(&rows, 10_000), Ok(401));
}

#[test]
fn open_rows_preferred_over_empty_ones() {
    let rows = vec![empty_row(501), open_row(502, 999, 1)];
    assert_eq!(select_session(&rows, 0), Ok(502));
}

#[test]
fn first_empty_row_selected_among_several() {
    let rows = vec![empty_row(601), empty_row(602)];
    assert_eq!(select_session(&rows, 77), Ok(601));
}

#[test]
fn no_rows_means_no_session_available() {
    let rows: Vec<SessionIndex> = Vec::new();
    assert_eq!(select_session(&rows, 48), Err(EngineError::NoSessionAvailable));
}
