//! Data carried between the engine and its callers.

use vstd::prelude::*;

verus! {

/// The ephemeral payload of one session: its connection endpoint and the
/// ordered roster of player identifiers that have joined so far.
pub struct Session {
    /// Network endpoint of the authoritative game server, fixed at creation.
    pub server_address: String,
    /// Player identifiers in join order, append-only until teardown.
    pub players: Vec<String>,
}

impl Session {
    /// The roster as a sequence of character sequences, for contracts.
    pub open spec fn roster(self) -> Seq<Seq<char>> {
        self.players@.map_values(|p: String| p@)
    }
}

/// The durable index row kept for one session: the aggregate matchability
/// data that placement scans. The average skill rating of the occupants is
/// carried exactly, as the pair of `skill_sum` and `player_count`, so that
/// distance comparisons need no rounding.
#[derive(Clone, Copy, Debug)]
pub struct SessionIndex {
    pub session_id: u128,
    /// Sum of the occupants' skill ratings as of the last join.
    pub skill_sum: u128,
    /// Number of occupants as of the last join; the average rating is
    /// `skill_sum / player_count` once the session is occupied.
    pub player_count: usize,
    /// Rank tier of the most recent joining player, unset until the first join.
    pub rank_tier: Option<u128>,
    /// True until the first player joins.
    pub is_empty: bool,
}

impl SessionIndex {
    /// Well-formedness of one row: occupancy within capacity, the sum small
    /// enough to be a sum of that many ratings, and the empty flag agreeing
    /// with the occupancy count.
    pub open spec fn wf(self) -> bool {
        &&& self.player_count <= crate::MAX_PLAYERS
        &&& (self.skill_sum as int) <= (self.player_count as int) * (u64::MAX as int)
        &&& self.is_empty == (self.player_count == 0)
    }
}

/// What a successful placement hands back to the caller.
pub struct SessionResponse {
    pub session_id: u128,
    pub server_address: String,
}

/// Body of an account-registration request; accounts are managed by a
/// collaborator service, so the engine only carries this data through.
pub struct NewUser {
    pub username: String,
    pub email: String,
    pub password: String,
    pub role_name: String,
}

/// Body of a login request, likewise handled by the account collaborator.
pub struct LoginUser {
    pub username: String,
    pub password: String,
}

/// Domain-level failures of the directory operations.
#[derive(Clone, Copy, Debug, PartialEq, Eq, Structural)]
pub enum EngineError {
    /// Placement found no session at all to offer.
    NoSessionAvailable,
    /// The named session does not exist in the directory.
    SessionNotFound,
    /// A session with the same identifier already exists.
    DuplicateSession,
}

/// Failures of the token-gated operations: an authorization failure or a
/// domain-level failure of the underlying directory operation.
#[derive(Clone, Copy, Debug, PartialEq, Eq, Structural)]
pub enum ApiError {
    /// The bearer token was missing or could not be verified.
    Unauthorized,
    /// The token was valid but carried the wrong role for the operation.
    Forbidden,
    NoSessionAvailable,
    SessionNotFound,
    DuplicateSession,
}

/// How a successful join left the session.
#[derive(Clone, Copy, Debug, PartialEq, Eq, Structural)]
pub enum JoinOutcome {
    /// The player was appended and the session remains open.
    Joined,
    /// The player was appended, the session reached capacity, and it was
    /// torn down from both stores.
    SessionFull,
}

/// What a removal found.
#[derive(Clone, Copy, Debug, PartialEq, Eq, Structural)]
pub enum RemoveOutcome {
    Removed,
    /// Nothing to remove: deleting an absent session is not an engine fault.
    NotPresent,
}

} // verus!
