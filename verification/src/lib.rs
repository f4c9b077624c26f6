//! A verified session directory and matchmaking engine.
//!
//! The library keeps a directory of multiplayer sessions in two aligned
//! stores: a durable index of aggregate matchability data and an ephemeral
//! payload store holding each session's connection address and roster.
//! Placement picks the open session whose average skill rating is closest
//! to the requester's; joining appends a player, recomputes the aggregate,
//! and tears the session down once it fills. Every operation is gated by a
//! role-scoped bearer token.

use vstd::prelude::*;

pub mod api;
pub mod auth;
pub mod engine;
pub mod models;
pub mod rating;
pub mod select;

verus! {

/// A session can hold at most this many players; reaching the cap tears it down.
pub const MAX_PLAYERS: usize = 6;

} // verus!
