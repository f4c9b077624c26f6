//! The token-gated operations: each pairs the authorization gate with one
//! directory operation, exactly as the service's request handlers do.
//! Session creation and removal demand the `server` role; placement and
//! joining demand the `client` role.
//!
//! Authorization depends on the token authority (signature and clock),
//! so these contracts pin the result for an absent token, guarantee that
//! every authorization failure leaves the directory untouched, and carry
//! the full contract of the underlying operation on success.

use vstd::prelude::*;

use crate::MAX_PLAYERS;
use crate::auth::{verify_token, AuthDecision, RequiredRole};
use crate::engine::{same_except, Engine};
use crate::models::{ApiError, JoinOutcome, RemoveOutcome, SessionIndex, SessionResponse};
use crate::rating::sum_of;
use crate::select::spec_selects;

verus! {

impl Engine {
    /// Gated session creation: with a `server`-role token, creates a session
    /// under a fresh identifier and returns it.
    pub fn register_session(
        &mut self,
        token: Option<&str>,
        secret: &[u8],
        server_address: String,
    ) -> (r: Result<u128, ApiError>)
        requires
            old(self).wf(),
        ensures
            final(self).wf(),
            token is None ==> r == Err::<u128, ApiError>(ApiError::Unauthorized),
            match r {
                Ok(sid) => {
                    &&& !old(self).has(sid)
                    &&& final(self).has(sid)
                    &&& final(self).roster(sid) =~= Seq::<Seq<char>>::empty()
                    &&& final(self).addr(sid) == server_address@
                    &&& final(self).row(sid) == (SessionIndex {
                        session_id: sid,
                        skill_sum: 0,
                        player_count: 0,
                        rank_tier: None,
                        is_empty: true,
                    })
                    &&& same_except(*old(self), *final(self), sid)
                },
                Err(e) => {
                    &&& *final(self) == *old(self)
                    &&& (e == ApiError::Unauthorized || e == ApiError::Forbidden || e
                        == ApiError::DuplicateSession)
                },
            },
    {
        match verify_token(token, secret, RequiredRole::Server) {
            AuthDecision::Unauthenticated => Err(ApiError::Unauthorized),
            AuthDecision::Forbidden => Err(ApiError::Forbidden),
            AuthDecision::Authorized => match self.create_session(server_address) {
                Ok(sid) => Ok(sid),
                Err(_) => Err(ApiError::DuplicateSession),
            },
        }
    }

    /// Gated placement: with a `client`-role token, selects the open session
    /// whose average rating is closest to the requester's (an empty one if
    /// none is open) and returns its identifier and address.
    pub fn request_session(&self, token: Option<&str>, secret: &[u8], rating: u64) -> (r: Result<
        SessionResponse,
        ApiError,
    >)
        requires
            self.wf(),
        ensures
            token is None ==> r == Err::<SessionResponse, ApiError>(ApiError::Unauthorized),
            match r {
                Ok(resp) => {
                    &&& spec_selects(self.rows(), rating as int, resp.session_id)
                    &&& self.has(resp.session_id)
                    &&& resp.server_address@ == self.addr(resp.session_id)
                    &&& self.roster(resp.session_id).len() < MAX_PLAYERS
                },
                Err(e) => {
                    &&& (e == ApiError::Unauthorized || e == ApiError::Forbidden || e
                        == ApiError::NoSessionAvailable)
                    &&& (e == ApiError::NoSessionAvailable ==> self.rows().len() == 0)
                },
            },
    {
        match verify_token(token, secret, RequiredRole::Client) {
            AuthDecision::Unauthenticated => Err(ApiError::Unauthorized),
            AuthDecision::Forbidden => Err(ApiError::Forbidden),
            AuthDecision::Authorized => match self.place(rating) {
                Ok(resp) => Ok(resp),
                Err(_) => Err(ApiError::NoSessionAvailable),
            },
        }
    }

    /// Gated join: with a `client`-role token, appends the player to the
    /// session and recomputes its aggregates, tearing the session down if
    /// the append fills it. As for [`Engine::join`], `ratings` must carry
    /// one current rating per post-append occupant unless the append fills
    /// the session, in which case they are not consulted.
    pub fn connect_to_session(
        &mut self,
        token: Option<&str>,
        secret: &[u8],
        sid: u128,
        player: String,
        ratings: &Vec<u64>,
        rank_tier: u128,
    ) -> (r: Result<JoinOutcome, ApiError>)
        requires
            old(self).wf(),
            old(self).has(sid) && old(self).roster(sid).len() + 1 < MAX_PLAYERS
                ==> ratings@.len() == old(self).roster(sid).len() + 1,
        ensures
            final(self).wf(),
            token is None ==> r == Err::<JoinOutcome, ApiError>(ApiError::Unauthorized),
            match r {
                Ok(o) => {
                    &&& old(self).has(sid)
                    &&& same_except(*old(self), *final(self), sid)
                    &&& (o == JoinOutcome::SessionFull <==> old(self).roster(sid).len() + 1
                        == MAX_PLAYERS)
                    &&& (o == JoinOutcome::SessionFull ==> !final(self).has(sid))
                    &&& (o == JoinOutcome::Joined ==> {
                        &&& final(self).has(sid)
                        &&& final(self).roster(sid) =~= old(self).roster(sid).push(player@)
                        &&& final(self).addr(sid) == old(self).addr(sid)
                        &&& final(self).row(sid) == (SessionIndex {
                            session_id: sid,
                            skill_sum: sum_of(ratings@) as u128,
                            player_count: ratings@.len() as usize,
                            rank_tier: Some(rank_tier),
                            is_empty: false,
                        })
                    })
                },
                Err(e) => {
                    &&& *final(self) == *old(self)
                    &&& (e == ApiError::Unauthorized || e == ApiError::Forbidden || e
                        == ApiError::SessionNotFound)
                    &&& (e == ApiError::SessionNotFound ==> !old(self).has(sid))
                },
            },
    {
        match verify_token(token, secret, RequiredRole::Client) {
            AuthDecision::Unauthenticated => Err(ApiError::Unauthorized),
            AuthDecision::Forbidden => Err(ApiError::Forbidden),
            AuthDecision::Authorized => match self.join(sid, player, ratings, rank_tier) {
                Ok(o) => Ok(o),
                Err(_) => Err(ApiError::SessionNotFound),
            },
        }
    }

    /// Gated removal: with a `server`-role token, deletes the session from
    /// both stores; removing an absent session reports `NotPresent` and is
    /// otherwise harmless.
    pub fn remove_session(&mut self, token: Option<&str>, secret: &[u8], sid: u128) -> (r: Result<
        RemoveOutcome,
        ApiError,
    >)
        requires
            old(self).wf(),
        ensures
            final(self).wf(),
            token is None ==> r == Err::<RemoveOutcome, ApiError>(ApiError::Unauthorized),
            match r {
                Ok(o) => {
                    &&& (o == RemoveOutcome::Removed <==> old(self).has(sid))
                    &&& !final(self).has(sid)
                    &&& same_except(*old(self), *final(self), sid)
                },
                Err(e) => {
                    &&& *final(self) == *old(self)
                    &&& (e == ApiError::Unauthorized || e == ApiError::Forbidden)
                },
            },
    {
        match verify_token(token, secret, RequiredRole::Server) {
            AuthDecision::Unauthenticated => Err(ApiError::Unauthorized),
            AuthDecision::Forbidden => Err(ApiError::Forbidden),
            AuthDecision::Authorized => Ok(self.delete_session(sid)),
        }
    }
}

} // verus!
