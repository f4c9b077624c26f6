//! The session directory and matchmaking engine.
//!
//! The engine owns both stores: the durable index of aggregate rows that
//! placement scans, and the ephemeral payloads holding each session's
//! address and roster. The two are kept aligned — a row exists exactly when
//! its payload does — so placement can never select a session whose payload
//! is missing. Callers that serve concurrent requests must serialize
//! operations on the engine (exclusive access is part of every signature),
//! which closes the lost-join race of read-modify-write against shared
//! stores.

use vstd::prelude::*;

use crate::MAX_PLAYERS;
use crate::models::{
    EngineError, JoinOutcome, RemoveOutcome, Session, SessionIndex, SessionResponse,
};
use crate::rating::{lemma_sum_of_bound, sum_of, sum_ratings};
use crate::select::{
    first_empty_at, has_open, rows_wf, select_session, selected_open_at, spec_selects,
};

verus! {

/// The directory of live sessions. `index` and `payloads` are aligned:
/// entry `i` of each describes the same session.
pub struct Engine {
    index: Vec<SessionIndex>,
    payloads: Vec<Session>,
}

impl Engine {
    /// The durable index rows, in scan order.
    pub closed spec fn rows(self) -> Seq<SessionIndex> {
        self.index@
    }

    /// The ephemeral payloads, aligned with `rows`.
    pub closed spec fn loads(self) -> Seq<Session> {
        self.payloads@
    }

    /// The engine's invariant: the stores are aligned, rows are well formed
    /// with distinct identifiers, occupancy counts match the rosters, and no
    /// session at capacity is ever kept (a full session is torn down within
    /// the join that filled it).
    pub open spec fn wf(self) -> bool {
        &&& self.loads().len() == self.rows().len()
        &&& rows_wf(self.rows())
        &&& forall|i: int, j: int|
            0 <= i < j < self.rows().len()
                ==> (#[trigger] self.rows()[i]).session_id != (#[trigger] self.rows()[j]).session_id
        &&& forall|i: int|
            0 <= i < self.rows().len()
                ==> (#[trigger] self.rows()[i]).player_count == self.loads()[i].players@.len()
        &&& forall|i: int|
            0 <= i < self.rows().len() ==> (#[trigger] self.loads()[i]).players@.len() < MAX_PLAYERS
    }

    /// A session with this identifier exists in the directory.
    pub open spec fn has(self, sid: u128) -> bool {
        exists|i: int| 0 <= i < self.rows().len() && (#[trigger] self.rows()[i]).session_id == sid
    }

    /// The position of `sid` in the stores; meaningful only when `has(sid)`.
    pub open spec fn pos(self, sid: u128) -> int {
        choose|i: int| 0 <= i < self.rows().len() && (#[trigger] self.rows()[i]).session_id == sid
    }

    /// The index row of session `sid`.
    pub open spec fn row(self, sid: u128) -> SessionIndex {
        self.rows()[self.pos(sid)]
    }

    /// The roster of session `sid`, as a sequence of player identifiers.
    pub open spec fn roster(self, sid: u128) -> Seq<Seq<char>> {
        self.loads()[self.pos(sid)].roster()
    }

    /// The server address of session `sid`.
    pub open spec fn addr(self, sid: u128) -> Seq<char> {
        self.loads()[self.pos(sid)].server_address@
    }

    /// With distinct identifiers, any position holding `sid` is the position
    /// `pos` resolves to.
    pub proof fn lemma_pos_is(self, sid: u128, i: int)
        requires
            self.wf(),
            0 <= i < self.rows().len(),
            self.rows()[i].session_id == sid,
        ensures
            self.has(sid),
            self.pos(sid) == i,
    {
        assert(self.has(sid));
        let p = self.pos(sid);
        assert(0 <= p < self.rows().len() && self.rows()[p].session_id == sid);
        if p < i {
            assert(self.rows()[p].session_id != self.rows()[i].session_id);
        } else if i < p {
            assert(self.rows()[i].session_id != self.rows()[p].session_id);
        }
    }

    /// An empty directory.
    pub fn new() -> (e: Engine)
        ensures
            e.wf(),
            e.rows().len() == 0,
            forall|sid: u128| !e.has(sid),
    {
        Engine { index: Vec::new(), payloads: Vec::new() }
    }

    /// Number of sessions currently in the directory.
    pub fn session_count(&self) -> (n: usize)
        ensures
            n == self.rows().len(),
    {
        self.index.len()
    }

    /// Linear scan of the index for `sid`.
    fn find(&self, sid: u128) -> (r: Option<usize>)
        ensures
            match r {
                Some(i) => i < self.rows().len() && self.rows()[i as int].session_id == sid,
                None => !self.has(sid),
            },
    {
        let mut k: usize = 0;
        while k < self.index.len()
            invariant
                k <= self.rows().len(),
                forall|j: int| 0 <= j < k ==> (#[trigger] self.rows()[j]).session_id != sid,
            decreases self.rows().len() - k,
        {
            if self.index[k].session_id == sid {
                return Some(k);
            }
            k = k + 1;
        }
        None
    }

    /// Creates a session under the given identifier: an empty payload in the
    /// ephemeral store and a pristine index row in the durable index, or a
    /// duplicate-identifier failure that leaves the directory unchanged.
    pub fn insert_session(&mut self, sid: u128, server_address: String) -> (r: Result<
        (),
        EngineError,
    >)
        requires
            old(self).wf(),
        ensures
            final(self).wf(),
            r is Ok <==> !old(self).has(sid),
            r is Err ==> *final(self) == *old(self) && r == Err::<(), EngineError>(
                EngineError::DuplicateSession,
            ),
            r is Ok ==> {
                &&& final(self).has(sid)
                &&& final(self).roster(sid) =~= Seq::<Seq<char>>::empty()
                &&& final(self).addr(sid) == server_address@
                &&& final(self).row(sid) == (SessionIndex {
                    session_id: sid,
                    skill_sum: 0,
                    player_count: 0,
                    rank_tier: None,
                    is_empty: true,
                })
                &&& final(self).rows() == old(self).rows().push(final(self).row(sid))
                &&& same_except(*old(self), *final(self), sid)
            },
    {
        match self.find(sid) {
            Some(_) => Err(EngineError::DuplicateSession),
            None => {
                let row = SessionIndex {
                    session_id: sid,
                    skill_sum: 0,
                    player_count: 0,
                    rank_tier: None,
                    is_empty: true,
                };
                self.index.push(row);
                self.payloads.push(Session { server_address, players: Vec::new() });
                proof {
                    let pre = *old(self);
                    let post = *self;
                    let n = pre.rows().len() as int;
                    lemma_no_witness(pre, sid);
                    assert(post.rows() =~= pre.rows().push(row));
                    assert forall|i: int, j: int| 0 <= i < j < post.rows().len() implies (
                    #[trigger] post.rows()[i]).session_id != (
                    #[trigger] post.rows()[j]).session_id by {
                        if j == n {
                            assert(post.rows()[i] == pre.rows()[i]);
                        }
                    }
                    post.lemma_pos_is(sid, n);
                    assert(post.roster(sid) =~= Seq::<Seq<char>>::empty());
                    lemma_frame_grow(pre, post, sid);
                }
                Ok(())
            },
        }
    }

    /// Places a requester: scans the durable index by the selection policy,
    /// then reads the chosen session's payload for its connection address.
    /// Because the stores are kept aligned, the divergence failure (an index
    /// row whose payload is missing) is provably unreachable here, and the
    /// only failure is an empty directory.
    pub fn place(&self, rating: u64) -> (r: Result<SessionResponse, EngineError>)
        requires
            self.wf(),
        ensures
            match r {
                Ok(resp) => {
                    &&& spec_selects(self.rows(), rating as int, resp.session_id)
                    &&& self.has(resp.session_id)
                    &&& resp.server_address@ == self.addr(resp.session_id)
                    &&& self.roster(resp.session_id).len() < MAX_PLAYERS
                },
                Err(e) => e == EngineError::NoSessionAvailable,
            },
            r is Err <==> self.rows().len() == 0,
    {
        match select_session(&self.index, rating) {
            Err(e) => Err(e),
            Ok(sid) => match self.find(sid) {
                Some(i) => {
                    proof {
                        self.lemma_pos_is(sid, i as int);
                    }
                    Ok(
                        SessionResponse {
                            session_id: sid,
                            server_address: self.payloads[i].server_address.clone(),
                        },
                    )
                },
                None => {
                    proof {
                        if has_open(self.rows()) {
                            let i = choose|i: int|
                                #[trigger] selected_open_at(self.rows(), rating as int, i)
                                    && self.rows()[i].session_id == sid;
                            assert(self.rows()[i].session_id == sid);
                        } else {
                            let i = choose|i: int|
                                #[trigger] first_empty_at(self.rows(), i)
                                    && self.rows()[i].session_id == sid;
                            assert(self.rows()[i].session_id == sid);
                        }
                        assert(self.has(sid));
                        assert(false);
                    }
                    Err(EngineError::SessionNotFound)
                },
            },
        }
    }

    /// Appends a player to the session's roster and recomputes the durable
    /// aggregates. `ratings` must carry the current skill rating of every
    /// occupant after the append — the joining player included, one entry
    /// per occupant, resolved by the caller against the identity provider —
    /// so the recorded average reflects live ratings, not a frozen snapshot.
    ///
    /// If the append fills the session to capacity, both its stores are torn
    /// down in the same call and `SessionFull` is reported; the aggregates
    /// are then never recomputed and `ratings` is not consulted. Otherwise
    /// the index row gets the new sum and count, the joining player's rank
    /// tier, and an occupied empty-flag.
    pub fn join(&mut self, sid: u128, player: String, ratings: &Vec<u64>, rank_tier: u128) -> (r:
        Result<JoinOutcome, EngineError>)
        requires
            old(self).wf(),
            old(self).has(sid) && old(self).roster(sid).len() + 1 < MAX_PLAYERS
                ==> ratings@.len() == old(self).roster(sid).len() + 1,
        ensures
            final(self).wf(),
            r is Err <==> !old(self).has(sid),
            r is Err ==> *final(self) == *old(self) && r == Err::<JoinOutcome, EngineError>(
                EngineError::SessionNotFound,
            ),
            old(self).has(sid) ==> same_except(*old(self), *final(self), sid),
            old(self).has(sid) && old(self).roster(sid).len() + 1 == MAX_PLAYERS ==> r == Ok::<
                JoinOutcome,
                EngineError,
            >(JoinOutcome::SessionFull) && !final(self).has(sid),
            old(self).has(sid) && old(self).roster(sid).len() + 1 < MAX_PLAYERS ==> {
                &&& r == Ok::<JoinOutcome, EngineError>(JoinOutcome::Joined)
                &&& final(self).has(sid)
                &&& final(self).roster(sid) =~= old(self).roster(sid).push(player@)
                &&& final(self).addr(sid) == old(self).addr(sid)
                &&& final(self).row(sid) == (SessionIndex {
                    session_id: sid,
                    skill_sum: sum_of(ratings@) as u128,
                    player_count: ratings@.len() as usize,
                    rank_tier: Some(rank_tier),
                    is_empty: false,
                })
            },
    {
        let i = match self.find(sid) {
            None => {
                return Err(EngineError::SessionNotFound);
            },
            Some(i) => i,
        };
        proof {
            old(self).lemma_pos_is(sid, i as int);
        }
        let mut payload = self.payloads.remove(i);
        payload.players.push(player);
        if payload.players.len() == MAX_PLAYERS {
            self.index.remove(i);
            proof {
                lemma_frame_shrink(*old(self), *self, sid, i as int);
            }
            Ok(JoinOutcome::SessionFull)
        } else {
            proof {
                lemma_sum_of_bound(ratings@);
            }
            let total = sum_ratings(ratings);
            let new_row = SessionIndex {
                session_id: sid,
                skill_sum: total,
                player_count: payload.players.len(),
                rank_tier: Some(rank_tier),
                is_empty: false,
            };
            self.index.remove(i);
            self.index.insert(i, new_row);
            self.payloads.insert(i, payload);
            proof {
                let pre = *old(self);
                let post = *self;
                pre.rows().remove(i as int).insert_ensures(i as int, new_row);
                pre.rows().remove_ensures(i as int);
                pre.loads().remove_ensures(i as int);
                pre.loads().remove(i as int).insert_ensures(i as int, payload);
                assert forall|k: int| 0 <= k < pre.rows().len() && k != i implies (
                #[trigger] post.rows()[k]) == pre.rows()[k] by {
                    if k < i {
                        assert(pre.rows().remove(i as int)[k] == pre.rows()[k]);
                        assert(post.rows()[k] == pre.rows().remove(i as int)[k]);
                    } else {
                        assert(pre.rows().remove(i as int)[k - 1] == pre.rows()[k]);
                        assert(post.rows()[k] == pre.rows().remove(i as int)[k - 1]);
                    }
                }
                assert forall|k: int| 0 <= k < pre.loads().len() && k != i implies (
                #[trigger] post.loads()[k]) == pre.loads()[k] by {
                    if k < i {
                        assert(pre.loads().remove(i as int)[k] == pre.loads()[k]);
                        assert(post.loads()[k] == pre.loads().remove(i as int)[k]);
                    } else {
                        assert(pre.loads().remove(i as int)[k - 1] == pre.loads()[k]);
                        assert(post.loads()[k] == pre.loads().remove(i as int)[k - 1]);
                    }
                }
                lemma_frame_update(pre, post, sid, i as int);
                assert(post.roster(sid) =~= pre.roster(sid).push(player@));
            }
            Ok(JoinOutcome::Joined)
        }
    }

    /// Creates a session under a freshly drawn identifier and returns it.
    /// The identifier comes from a random source, so nothing is known of its
    /// value; freshness is checked against the directory, and in the
    /// (vanishingly unlikely) event of a collision the directory is left
    /// unchanged and the failure reported rather than overwriting a session.
    pub fn create_session(&mut self, server_address: String) -> (r: Result<u128, EngineError>)
        requires
            old(self).wf(),
        ensures
            final(self).wf(),
            match r {
                Ok(sid) => {
                    &&& !old(self).has(sid)
                    &&& final(self).has(sid)
                    &&& final(self).roster(sid) =~= Seq::<Seq<char>>::empty()
                    &&& final(self).addr(sid) == server_address@
                    &&& final(self).row(sid) == (SessionIndex {
                        session_id: sid,
                        skill_sum: 0,
                        player_count: 0,
                        rank_tier: None,
                        is_empty: true,
                    })
                    &&& same_except(*old(self), *final(self), sid)
                },
                Err(e) => e == EngineError::DuplicateSession && *final(self) == *old(self),
            },
    {
        let sid = fresh_session_id();
        match self.insert_session(sid, server_address) {
            Ok(_) => Ok(sid),
            Err(e) => Err(e),
        }
    }

    /// A copy of the roster of `sid`, or `None` if the session is unknown.
    pub fn roster_of(&self, sid: u128) -> (r: Option<Vec<String>>)
        requires
            self.wf(),
        ensures
            match r {
                Some(v) => self.has(sid) && v@.map_values(|p: String| p@) =~= self.roster(sid),
                None => !self.has(sid),
            },
    {
        match self.find(sid) {
            None => None,
            Some(i) => {
                proof {
                    self.lemma_pos_is(sid, i as int);
                }
                let v = self.payloads[i].players.clone();
                proof {
                    assert(v@ =~= self.loads()[i as int].players@);
                    assert(v@.map_values(|p: String| p@) =~= self.roster(sid));
                }
                Some(v)
            },
        }
    }

    /// The server address of `sid`, or `None` if the session is unknown.
    pub fn server_address_of(&self, sid: u128) -> (r: Option<String>)
        requires
            self.wf(),
        ensures
            match r {
                Some(a) => self.has(sid) && a@ == self.addr(sid),
                None => !self.has(sid),
            },
    {
        match self.find(sid) {
            None => None,
            Some(i) => {
                proof {
                    self.lemma_pos_is(sid, i as int);
                }
                Some(self.payloads[i].server_address.clone())
            },
        }
    }

    /// The durable index row of `sid`, or `None` if the session is unknown.
    pub fn index_row_of(&self, sid: u128) -> (r: Option<SessionIndex>)
        requires
            self.wf(),
        ensures
            match r {
                Some(row) => self.has(sid) && row == self.row(sid),
                None => !self.has(sid),
            },
    {
        match self.find(sid) {
            None => None,
            Some(i) => {
                proof {
                    self.lemma_pos_is(sid, i as int);
                }
                Some(self.index[i])
            },
        }
    }

    /// Deletes the index row and the ephemeral payload of `sid`, together.
    /// Deleting an absent session is not a fault: it reports `NotPresent`
    /// and leaves the directory unchanged.
    pub fn delete_session(&mut self, sid: u128) -> (r: RemoveOutcome)
        requires
            old(self).wf(),
        ensures
            final(self).wf(),
            (r == RemoveOutcome::Removed) <==> old(self).has(sid),
            !final(self).has(sid),
            !old(self).has(sid) ==> *final(self) == *old(self),
            same_except(*old(self), *final(self), sid),
    {
        match self.find(sid) {
            None => RemoveOutcome::NotPresent,
            Some(i) => {
                self.index.remove(i);
                self.payloads.remove(i);
                proof {
                    let pre = *old(self);
                    let post = *self;
                    pre.lemma_pos_is(sid, i as int);
                    lemma_frame_shrink(pre, post, sid, i as int);
                }
                RemoveOutcome::Removed
            },
        }
    }
}

/// Relies on `uuid::Uuid::new_v4` to draw a fresh random session identifier,
/// carried as its 128-bit value. Nothing is assumed of the result.
#[verifier::external_body]
fn fresh_session_id() -> u128 {
    uuid::Uuid::new_v4().as_u128()
}

/// Every session other than `sid` reads the same in `pre` and `post`:
/// existence, roster, address and index row are all preserved.
pub open spec fn same_except(pre: Engine, post: Engine, sid: u128) -> bool {
    forall|s2: u128|
        #![trigger pre.has(s2)]
        #![trigger post.has(s2)]
        s2 != sid ==> {
            &&& post.has(s2) == pre.has(s2)
            &&& (pre.has(s2) ==> post.roster(s2) == pre.roster(s2) && post.addr(s2) == pre.addr(
                s2,
            ) && post.row(s2) == pre.row(s2))
        }
}

/// Unfolds the absence of `sid` into a pointwise statement about the rows.
proof fn lemma_no_witness(pre: Engine, sid: u128)
    requires
        !pre.has(sid),
    ensures
        forall|i: int|
            0 <= i < pre.rows().len() ==> (#[trigger] pre.rows()[i]).session_id != sid,
{
}

/// Frame lemma for operations that only append a new session at the end of
/// both stores.
proof fn lemma_frame_grow(pre: Engine, post: Engine, sid: u128)
    requires
        pre.wf(),
        post.wf(),
        post.rows().len() == pre.rows().len() + 1,
        post.loads().len() == pre.loads().len() + 1,
        forall|i: int| 0 <= i < pre.rows().len() ==> (#[trigger] post.rows()[i]) == pre.rows()[i],
        forall|i: int|
            0 <= i < pre.loads().len() ==> (#[trigger] post.loads()[i]) == pre.loads()[i],
        post.rows()[pre.rows().len() as int].session_id == sid,
    ensures
        same_except(pre, post, sid),
{
    assert forall|s2: u128| s2 != sid implies (#[trigger] post.has(s2)) == pre.has(s2) && (pre.has(
        s2,
    ) ==> post.roster(s2) == pre.roster(s2) && post.addr(s2) == pre.addr(s2) && post.row(s2)
        == pre.row(s2)) by {
        let n = pre.rows().len() as int;
        if pre.has(s2) {
            let p = pre.pos(s2);
            assert(0 <= p < n && pre.rows()[p].session_id == s2);
            assert(post.rows()[p].session_id == s2);
            post.lemma_pos_is(s2, p);
            pre.lemma_pos_is(s2, p);
        } else {
            lemma_no_witness(pre, s2);
            if post.has(s2) {
                let q = post.pos(s2);
                assert(0 <= q < n + 1 && post.rows()[q].session_id == s2);
                assert(q != n);
                assert(pre.rows()[q].session_id == s2);
            }
        }
    }
}

/// Frame lemma for rewriting the session at position `i` in place in both
/// stores: the invariant is preserved and so is every other session.
proof fn lemma_frame_update(pre: Engine, post: Engine, sid: u128, i: int)
    requires
        pre.wf(),
        0 <= i < pre.rows().len(),
        pre.rows()[i].session_id == sid,
        post.rows().len() == pre.rows().len(),
        post.loads().len() == pre.loads().len(),
        forall|k: int|
            0 <= k < pre.rows().len() && k != i ==> (#[trigger] post.rows()[k]) == pre.rows()[k],
        forall|k: int|
            0 <= k < pre.loads().len() && k != i ==> (#[trigger] post.loads()[k]) == pre.loads()[k],
        post.rows()[i].session_id == sid,
        post.rows()[i].wf(),
        post.rows()[i].player_count == post.loads()[i].players@.len(),
        post.loads()[i].players@.len() < MAX_PLAYERS,
    ensures
        post.wf(),
        post.has(sid),
        post.pos(sid) == i,
        same_except(pre, post, sid),
{
    assert forall|k: int, l: int| 0 <= k < l < post.rows().len() implies (
    #[trigger] post.rows()[k]).session_id != (#[trigger] post.rows()[l]).session_id by {
        assert(pre.rows()[k].session_id != pre.rows()[l].session_id);
    }
    assert(post.wf());
    post.lemma_pos_is(sid, i);
    assert forall|s2: u128| s2 != sid implies (#[trigger] post.has(s2)) == pre.has(s2) && (pre.has(
        s2,
    ) ==> post.roster(s2) == pre.roster(s2) && post.addr(s2) == pre.addr(s2) && post.row(s2)
        == pre.row(s2)) by {
        if pre.has(s2) {
            let p = pre.pos(s2);
            assert(0 <= p < pre.rows().len() && pre.rows()[p].session_id == s2);
            assert(p != i);
            assert(post.rows()[p].session_id == s2);
            post.lemma_pos_is(s2, p);
            pre.lemma_pos_is(s2, p);
        } else {
            lemma_no_witness(pre, s2);
            if post.has(s2) {
                let q = post.pos(s2);
                assert(0 <= q < post.rows().len() && post.rows()[q].session_id == s2);
                assert(q != i);
                assert(pre.rows()[q].session_id == s2);
            }
        }
    }
}

/// Frame lemma for deleting the session at position `i` from both stores:
/// the removal preserves the invariant and every other session.
proof fn lemma_frame_shrink(pre: Engine, post: Engine, sid: u128, i: int)
    requires
        pre.wf(),
        0 <= i < pre.rows().len(),
        pre.rows()[i].session_id == sid,
        post.rows() == pre.rows().remove(i),
        post.loads() == pre.loads().remove(i),
    ensures
        post.wf(),
        !post.has(sid),
        same_except(pre, post, sid),
{
    pre.rows().remove_ensures(i);
    pre.loads().remove_ensures(i);
    let n = post.rows().len() as int;
    assert forall|k: int| 0 <= k < n implies #[trigger] post.rows()[k] == (if k < i {
        pre.rows()[k]
    } else {
        pre.rows()[k + 1]
    }) && #[trigger] post.loads()[k] == (if k < i {
        pre.loads()[k]
    } else {
        pre.loads()[k + 1]
    }) by {}
    assert(post.wf());
    if post.has(sid) {
        let q = post.pos(sid);
        assert(0 <= q < n && post.rows()[q].session_id == sid);
        if q < i {
            assert(pre.rows()[q].session_id == sid);
            assert(pre.rows()[q].session_id != pre.rows()[i].session_id);
        } else {
            assert(pre.rows()[q + 1].session_id == sid);
            assert(pre.rows()[i].session_id != pre.rows()[q + 1].session_id);
        }
    }
    assert forall|s2: u128| s2 != sid implies (#[trigger] post.has(s2)) == pre.has(s2) && (pre.has(
        s2,
    ) ==> post.roster(s2) == pre.roster(s2) && post.addr(s2) == pre.addr(s2) && post.row(s2)
        == pre.row(s2)) by {
        if pre.has(s2) {
            let p = pre.pos(s2);
            assert(0 <= p < pre.rows().len() && pre.rows()[p].session_id == s2);
            assert(p != i);
            let p2 = if p < i {
                p
            } else {
                p - 1
            };
            assert(post.rows()[p2].session_id == s2);
            post.lemma_pos_is(s2, p2);
            pre.lemma_pos_is(s2, p);
        } else {
            lemma_no_witness(pre, s2);
            if post.has(s2) {
                let q = post.pos(s2);
                assert(0 <= q < n && post.rows()[q].session_id == s2);
            }
        }
    }
}

/// Law: in a well-formed directory the empty flag of every session's index
/// row says exactly whether its roster is empty. Every operation returns the
/// directory well formed, so this holds in particular immediately after any
/// successful join.
pub proof fn lemma_empty_flag_tracks_roster(e: Engine, sid: u128)
    requires
        e.wf(),
        e.has(sid),
    ensures
        e.row(sid).is_empty == (e.roster(sid).len() == 0),
{
    let p = e.pos(sid);
    assert(0 <= p < e.rows().len() && e.rows()[p].session_id == sid);
    assert(e.rows()[p].wf());
    assert(e.rows()[p].player_count == e.loads()[p].players@.len());
}

/// Law: no session held by a well-formed directory is at capacity — the join
/// that fills one tears it down within the same call. A session whose roster
/// reached `MAX_PLAYERS` therefore no longer exists, and `place` only ever
/// returns sessions the directory holds, so a filled session can never be a
/// later placement result.
pub proof fn lemma_no_full_session(e: Engine, sid: u128)
    requires
        e.wf(),
        e.has(sid),
    ensures
        e.roster(sid).len() < MAX_PLAYERS,
{
    let p = e.pos(sid);
    assert(0 <= p < e.rows().len() && e.rows()[p].session_id == sid);
    assert(e.loads()[p].players@.len() < MAX_PLAYERS);
}

/// Law: joins accumulate. `Engine::join` relates rosters by `push`, and each
/// call takes the engine exclusively (which is how concurrent joins to one
/// session are serialized), so two joins by distinct players leave a roster
/// two longer that contains both — neither append can be lost.
pub proof fn lemma_successive_joins_keep_both(
    r0: Seq<Seq<char>>,
    a: Seq<char>,
    b: Seq<char>,
    r1: Seq<Seq<char>>,
    r2: Seq<Seq<char>>,
)
    requires
        r1 == r0.push(a),
        r2 == r1.push(b),
    ensures
        r2.len() == r0.len() + 2,
        r2.contains(a),
        r2.contains(b),
{
    assert(r2[r0.len() as int] == a);
    assert(r2[r0.len() as int + 1] == b);
}

} // verus!
