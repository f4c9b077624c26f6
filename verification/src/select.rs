//! The placement-selection policy.
//!
//! Given the durable index, placement prefers the open (occupied) session
//! whose average rating is closest to the requester's, breaking ties in
//! favour of the earliest row. With no open session it falls back to the
//! first empty one, and with no rows at all it reports that no session is
//! available.

use vstd::prelude::*;

use crate::models::{EngineError, SessionIndex};
use crate::rating::{closer_le, closer_lt, lemma_closer_lt_le_trans, strictly_closer};

verus! {

/// Every row of the index is well formed.
pub open spec fn rows_wf(rows: Seq<SessionIndex>) -> bool {
    forall|i: int| 0 <= i < rows.len() ==> (#[trigger] rows[i]).wf()
}

/// Position `i` holds an open session: one with at least one occupant.
pub open spec fn is_open_at(rows: Seq<SessionIndex>, i: int) -> bool {
    0 <= i < rows.len() && !rows[i].is_empty
}

pub open spec fn has_open(rows: Seq<SessionIndex>) -> bool {
    exists|i: int| is_open_at(rows, i)
}

/// The row at `i` is the one the policy picks among the open rows: no open
/// row is closer to `rating`, and `i` is strictly closer than every open row
/// before it, so the earliest minimum wins.
pub open spec fn selected_open_at(rows: Seq<SessionIndex>, rating: int, i: int) -> bool {
    &&& is_open_at(rows, i)
    &&& forall|j: int| #[trigger] is_open_at(rows, j) ==> closer_le(rating, rows[i], rows[j])
    &&& forall|j: int| 0 <= j < i && #[trigger] is_open_at(rows, j) ==> closer_lt(rating, rows[i], rows[j])
}

/// The row at `i` is the first empty one.
pub open spec fn first_empty_at(rows: Seq<SessionIndex>, i: int) -> bool {
    &&& 0 <= i < rows.len()
    &&& rows[i].is_empty
    &&& forall|j: int| 0 <= j < i ==> !(#[trigger] rows[j]).is_empty
}

/// The whole selection policy, as a relation between the index, the
/// requester's rating, and the chosen session identifier.
pub open spec fn spec_selects(rows: Seq<SessionIndex>, rating: int, sid: u128) -> bool {
    if has_open(rows) {
        exists|i: int| #[trigger] selected_open_at(rows, rating, i) && rows[i].session_id == sid
    } else {
        exists|i: int| #[trigger] first_empty_at(rows, i) && rows[i].session_id == sid
    }
}

/// Scans the index once and picks a session identifier by the policy above.
/// Fails exactly when the index has no row at all.
pub fn select_session(index: &Vec<SessionIndex>, rating: u64) -> (r: Result<u128, EngineError>)
    requires
        rows_wf(index@),
    ensures
        match r {
            Ok(sid) => spec_selects(index@, rating as int, sid),
            Err(e) => e == EngineError::NoSessionAvailable,
        },
        r is Err <==> index@.len() == 0,
{
    let n = index.len();
    let mut best: Option<usize> = None;
    let mut first_empty: Option<usize> = None;
    let mut k: usize = 0;
    while k < n
        invariant
            n == index@.len(),
            k <= n,
            rows_wf(index@),
            match best {
                Some(m) => {
                    &&& m < k
                    &&& is_open_at(index@, m as int)
                    &&& forall|j: int|
                        0 <= j < k && #[trigger] is_open_at(index@, j)
                            ==> closer_le(rating as int, index@[m as int], index@[j])
                    &&& forall|j: int|
                        0 <= j < m && #[trigger] is_open_at(index@, j)
                            ==> closer_lt(rating as int, index@[m as int], index@[j])
                },
                None => forall|j: int| 0 <= j < k ==> !is_open_at(index@, j),
            },
            match first_empty {
                Some(e) => {
                    &&& e < k
                    &&& index@[e as int].is_empty
                    &&& forall|j: int| 0 <= j < e ==> !(#[trigger] index@[j]).is_empty
                },
                None => forall|j: int| 0 <= j < k ==> !(#[trigger] index@[j]).is_empty,
            },
        decreases n - k,
    {
        if !index[k].is_empty {
            match best {
                None => {
                    best = Some(k);
                },
                Some(m) => {
                    if strictly_closer(rating, &index[k], &index[m]) {
                        proof {
                            assert forall|j: int|
                                0 <= j < k && #[trigger] is_open_at(index@, j)
                                    implies closer_lt(
                                    rating as int,
                                    index@[k as int],
                                    index@[j],
                                ) by {
                                lemma_closer_lt_le_trans(
                                    rating as int,
                                    index@[k as int],
                                    index@[m as int],
                                    index@[j],
                                );
                            }
                        }
                        best = Some(k);
                    }
                },
            }
        } else {
            if first_empty.is_none() {
                first_empty = Some(k);
            }
        }
        k = k + 1;
    }
    match best {
        Some(m) => {
            proof {
                assert(is_open_at(index@, m as int));
                assert(has_open(index@));
                assert(selected_open_at(index@, rating as int, m as int));
            }
            Ok(index[m].session_id)
        },
        None => match first_empty {
            Some(e) => {
                proof {
                    assert(!has_open(index@));
                    assert(first_empty_at(index@, e as int));
                }
                Ok(index[e].session_id)
            },
            None => {
                proof {
                    if index@.len() > 0 {
                        assert(!is_open_at(index@, 0));
                        assert(!index@[0].is_empty);
                    }
                }
                Err(EngineError::NoSessionAvailable)
            },
        },
    }
}

} // verus!
