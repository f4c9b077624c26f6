//! The authorization gate.
//!
//! Every directory operation is preceded by the same three-way decision:
//! a missing or unverifiable bearer token is unauthenticated, a verified
//! token with the wrong role is forbidden, and otherwise the request may
//! proceed. Token verification itself is the token authority's business
//! (an HMAC-signed JWT checked against a shared secret and the clock); the
//! decision table on the decoded role claim is verified here.

use vstd::prelude::*;

verus! {

/// The role an operation demands of its caller; `Any` accepts every role.
#[derive(Clone, Copy, Debug, PartialEq, Eq, Structural)]
pub enum RequiredRole {
    Server,
    Client,
    Any,
}

/// The three-way answer given to a request's credentials.
#[derive(Clone, Copy, Debug, PartialEq, Eq, Structural)]
pub enum AuthDecision {
    /// The token carries the demanded role: proceed.
    Authorized,
    /// No token, or one that could not be verified.
    Unauthenticated,
    /// A verified token, but with the wrong role.
    Forbidden,
}

/// Whether a decoded role claim satisfies the demanded role.
pub open spec fn claim_matches(claim: Seq<char>, req: RequiredRole) -> bool {
    match req {
        RequiredRole::Server => claim == "server"@,
        RequiredRole::Client => claim == "client"@,
        RequiredRole::Any => true,
    }
}

/// The decision table, over the decoded role claim (`None` when the token
/// was absent or unverifiable).
pub open spec fn decide(claim: Option<Seq<char>>, req: RequiredRole) -> AuthDecision {
    match claim {
        None => AuthDecision::Unauthenticated,
        Some(c) => if claim_matches(c, req) {
            AuthDecision::Authorized
        } else {
            AuthDecision::Forbidden
        },
    }
}

/// The view of an optional decoded claim.
pub open spec fn claim_view(claim: Option<String>) -> Option<Seq<char>> {
    match claim {
        None => None,
        Some(s) => Some(s@),
    }
}

/// Judges a decoded role claim against the demanded role, exactly as the
/// decision table states.
pub fn authorize_claim(claim: &Option<String>, req: RequiredRole) -> (d: AuthDecision)
    ensures
        d == decide(claim_view(*claim), req),
{
    match claim {
        None => AuthDecision::Unauthenticated,
        Some(role) => {
            let matches: bool = match req {
                RequiredRole::Any => true,
                RequiredRole::Server => {
                    let name: String = "server".to_owned();
                    *role == name
                },
                RequiredRole::Client => {
                    let name: String = "client".to_owned();
                    *role == name
                },
            };
            if matches {
                AuthDecision::Authorized
            } else {
                AuthDecision::Forbidden
            }
        },
    }
}

/// Relies on `jsonwebtoken::decode` to check the token's HMAC-SHA256
/// signature against the secret and its expiry against the clock, and to
/// hand back the embedded claims; the result is the token's `role` claim,
/// or `None` when verification fails or the claim is missing. The outcome
/// depends on the current time, so nothing is assumed of it.
#[verifier::external_body]
fn decode_role(token: &str, secret: &[u8]) -> Option<String> {
    let key = jsonwebtoken::DecodingKey::from_secret(secret);
    let validation = jsonwebtoken::Validation::new(jsonwebtoken::Algorithm::HS256);
    match jsonwebtoken::decode::<serde_json::Value>(token, &key, &validation) {
        Ok(data) => match data.claims.get("role") {
            Some(value) => value.as_str().map(|role| role.to_string()),
            None => None,
        },
        Err(_) => None,
    }
}

/// The whole gate: an absent token is unauthenticated; otherwise the token
/// is decoded and its role claim judged by the decision table. Because the
/// decode depends on the clock, only the absent-token outcome is pinned;
/// whatever claim the decode yields, the decision follows the table, so a
/// wildcard requirement can never come out forbidden.
pub fn verify_token(token: Option<&str>, secret: &[u8], req: RequiredRole) -> (d: AuthDecision)
    ensures
        token is None ==> d == AuthDecision::Unauthenticated,
        req is Any ==> d != AuthDecision::Forbidden,
{
    match token {
        None => AuthDecision::Unauthenticated,
        Some(t) => {
            let claim = decode_role(t, secret);
            authorize_claim(&claim, req)
        },
    }
}

} // verus!
