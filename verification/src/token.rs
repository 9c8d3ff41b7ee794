//! The token store's decision logic. The store holds the current bearer token
//! and an optional absolute expiry; it hands the token out unchanged while the
//! expiry lies in the future (or none was recorded), and asks for a fresh
//! exchange otherwise. The exchange itself is outside work: the caller runs it
//! and hands the newly issued token back through [`TokenState::install`].

use vstd::prelude::*;

verus! {

/// The current bearer token and, when the server supplied a validity
/// duration, the absolute expiry second it implies together with that
/// duration. A token without an expiry never expires.
#[derive(Debug, Clone, PartialEq, Eq)]
pub struct TokenState {
    pub access_token: String,
    pub expiry: Option<(i64, u64)>,
}

/// What the store decides for one request: hand the stored token out, or run
/// a fresh client-credentials exchange first.
#[derive(Debug, Clone, Copy, PartialEq, Eq, Structural)]
pub enum TokenDecision {
    Reuse,
    Refresh,
}

/// The stored token is still valid at `now`: no expiry was recorded, or the
/// expiry lies strictly in the future.
pub open spec fn spec_token_valid(st: TokenState, now: i64) -> bool {
    match st.expiry {
        None => true,
        Some(e) => e.0 - now > 0,
    }
}

/// The state after a successful refresh at `now` installed `access_token`:
/// the new token replaces the old one, and the expiry is replaced with it —
/// `now + duration` when the response carried a duration, absent otherwise,
/// the token then treated as never expiring.
pub open spec fn spec_install(access_token: String, now: i64, expires_in: Option<u64>) -> TokenState {
    TokenState {
        access_token,
        expiry: match expires_in {
            Some(d) => Some(((now + d) as i64, d)),
            None => None,
        },
    }
}

/// The decision the store takes at `now`.
pub open spec fn spec_decision(st: TokenState, now: i64) -> TokenDecision {
    if spec_token_valid(st, now) {
        TokenDecision::Reuse
    } else {
        TokenDecision::Refresh
    }
}

impl TokenState {
    /// The state right after an authorization exchange: the issued token, and
    /// the expiry `now + duration` when the server supplied a duration.
    pub fn new(access_token: String, now: i64, expires_in: Option<u64>) -> (r: TokenState)
        requires
            expires_in matches Some(d) ==> d <= i64::MAX && now + d <= i64::MAX,
        ensures
            r.access_token == access_token,
            match expires_in {
                Some(d) => r.expiry == Some(((now + d) as i64, d)),
                None => r.expiry is None,
            },
    {
        match expires_in {
            Some(d) => TokenState { access_token, expiry: Some((now + (d as i64), d)) },
            None => TokenState { access_token, expiry: None },
        }
    }

    /// Whether the stored token may be handed out at `now` or must be
    /// refreshed first.
    pub fn decide(&self, now: i64) -> (d: TokenDecision)
        ensures
            d == spec_decision(*self, now),
    {
        match self.expiry {
            None => TokenDecision::Reuse,
            Some((e, _)) => if e > now {
                TokenDecision::Reuse
            } else {
                TokenDecision::Refresh
            },
        }
    }

    /// The stored token, when it is still valid at `now`; `None` exactly when
    /// a refresh is due.
    pub fn token_if_valid(&self, now: i64) -> (r: Option<String>)
        ensures
            r matches Some(t) ==> spec_token_valid(*self, now) && t@ == self.access_token@,
            r is None <==> !spec_token_valid(*self, now),
    {
        match self.decide(now) {
            TokenDecision::Reuse => Some(self.access_token.clone()),
            TokenDecision::Refresh => None,
        }
    }

    /// Installs the token of a refresh that succeeded at `now`: the new token
    /// replaces the old one, and the expiry is replaced along with it — moved
    /// to `now + duration` when the response carried a duration, cleared when
    /// it carried none, the fresh token then treated as never expiring.
    pub fn install(&mut self, access_token: String, now: i64, expires_in: Option<u64>)
        requires
            expires_in matches Some(d) ==> d <= i64::MAX && now + d <= i64::MAX,
        ensures
            *final(self) == spec_install(access_token, now, expires_in),
    {
        self.expiry = match expires_in {
            Some(d) => Some((now + (d as i64), d)),
            None => None,
        };
        self.access_token = access_token;
    }
}

/// Token reuse: while the stored expiry lies in the future, every read takes
/// the `Reuse` decision and hands out the identical stored token — no
/// exchange happens between two such reads.
pub proof fn lemma_token_reuse(st: TokenState, now1: i64, now2: i64)
    requires
        spec_token_valid(st, now1),
        spec_token_valid(st, now2),
    ensures
        spec_decision(st, now1) == TokenDecision::Reuse,
        spec_decision(st, now2) == TokenDecision::Reuse,
{
}

/// Token refresh: with a recorded expiry not in the future the store decides
/// to refresh, and installing the newly issued token makes it the one handed
/// out afterwards. A response without a duration leaves a never-expiring
/// token; one with a duration leaves the expiry the issue time implies, so a
/// recorded expiry always reads `issue time + duration`.
pub proof fn lemma_token_refresh(st: TokenState, now: i64, token: String, expires_in: Option<u64>)
    requires
        st.expiry matches Some(e) && e.0 <= now,
        expires_in matches Some(d) ==> d <= i64::MAX && now + d <= i64::MAX,
    ensures
        spec_decision(st, now) == TokenDecision::Refresh,
        spec_install(token, now, expires_in).access_token == token,
        expires_in is None ==> spec_install(token, now, expires_in).expiry is None,
        expires_in matches Some(d) ==> spec_install(token, now, expires_in).expiry == Some(
            ((now + d) as i64, d),
        ),
{
}

} // verus!
