//! Policy of the outbound client: how fast it may call, how often it
//! retries, and the credential it presents.

use vstd::prelude::*;
use vstd::string::*;

verus! {

/// Requests admitted per second by the shared limiter.
pub const REQUESTS_PER_SECOND: u32 = 2;

/// Retries of a request that failed transiently, before the failure is handed on.
pub const MAX_RETRIES: u32 = 3;

/// What to do with an answer of the remote service, by its status.
#[derive(Clone, Copy, Debug, PartialEq, Eq, Structural)]
pub enum RetryDecision {
    /// The answer is good.
    Accept,
    /// The failure may pass: the request is sent again.
    Retry,
    /// The failure will not pass: it is handed on.
    GiveUp,
}

/// The decision for a status: a status of the 5xx class is a failure that
/// may pass, one of the 2xx class is good, any other a failure that will not
/// pass.
pub open spec fn decision_for(status: u16) -> RetryDecision {
    if 500 <= status <= 599 {
        RetryDecision::Retry
    } else if 200 <= status <= 299 {
        RetryDecision::Accept
    } else {
        RetryDecision::GiveUp
    }
}

/// Decides what to do with an answer of the given status.
pub fn retry_decision(status: u16) -> (r: RetryDecision)
    ensures
        r == decision_for(status),
{
    if 500 <= status && status <= 599 {
        RetryDecision::Retry
    } else if 200 <= status && status <= 299 {
        RetryDecision::Accept
    } else {
        RetryDecision::GiveUp
    }
}

/// Puts a bearer token on every outgoing request.
pub struct AuthenticatedHeaderMiddleware {
    bearer_token: String,
}

impl AuthenticatedHeaderMiddleware {
    /// The token presented.
    pub closed spec fn token(&self) -> Seq<char> {
        self.bearer_token@
    }

    pub fn new(bearer_token: String) -> (r: Self)
        ensures
            r.token() == bearer_token@,
    {
        Self { bearer_token }
    }

    /// The value of the `Authorization` header: the word `Bearer`, a space
    /// and the token.
    pub fn authorization_value(&self) -> (r: String)
        ensures
            r@ == "Bearer "@ + self.token(),
    {
        "Bearer ".to_owned().concat(self.bearer_token.as_str())
    }
}

} // verus!
