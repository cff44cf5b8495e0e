//! The interface to the traffic API: which endpoints there are, how their
//! addresses are built, how a fetch can fail, and when a failed fetch is
//! tried again.  Sending a request is left to the caller.

use vstd::prelude::*;
use vstd::string::StringExecFns;

verus! {

/// The six endpoints that a polling cycle reads.
#[derive(Debug, Clone, Copy, PartialEq, Eq, Structural)]
pub enum EndpointKind {
    HourlyViews,
    WeeklyViews,
    HourlyClones,
    WeeklyClones,
    Referrers,
    PopularPaths,
}

/// Where the traffic API lives.
pub open spec fn api_base() -> Seq<char> {
    "https://api.github.com"@
}

/// The part of an endpoint's address that follows the repository.
pub open spec fn endpoint_suffix(kind: EndpointKind) -> Seq<char> {
    match kind {
        EndpointKind::HourlyViews => "/traffic/views?per=day"@,
        EndpointKind::WeeklyViews => "/traffic/views?per=week"@,
        EndpointKind::HourlyClones => "/traffic/clones?per=day"@,
        EndpointKind::WeeklyClones => "/traffic/clones?per=week"@,
        EndpointKind::Referrers => "/traffic/popular/referrers"@,
        EndpointKind::PopularPaths => "/traffic/popular/paths"@,
    }
}

/// The address of an endpoint for one repository.
pub open spec fn endpoint_address(
    kind: EndpointKind,
    author: Seq<char>,
    repository: Seq<char>,
) -> Seq<char> {
    api_base() + "/repos/"@ + author + "/"@ + repository + endpoint_suffix(kind)
}

/// The address of an endpoint for the repository `repository` of `author`.
pub fn endpoint_url(kind: EndpointKind, author: &String, repository: &String) -> (url: String)
    ensures
        url@ == endpoint_address(kind, author@, repository@),
{
    let suffix = match kind {
        EndpointKind::HourlyViews => "/traffic/views?per=day",
        EndpointKind::WeeklyViews => "/traffic/views?per=week",
        EndpointKind::HourlyClones => "/traffic/clones?per=day",
        EndpointKind::WeeklyClones => "/traffic/clones?per=week",
        EndpointKind::Referrers => "/traffic/popular/referrers",
        EndpointKind::PopularPaths => "/traffic/popular/paths",
    };
    let mut url = String::from_str("https://api.github.com");
    url.append("/repos/");
    url.append(author.as_str());
    url.append("/");
    url.append(repository.as_str());
    url.append(suffix);
    url
}

/// A credential for the traffic API.
#[derive(Debug, Clone, PartialEq, Eq)]
pub struct AuthToken(pub String);

/// The value of the authorization header that presents a credential.
pub fn bearer_header(token: &AuthToken) -> (header: String)
    ensures
        header@ == "Bearer "@ + token.0@,
{
    let mut header = String::from_str("Bearer ");
    header.append(token.0.as_str());
    header
}

/// How a fetch can fail.
#[derive(Debug, Clone, Copy, PartialEq, Eq, Structural)]
pub enum FetchError {
    /// The credential is invalid or has expired.
    Unauthorized,
    /// The server asks the caller to slow down.
    RateLimited,
    /// The request did not get through, or timed out.
    Network,
    /// The answer does not have the expected shape.
    Malformed,
}

impl FetchError {
    /// A failure of the transport, which a later attempt may not meet.
    pub open spec fn is_transient(self) -> bool {
        self == FetchError::Network || self == FetchError::RateLimited
    }

    /// A failure of the transport, which a later attempt may not meet.
    pub fn transient(&self) -> (transient: bool)
        ensures
            transient == self.is_transient(),
    {
        match self {
            FetchError::Network => true,
            FetchError::RateLimited => true,
            FetchError::Unauthorized => false,
            FetchError::Malformed => false,
        }
    }
}

/// What an HTTP status says of a fetch: nothing wrong where it is 200, else
/// how the fetch failed.  401 rejects the credential; 403 and 429 ask the
/// caller to slow down; every other status counts as a failure of the
/// transport.
pub open spec fn status_error(status_code: i32) -> Option<FetchError> {
    if status_code == 200 {
        None
    } else if status_code == 401 {
        Some(FetchError::Unauthorized)
    } else if status_code == 403 || status_code == 429 {
        Some(FetchError::RateLimited)
    } else {
        Some(FetchError::Network)
    }
}

/// What an HTTP status says of a fetch.
pub fn classify_status(status_code: i32) -> (error: Option<FetchError>)
    ensures
        error == status_error(status_code),
{
    if status_code == 200 {
        None
    } else if status_code == 401 {
        Some(FetchError::Unauthorized)
    } else if status_code == 403 || status_code == 429 {
        Some(FetchError::RateLimited)
    } else {
        Some(FetchError::Network)
    }
}

/// What to do after a failed fetch.
#[derive(Debug, Clone, Copy, PartialEq, Eq, Structural)]
pub enum RetryDecision {
    /// Try again after this many milliseconds.
    RetryAfter { delay_ms: u64 },
    /// Do not try again in this cycle.
    GiveUp,
}

/// A bounded retry policy with a delay that doubles from one attempt to the
/// next, up to a ceiling.
#[derive(Debug, Clone, Copy, PartialEq, Eq)]
pub struct RetryPolicy {
    /// How many times a fetch is tried again at most.
    pub max_retries: u32,
    /// The delay before the first retry, in milliseconds.
    pub base_delay_ms: u64,
    /// The longest delay before any retry, in milliseconds.
    pub max_delay_ms: u64,
}

/// The smaller of two delays.
pub open spec fn shorter(a: int, b: int) -> int {
    if a <= b {
        a
    } else {
        b
    }
}

impl RetryPolicy {
    /// The delay before the retry that follows `failures` failed attempts
    /// (at least one): the base delay doubled once for every failure after
    /// the first, and never longer than the ceiling.
    pub open spec fn delay_after(self, failures: nat) -> int
        decreases failures,
    {
        if failures <= 1 {
            shorter(self.base_delay_ms as int, self.max_delay_ms as int)
        } else {
            shorter(2 * self.delay_after((failures - 1) as nat), self.max_delay_ms as int)
        }
    }

    /// What the policy says after the `failures`-th failed attempt of a
    /// fetch, which failed with `error`.
    pub open spec fn decision(self, error: FetchError, failures: u32) -> RetryDecision {
        if error.is_transient() && 1 <= failures <= self.max_retries {
            RetryDecision::RetryAfter { delay_ms: self.delay_after(failures as nat) as u64 }
        } else {
            RetryDecision::GiveUp
        }
    }

    /// Delays are non-negative, never exceed the ceiling, and never shrink
    /// from one failure to the next.
    pub proof fn lemma_delay_bounds(self, failures: nat)
        ensures
            0 <= self.delay_after(failures) <= self.max_delay_ms,
            self.delay_after(failures) <= self.delay_after(failures + 1),
        decreases failures,
    {
        if failures > 1 {
            self.lemma_delay_bounds((failures - 1) as nat);
        }
        if failures >= 1 {
            assert(self.delay_after(failures + 1) == shorter(
                2 * self.delay_after(failures),
                self.max_delay_ms as int,
            ));
        } else {
            assert(self.delay_after(1) == self.delay_after(0));
        }
    }

    /// Decides what follows the `failures`-th failed attempt of a fetch.
    /// Only failures of the transport are tried again, and only while no
    /// more than `max_retries` attempts have failed; a rejected credential
    /// and a malformed answer are final.
    pub fn decide(&self, error: FetchError, failures: u32) -> (decision: RetryDecision)
        ensures
            decision == self.decision(error, failures),
    {
        if !error.transient() || failures < 1 || failures > self.max_retries {
            return RetryDecision::GiveUp;
        }
        let mut delay: u64 = if self.base_delay_ms <= self.max_delay_ms {
            self.base_delay_ms
        } else {
            self.max_delay_ms
        };
        let mut done: u32 = 1;
        while done < failures
            invariant
                1 <= done <= failures,
                delay == self.delay_after(done as nat),
                delay <= self.max_delay_ms,
            decreases failures - done,
        {
            delay = if delay <= self.max_delay_ms / 2 && 2 * delay <= self.max_delay_ms {
                2 * delay
            } else {
                self.max_delay_ms
            };
            done += 1;
        }
        RetryDecision::RetryAfter { delay_ms: delay }
    }
}

/// **Retries are bounded, and only the transport is retried.**  After more
/// than `max_retries` failures the policy gives up, whatever failed; a
/// rejected credential and a malformed answer are never tried again; and
/// every delay that the policy asks for is at most its ceiling.
pub proof fn law_retry_is_bounded(policy: RetryPolicy, error: FetchError, failures: u32)
    ensures
        failures > policy.max_retries ==> policy.decision(error, failures) == RetryDecision::GiveUp,
        error == FetchError::Unauthorized || error == FetchError::Malformed ==> policy.decision(
            error,
            failures,
        ) == RetryDecision::GiveUp,
        policy.decision(error, failures) matches RetryDecision::RetryAfter { delay_ms } ==> delay_ms
            <= policy.max_delay_ms,
{
    policy.lemma_delay_bounds(failures as nat);
}

} // verus!
