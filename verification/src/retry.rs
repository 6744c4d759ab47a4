//! The retry policy and the decisions of the retrying request executor.
//!
//! Sending a request and sleeping are left to the caller. After every send
//! the caller reports what came back, and the executor answers what to do
//! next: hand the response on, wait and send again, or fail.

use reqwest::header::HeaderMap;
use vstd::arithmetic::power2::lemma_pow2_strictly_increases;
use vstd::arithmetic::power2::pow2;
use vstd::prelude::*;

use crate::delay::Delay;
use crate::delay::NANOS_PER_MILLI;
use crate::delay::NANOS_PER_SEC;
use crate::error::OpenAiError;
use crate::error::OpenAiRateLimitHeaders;
use crate::rate_limit::extract_rate_limit_info;
use crate::rate_limit::header_values;
use crate::rate_limit::option_nanos;
use crate::rate_limit::parse_retry_after_seconds;
use crate::rate_limit::rate_limit_snapshot;
use crate::rate_limit::reset_indicator;
use crate::rate_limit::retry_after_hint;
use crate::rate_limit::retry_after_secs;
use crate::text::option_text;

verus! {

/// The status "too many requests".
pub const TOO_MANY_REQUESTS: u16 = 429;

/// The largest exponent by which the base delay is doubled.
pub const MAX_BACKOFF_EXPONENT: u32 = 10;

/// How often a request is sent again, and how long to wait in between.
#[derive(Clone, Copy, Debug)]
pub struct RetryPolicy {
    pub max_retries: u32,
    pub base_delay: Delay,
    pub max_delay: Delay,
    pub respect_retry_after: bool,
}

/// `base * 2^min(attempt, 10)`, capped at `max`.
pub open spec fn backoff_nanos(base: nat, max: nat, attempt: nat) -> nat {
    let exponent = if attempt < 10 {
        attempt
    } else {
        10
    };
    let grown = base * pow2(exponent);
    if grown > max {
        max
    } else {
        grown
    }
}

/// A status that reports success.
pub open spec fn is_success(status: u16) -> bool {
    200 <= status < 300
}

/// A status that reports an error on the server's side.
pub open spec fn is_server_error(status: u16) -> bool {
    500 <= status < 600
}

/// A status after which the request may be sent again.
pub open spec fn is_retryable_status(status: u16) -> bool {
    status == TOO_MANY_REQUESTS || is_server_error(status)
}

/// A transport failure after which the request may be sent again: a
/// timeout, a connection failure, or any failure that carries no status.
pub open spec fn is_retryable_failure(is_timeout: bool, is_connect: bool, is_status: bool) -> bool {
    is_timeout || is_connect || !is_status
}

impl Default for RetryPolicy {
    /// The default policy, as [`RetryPolicy::is_default`] describes it.
    fn default() -> (policy: RetryPolicy)
        ensures
            policy.is_default(),
    {
        RetryPolicy {
            max_retries: 3,
            base_delay: Delay::from_millis(500),
            max_delay: Delay::from_secs(30),
            respect_retry_after: true,
        }
    }
}

impl RetryPolicy {
    /// Whether this is the default policy: three retries, starting at half
    /// a second and capped at thirty seconds, with the service's
    /// retry-after hint respected.
    pub open spec fn is_default(&self) -> bool {
        &&& self.max_retries == 3
        &&& self.base_delay@ == 500 * NANOS_PER_MILLI as nat
        &&& self.max_delay@ == 30 * NANOS_PER_SEC as nat
        &&& self.respect_retry_after
    }

    /// The computed delay before the retry that follows attempt `attempt`,
    /// in nanoseconds.
    pub open spec fn backoff(&self, attempt: u32) -> nat {
        backoff_nanos(self.base_delay@, self.max_delay@, attempt as nat)
    }

    /// The delay that is slept after attempt `attempt` when the service
    /// hinted at `hint_secs` whole seconds (zero: no hint): the larger of
    /// the hint and the computed delay where hints are respected, else the
    /// computed delay.
    pub open spec fn delay_with_hint(&self, attempt: u32, hint_secs: nat) -> nat {
        let hint = hint_secs * NANOS_PER_SEC as nat;
        if self.respect_retry_after && hint > self.backoff(attempt) {
            hint
        } else {
            self.backoff(attempt)
        }
    }

    /// The computed delay before the retry that follows attempt `attempt`.
    pub fn backoff_for(&self, attempt: u32) -> (delay: Delay)
        ensures
            delay@ == self.backoff(attempt),
    {
        let exponent: u32 = if attempt < MAX_BACKOFF_EXPONENT {
            attempt
        } else {
            MAX_BACKOFF_EXPONENT
        };
        let mut factor: u32 = 1;
        let mut doubled: u32 = 0;
        proof {
            vstd::arithmetic::power2::lemma2_to64();
        }
        while doubled < exponent
            invariant
                doubled <= exponent <= 10,
                factor == pow2(doubled as nat),
                factor <= 1024,
            decreases exponent - doubled,
        {
            proof {
                vstd::arithmetic::power2::lemma_pow2_unfold((doubled + 1) as nat);
                if doubled + 1 < 10 {
                    lemma_pow2_strictly_increases((doubled + 1) as nat, 10);
                }
                vstd::arithmetic::power2::lemma2_to64();
            }
            factor = factor * 2;
            doubled = doubled + 1;
        }
        let grown: Delay = self.base_delay.saturating_mul(factor);
        let longest: u128 = self.max_delay.as_nanos();
        if grown.as_nanos() > longest {
            self.max_delay
        } else {
            grown
        }
    }
}

/// One attempt that is to be followed by another: its index, counted from
/// zero, the delay to sleep before the next one, and whether the service's
/// retry-after hint took the place of the computed delay.
#[derive(Clone, Copy, Debug, PartialEq, Eq)]
pub struct RequestAttempt {
    pub attempt: u32,
    pub delay: Delay,
    pub hint_overrode: bool,
}

/// A response that ends the exchange in failure. Its body is still to be
/// read.
#[derive(Debug)]
pub enum Rejection {
    /// "Too many requests", with the retries used up.
    RateLimited {
        status: u16,
        retry_after: Option<Delay>,
        reset_at: Option<String>,
        headers: OpenAiRateLimitHeaders,
    },
    /// Any other status that is no success.
    Api { status: u16 },
}

impl Rejection {
    /// The error that the rejection becomes once the body has been read.
    pub fn into_error(self, body: String) -> (e: OpenAiError)
        ensures
            match self {
                Rejection::RateLimited { status, retry_after, reset_at, headers } => e
                    == (OpenAiError::RateLimited { status, body, retry_after, reset_at, headers }),
                Rejection::Api { status } => e == (OpenAiError::Api { status, body }),
            },
    {
        match self {
            Rejection::RateLimited {
                status,
                retry_after,
                reset_at,
                headers,
            } => OpenAiError::RateLimited { status, body, retry_after, reset_at, headers },
            Rejection::Api { status } => OpenAiError::Api { status, body },
        }
    }
}

/// What to do with a response.
#[derive(Debug)]
pub enum ResponseAction {
    /// Hand the response to the caller: it is a success.
    Deliver,
    /// Sleep for the attempt's delay, then send the request again.
    Retry(RequestAttempt),
    /// Read the body and fail with the rejection's error.
    Reject(Rejection),
}

/// What came back from one send, as far as the decisions depend on it.
pub enum Reply {
    /// A response with this status, on account of whose `retry-after`
    /// header that many whole seconds are to be waited (it may ask for
    /// none).
    Response { status: u16, retry_after_secs: nat },
    /// No response.
    Failure { retryable: bool },
}

/// What is decided after one send.
pub enum Decision {
    Deliver,
    /// Sleep for `delay` nanoseconds and send again.
    Retry { delay: nat },
    RejectRateLimited,
    RejectApi,
    FailTransport,
}

/// The decision that the policy prescribes after attempt `attempt` got the
/// reply `reply`.
pub open spec fn decide(policy: RetryPolicy, attempt: u32, reply: Reply) -> Decision {
    match reply {
        Reply::Response { status, retry_after_secs } => {
            if is_success(status) {
                Decision::Deliver
            } else if is_retryable_status(status) && attempt < policy.max_retries {
                Decision::Retry { delay: policy.delay_with_hint(attempt, retry_after_secs) }
            } else if status == TOO_MANY_REQUESTS {
                Decision::RejectRateLimited
            } else {
                Decision::RejectApi
            }
        },
        Reply::Failure { retryable } => {
            if attempt < policy.max_retries && retryable {
                Decision::Retry { delay: policy.backoff(attempt) }
            } else {
                Decision::FailTransport
            }
        },
    }
}

/// How an exchange went: the delays slept, in order, the number of requests
/// sent, and the decision that ended it, if the replies reached one.
pub struct Exchange {
    pub sleeps: Seq<nat>,
    pub sent: nat,
    pub end: Option<Decision>,
}

/// The exchange that unfolds when the sends, from attempt `attempt` on, get
/// the replies `replies` in this order. Replies after the one that ends the
/// exchange are never asked for.
pub open spec fn exchange(policy: RetryPolicy, attempt: u32, replies: Seq<Reply>) -> Exchange
    decreases replies.len(),
{
    if replies.len() == 0 {
        Exchange { sleeps: Seq::empty(), sent: 0, end: None }
    } else {
        match decide(policy, attempt, replies[0]) {
            Decision::Retry { delay } => {
                let rest = exchange(policy, (attempt + 1) as u32, replies.drop_first());
                Exchange { sleeps: seq![delay] + rest.sleeps, sent: rest.sent + 1, end: rest.end }
            },
            last => Exchange { sleeps: Seq::empty(), sent: 1, end: Some(last) },
        }
    }
}

/// The state of one logical request: its policy and the index of the
/// attempt that is under way.
#[derive(Clone, Copy, Debug)]
pub struct RetryExecutor {
    pub policy: RetryPolicy,
    pub attempt: u32,
}

/// Whether a failed send may be repeated: retries are left, and the failure
/// is a timeout, a connection failure, or carries no status.
pub fn transport_retry_allowed(
    attempt: u32,
    max_retries: u32,
    is_timeout: bool,
    is_connect: bool,
    is_status: bool,
) -> (allowed: bool)
    ensures
        allowed == (attempt < max_retries && is_retryable_failure(
            is_timeout,
            is_connect,
            is_status,
        )),
{
    attempt < max_retries && (is_timeout || is_connect || !is_status)
}

/// Whether a failure is related to a timeout, as `reqwest::Error` says of
/// itself.
pub uninterp spec fn failure_timeout(error: reqwest::Error) -> bool;

/// Whether a failure is related to connecting, as `reqwest::Error` says of
/// itself.
pub uninterp spec fn failure_connect(error: reqwest::Error) -> bool;

/// Whether a failure comes from a status that reports an error, as
/// `reqwest::Error` says of itself.
pub uninterp spec fn failure_status(error: reqwest::Error) -> bool;

/// Whether the request may be sent again after the failure `error`.
pub open spec fn failure_is_retryable(error: reqwest::Error) -> bool {
    is_retryable_failure(failure_timeout(error), failure_connect(error), failure_status(error))
}

/// Calls `reqwest::Error::is_timeout`: what the error answers, which
/// depends on the error alone.
#[verifier::external_body]
fn failure_is_timeout(error: &reqwest::Error) -> (b: bool)
    ensures
        b == failure_timeout(*error),
{
    error.is_timeout()
}

/// Calls `reqwest::Error::is_connect`: what the error answers, which
/// depends on the error alone.
#[verifier::external_body]
fn failure_is_connect(error: &reqwest::Error) -> (b: bool)
    ensures
        b == failure_connect(*error),
{
    error.is_connect()
}

/// Calls `reqwest::Error::is_status`: what the error answers, which
/// depends on the error alone.
#[verifier::external_body]
fn failure_is_status(error: &reqwest::Error) -> (b: bool)
    ensures
        b == failure_status(*error),
{
    error.is_status()
}

impl RetryExecutor {
    /// An executor about to make its first attempt.
    pub fn new(policy: RetryPolicy) -> (executor: RetryExecutor)
        ensures
            executor.policy == policy,
            executor.attempt == 0,
    {
        RetryExecutor { policy, attempt: 0 }
    }

    /// Decides what to do with a response of status `status` and headers
    /// `headers`. A success is delivered at once. "Too many requests" and
    /// server errors are retried while retries are left, after the computed
    /// delay or the longer one that the service asked for. Anything else
    /// is rejected, and so is a retryable status once the retries are used
    /// up.
    pub fn on_response(&mut self, status: u16, headers: &HeaderMap) -> (action: ResponseAction)
        ensures
            final(self).policy == old(self).policy,
            match decide(
                old(self).policy,
                old(self).attempt,
                Reply::Response {
                    status,
                    retry_after_secs: retry_after_secs(header_values(*headers)),
                },
            ) {
                Decision::Deliver => action is Deliver && final(self).attempt == old(self).attempt,
                Decision::Retry { delay } => {
                    &&& action matches ResponseAction::Retry(next)
                    &&& next.attempt == old(self).attempt
                    &&& next.delay@ == delay
                    &&& next.hint_overrode == (old(self).policy.respect_retry_after
                        && retry_after_secs(header_values(*headers)) * NANOS_PER_SEC as nat > old(
                        self,
                    ).policy.backoff(old(self).attempt))
                    &&& final(self).attempt == old(self).attempt + 1
                },
                Decision::RejectRateLimited => {
                    &&& action matches ResponseAction::Reject(
                        Rejection::RateLimited { status: code, retry_after, reset_at, headers: info },
                    )
                    &&& code == status
                    &&& option_nanos(retry_after) == retry_after_hint(header_values(*headers))
                    &&& option_text(reset_at) == reset_indicator(
                        rate_limit_snapshot(header_values(*headers)),
                    )
                    &&& info@ == rate_limit_snapshot(header_values(*headers))
                    &&& final(self).attempt == old(self).attempt
                },
                Decision::RejectApi => {
                    &&& action matches ResponseAction::Reject(Rejection::Api { status: code })
                    &&& code == status
                    &&& final(self).attempt == old(self).attempt
                },
                Decision::FailTransport => false,
            },
    {
        if 200 <= status && status < 300 {
            return ResponseAction::Deliver;
        }
        let should_retry: bool = status == TOO_MANY_REQUESTS || (500 <= status && status < 600);
        if should_retry && self.attempt < self.policy.max_retries {
            let mut delay: Delay = self.policy.backoff_for(self.attempt);
            let mut hint_overrode: bool = false;
            if self.policy.respect_retry_after {
                let hint: Delay = parse_retry_after_seconds(headers);
                if hint.longer_than(&delay) {
                    delay = hint;
                    hint_overrode = true;
                }
            }
            let next = RequestAttempt { attempt: self.attempt, delay, hint_overrode };
            self.attempt = self.attempt + 1;
            ResponseAction::Retry(next)
        } else if status == TOO_MANY_REQUESTS {
            let (retry_after, reset_at, info) = extract_rate_limit_info(headers);
            ResponseAction::Reject(
                Rejection::RateLimited { status, retry_after, reset_at, headers: info },
            )
        } else {
            ResponseAction::Reject(Rejection::Api { status })
        }
    }

    /// Decides what to do after a send that produced no response, given
    /// what kind of failure it was: retry after the computed delay where
    /// [`transport_retry_allowed`] says so, else fail.
    pub fn on_failure(&mut self, is_timeout: bool, is_connect: bool, is_status: bool) -> (next:
        Option<RequestAttempt>)
        ensures
            final(self).policy == old(self).policy,
            match decide(
                old(self).policy,
                old(self).attempt,
                Reply::Failure { retryable: is_retryable_failure(is_timeout, is_connect, is_status) },
            ) {
                Decision::Retry { delay } => {
                    &&& next matches Some(a)
                    &&& a.attempt == old(self).attempt
                    &&& a.delay@ == delay
                    &&& !a.hint_overrode
                    &&& final(self).attempt == old(self).attempt + 1
                },
                _ => next is None && final(self).attempt == old(self).attempt,
            },
    {
        if transport_retry_allowed(
            self.attempt,
            self.policy.max_retries,
            is_timeout,
            is_connect,
            is_status,
        ) {
            let delay: Delay = self.policy.backoff_for(self.attempt);
            let next = RequestAttempt { attempt: self.attempt, delay, hint_overrode: false };
            self.attempt = self.attempt + 1;
            Some(next)
        } else {
            None
        }
    }

    /// Decides what to do after a send that failed with `error`. While
    /// retries are left and the error is a timeout, a connection failure or
    /// carries no status, the request is sent again after the computed
    /// delay. Otherwise the exchange fails with the error that carries
    /// `error`.
    pub fn on_transport_error(&mut self, error: reqwest::Error) -> (r: Result<
        RequestAttempt,
        OpenAiError,
    >)
        ensures
            final(self).policy == old(self).policy,
            r is Ok <==> old(self).attempt < old(self).policy.max_retries && failure_is_retryable(
                error,
            ),
            match r {
                Ok(next) => {
                    &&& next.attempt == old(self).attempt
                    &&& next.delay@ == old(self).policy.backoff(old(self).attempt)
                    &&& !next.hint_overrode
                    &&& final(self).attempt == old(self).attempt + 1
                },
                Err(e) => e == OpenAiError::Http(error) && final(self).attempt == old(self).attempt,
            },
    {
        let is_timeout: bool = failure_is_timeout(&error);
        let is_connect: bool = failure_is_connect(&error);
        let is_status: bool = failure_is_status(&error);
        match self.on_failure(is_timeout, is_connect, is_status) {
            Some(next) => Ok(next),
            None => Err(OpenAiError::Http(error)),
        }
    }
}

/// The computed delay never shrinks as the attempts go on: a later attempt
/// waits at least as long as an earlier one.
pub proof fn lemma_backoff_monotonic(policy: RetryPolicy, earlier: u32, later: u32)
    requires
        earlier <= later,
    ensures
        policy.backoff(earlier) <= policy.backoff(later),
{
    let low: nat = if earlier < 10 {
        earlier as nat
    } else {
        10
    };
    let high: nat = if later < 10 {
        later as nat
    } else {
        10
    };
    if low < high {
        lemma_pow2_strictly_increases(low, high);
    }
    let base = policy.base_delay@;
    assert(base * pow2(low) <= base * pow2(high)) by (nonlinear_arith)
        requires
            pow2(low) <= pow2(high),
    ;
}

/// The computed delay is never longer than the policy's longest delay.
pub proof fn lemma_backoff_capped(policy: RetryPolicy, attempt: u32)
    ensures
        policy.backoff(attempt) <= policy.max_delay@,
{
}

/// Where hints are respected and retries are left, the sleep after a "too
/// many requests" response is at least as long as the wait that the
/// response asked for, and at least as long as the computed delay.
pub proof fn lemma_retry_after_respected(policy: RetryPolicy, attempt: u32, hint_secs: nat)
    requires
        policy.respect_retry_after,
        attempt < policy.max_retries,
    ensures
        decide(
            policy,
            attempt,
            Reply::Response { status: TOO_MANY_REQUESTS, retry_after_secs: hint_secs },
        ) matches Decision::Retry { delay } && delay >= hint_secs * NANOS_PER_SEC as nat && delay
            >= policy.backoff(attempt),
{
}

/// Whether every reply but the last is a server error and the last one is a
/// success.
pub open spec fn server_errors_then_success(replies: Seq<Reply>) -> bool {
    &&& replies.len() >= 1
    &&& forall|i: int|
        0 <= i < replies.len() - 1 ==> (#[trigger] replies[i] matches Reply::Response {
            status,
            ..
        } && is_server_error(status))
    &&& replies.last() matches Reply::Response { status, .. } && is_success(status)
}

/// Server errors followed by a success end in delivery, from any attempt
/// on that leaves a retry for each of the errors.
proof fn lemma_exchange_recovers(policy: RetryPolicy, attempt: u32, replies: Seq<Reply>)
    requires
        server_errors_then_success(replies),
        attempt + replies.len() - 1 <= policy.max_retries,
    ensures
        exchange(policy, attempt, replies).end == Some(Decision::Deliver),
        exchange(policy, attempt, replies).sleeps.len() == replies.len() - 1,
        exchange(policy, attempt, replies).sent == replies.len(),
    decreases replies.len(),
{
    if replies.len() == 1 {
        assert(replies[0] == replies.last());
    } else {
        let rest = replies.drop_first();
        assert(replies[0] matches Reply::Response { status, .. } && is_server_error(status));
        assert(rest.last() == replies.last());
        assert forall|i: int| 0 <= i < rest.len() - 1 implies (#[trigger] rest[i] matches Reply::Response {
            status,
            ..
        } && is_server_error(status)) by {
            assert(rest[i] == replies[i + 1]);
        }
        lemma_exchange_recovers(policy, (attempt + 1) as u32, rest);
    }
}

/// When every send but the last meets a server error and the last one a
/// success, and the policy allows a retry for each of the errors, the
/// exchange delivers the success, having sent one request per reply and
/// slept once after each error.
pub proof fn lemma_success_after_server_errors(policy: RetryPolicy, replies: Seq<Reply>)
    requires
        server_errors_then_success(replies),
        policy.max_retries >= replies.len() - 1,
    ensures
        exchange(policy, 0, replies).end == Some(Decision::Deliver),
        exchange(policy, 0, replies).sleeps.len() == replies.len() - 1,
        exchange(policy, 0, replies).sent == replies.len(),
{
    lemma_exchange_recovers(policy, 0, replies);
}

} // verus!
