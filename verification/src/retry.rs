use vstd::prelude::*;

use crate::backoff::{BackoffIterator, BackoffState};
use crate::error::{Code, Error, ErrorView};
use crate::client::Body;
use crate::server::Header;
use crate::time::{Duration, NANOS_PER_SEC};

verus! {

/// Why a single attempt at a request did not produce a usable response.
pub enum SendError {
    /// The server answered `429 Too Many Requests`, possibly naming the delay to wait.
    Throttle { backoff: Option<Duration> },
    /// The server answered `503 Service Unavailable`.
    Unavailable,
    /// The server answered with another failure; the request is not retried.
    Other { error: Error },
    /// The request failed in transport. `reset_body` tells whether any of the body may have been
    /// sent, so that it must be rewound before a retry.
    Io { error: Error, reset_body: bool },
}

/// What to do before the next attempt at a request.
pub struct RetryStep {
    /// How long to wait.
    pub backoff: Duration,
    /// Whether the request body must be rewound.
    pub reset_body: bool,
    /// Whether to move on to the next node.
    pub change_node: bool,
}

/// How the response to an attempt is treated, by its status.
#[derive(PartialEq, Eq, Structural)]
pub enum ResponseClass {
    Success,
    Throttle,
    Unavailable,
    Failure,
}

/// The treatment of a response status: any 2xx status is a success, 429 and 503 are retried, and
/// any other status is a failure.
pub open spec fn spec_classify_status(status: u16) -> ResponseClass {
    if 200 <= status <= 299 {
        ResponseClass::Success
    } else if status == 429 {
        ResponseClass::Throttle
    } else if status == 503 {
        ResponseClass::Unavailable
    } else {
        ResponseClass::Failure
    }
}

/// Every 2xx status is a success and nothing else is; 429 alone is throttled and 503 alone is
/// unavailable; every other status is a failure.
pub proof fn lemma_status_classes(status: u16)
    ensures
        (200 <= status <= 299) <==> spec_classify_status(status) == ResponseClass::Success,
        (status == 429) <==> spec_classify_status(status) == ResponseClass::Throttle,
        (status == 503) <==> spec_classify_status(status) == ResponseClass::Unavailable,
        !(200 <= status <= 299 || status == 429 || status == 503) <==> spec_classify_status(status)
            == ResponseClass::Failure,
{
}

/// Decides how the response to an attempt is treated, by its status.
pub fn classify_status(status: u16) -> (res: ResponseClass)
    ensures
        res == spec_classify_status(status),
{
    if 200 <= status && status <= 299 {
        ResponseClass::Success
    } else if status == 429 {
        ResponseClass::Throttle
    } else if status == 503 {
        ResponseClass::Unavailable
    } else {
        ResponseClass::Failure
    }
}

/// Turns a transport failure into the reason an attempt failed. A failure to connect sent nothing,
/// so the body need not be rewound; any other failure may have sent part of it.
pub fn transport_failure(error: Error, is_connect_error: bool) -> (res: SendError)
    ensures
        res matches SendError::Io { error: e, reset_body } && e@ == error@ && reset_body
            == !is_connect_error,
{
    SendError::Io { error, reset_body: !is_connect_error }
}

/// `error` is an internal error, as `Error::internal_safe` makes it, with the cause `cause`.
pub open spec fn internal_safe_error(error: ErrorView, cause: Seq<char>) -> bool {
    &&& error.cause == cause
    &&& !error.cause_safe
    &&& error == error.with_type(Code::Internal)
}

/// Decides what follows a failed attempt at a request.
///
/// A failure other than throttling, unavailability or transport is returned as it is. Otherwise one
/// retry is taken from `backoffs`; when none is left the request fails. A request that is not
/// idempotent is never retried. A throttled request waits as long as the server asked, if it said,
/// and retries on the same node; the other retries wait the drawn backoff and move on to the next
/// node.
pub fn plan_retry(backoffs: &mut BackoffIterator, idempotent: bool, failure: SendError) -> (res:
    Result<RetryStep, Error>)
    requires
        !(failure is Other) ==> old(backoffs)@.next_ok(),
    ensures
        failure is Other ==> final(backoffs)@ == old(backoffs)@,
        !(failure is Other) ==> final(backoffs)@ == (BackoffState {
            retries: (old(backoffs)@.retries + 1) as u32,
            ..old(backoffs)@
        }),
        match failure {
            SendError::Other { error } => res matches Err(e) && e@ == error@,
            SendError::Throttle { backoff } => {
                if !old(backoffs)@.draws_next() {
                    res matches Err(e) && internal_safe_error(
                        e@,
                        "exceeded max retry limit after 429"@,
                    )
                } else if !idempotent {
                    res matches Err(e) && internal_safe_error(
                        e@,
                        "unable to retry non-idempotent request"@,
                    )
                } else {
                    res matches Ok(step) && step.reset_body && !step.change_node && match backoff {
                        Some(b) => step.backoff == b,
                        None => step.backoff@ < final(backoffs)@.window(
                            final(backoffs)@.retries as nat,
                        ),
                    }
                }
            },
            SendError::Unavailable => {
                if !old(backoffs)@.draws_next() {
                    res matches Err(e) && internal_safe_error(
                        e@,
                        "exceeded max retry limit after 503"@,
                    )
                } else if !idempotent {
                    res matches Err(e) && internal_safe_error(
                        e@,
                        "unable to retry non-idempotent request"@,
                    )
                } else {
                    res matches Ok(step) && step.reset_body && step.change_node && step.backoff@
                        < final(backoffs)@.window(final(backoffs)@.retries as nat)
                }
            },
            SendError::Io { error, reset_body } => {
                if !old(backoffs)@.draws_next() {
                    res matches Err(e) && e@ == error@
                } else if !idempotent {
                    res matches Err(e) && internal_safe_error(
                        e@,
                        "unable to retry non-idempotent request"@,
                    )
                } else {
                    res matches Ok(step) && step.reset_body == reset_body && step.change_node
                        && step.backoff@ < final(backoffs)@.window(final(backoffs)@.retries as nat)
                }
            },
        },
{
    let (backoff, reset_body, change_node) = match failure {
        SendError::Throttle { backoff } => {
            let internal_backoff = match backoffs.next() {
                Some(b) => b,
                None => {
                    return Err(Error::internal_safe("exceeded max retry limit after 429"));
                },
            };
            let backoff = match backoff {
                Some(b) => b,
                None => internal_backoff,
            };
            (backoff, true, false)
        },
        SendError::Unavailable => {
            let backoff = match backoffs.next() {
                Some(b) => b,
                None => {
                    return Err(Error::internal_safe("exceeded max retry limit after 503"));
                },
            };
            (backoff, true, true)
        },
        SendError::Other { error } => {
            return Err(error);
        },
        SendError::Io { error, reset_body } => {
            let backoff = match backoffs.next() {
                Some(b) => b,
                None => {
                    return Err(error);
                },
            };
            (backoff, reset_body, true)
        },
    };
    if !idempotent {
        return Err(Error::internal_safe("unable to retry non-idempotent request"));
    }
    Ok(RetryStep { backoff, reset_body, change_node })
}

/// What a `Retry-After` header asks: a number of seconds to wait, or a date, given as the time
/// left until it, none if it has passed.
pub enum RetryAfter {
    DelaySeconds(u64),
    HttpDate(Option<Duration>),
}

/// How long a throttling server asked to be left alone, if it said and the header parses.
pub open spec fn requested_delay(h: Header<RetryAfter>) -> Option<nat> {
    match h {
        Header::Present(RetryAfter::DelaySeconds(s)) => Some(s as nat * NANOS_PER_SEC as nat),
        Header::Present(RetryAfter::HttpDate(Some(d))) => Some(d@),
        _ => None,
    }
}

/// A throttling server's delay is the seconds it asks for, or the time until the date it names;
/// a missing or malformed header, or a date already past, asks for no delay.
pub proof fn lemma_requested_delay(s: u64, d: Duration, text: String)
    ensures
        requested_delay(Header::Present(RetryAfter::DelaySeconds(s))) == Some((s * 1_000_000_000) as nat),
        requested_delay(Header::Present(RetryAfter::HttpDate(Some(d)))) == Some(d@),
        requested_delay(Header::Present(RetryAfter::HttpDate(None))) is None,
        requested_delay(Header::<RetryAfter>::Absent) is None,
        requested_delay(Header::<RetryAfter>::Malformed(text)) is None,
{
}

/// Decides the outcome of an attempt that got a response with `status`: a success, or the
/// reason it failed. A throttled attempt waits as long as the `Retry-After` header asks; a
/// failed response's error is `failure`, which must be given for such a status.
pub fn response_outcome(status: u16, retry_after: &Header<RetryAfter>, failure: Option<Error>) -> (res: Result<(), SendError>)
    requires
        spec_classify_status(status) == ResponseClass::Failure ==> failure is Some,
    ensures
        match spec_classify_status(status) {
            ResponseClass::Success => res is Ok,
            ResponseClass::Throttle => res matches Err(SendError::Throttle { backoff }) && match backoff {
                Some(b) => requested_delay(*retry_after) == Some(b@),
                None => requested_delay(*retry_after) is None,
            },
            ResponseClass::Unavailable => res matches Err(SendError::Unavailable),
            ResponseClass::Failure => res matches Err(SendError::Other { error }) && Some(error)
                == failure,
        },
{
    match classify_status(status) {
        ResponseClass::Success => Ok(()),
        ResponseClass::Throttle => {
            let backoff = match retry_after {
                Header::Present(RetryAfter::DelaySeconds(s)) => Some(Duration::from_secs(*s)),
                Header::Present(RetryAfter::HttpDate(d)) => *d,
                _ => None,
            };
            Err(SendError::Throttle { backoff })
        },
        ResponseClass::Unavailable => Err(SendError::Unavailable),
        ResponseClass::Failure => match failure {
            Some(error) => Err(SendError::Other { error }),
            None => {
                assert(false);
                Err(SendError::Unavailable)
            },
        },
    }
}

/// Rewinds the body before a retry where the step asks for it; a body that cannot be rewound
/// ends the request.
pub fn prepare_retry<B: Body>(step: &RetryStep, body: &mut Option<B>) -> (res: Result<(), Error>)
    ensures
        match *old(body) {
            Some(b) => if step.reset_body {
                &&& *final(body) is Some
                &&& (b.spec_resettable() ==> res is Ok)
                &&& (!b.spec_resettable() ==> (res matches Err(e) && internal_safe_error(
                    e@,
                    "unable to reset body when retrying request"@,
                )))
            } else {
                res is Ok && *final(body) == *old(body)
            },
            None => res is Ok && *final(body) is None,
        },
{
    if step.reset_body {
        match body {
            Some(b) => {
                if !b.reset() {
                    return Err(Error::internal_safe("unable to reset body when retrying request"));
                }
            },
            None => {},
        }
    }
    Ok(())
}

} // verus!
