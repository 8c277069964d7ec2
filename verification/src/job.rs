//! What a kind of job decides for itself: which errors end it, and when it is tried again.

use vstd::arithmetic::power2::{lemma2_to64, lemma_pow2_strictly_increases, lemma_pow2_unfold, pow2};
use vstd::prelude::*;

use crate::time::{checked_add_seconds, read_clock, read_from_clock, Timestamp, MAX_SECS};

verus! {

/// The longest wait between two tries of a job: 10 minutes.
pub const MAX_RETRY_SECS: i64 = 600;

/// The error of a failed job, as `anyhow::Error` carries it. Nothing is known of what it holds.
#[verifier::external_type_specification]
#[verifier::external_body]
pub struct ExError(anyhow::Error);

/// The seconds to wait after a job was retried `retries` times: two to the power of that number,
/// but no more than [`MAX_RETRY_SECS`].
pub open spec fn backoff(retries: nat) -> int {
    if pow2(retries) < MAX_RETRY_SECS {
        pow2(retries) as int
    } else {
        MAX_RETRY_SECS as int
    }
}

/// When a job that failed at time `now` is tried again, unless the calendar ends before that.
pub open spec fn next_retry(now: Timestamp, retries: nat) -> Option<Timestamp> {
    if now.secs + backoff(retries) <= MAX_SECS {
        Some(now.plus(backoff(retries)))
    } else {
        None
    }
}

/// The seconds to wait after a job was retried `retries` times.
pub fn retry_delay(retries: i64) -> (seconds: i64)
    requires
        0 <= retries,
    ensures
        seconds == backoff(retries as nat),
{
    let doublings: i64 = if retries < 10 {
        retries
    } else {
        10
    };
    let mut seconds: i64 = 1;
    let mut i: i64 = 0;
    proof {
        lemma2_to64();
    }
    while i < doublings
        invariant
            0 <= i <= doublings <= 10,
            seconds == pow2(i as nat),
            pow2(10) == 1024,
        decreases doublings - i,
    {
        proof {
            lemma_pow2_unfold((i + 1) as nat);
            if i + 1 < 10 {
                lemma_pow2_strictly_increases((i + 1) as nat, 10);
            }
        }
        seconds = seconds * 2;
        i += 1;
    }
    proof {
        if retries > 10 {
            lemma_pow2_strictly_increases(10, retries as nat);
        }
    }
    if seconds < MAX_RETRY_SECS {
        seconds
    } else {
        MAX_RETRY_SECS
    }
}

/// When a job that failed at time `now` after `retries` retries is tried again.
///
/// Returns `None` if the calendar ends before that.
pub fn next_retry_at(now: Timestamp, retries: i64) -> (at: Option<Timestamp>)
    requires
        now.in_calendar(),
        0 <= retries,
    ensures
        at == next_retry(now, retries as nat),
{
    proof {
        vstd::arithmetic::power2::lemma_pow2_pos(retries as nat);
    }
    checked_add_seconds(now, retry_delay(retries))
}

/// A kind of job.
pub trait Job: Send + Sync {
    /// Checks if an error is fatal.
    ///
    /// Jobs that return a fatal error are not put back.
    ///
    /// The default implementation treats all errors as non-fatal.
    fn is_fatal_error(&self, error: &anyhow::Error) -> (fatal: bool)
        default_ensures
            !fatal,
    {
        false
    }

    /// Calculates the next time the job should be retried, or `None` if there is no such time.
    ///
    /// It receives the number of times the job has already been retried.
    ///
    /// The default behavior is an exponential backoff from the current time, with a maximum
    /// retry period of 10 minutes.
    fn get_next_retry(&self, retries: i64) -> (at: Option<Timestamp>)
        requires
            0 <= retries,
        default_ensures
            exists|now: Timestamp|
                read_from_clock(now) && now.in_calendar() && at == #[trigger] next_retry(
                    now,
                    retries as nat,
                ),
    {
        next_retry_at(read_clock(), retries)
    }
}

/// What becomes of a job that failed.
#[derive(Clone, Copy, Debug, PartialEq, Eq, Structural)]
pub enum Failure {
    /// The job is given up.
    Fatal,
    /// The job is tried again from this time on.
    Retry(Timestamp),
    /// The job should be tried again, but there is no time to do so.
    NoRetryTime,
}

/// Whether `failure` is what `job` decides of a failure with `error` after `retries` retries.
pub open spec fn judged<J: Job>(
    job: &J,
    error: &anyhow::Error,
    retries: i64,
    failure: Failure,
) -> bool {
    match failure {
        Failure::Fatal => call_ensures(J::is_fatal_error, (job, error), true),
        Failure::Retry(at) => {
            &&& call_ensures(J::is_fatal_error, (job, error), false)
            &&& call_ensures(J::get_next_retry, (job, retries), Some(at))
        },
        Failure::NoRetryTime => {
            &&& call_ensures(J::is_fatal_error, (job, error), false)
            &&& call_ensures(J::get_next_retry, (job, retries), None)
        },
    }
}

/// Asks a job that failed with `error`, after `retries` retries, what becomes of it.
///
/// The job is asked for the time of the next try only if the error is not fatal.
pub fn judge_failure<J: Job>(job: &J, error: &anyhow::Error, retries: i64) -> (failure: Failure)
    requires
        0 <= retries,
    ensures
        judged(job, error, retries, failure),
        failure is Fatal ==> call_ensures(J::is_fatal_error, (job, error), true),
        failure !is Fatal ==> call_ensures(J::is_fatal_error, (job, error), false),
        failure matches Failure::Retry(at) ==> call_ensures(
            J::get_next_retry,
            (job, retries),
            Some(at),
        ),
{
    if job.is_fatal_error(error) {
        Failure::Fatal
    } else {
        match job.get_next_retry(retries) {
            Some(at) => Failure::Retry(at),
            None => Failure::NoRetryTime,
        }
    }
}

/// A job that was judged was asked: it is given up only if it called the error fatal, and tried
/// again only if it called the error not fatal, at the time that it named. Whether it was retried
/// before makes no difference to that. So a job that always calls an error fatal is always given
/// up for it, and a job that never does and always names the same time is tried again then.
pub proof fn law_the_job_decides_what_becomes_of_it<J: Job>(
    job: &J,
    error: &anyhow::Error,
    retries: i64,
    failure: Failure,
    at: Timestamp,
)
    requires
        judged(job, error, retries, failure),
    ensures
        failure is Fatal ==> call_ensures(J::is_fatal_error, (job, error), true),
        failure is Retry || failure is NoRetryTime ==> call_ensures(
            J::is_fatal_error,
            (job, error),
            false,
        ),
        failure matches Failure::Retry(chosen) ==> call_ensures(
            J::get_next_retry,
            (job, retries),
            Some(chosen),
        ),
        failure is NoRetryTime ==> call_ensures(J::get_next_retry, (job, retries), None),
        (forall|fatal: bool| call_ensures(J::is_fatal_error, (job, error), fatal) ==> fatal)
            ==> failure is Fatal,
        (forall|fatal: bool| call_ensures(J::is_fatal_error, (job, error), fatal) ==> !fatal) && (
        forall|next: Option<Timestamp>| #[trigger]
            call_ensures(J::get_next_retry, (job, retries), next) ==> next == Some(at))
            ==> failure == Failure::Retry(at),
{
}

/// The default backoff starts at one second and doubles with every retry until it reaches its
/// maximum of 10 minutes, where it stays.
pub proof fn law_backoff_doubles_up_to_its_maximum(retries: nat)
    ensures
        backoff(0) == 1,
        1 <= backoff(retries) <= MAX_RETRY_SECS,
        backoff(retries + 1) == if 2 * backoff(retries) < MAX_RETRY_SECS {
            2 * backoff(retries)
        } else {
            MAX_RETRY_SECS as int
        },
        retries >= 10 ==> backoff(retries) == MAX_RETRY_SECS,
{
    lemma2_to64();
    lemma_pow2_unfold(retries + 1);
    vstd::arithmetic::power2::lemma_pow2_pos(retries);
    if retries > 10 {
        lemma_pow2_strictly_increases(10, retries);
    }
}

/// By default a retry never comes sooner for a job that was retried more often, it is always
/// later than the failure, and by no more than 10 minutes.
pub proof fn law_next_retry_is_bounded(now: Timestamp, fewer: nat, more: nat)
    requires
        fewer <= more,
    ensures
        next_retry(now, fewer) matches Some(at) ==> now.before(at) && at.secs <= now.secs
            + MAX_RETRY_SECS && at.nanos == now.nanos,
        next_retry(now, fewer) matches Some(at) ==> (next_retry(now, more) matches Some(later)
            ==> at.at_or_before(later)),
        now.secs + MAX_RETRY_SECS <= MAX_SECS ==> next_retry(now, more) is Some,
{
    law_backoff_doubles_up_to_its_maximum(fewer);
    law_backoff_doubles_up_to_its_maximum(more);
    if fewer < more {
        lemma_pow2_strictly_increases(fewer, more);
    }
}

/// By default a job is tried again two to the power of its retry count seconds after the failure,
/// 600 seconds at most, unless the calendar ends before.
pub proof fn law_when_a_job_is_tried_again(now: Timestamp, retries: nat, seconds: int)
    requires
        now.secs <= 8_210_266_876_799,
        pow2(retries) <= 600 ==> seconds == pow2(retries),
        pow2(retries) >= 600 ==> seconds == 600,
    ensures
        backoff(retries) == seconds,
        next_retry(now, retries) is Some <==> now.secs + seconds <= 8_210_266_876_799,
        next_retry(now, retries) matches Some(at) ==> at.secs == now.secs + seconds && at.nanos
            == now.nanos,
{
    vstd::arithmetic::power2::lemma_pow2_pos(retries);
}

} // verus!
