//! How consumers wait for the results that an engine posts.
//!
//! Each engine keeps the result it posted last and a guess at when the next one will come. A
//! consumer that names the frame it has seen is not given that frame again. Durations are in
//! nanoseconds.

use vstd::prelude::*;

use crate::units::NANOSECONDS_PER_MILLISECOND;

verus! {

/// What a consumer does next.
#[derive(Clone, Copy, Debug, PartialEq, Eq, Structural)]
pub enum Poll {
    /// Take the posted result. It is not used up: others may take it too.
    Take,
    /// Go away without a result.
    GiveUp,
    /// Sleep, then look again.
    Wait,
}

/// Whether a posted frame is news to a consumer that has seen `prev_frame_id`.
pub open spec fn is_news(posted_frame_id: Option<i32>, prev_frame_id: Option<i32>) -> bool {
    posted_frame_id is Some && prev_frame_id != posted_frame_id
}

/// Decides whether a consumer takes the posted result.
pub fn poll_result(
    posted_frame_id: Option<i32>,
    prev_frame_id: Option<i32>,
    non_blocking: bool,
) -> (poll: Poll)
    ensures
        poll == (if is_news(posted_frame_id, prev_frame_id) {
            Poll::Take
        } else if non_blocking {
            Poll::GiveUp
        } else {
            Poll::Wait
        }),
{
    if let Some(posted) = posted_frame_id {
        match prev_frame_id {
            None => return Poll::Take,
            Some(prev) => {
                if prev != posted {
                    return Poll::Take;
                }
            },
        }
    }
    if non_blocking {
        Poll::GiveUp
    } else {
        Poll::Wait
    }
}

/// How long a consumer sleeps: until the next result is due, but a millisecond at least.
pub fn sleep_duration(time_to_eta: Option<u64>) -> (sleep: u64)
    ensures
        sleep == (match time_to_eta {
            Some(left) => if left > NANOSECONDS_PER_MILLISECOND {
                left
            } else {
                NANOSECONDS_PER_MILLISECOND
            },
            None => NANOSECONDS_PER_MILLISECOND,
        }),
{
    retry_delay(time_to_eta, NANOSECONDS_PER_MILLISECOND)
}

/// How long to wait before asking an engine again: as long as it estimates, but no less than a
/// short delay.
pub fn retry_delay(estimate: Option<u64>, short_delay: u64) -> (delay: u64)
    ensures
        delay == (match estimate {
            Some(estimate) => if estimate > short_delay {
                estimate
            } else {
                short_delay
            },
            None => short_delay,
        }),
{
    match estimate {
        Some(estimate) => if estimate > short_delay {
            estimate
        } else {
            short_delay
        },
        None => short_delay,
    }
}

/// What is left of an interval once some of it has passed, if anything.
pub fn remaining_interval(interval: u64, elapsed: u64) -> (remaining: Option<u64>)
    ensures
        remaining == (if elapsed <= interval {
            Some((interval - elapsed) as u64)
        } else {
            None
        }),
{
    if elapsed <= interval {
        Some(interval - elapsed)
    } else {
        None
    }
}

/// A consumer never gets the frame it names, gets any other at once, and always gets one where
/// it names none.
pub proof fn law_no_frame_twice(posted: i32, prev_frame_id: Option<i32>)
    ensures
        is_news(Some(posted), prev_frame_id) <==> prev_frame_id != Some(posted),
        is_news(Some(posted), None),
        !is_news(None, prev_frame_id),
{
}

/// A consumer takes what it has not seen at once, and waits or goes away otherwise. It sleeps as
/// long as the next result takes, never less than a millisecond, nor than the shortest delay.
pub proof fn law_consumers_wait(
    posted: Option<i32>,
    prev: Option<i32>,
    non_blocking: bool,
    poll: Poll,
    eta: Option<u64>,
    sleep: u64,
    short_delay: u64,
    delay: u64,
    interval: u64,
    elapsed: u64,
    remaining: Option<u64>,
)
    requires
        call_ensures(poll_result, (posted, prev, non_blocking), poll),
        call_ensures(sleep_duration, (eta,), sleep),
        call_ensures(retry_delay, (eta, short_delay), delay),
        call_ensures(remaining_interval, (interval, elapsed), remaining),
    ensures
        poll is Take <==> posted is Some && posted != prev,
        poll is GiveUp ==> non_blocking,
        poll is Wait ==> !non_blocking,
        sleep >= 1_000_000 && (eta matches Some(left) ==> sleep >= left),
        sleep == 1_000_000 || eta == Some(sleep),
        delay >= short_delay && (eta matches Some(left) ==> delay >= left),
        delay == short_delay || eta == Some(delay),
        remaining is None <==> elapsed > interval,
        remaining matches Some(left) ==> left + elapsed == interval,
{
}

} // verus!
