use vstd::prelude::*;

verus! {

/// Why a fetch or a crawl did not succeed.
#[derive(Clone, Copy, Debug, PartialEq, Eq, Structural)]
pub enum ErrorKind {
    Transport,
    Timeout,
    HttpStatus(u16),
    RobotsDenied,
    OutOfScope,
    ParseUrl,
    ParseRobots,
    ParseCdp,
    Cancelled,
    LimitReached,
}

/// How a crawl ended.
#[derive(Clone, Copy, Debug, PartialEq, Eq, Structural)]
pub enum CrawlResult {
    Completed { pages: u64 },
    Cancelled,
    Failed(ErrorKind),
}

/// A fetch failure may go away on a retry: a timeout, a transport error or a
/// server error (5xx).
pub open spec fn is_transient(e: ErrorKind) -> bool {
    match e {
        ErrorKind::Timeout | ErrorKind::Transport => true,
        ErrorKind::HttpStatus(code) => 500 <= code && code <= 599,
        _ => false,
    }
}

/// Whether a fetch failure may go away on a retry.
pub fn transient(e: ErrorKind) -> (r: bool)
    ensures
        r == is_transient(e),
{
    match e {
        ErrorKind::Timeout | ErrorKind::Transport => true,
        ErrorKind::HttpStatus(code) => 500 <= code && code <= 599,
        _ => false,
    }
}

/// How many times a transiently failed fetch is tried again.
pub const MAX_RETRIES: u32 = 3;

/// The first backoff, in milliseconds; it doubles with each retry.
pub const BASE_BACKOFF_MS: u64 = 250;

/// What to do after a failed fetch.
#[derive(Clone, Copy, Debug, PartialEq, Eq, Structural)]
pub enum RetryDecision {
    /// Try again after this many milliseconds.
    Retry { delay_ms: u64 },
    /// Record the failure on the page and publish it.
    GiveUp,
}

/// The backoff before retry number `retries_done + 1`: 250 ms doubled per
/// earlier retry, scaled by `(800 + jitter) / 1000`, so that a jitter from 0
/// to 400 moves it by -20% to +20%.
pub open spec fn backoff_ms(retries_done: u32, jitter: u32) -> int {
    let base = 250 * vstd::arithmetic::power2::pow2(retries_done as nat) as int;
    base * (800 + jitter) / 1000
}

/// Decides what follows the `retries_done + 1`-th failed try of a fetch with
/// error `e`; `jitter`, drawn by the caller from 0 to 400, spreads the backoff.
pub fn retry_decision(retries_done: u32, e: ErrorKind, jitter: u32) -> (r: RetryDecision)
    requires
        jitter <= 400,
    ensures
        is_transient(e) && retries_done < MAX_RETRIES ==> r == (RetryDecision::Retry {
            delay_ms: backoff_ms(retries_done, jitter) as u64,
        }),
        !(is_transient(e) && retries_done < MAX_RETRIES) ==> r == RetryDecision::GiveUp,
{
    if !transient(e) || retries_done >= MAX_RETRIES {
        return RetryDecision::GiveUp;
    }
    let mut base: u64 = BASE_BACKOFF_MS;
    let mut i: u32 = 0;
    proof {
        vstd::arithmetic::power2::lemma2_to64();
    }
    while i < retries_done
        invariant
            i <= retries_done < 3,
            base == 250 * vstd::arithmetic::power2::pow2(i as nat),
            base <= 1000,
        decreases retries_done - i,
    {
        proof {
            vstd::arithmetic::power2::lemma_pow2_unfold((i + 1) as nat);
        }
        base = base * 2;
        i = i + 1;
        proof {
            vstd::arithmetic::power2::lemma2_to64();
        }
    }
    let factor: u64 = 800 + jitter as u64;
    assert(base * factor <= 1000 * 1200) by (nonlinear_arith)
        requires
            base <= 1000,
            factor <= 1200,
    {
    }
    RetryDecision::Retry { delay_ms: base * factor / 1000 }
}

/// What the crawl loop does next.
#[derive(Clone, Copy, Debug, PartialEq, Eq, Structural)]
pub enum CrawlAction {
    /// Hand the next pending URL to a free worker.
    Schedule,
    /// Wait for a running fetch to finish.
    Wait,
    /// The crawl is over.
    Finish(CrawlResult),
}

/// The crawl loop's decision: a cancelled crawl finishes at once; a URL is
/// scheduled while one is pending and a worker is free; the crawl completes
/// when no URL is pending and every worker is idle; else it waits.
pub fn crawl_step(pending: bool, active: usize, workers: usize, cancelled: bool, pages: u64) -> (r: CrawlAction)
    ensures
        cancelled ==> r == CrawlAction::Finish(CrawlResult::Cancelled),
        !cancelled && pending && active < workers ==> r == CrawlAction::Schedule,
        !cancelled && !pending && active == 0 ==> r == CrawlAction::Finish(CrawlResult::Completed { pages }),
        !cancelled && ((pending && active >= workers) || (!pending && active > 0)) ==> r == CrawlAction::Wait,
{
    if cancelled {
        CrawlAction::Finish(CrawlResult::Cancelled)
    } else if pending && active < workers {
        CrawlAction::Schedule
    } else if !pending && active == 0 {
        CrawlAction::Finish(CrawlResult::Completed { pages })
    } else {
        CrawlAction::Wait
    }
}

} // verus!
