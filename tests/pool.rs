use spider::pool::{crawl_step, retry_decision, transient, CrawlAction, CrawlResult, ErrorKind, RetryDecision};

#[test]
fn transient_errors_are_retried_with_doubling_backoff() {
    assert_eq!(retry_decision(0, ErrorKind::Timeout, 200), RetryDecision::Retry { delay_ms: 250 });
    assert_eq!(retry_decision(1, ErrorKind::Transport, 200), RetryDecision::Retry { delay_ms: 500 });
    assert_eq!(retry_decision(2, ErrorKind::HttpStatus(503), 200), RetryDecision::Retry { delay_ms: 1000 });
    assert_eq!(retry_decision(3, ErrorKind::Timeout, 200), RetryDecision::GiveUp);
}

#[test]
fn jitter_moves_backoff_by_a_fifth() {
    assert_eq!(retry_decision(0, ErrorKind::Timeout, 0), RetryDecision::Retry { delay_ms: 200 });
    assert_eq!(retry_decision(0, ErrorKind::Timeout, 400), RetryDecision::Retry { delay_ms: 300 });
    assert_eq!(retry_decision(2, ErrorKind::Timeout, 400), RetryDecision::Retry { delay_ms: 1200 });
}

#[test]
fn permanent_errors_are_not_retried() {
    assert!(!transient(ErrorKind::HttpStatus(404)));
    assert!(transient(ErrorKind::HttpStatus(500)));
    assert_eq!(retry_decision(0, ErrorKind::HttpStatus(404), 200), RetryDecision::GiveUp);
    assert_eq!(retry_decision(0, ErrorKind::RobotsDenied, 200), RetryDecision::GiveUp);
}

#[test]
fn crawl_loop_decisions() {
    assert_eq!(crawl_step(true, 0, 16, false, 0), CrawlAction::Schedule);
    assert_eq!(crawl_step(true, 16, 16, false, 0), CrawlAction::Wait);
    assert_eq!(crawl_step(false, 2, 16, false, 5), CrawlAction::Wait);
    assert_eq!(crawl_step(false, 0, 16, false, 5), CrawlAction::Finish(CrawlResult::Completed { pages: 5 }));
    assert_eq!(crawl_step(true, 3, 16, true, 5), CrawlAction::Finish(CrawlResult::Cancelled));
}
