use spider::crawl::{url_key, Frontier, RateLimiter, ScopeRule};

fn open_scope() -> ScopeRule {
    ScopeRule { blacklist: Vec::new(), whitelist: Vec::new() }
}

#[test]
fn limit_three_crawl_visits_three_urls_once() {
    let mut frontier = Frontier::new("https://example.test", 3, 0, open_scope());
    let mut emitted: Vec<String> = Vec::new();
    let mut n = 0;
    while let Some((url, depth)) = frontier.pop() {
        emitted.push(url.clone());
        for _ in 0..2 {
            n += 1;
            frontier.add(&format!("https://example.test/page{}", n), depth + 1);
        }
    }
    let visited = frontier.snapshot_visited();
    assert_eq!(visited.len(), 3);
    assert_eq!(visited[0], "https://example.test");
    assert_eq!(frontier.len_visited(), 3);
    let mut sorted = emitted.clone();
    sorted.sort();
    sorted.dedup();
    assert_eq!(sorted.len(), emitted.len());
    assert_eq!(emitted.len(), 3);
}

#[test]
fn url_keys_fold_scheme_and_host_and_drop_fragment() {
    let key: String = url_key("HTTPS://Example.TEST/Path?Q=1#frag").into_iter().collect();
    assert_eq!(key, "https://example.test/Path?Q=1");
    let mut frontier = Frontier::new("https://example.test/", 0, 0, open_scope());
    assert!(!frontier.add("https://EXAMPLE.test/#top", 1));
    assert!(frontier.add("https://example.test/A", 1));
    assert!(!frontier.add("https://example.test/A#x", 1));
    assert!(frontier.add("https://example.test/a", 1));
}

#[test]
fn popped_url_never_comes_back() {
    let mut frontier = Frontier::new("https://a.test/", 0, 0, open_scope());
    let (url, depth) = frontier.pop().unwrap();
    assert_eq!(url, "https://a.test/");
    assert_eq!(depth, 0);
    assert!(!frontier.add("https://a.test/", 1));
    assert!(frontier.pop().is_none());
    assert!(frontier.is_empty());
}

#[test]
fn scope_depth_and_patterns() {
    let scope = ScopeRule {
        blacklist: vec!["/private".to_string()],
        whitelist: vec!["/docs".to_string(), "/blog".to_string()],
    };
    let mut frontier = Frontier::new("https://a.test/docs", 0, 2, scope);
    assert_eq!(frontier.len_visited(), 1);
    assert!(!frontier.add("https://other.test/docs/1", 1));
    assert!(!frontier.add("https://a.test/docs/private", 1));
    assert!(!frontier.add("https://a.test/shop", 1));
    assert!(!frontier.add("https://a.test/blog/deep", 3));
    assert!(frontier.add("https://a.test/blog/ok", 2));
    assert!(frontier.add("https://a.test:443/docs/port", 1) == false);
}

#[test]
fn seed_out_of_scope_leaves_frontier_empty() {
    let scope = ScopeRule { blacklist: vec!["example".to_string()], whitelist: Vec::new() };
    let mut frontier = Frontier::new("https://example.test/", 0, 0, scope);
    assert_eq!(frontier.len_visited(), 0);
    assert!(frontier.pop().is_none());
}

#[test]
fn same_host_dispatches_are_spaced_by_delay() {
    let mut limiter = RateLimiter::new(100);
    let host = "a.test".to_string();
    let mut times = Vec::new();
    for _ in 0..5 {
        times.push(limiter.acquire(&host, 1_000, None));
    }
    assert_eq!(times, vec![1_000, 1_100, 1_200, 1_300, 1_400]);
    for w in times.windows(2) {
        assert!(w[1] - w[0] >= 100);
    }
}

#[test]
fn robots_delay_wins_when_larger_and_hosts_are_independent() {
    let mut limiter = RateLimiter::new(100);
    assert_eq!(limiter.effective_delay(Some(250)), 250);
    assert_eq!(limiter.effective_delay(Some(50)), 100);
    let a = "a.test".to_string();
    let b = "b.test".to_string();
    assert_eq!(limiter.acquire(&a, 0, Some(250)), 0);
    assert_eq!(limiter.acquire(&b, 10, None), 10);
    assert_eq!(limiter.acquire(&a, 20, Some(250)), 250);
    assert_eq!(limiter.acquire(&a, 1_000, Some(250)), 1_000);
}

#[test]
fn dispatch_time_saturates() {
    let mut limiter = RateLimiter::new(10);
    let h = "h".to_string();
    assert_eq!(limiter.acquire(&h, u64::MAX - 5, None), u64::MAX - 5);
    assert_eq!(limiter.acquire(&h, 0, None), u64::MAX);
}
