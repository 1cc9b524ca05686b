use spider::crawl::{Frontier, ScopeRule};
use spider::robots::{RobotsCache, RobotsRules, ROBOTS_FAILURE_TTL, ROBOTS_TTL};

const ROBOTS: &str = "# robots\nUser-agent: *\nDisallow: /admin\nAllow: /admin/public\n\nUser-agent: SpiderBot\nUser-agent: other\nDisallow: /private # hidden\nCrawl-delay: 2\n";

#[test]
fn parse_groups_agents_and_rules() {
    let rules = RobotsRules::parse(ROBOTS);
    assert_eq!(rules.groups.len(), 2);
    assert_eq!(rules.groups[0].agents, vec!["*".to_string()]);
    assert_eq!(rules.groups[0].rules.len(), 2);
    assert!(!rules.groups[0].rules[0].allow);
    assert_eq!(rules.groups[0].rules[0].path, "/admin");
    assert_eq!(rules.groups[1].agents, vec!["SpiderBot".to_string(), "other".to_string()]);
    assert_eq!(rules.groups[1].rules[0].path, "/private");
    assert_eq!(rules.groups[1].crawl_delay, Some(2_000));
}

#[test]
fn longest_agent_group_and_longest_rule_decide() {
    let rules = RobotsRules::parse(ROBOTS);
    assert!(!rules.allowed("/admin/x", "Mozilla/5.0"));
    assert!(rules.allowed("/admin/public/page", "Mozilla/5.0"));
    assert!(rules.allowed("/private", "Mozilla/5.0"));
    assert!(!rules.allowed("/private/a", "Mozilla/5.0 (spiderbot)"));
    assert!(rules.allowed("/admin/x", "Mozilla/5.0 (spiderbot)"));
    assert_eq!(rules.crawl_delay("spiderbot/1.0"), Some(2_000));
    assert_eq!(rules.crawl_delay("curl"), None);
}

#[test]
fn empty_disallow_and_no_group_allow_everything() {
    let rules = RobotsRules::parse("User-agent: *\nDisallow:\n");
    assert!(rules.allowed("/anything", "bot"));
    let rules = RobotsRules::parse("Disallow: /\n");
    assert!(rules.groups.is_empty());
    assert!(rules.allowed("/", "bot"));
}

#[test]
fn cache_entries_expire() {
    let mut cache = RobotsCache::new();
    let host = "b.test".to_string();
    assert!(cache.needs_fetch(&host, 0));
    cache.store(host.clone(), 1_000, Some(ROBOTS));
    assert!(!cache.needs_fetch(&host, 1_000 + ROBOTS_TTL - 1));
    assert!(cache.needs_fetch(&host, 1_000 + ROBOTS_TTL));
    cache.store(host.clone(), 5_000, None);
    assert!(cache.allowed(&host, "/admin", "bot"));
    assert!(cache.needs_fetch(&host, 5_000 + ROBOTS_FAILURE_TTL));
    assert!(!cache.needs_fetch(&host, 5_000 + ROBOTS_FAILURE_TTL - 1));
}

#[test]
fn disallowed_link_is_never_emitted() {
    let mut cache = RobotsCache::new();
    let host = "b.test".to_string();
    cache.store(host.clone(), 0, Some("User-agent: *\nDisallow: /admin\n"));
    let mut frontier = Frontier::new("https://b.test/", 0, 0, ScopeRule { blacklist: Vec::new(), whitelist: Vec::new() });
    let mut emitted = Vec::new();
    while let Some((url, depth)) = frontier.pop() {
        let path = &url["https://b.test".len()..];
        if !cache.allowed(&host, path, "spider") {
            continue;
        }
        emitted.push(url.clone());
        if depth == 0 {
            frontier.add("https://b.test/admin/x", 1);
            frontier.add("https://b.test/about", 1);
        }
    }
    assert_eq!(emitted, vec!["https://b.test/".to_string(), "https://b.test/about".to_string()]);
}

#[test]
fn values_are_trimmed_and_bad_delays_ignored() {
    let rules = RobotsRules::parse("USER-AGENT:  bot \t\nDISALLOW:\t/x  \r\ncrawl-delay: 1a\n");
    assert_eq!(rules.groups.len(), 1);
    assert_eq!(rules.groups[0].agents, vec!["bot".to_string()]);
    assert_eq!(rules.groups[0].rules[0].path, "/x");
    assert_eq!(rules.groups[0].crawl_delay, None);
}
