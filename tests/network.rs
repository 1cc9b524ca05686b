use spider::network::{
    AuthChallengeResponse, CdpCommand, Credentials, EventAuthRequired, EventLoadingFailed,
    EventLoadingFinished, EventRequestPaused, EventRequestServedFromCache,
    EventRequestWillBeSent, EventResponseReceived, InterceptFlags, NetworkEvent, NetworkManager, ResourceType,
};
use std::time::Duration;

fn manager() -> NetworkManager<String> {
    NetworkManager::new(false, Duration::from_secs(30))
}

fn drain(nm: &mut NetworkManager<String>) -> Vec<NetworkEvent<String>> {
    let mut out = Vec::new();
    while let Some(e) = nm.poll() {
        out.push(e);
    }
    out
}

fn paused(id: &str, network_id: Option<&str>, url: &str, rt: ResourceType) -> EventRequestPaused {
    EventRequestPaused {
        request_id: id.to_string(),
        network_id: network_id.map(|n| n.to_string()),
        url: url.to_string(),
        method: "GET".to_string(),
        is_same_site: Some(true),
        resource_type: rt,
    }
}

fn will_be_sent(id: &str, url: &str, redirect: Option<&str>) -> EventRequestWillBeSent<String> {
    EventRequestWillBeSent {
        request_id: id.to_string(),
        frame_id: Some("frame".to_string()),
        url: url.to_string(),
        redirect_response: redirect.map(|r| r.to_string()),
    }
}

/// A manager with user interception on, its setup commands drained.
fn intercepting() -> NetworkManager<String> {
    let mut nm = manager();
    nm.set_request_interception(true);
    drain(&mut nm);
    nm
}

fn single_command(nm: &mut NetworkManager<String>) -> CdpCommand {
    let mut events = drain(nm);
    assert_eq!(events.len(), 1);
    match events.remove(0) {
        NetworkEvent::SendCdpRequest(c) => c,
        other => panic!("expected a command, got {:?}", other),
    }
}

#[test]
fn framework_script_is_continued_when_javascript_blocked() {
    let mut nm = intercepting();
    nm.block_javascript = true;
    nm.on_fetch_request_paused(&paused("i1", Some("n1"), "https://cdn/react.production.min.js", ResourceType::Script));
    assert!(matches!(single_command(&mut nm), CdpCommand::ContinueRequest { request_id } if request_id == "i1"));
}

#[test]
fn other_script_is_fulfilled_when_javascript_blocked() {
    let mut nm = intercepting();
    nm.block_javascript = true;
    nm.on_fetch_request_paused(&paused("i1", Some("n1"), "https://cdn/widget.js", ResourceType::Script));
    assert!(matches!(single_command(&mut nm), CdpCommand::FulfillRequest { request_id, response_code: 200 } if request_id == "i1"));
}

#[test]
fn analytics_script_is_fulfilled_empty() {
    let mut nm = intercepting();
    nm.block_analytics = true;
    nm.on_fetch_request_paused(&paused("i2", Some("n2"), "https://www.google-analytics.com/ga.js", ResourceType::Script));
    assert!(matches!(single_command(&mut nm), CdpCommand::FulfillRequest { request_id, response_code: 200 } if request_id == "i2"));
}

#[test]
fn second_auth_challenge_is_cancelled() {
    let mut nm = manager();
    nm.authenticate(Credentials { username: "u".to_string(), password: "p".to_string() });
    drain(&mut nm);
    let event = EventAuthRequired { request_id: "i9".to_string() };
    nm.on_fetch_auth_required(&event);
    match single_command(&mut nm) {
        CdpCommand::ContinueWithAuth { request_id, response, username, password } => {
            assert_eq!(request_id, "i9");
            assert_eq!(response, AuthChallengeResponse::ProvideCredentials);
            assert_eq!(username.as_deref(), Some("u"));
            assert_eq!(password.as_deref(), Some("p"));
        }
        other => panic!("unexpected {:?}", other),
    }
    nm.on_fetch_auth_required(&event);
    assert!(matches!(single_command(&mut nm), CdpCommand::ContinueWithAuth { response: AuthChallengeResponse::CancelAuth, .. }));
}

#[test]
fn auth_without_credentials_is_default() {
    let mut nm = manager();
    nm.on_fetch_auth_required(&EventAuthRequired { request_id: "i".to_string() });
    assert!(matches!(single_command(&mut nm), CdpCommand::ContinueWithAuth { response: AuthChallengeResponse::Default, username: None, .. }));
}

#[test]
fn offline_mode_sends_only_on_change() {
    let mut nm = manager();
    nm.set_offline_mode(false);
    assert!(drain(&mut nm).is_empty());
    nm.set_offline_mode(true);
    assert!(matches!(single_command(&mut nm), CdpCommand::EmulateNetworkConditions { offline: true, latency: 0, download_throughput: -1, upload_throughput: -1 }));
    nm.set_offline_mode(true);
    assert!(drain(&mut nm).is_empty());
}

#[test]
fn loading_finished_hands_on_the_request_once() {
    let mut nm = manager();
    nm.on_request_will_be_sent(will_be_sent("r1", "https://a.test/", None));
    let events = drain(&mut nm);
    assert!(matches!(&events[..], [NetworkEvent::Request(id)] if id == "r1"));
    nm.on_request_served_from_cache(&EventRequestServedFromCache { request_id: "r1".to_string() });
    nm.on_network_loading_finished(&EventLoadingFinished { request_id: "r1".to_string() });
    nm.on_network_loading_finished(&EventLoadingFinished { request_id: "r1".to_string() });
    let events = drain(&mut nm);
    assert_eq!(events.len(), 1);
    match &events[0] {
        NetworkEvent::RequestFinished(r) => {
            assert_eq!(r.request_id, "r1");
            assert!(r.from_memory_cache);
            assert!(r.interception_id.is_none());
        }
        other => panic!("unexpected {:?}", other),
    }
}

#[test]
fn response_then_finished_hands_on_once() {
    let mut nm = manager();
    nm.on_request_will_be_sent(will_be_sent("r1", "https://a.test/", None));
    drain(&mut nm);
    nm.on_response_received(EventResponseReceived { request_id: "r1".to_string(), response: "200 OK".to_string() });
    nm.on_network_loading_finished(&EventLoadingFinished { request_id: "r1".to_string() });
    let events = drain(&mut nm);
    assert_eq!(events.len(), 1);
    assert!(matches!(&events[0], NetworkEvent::RequestFinished(r) if r.response.as_deref() == Some("200 OK")));
}

#[test]
fn loading_failed_records_error_text() {
    let mut nm = manager();
    nm.on_request_will_be_sent(will_be_sent("r1", "https://a.test/", None));
    drain(&mut nm);
    nm.on_network_loading_failed(&EventLoadingFailed { request_id: "r1".to_string(), error_text: "net::ERR".to_string() });
    let events = drain(&mut nm);
    assert!(matches!(&events[..], [NetworkEvent::RequestFailed(r)] if r.failure_text.as_deref() == Some("net::ERR")));
}

#[test]
fn redirect_moves_the_earlier_record_into_the_chain() {
    let mut nm = manager();
    nm.on_request_will_be_sent(will_be_sent("r1", "https://a.test/", None));
    nm.on_request_will_be_sent(will_be_sent("r1", "https://a.test/next", Some("301")));
    nm.on_network_loading_finished(&EventLoadingFinished { request_id: "r1".to_string() });
    let events = drain(&mut nm);
    assert_eq!(events.len(), 3);
    match &events[2] {
        NetworkEvent::RequestFinished(r) => {
            assert_eq!(r.redirect_chain.len(), 1);
            assert_eq!(r.redirect_chain[0].response.as_deref(), Some("301"));
            assert!(r.response.is_none());
        }
        other => panic!("unexpected {:?}", other),
    }
}

#[test]
fn data_urls_are_recorded_at_once_while_intercepting() {
    let mut nm = intercepting();
    nm.on_request_will_be_sent(will_be_sent("r1", "data:text/plain,hi", None));
    assert!(matches!(&drain(&mut nm)[..], [NetworkEvent::Request(id)] if id == "r1"));
    nm.on_request_will_be_sent(will_be_sent("r2", "https://a.test/", None));
    assert!(drain(&mut nm).is_empty());
}

#[test]
fn paused_request_pairs_with_buffered_announcement() {
    let mut nm = intercepting();
    nm.on_request_will_be_sent(will_be_sent("r2", "https://a.test/", None));
    nm.on_fetch_request_paused(&paused("i2", Some("r2"), "https://a.test/", ResourceType::Document));
    let events = drain(&mut nm);
    assert_eq!(events.len(), 2);
    assert!(matches!(&events[0], NetworkEvent::Request(id) if id == "r2"));
    assert!(matches!(&events[1], NetworkEvent::SendCdpRequest(CdpCommand::ContinueRequest { request_id }) if request_id == "i2"));
    nm.on_network_loading_finished(&EventLoadingFinished { request_id: "r2".to_string() });
    assert!(matches!(&drain(&mut nm)[..], [NetworkEvent::RequestFinished(r)] if r.interception_id.as_deref() == Some("i2")));
}

#[test]
fn paused_before_announcement_only_answers() {
    let mut nm = intercepting();
    nm.on_fetch_request_paused(&paused("i3", Some("r3"), "https://a.test/page", ResourceType::Document));
    assert!(matches!(single_command(&mut nm), CdpCommand::ContinueRequest { request_id } if request_id == "i3"));
    nm.on_request_will_be_sent(will_be_sent("r3", "https://a.test/page", None));
    assert!(drain(&mut nm).is_empty());
}

#[test]
fn prefetch_and_ping_are_always_fulfilled() {
    let mut nm = intercepting();
    nm.on_fetch_request_paused(&paused("i", Some("n"), "https://a.test/x", ResourceType::Prefetch));
    assert!(matches!(single_command(&mut nm), CdpCommand::FulfillRequest { .. }));
    nm.on_fetch_request_paused(&paused("j", Some("m"), "https://a.test/x", ResourceType::Ping));
    assert!(matches!(single_command(&mut nm), CdpCommand::FulfillRequest { .. }));
}

#[test]
fn visuals_and_stylesheets_follow_their_switches() {
    let mut nm = intercepting();
    nm.on_fetch_request_paused(&paused("i", Some("n1"), "https://a.test/x.png", ResourceType::Image));
    assert!(matches!(single_command(&mut nm), CdpCommand::ContinueRequest { .. }));
    nm.ignore_visuals = true;
    nm.on_fetch_request_paused(&paused("i", Some("n2"), "https://a.test/x.png", ResourceType::Image));
    assert!(matches!(single_command(&mut nm), CdpCommand::FulfillRequest { .. }));
    nm.block_stylesheets = true;
    nm.on_fetch_request_paused(&paused("i", Some("n3"), "https://a.test/x.css", ResourceType::Stylesheet));
    assert!(matches!(single_command(&mut nm), CdpCommand::FulfillRequest { .. }));
}

#[test]
fn xhr_ladder() {
    let mut nm = intercepting();
    nm.on_fetch_request_paused(&paused("i", Some("n1"), "https://play.google.com/log?x=1", ResourceType::Xhr));
    assert!(matches!(single_command(&mut nm), CdpCommand::FulfillRequest { .. }));
    nm.on_fetch_request_paused(&paused("i", Some("n2"), "https://a.test/theme.css", ResourceType::Xhr));
    assert!(matches!(single_command(&mut nm), CdpCommand::ContinueRequest { .. }));
    nm.block_stylesheets = true;
    nm.on_fetch_request_paused(&paused("i", Some("n3"), "https://a.test/theme.css", ResourceType::Xhr));
    assert!(matches!(single_command(&mut nm), CdpCommand::FulfillRequest { .. }));
    nm.on_fetch_request_paused(&paused("i", Some("n7"), "https://a.test/theme.css?v=1", ResourceType::Xhr));
    assert!(matches!(single_command(&mut nm), CdpCommand::ContinueRequest { .. }));
    nm.block_stylesheets = false;
    nm.ignore_visuals = true;
    nm.only_html = true;
    nm.on_fetch_request_paused(&paused("i", Some("n4"), "https://a.test/photo.JPG", ResourceType::Xhr));
    assert!(matches!(single_command(&mut nm), CdpCommand::FulfillRequest { .. }));
    nm.on_fetch_request_paused(&paused("i", Some("n5"), "https://a.test/data.json", ResourceType::Xhr));
    assert!(matches!(single_command(&mut nm), CdpCommand::ContinueRequest { .. }));
    nm.on_fetch_request_paused(&paused("i", Some("n6"), "https://open.spotify.com/x", ResourceType::Xhr));
    assert!(matches!(single_command(&mut nm), CdpCommand::FulfillRequest { .. }));
}

#[test]
fn paused_without_network_id_or_user_interception_is_continued() {
    let mut nm = intercepting();
    nm.on_fetch_request_paused(&paused("i", None, "https://a.test/x", ResourceType::Prefetch));
    assert!(matches!(single_command(&mut nm), CdpCommand::ContinueRequest { .. }));
    let mut nm = manager();
    nm.authenticate(Credentials { username: "u".to_string(), password: "p".to_string() });
    drain(&mut nm);
    nm.on_fetch_request_paused(&paused("i", Some("n"), "https://a.test/x", ResourceType::Prefetch));
    assert!(matches!(single_command(&mut nm), CdpCommand::ContinueRequest { .. }));
}

#[test]
fn interception_toggles_fetch_domain() {
    let mut nm = manager();
    nm.set_request_interception(true);
    let events = drain(&mut nm);
    assert_eq!(events.len(), 2);
    assert!(matches!(&events[0], NetworkEvent::SendCdpRequest(CdpCommand::SetCacheDisabled { cache_disabled: true })));
    assert!(matches!(&events[1], NetworkEvent::SendCdpRequest(CdpCommand::FetchEnable { handle_auth_requests: true, url_pattern: "*" })));
    nm.set_request_interception(true);
    assert!(drain(&mut nm).is_empty());
    nm.set_request_interception(false);
    let events = drain(&mut nm);
    assert!(matches!(&events[0], NetworkEvent::SendCdpRequest(CdpCommand::SetCacheDisabled { cache_disabled: false })));
    assert!(matches!(&events[1], NetworkEvent::SendCdpRequest(CdpCommand::FetchDisable)));
}

#[test]
fn cache_switch_sends_cache_command() {
    let mut nm = manager();
    nm.set_cache_enabled(false);
    assert!(matches!(single_command(&mut nm), CdpCommand::SetCacheDisabled { cache_disabled: true }));
    nm.set_cache_enabled(true);
    assert!(matches!(single_command(&mut nm), CdpCommand::SetCacheDisabled { cache_disabled: false }));
}

#[test]
fn extra_headers_drop_proxy_authorization() {
    let mut nm = manager();
    nm.set_extra_headers(vec![
        ("x-a".to_string(), "1".to_string()),
        ("proxy-authorization".to_string(), "secret".to_string()),
        ("x-b".to_string(), "2".to_string()),
    ]);
    let expected = vec![("x-a".to_string(), "1".to_string()), ("x-b".to_string(), "2".to_string())];
    assert_eq!(nm.extra_headers(), &expected);
    assert!(matches!(single_command(&mut nm), CdpCommand::SetExtraHttpHeaders { headers } if headers == expected));
}

#[test]
fn init_commands_follow_certificate_switch() {
    let nm = manager();
    let cmds = nm.init_commands();
    assert_eq!(cmds.len(), 1);
    assert!(matches!(cmds[0], CdpCommand::NetworkEnable));
    let nm: NetworkManager<String> = NetworkManager::new(true, Duration::from_secs(1));
    let cmds = nm.init_commands();
    assert!(matches!(cmds[1], CdpCommand::SetIgnoreCertificateErrors { ignore: true }));
    assert_eq!(nm.request_timeout(), Duration::from_secs(1));
}

#[test]
fn media_xhr_is_fulfilled_with_default_flags() {
    let mut nm = intercepting();
    nm.on_fetch_request_paused(&paused("i5", Some("n5"), "https://open.spotify.com/track/1", ResourceType::Xhr));
    assert!(matches!(single_command(&mut nm), CdpCommand::FulfillRequest { request_id, response_code: 200 } if request_id == "i5"));
}

#[test]
fn flags_are_set_together() {
    let mut nm = intercepting();
    nm.set_intercept_flags(InterceptFlags {
        ignore_visuals: false,
        block_stylesheets: true,
        block_javascript: false,
        block_analytics: false,
        only_html: false,
        block_ads: false,
    });
    assert!(nm.block_stylesheets && !nm.block_analytics);
    nm.on_fetch_request_paused(&paused("i", Some("n"), "https://a.test/x.css", ResourceType::Stylesheet));
    assert!(matches!(single_command(&mut nm), CdpCommand::FulfillRequest { .. }));
}

#[test]
fn ads_are_fulfilled_when_ad_blocking_is_on() {
    let mut nm = intercepting();
    let ad = paused("i", Some("n1"), "https://a.test/banner-ads.png", ResourceType::Image);
    let plain = paused("j", Some("n2"), "https://a.test/photo.png", ResourceType::Image);
    assert!(nm.detect_ad(&ad));
    assert!(!nm.detect_ad(&plain));
    nm.on_fetch_request_paused(&ad);
    assert!(matches!(single_command(&mut nm), CdpCommand::ContinueRequest { .. }));
    nm.block_ads = true;
    nm.on_fetch_request_paused(&paused("i", Some("n3"), "https://a.test/banner-ads.png", ResourceType::Image));
    assert!(matches!(single_command(&mut nm), CdpCommand::FulfillRequest { .. }));
    nm.on_fetch_request_paused(&plain);
    assert!(matches!(single_command(&mut nm), CdpCommand::ContinueRequest { .. }));
    nm.ignore_visuals = true;
    assert!(!nm.detect_ad(&ad));
    let doc = paused("k", Some("n4"), "https://a.test/page-ads.html", ResourceType::Document);
    assert!(!nm.detect_ad(&doc));
}
