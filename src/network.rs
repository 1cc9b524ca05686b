use vstd::prelude::*;
use std::collections::VecDeque;
use std::time::Duration;
use crate::chars::{is_last_of, rfind_char, is_prefix, is_suffix, to_chars, starts_with_chars, ends_with_str};
use crate::classify::{
    is_ignored_script, is_allowed_script, is_visual_asset_extension, matches_pattern, embedded_patterns,
    xhr_patterns, xhr_media_patterns, ignore_script, ignore_script_embedded, ignore_script_xhr,
    ignore_script_xhr_media, js_framework_allowed, visual_asset_extension,
};
use crate::keyed::KeyedMap;

verus! {

/// The kind of resource that a browser request loads.
#[derive(Clone, Copy, Debug, PartialEq, Eq, Structural)]
pub enum ResourceType {
    Document,
    Stylesheet,
    Image,
    Media,
    Font,
    Script,
    TextTrack,
    Xhr,
    Fetch,
    Prefetch,
    EventSource,
    WebSocket,
    Manifest,
    SignedExchange,
    Ping,
    CspViolationReport,
    Preflight,
    FedCm,
    Other,
}

/// User name and password handed to the browser on an authentication challenge.
#[derive(Clone, Debug)]
pub struct Credentials {
    pub username: String,
    pub password: String,
}

/// How the browser should answer an authentication challenge.
#[derive(Clone, Copy, Debug, PartialEq, Eq, Structural)]
pub enum AuthChallengeResponse {
    Default,
    CancelAuth,
    ProvideCredentials,
}

/// A command for the browser, to be sent by the transport.
#[derive(Debug)]
pub enum CdpCommand {
    /// `Network.enable`.
    NetworkEnable,
    /// `Security.setIgnoreCertificateErrors`.
    SetIgnoreCertificateErrors { ignore: bool },
    /// `Fetch.continueRequest`.
    ContinueRequest { request_id: String },
    /// `Fetch.fulfillRequest` with an empty body.
    FulfillRequest { request_id: String, response_code: u16 },
    /// `Fetch.continueWithAuth`.
    ContinueWithAuth {
        request_id: String,
        response: AuthChallengeResponse,
        username: Option<String>,
        password: Option<String>,
    },
    /// `Network.setCacheDisabled`.
    SetCacheDisabled { cache_disabled: bool },
    /// `Network.setExtraHTTPHeaders`.
    SetExtraHttpHeaders { headers: Vec<(String, String)> },
    /// `Network.emulateNetworkConditions`; a throughput of -1 means no limit.
    EmulateNetworkConditions {
        offline: bool,
        latency: i64,
        download_throughput: i64,
        upload_throughput: i64,
    },
    /// `Fetch.enable` for the given URL pattern.
    FetchEnable { handle_auth_requests: bool, url_pattern: &'static str },
    /// `Fetch.disable`.
    FetchDisable,
}

/// One request of a page, followed from its start to its end.
#[derive(Debug)]
pub struct HttpRequest<R> {
    pub request_id: String,
    pub frame_id: Option<String>,
    pub interception_id: Option<String>,
    pub is_navigation_request: bool,
    /// The earlier requests that redirected to this one, oldest first.
    pub redirect_chain: Vec<HttpRequest<R>>,
    pub response: Option<R>,
    pub failure_text: Option<String>,
    pub from_memory_cache: bool,
}

/// What the manager hands to its owner.
#[derive(Debug)]
pub enum NetworkEvent<R> {
    SendCdpRequest(CdpCommand),
    Request(String),
    Response(String),
    RequestFailed(HttpRequest<R>),
    RequestFinished(HttpRequest<R>),
}

/// `Network.requestWillBeSent`.
#[derive(Debug)]
pub struct EventRequestWillBeSent<R> {
    pub request_id: String,
    pub frame_id: Option<String>,
    pub url: String,
    /// The response that redirected to this request, if it is a redirect.
    pub redirect_response: Option<R>,
}

/// `Fetch.requestPaused`; `request_id` is the interception id.
#[derive(Debug)]
pub struct EventRequestPaused {
    pub request_id: String,
    pub network_id: Option<String>,
    pub url: String,
    pub method: String,
    pub is_same_site: Option<bool>,
    pub resource_type: ResourceType,
}

/// `Fetch.authRequired`; `request_id` is the interception id.
#[derive(Debug)]
pub struct EventAuthRequired {
    pub request_id: String,
}

/// `Network.requestServedFromCache`.
#[derive(Debug)]
pub struct EventRequestServedFromCache {
    pub request_id: String,
}

/// `Network.responseReceived`.
#[derive(Debug)]
pub struct EventResponseReceived<R> {
    pub request_id: String,
    pub response: R,
}

/// `Network.loadingFinished`.
#[derive(Debug)]
pub struct EventLoadingFinished {
    pub request_id: String,
}

/// `Network.loadingFailed`.
#[derive(Debug)]
pub struct EventLoadingFailed {
    pub request_id: String,
    pub error_text: String,
}

/// The interception switches that decide which requests are answered with an
/// empty response.
pub struct InterceptFlags {
    pub ignore_visuals: bool,
    pub block_stylesheets: bool,
    pub block_javascript: bool,
    pub block_analytics: bool,
    pub only_html: bool,
    pub block_ads: bool,
}

/// The state of a network manager, as values.
pub struct NetworkModel<R> {
    pub queued: Seq<NetworkEvent<R>>,
    pub requests: Map<Seq<char>, HttpRequest<R>>,
    pub will_be_sent: Map<Seq<char>, EventRequestWillBeSent<R>>,
    pub rid_to_iid: Map<Seq<char>, String>,
    pub attempted: Set<Seq<char>>,
    pub extra_headers: Seq<(String, String)>,
    pub credentials: Option<Credentials>,
    pub user_cache_disabled: bool,
    pub user_interception: bool,
    pub protocol_interception: bool,
    pub offline: bool,
    pub ignore_httpserrors: bool,
    pub request_timeout: Duration,
    pub flags: InterceptFlags,
}

} // verus!

verus! {

/// Position `p` holds the last dot of `url`.
pub open spec fn is_last_dot(url: Seq<char>, p: int) -> bool {
    is_last_of(url, '.', p)
}

/// The text after the last dot of `url` is a visual asset extension.
pub open spec fn ends_with_visual_asset(url: Seq<char>) -> bool {
    exists|p: int|
        #[trigger] is_last_dot(url, p) && is_visual_asset_extension(url.subrange(p + 1, url.len() as int))
}

/// An XHR request to `url` is answered with an empty response: a tracking
/// endpoint while analytics are blocked, a `.css` URL while stylesheets are
/// blocked, a visual asset while only HTML is wanted without visuals, or a
/// media player endpoint.
pub open spec fn skips_xhr(flags: InterceptFlags, url: Seq<char>) -> bool {
    ||| flags.block_analytics && matches_pattern(xhr_patterns(), url)
    ||| flags.block_stylesheets && is_suffix(".css"@, url)
    ||| flags.ignore_visuals && flags.only_html && ends_with_visual_asset(url)
    ||| matches_pattern(xhr_media_patterns(), url)
}

/// The skip ladder: a paused request of kind `rt` to `url` is answered with an
/// empty response instead of being continued.
pub open spec fn skips_request(flags: InterceptFlags, event: EventRequestPaused) -> bool {
    let rt = event.resource_type;
    let url = event.url@;
    ||| rt == ResourceType::Prefetch || rt == ResourceType::Ping
    ||| flags.ignore_visuals && (rt == ResourceType::Image || rt == ResourceType::Media
        || rt == ResourceType::Font || rt == ResourceType::Other)
    ||| flags.block_stylesheets && rt == ResourceType::Stylesheet
    ||| flags.block_javascript && rt == ResourceType::Script && !is_allowed_script(url)
    ||| (flags.only_html || flags.ignore_visuals) && (rt == ResourceType::Script
        || rt == ResourceType::Document) && matches_pattern(embedded_patterns(), url)
    ||| flags.block_analytics && rt == ResourceType::Script && is_ignored_script(url)
    ||| rt == ResourceType::Xhr && skips_xhr(flags, url)
    ||| flags.block_ads && detects_ad(flags, event)
}

/// The ad filters: any URL with one of these pieces is an ad.
pub const AD_FILTERS: &'static str = "-advertisement.\n-ads.\n-ad.\n-advertisement-icon.\n-advertisement-management/\n-advertisement/script.\n-ads/script.\n";

/// Whether an `adblock` engine built from the filter list `filters` matches a
/// request to `url` from `source_url` of type `request_type` and method `method`.
pub uninterp spec fn ad_match(
    filters: Seq<char>,
    url: Seq<char>,
    source_url: Seq<char>,
    request_type: Seq<char>,
    method: Seq<char>,
) -> bool;

/// Relies on `adblock`: `FilterSet::add_filter_list` and
/// `Engine::new_with_filter_set` build an engine from the list, and
/// `Engine::check_network_request` with `BlockerResult::should_block` checks
/// the request made by `Request::new`, whose error (an unparsable URL) counts
/// as no match. The verdict depends on
/// the five texts alone.
#[verifier::external_body]
fn ad_engine_matches(filters: &str, url: &str, source_url: &str, request_type: &str, method: &str) -> (r: bool)
    ensures
        r == ad_match(filters@, url@, source_url@, request_type@, method@),
{
    let mut set = adblock::lists::FilterSet::new(false);
    set.add_filter_list(filters.to_string(), adblock::lists::ParseOptions::default());
    let engine = adblock::Engine::new_with_filter_set(set);
    match adblock::request::Request::new(url, source_url, request_type, method) {
        Ok(request) => engine.check_network_request(&request).should_block(),
        Err(_) => false,
    }
}

/// The protocol name of a resource type that the ad filters look at.
pub open spec fn ad_request_type(rt: ResourceType) -> &'static str {
    match rt {
        ResourceType::Image => "Image",
        ResourceType::Media => "Media",
        ResourceType::Stylesheet => "Stylesheet",
        ResourceType::Fetch => "Fetch",
        _ => "XHR",
    }
}

/// The ad filters look at images, media, stylesheets, fetches and XHRs.
pub open spec fn ad_checked(rt: ResourceType) -> bool {
    rt == ResourceType::Image || rt == ResourceType::Media || rt == ResourceType::Stylesheet
        || rt == ResourceType::Fetch || rt == ResourceType::Xhr
}

/// The page a request counts as coming from: itself when same-site, else a
/// third-party origin.
pub open spec fn ad_source(event: EventRequestPaused) -> Seq<char> {
    if event.is_same_site == Some(true) { event.url@ } else { "https://example.com"@ }
}

/// The request is an ad: visuals are not ignored, its kind is one the filters
/// look at, and the filters match it.
pub open spec fn detects_ad(flags: InterceptFlags, event: EventRequestPaused) -> bool {
    !flags.ignore_visuals && ad_checked(event.resource_type)
        && ad_match(AD_FILTERS@, event.url@, ad_source(event), ad_request_type(event.resource_type)@, event.method@)
}

/// The only header that is never handed to the browser.
pub open spec fn proxy_authorization() -> Seq<char> {
    "proxy-authorization"@
}

/// `headers` without the entries named `proxy-authorization`, in order.
pub open spec fn without_proxy_authorization(headers: Seq<(String, String)>) -> Seq<(String, String)>
    decreases headers.len(),
{
    if headers.len() == 0 {
        Seq::empty()
    } else {
        let rest = without_proxy_authorization(headers.drop_last());
        if headers.last().0@ == proxy_authorization() {
            rest
        } else {
            rest.push(headers.last())
        }
    }
}

/// The manager's queue of outgoing events grew by `cmd`.
pub open spec fn sent<R>(q: Seq<NetworkEvent<R>>, cmd: CdpCommand) -> Seq<NetworkEvent<R>> {
    q.push(NetworkEvent::SendCdpRequest(cmd))
}

/// Follows the network requests of one page over the browser's events, and
/// decides for each intercepted request whether it goes on.
pub struct NetworkManager<R> {
    queued_events: VecDeque<NetworkEvent<R>>,
    ignore_httpserrors: bool,
    requests: KeyedMap<HttpRequest<R>>,
    requests_will_be_sent: KeyedMap<EventRequestWillBeSent<R>>,
    extra_headers: Vec<(String, String)>,
    request_id_to_interception_id: KeyedMap<String>,
    user_cache_disabled: bool,
    attempted_authentications: KeyedMap<()>,
    credentials: Option<Credentials>,
    user_request_interception_enabled: bool,
    protocol_request_interception_enabled: bool,
    offline: bool,
    request_timeout: Duration,
    /// Ignore visuals (no pings, prefetching, and etc).
    pub ignore_visuals: bool,
    /// Block CSS stylesheets.
    pub block_stylesheets: bool,
    /// Block javascript that is not critical to rendering.
    pub block_javascript: bool,
    /// Block analytics from rendering.
    pub block_analytics: bool,
    /// Only html from loading.
    pub only_html: bool,
    /// Check requests against the ad filter list.
    pub block_ads: bool,
}

impl<R> NetworkManager<R> {
    /// The maps behind the manager are well formed.
    pub closed spec fn wf(&self) -> bool {
        &&& self.requests.wf()
        &&& self.requests_will_be_sent.wf()
        &&& self.request_id_to_interception_id.wf()
        &&& self.attempted_authentications.wf()
        &&& records_keyed(self@)
        &&& buffered_keyed(self@)
    }

    /// Every record and every buffered announcement of a well-formed manager
    /// is filed under its own request id.
    pub proof fn lemma_wf_records_keyed(&self)
        requires
            self.wf(),
        ensures
            records_keyed(self@),
            buffered_keyed(self@),
    {
    }

    /// Sets the interception switches.
    pub fn set_intercept_flags(&mut self, flags: InterceptFlags)
        requires
            old(self).wf(),
        ensures
            final(self).wf(),
            final(self)@ == (NetworkModel { flags, ..old(self)@ }),
    {
        self.ignore_visuals = flags.ignore_visuals;
        self.block_stylesheets = flags.block_stylesheets;
        self.block_javascript = flags.block_javascript;
        self.block_analytics = flags.block_analytics;
        self.only_html = flags.only_html;
        self.block_ads = flags.block_ads;
    }

    /// The interception switches.
    pub closed spec fn flags(&self) -> InterceptFlags {
        InterceptFlags {
            ignore_visuals: self.ignore_visuals,
            block_stylesheets: self.block_stylesheets,
            block_javascript: self.block_javascript,
            block_analytics: self.block_analytics,
            only_html: self.only_html,
            block_ads: self.block_ads,
        }
    }

    /// The state as values.
    pub closed spec fn view(&self) -> NetworkModel<R> {
        NetworkModel {
            queued: self.queued_events@,
            requests: self.requests.view(),
            will_be_sent: self.requests_will_be_sent.view(),
            rid_to_iid: self.request_id_to_interception_id.view(),
            attempted: self.attempted_authentications.view().dom(),
            extra_headers: self.extra_headers@,
            credentials: self.credentials,
            user_cache_disabled: self.user_cache_disabled,
            user_interception: self.user_request_interception_enabled,
            protocol_interception: self.protocol_request_interception_enabled,
            offline: self.offline,
            ignore_httpserrors: self.ignore_httpserrors,
            request_timeout: self.request_timeout,
            flags: self.flags(),
        }
    }

    /// A manager with no requests, no interception and analytics blocked.
    pub fn new(ignore_httpserrors: bool, request_timeout: Duration) -> (r: Self)
        ensures
            r.wf(),
            r@.queued.len() == 0,
            r@.requests.is_empty(),
            r@.will_be_sent.is_empty(),
            r@.rid_to_iid.is_empty(),
            r@.attempted.is_empty(),
            r@.extra_headers.len() == 0,
            r@.credentials.is_none(),
            !r@.user_cache_disabled,
            !r@.user_interception,
            !r@.protocol_interception,
            !r@.offline,
            r@.ignore_httpserrors == ignore_httpserrors,
            r@.request_timeout == request_timeout,
            r@.flags == (InterceptFlags {
                ignore_visuals: false,
                block_stylesheets: false,
                block_javascript: false,
                block_analytics: true,
                only_html: false,
                block_ads: false,
            }),
    {
        NetworkManager {
            queued_events: VecDeque::new(),
            ignore_httpserrors,
            requests: KeyedMap::new(),
            requests_will_be_sent: KeyedMap::new(),
            extra_headers: Vec::new(),
            request_id_to_interception_id: KeyedMap::new(),
            user_cache_disabled: false,
            attempted_authentications: KeyedMap::new(),
            credentials: None,
            user_request_interception_enabled: false,
            protocol_request_interception_enabled: false,
            offline: false,
            request_timeout,
            ignore_visuals: false,
            block_javascript: false,
            block_stylesheets: false,
            block_analytics: true,
            only_html: false,
            block_ads: false,
        }
    }

    /// The time that the commands of a page may take.
    pub fn request_timeout(&self) -> (r: Duration)
        ensures
            r == self@.request_timeout,
    {
        self.request_timeout
    }

    /// The commands that set up a page: enable the network domain, and ignore
    /// certificate errors where asked to.
    pub fn init_commands(&self) -> (r: Vec<CdpCommand>)
        ensures
            r@.len() == (if self@.ignore_httpserrors { 2int } else { 1int }),
            r@[0] == CdpCommand::NetworkEnable,
            self@.ignore_httpserrors ==> r@[1] == (CdpCommand::SetIgnoreCertificateErrors { ignore: true }),
    {
        let mut v: Vec<CdpCommand> = Vec::new();
        v.push(CdpCommand::NetworkEnable);
        if self.ignore_httpserrors {
            v.push(CdpCommand::SetIgnoreCertificateErrors { ignore: true });
        }
        v
    }

    fn push_cdp_request(&mut self, cmd: CdpCommand)
        requires
            old(self).wf(),
        ensures
            final(self).wf(),
            final(self)@ == (NetworkModel { queued: sent(old(self)@.queued, cmd), ..old(self)@ }),
    {
        self.queued_events.push_back(NetworkEvent::SendCdpRequest(cmd));
    }

    /// The next event to handle, oldest first.
    pub fn poll(&mut self) -> (r: Option<NetworkEvent<R>>)
        requires
            old(self).wf(),
        ensures
            final(self).wf(),
            old(self)@.queued.len() == 0 ==> r.is_none() && final(self)@ == old(self)@,
            old(self)@.queued.len() > 0 ==> r == Some(old(self)@.queued[0]) && final(self)@ == (NetworkModel {
                queued: old(self)@.queued.drop_first(),
                ..old(self)@
            }),
    {
        let r = self.queued_events.pop_front();
        proof {
            if old(self)@.queued.len() > 0 {
                assert(self@.queued =~= old(self)@.queued.drop_first());
            }
        }
        r
    }

    /// The extra headers that are sent with every request.
    pub fn extra_headers(&self) -> (r: &Vec<(String, String)>)
        ensures
            r@ == self@.extra_headers,
    {
        &self.extra_headers
    }
}

} // verus!

verus! {

/// Interception is needed at the protocol level: the user asked for it, or
/// credentials are set.
pub open spec fn interception_needed<R>(m: NetworkModel<R>) -> bool {
    m.user_interception || m.credentials.is_some()
}

/// `Network.setCacheDisabled` with the cache off while the user disabled it or
/// requests are intercepted.
pub open spec fn cache_command<R>(m: NetworkModel<R>) -> CdpCommand {
    CdpCommand::SetCacheDisabled { cache_disabled: m.user_cache_disabled || m.protocol_interception }
}

/// The state after the protocol-level interception is brought in line with
/// what is needed: when that changes, the cache command and then `Fetch.enable`
/// (for every URL, with authentication) or `Fetch.disable` are sent.
pub open spec fn interception_updated<R>(m: NetworkModel<R>) -> NetworkModel<R> {
    let enabled = interception_needed(m);
    if enabled == m.protocol_interception {
        m
    } else {
        let m1 = NetworkModel { protocol_interception: enabled, ..m };
        let fetch = if enabled {
            CdpCommand::FetchEnable { handle_auth_requests: true, url_pattern: "*" }
        } else {
            CdpCommand::FetchDisable
        };
        NetworkModel { queued: sent(sent(m.queued, cache_command(m1)), fetch), ..m1 }
    }
}

/// The answer to an authentication challenge for interception id `id`.
pub open spec fn auth_response<R>(m: NetworkModel<R>, id: Seq<char>) -> AuthChallengeResponse {
    if m.attempted.contains(id) {
        AuthChallengeResponse::CancelAuth
    } else if m.credentials.is_some() {
        AuthChallengeResponse::ProvideCredentials
    } else {
        AuthChallengeResponse::Default
    }
}

/// The state after `Fetch.authRequired`: credentials are offered once per
/// interception id, and the answer is sent.
pub open spec fn auth_required_step<R>(m: NetworkModel<R>, event: EventAuthRequired) -> NetworkModel<R> {
    let id = event.request_id@;
    let response = auth_response(m, id);
    let cmd = CdpCommand::ContinueWithAuth {
        request_id: event.request_id,
        response,
        username: match m.credentials { Some(c) => Some(c.username), None => None },
        password: match m.credentials { Some(c) => Some(c.password), None => None },
    };
    NetworkModel {
        attempted: if response == AuthChallengeResponse::ProvideCredentials {
            m.attempted.insert(id)
        } else {
            m.attempted
        },
        queued: sent(m.queued, cmd),
        ..m
    }
}

/// The state after the offline mode is set to `value`: the network conditions
/// are sent only when the mode changes.
pub open spec fn offline_step<R>(m: NetworkModel<R>, value: bool) -> NetworkModel<R> {
    if m.offline == value {
        m
    } else {
        NetworkModel {
            offline: value,
            queued: sent(m.queued, CdpCommand::EmulateNetworkConditions {
                offline: value,
                latency: 0,
                download_throughput: -1i64,
                upload_throughput: -1i64,
            }),
            ..m
        }
    }
}

/// The attempted set without the interception id of a record, if it has one.
pub open spec fn forget_attempt<R>(attempted: Set<Seq<char>>, rec: HttpRequest<R>) -> Set<Seq<char>> {
    match rec.interception_id {
        Some(i) => attempted.remove(i@),
        None => attempted,
    }
}

/// The state after `Network.requestServedFromCache`.
pub open spec fn served_from_cache_step<R>(m: NetworkModel<R>, event: EventRequestServedFromCache) -> NetworkModel<R> {
    let rid = event.request_id@;
    if m.requests.contains_key(rid) {
        NetworkModel {
            requests: m.requests.insert(rid, HttpRequest { from_memory_cache: true, ..m.requests[rid] }),
            ..m
        }
    } else {
        m
    }
}

/// The state after `Network.responseReceived`: a known request gets its
/// response, leaves the table, and is handed on as finished.
pub open spec fn response_received_step<R>(m: NetworkModel<R>, event: EventResponseReceived<R>) -> NetworkModel<R> {
    let rid = event.request_id@;
    if m.requests.contains_key(rid) {
        let rec = HttpRequest { response: Some(event.response), ..m.requests[rid] };
        NetworkModel {
            requests: m.requests.remove(rid),
            attempted: forget_attempt(m.attempted, rec),
            queued: m.queued.push(NetworkEvent::RequestFinished(rec)),
            ..m
        }
    } else {
        m
    }
}

/// The state after `Network.loadingFinished`: a known request leaves the table
/// and is handed on as finished.
pub open spec fn loading_finished_step<R>(m: NetworkModel<R>, event: EventLoadingFinished) -> NetworkModel<R> {
    let rid = event.request_id@;
    if m.requests.contains_key(rid) {
        let rec = m.requests[rid];
        NetworkModel {
            requests: m.requests.remove(rid),
            attempted: forget_attempt(m.attempted, rec),
            queued: m.queued.push(NetworkEvent::RequestFinished(rec)),
            ..m
        }
    } else {
        m
    }
}

/// The state after `Network.loadingFailed`: a known request gets the error
/// text, leaves the table, and is handed on as failed.
pub open spec fn loading_failed_step<R>(m: NetworkModel<R>, event: EventLoadingFailed) -> NetworkModel<R> {
    let rid = event.request_id@;
    if m.requests.contains_key(rid) {
        let rec = HttpRequest { failure_text: Some(event.error_text), ..m.requests[rid] };
        NetworkModel {
            requests: m.requests.remove(rid),
            attempted: forget_attempt(m.attempted, rec),
            queued: m.queued.push(NetworkEvent::RequestFailed(rec)),
            ..m
        }
    } else {
        m
    }
}

/// `m2` is `m` after a request was recorded from `event`, with the interception
/// id `iid`: a redirect moves the earlier record, with its response, to the end
/// of the new record's redirect chain.
pub open spec fn request_recorded<R>(
    m: NetworkModel<R>,
    m2: NetworkModel<R>,
    event: EventRequestWillBeSent<R>,
    iid: Option<String>,
) -> bool {
    let rid = event.request_id@;
    let redirected = event.redirect_response.is_some() && m.requests.contains_key(rid);
    let prior = m.requests[rid];
    let rec = m2.requests[rid];
    &&& m2 == NetworkModel {
        requests: m2.requests,
        attempted: if redirected { forget_attempt(m.attempted, prior) } else { m.attempted },
        queued: m.queued.push(NetworkEvent::Request(event.request_id)),
        ..m
    }
    &&& m2.requests.contains_key(rid)
    &&& m2.requests.remove(rid) == m.requests.remove(rid)
    &&& rec.request_id == event.request_id
    &&& rec.frame_id == event.frame_id
    &&& rec.interception_id == iid
    &&& rec.is_navigation_request == m.user_interception
    &&& rec.response.is_none()
    &&& rec.failure_text.is_none()
    &&& !rec.from_memory_cache
    &&& if redirected {
        let moved = rec.redirect_chain@.last();
        &&& rec.redirect_chain@.len() == prior.redirect_chain@.len() + 1
        &&& rec.redirect_chain@.drop_last() == prior.redirect_chain@
        &&& moved.redirect_chain@.len() == 0
        &&& moved.response == event.redirect_response
        &&& moved.request_id == prior.request_id
        &&& moved.frame_id == prior.frame_id
        &&& moved.interception_id == prior.interception_id
        &&& moved.is_navigation_request == prior.is_navigation_request
        &&& moved.failure_text == prior.failure_text
        &&& moved.from_memory_cache == prior.from_memory_cache
    } else {
        rec.redirect_chain@.len() == 0
    }
}

/// Whether `url` is a `data:` URL, which the browser never intercepts.
pub open spec fn is_data_url(url: Seq<char>) -> bool {
    is_prefix("data:"@, url)
}

/// `m2` is `m` after `Network.requestWillBeSent`: while requests are
/// intercepted, a request other than a `data:` URL is paired with an
/// interception id that came first, or waits for one; otherwise it is recorded
/// at once.
pub open spec fn will_be_sent_post<R>(m: NetworkModel<R>, m2: NetworkModel<R>, event: EventRequestWillBeSent<R>) -> bool {
    let rid = event.request_id@;
    if m.protocol_interception && !is_data_url(event.url@) {
        if m.rid_to_iid.contains_key(rid) {
            request_recorded(
                NetworkModel { rid_to_iid: m.rid_to_iid.remove(rid), ..m },
                m2,
                event,
                Some(m.rid_to_iid[rid]),
            )
        } else {
            m2 == NetworkModel { will_be_sent: m.will_be_sent.insert(rid, event), ..m }
        }
    } else {
        request_recorded(m, m2, event, None)
    }
}

/// `m2` is `m` after `Fetch.requestPaused`.
pub open spec fn request_paused_post<R>(m: NetworkModel<R>, m2: NetworkModel<R>, event: EventRequestPaused) -> bool {
    let go_on = CdpCommand::ContinueRequest { request_id: event.request_id };
    if !m.user_interception && m.protocol_interception {
        m2 == NetworkModel { queued: sent(m.queued, go_on), ..m }
    } else {
        match event.network_id {
            None => m2 == NetworkModel { queued: sent(m.queued, go_on), ..m },
            Some(nid) => {
                if m.will_be_sent.contains_key(nid@) {
                    exists|m1: NetworkModel<R>| {
                        &&& request_recorded(
                            NetworkModel { will_be_sent: m.will_be_sent.remove(nid@), ..m },
                            m1,
                            m.will_be_sent[nid@],
                            Some(event.request_id),
                        )
                        &&& m2 == NetworkModel { queued: sent(m1.queued, go_on), ..m1 }
                    }
                } else {
                    let cmd = if skips_request(m.flags, event) {
                        CdpCommand::FulfillRequest { request_id: event.request_id, response_code: 200 }
                    } else {
                        go_on
                    };
                    m2 == NetworkModel { queued: sent(m.queued, cmd), ..m }
                }
            },
        }
    }
}

} // verus!

verus! {

impl<R> NetworkManager<R> {
    /// Stores the extra headers, without `proxy-authorization`, and sends them.
    pub fn set_extra_headers(&mut self, headers: Vec<(String, String)>)
        requires
            old(self).wf(),
        ensures
            final(self).wf(),
            final(self)@.extra_headers == without_proxy_authorization(headers@),
            final(self)@.queued.len() == old(self)@.queued.len() + 1,
            final(self)@.queued.drop_last() == old(self)@.queued,
            match final(self)@.queued.last() {
                NetworkEvent::SendCdpRequest(CdpCommand::SetExtraHttpHeaders { headers: sent_headers }) =>
                    sent_headers@ == without_proxy_authorization(headers@),
                _ => false,
            },
            final(self)@ == (NetworkModel {
                extra_headers: final(self)@.extra_headers,
                queued: final(self)@.queued,
                ..old(self)@
            }),
    {
        let mut kept: Vec<(String, String)> = Vec::new();
        let mut copy: Vec<(String, String)> = Vec::new();
        let mut i: usize = 0;
        while i < headers.len()
            invariant
                i <= headers@.len(),
                kept@ == without_proxy_authorization(headers@.subrange(0, i as int)),
                copy@ == kept@,
            decreases headers.len() - i,
        {
            let ghost sub = headers@.subrange(0, i + 1);
            assert(sub.drop_last() =~= headers@.subrange(0, i as int));
            assert(sub.last() == headers@[i as int]);
            let name = &headers[i].0;
            if !crate::chars::str_eq(name.as_str(), "proxy-authorization") {
                kept.push((headers[i].0.clone(), headers[i].1.clone()));
                copy.push((headers[i].0.clone(), headers[i].1.clone()));
            }
            i = i + 1;
        }
        assert(headers@.subrange(0, headers@.len() as int) =~= headers@);
        self.extra_headers = kept;
        self.push_cdp_request(CdpCommand::SetExtraHttpHeaders { headers: copy });
        assert(self@.queued.drop_last() =~= old(self)@.queued);
    }

    /// Turns the user's request interception on or off.
    pub fn set_request_interception(&mut self, enabled: bool)
        requires
            old(self).wf(),
        ensures
            final(self).wf(),
            final(self)@ == interception_updated(NetworkModel { user_interception: enabled, ..old(self)@ }),
    {
        self.user_request_interception_enabled = enabled;
        self.update_protocol_request_interception();
    }

    /// Turns the browser cache on or off.
    pub fn set_cache_enabled(&mut self, enabled: bool)
        requires
            old(self).wf(),
        ensures
            final(self).wf(),
            final(self)@ == ({
                let m = NetworkModel { user_cache_disabled: !enabled, ..old(self)@ };
                NetworkModel { queued: sent(m.queued, cache_command(m)), ..m }
            }),
    {
        self.user_cache_disabled = !enabled;
        self.update_protocol_cache_disabled();
    }

    /// Sends whether the cache is disabled.
    pub fn update_protocol_cache_disabled(&mut self)
        requires
            old(self).wf(),
        ensures
            final(self).wf(),
            final(self)@ == (NetworkModel { queued: sent(old(self)@.queued, cache_command(old(self)@)), ..old(self)@ }),
    {
        let disabled = self.user_cache_disabled || self.protocol_request_interception_enabled;
        self.push_cdp_request(CdpCommand::SetCacheDisabled { cache_disabled: disabled });
    }

    /// Sets the credentials for authentication challenges.
    pub fn authenticate(&mut self, credentials: Credentials)
        requires
            old(self).wf(),
        ensures
            final(self).wf(),
            final(self)@ == interception_updated(NetworkModel { credentials: Some(credentials), ..old(self)@ }),
    {
        self.credentials = Some(credentials);
        self.update_protocol_request_interception();
    }

    fn update_protocol_request_interception(&mut self)
        requires
            old(self).wf(),
        ensures
            final(self).wf(),
            final(self)@ == interception_updated(old(self)@),
    {
        let enabled = self.user_request_interception_enabled || self.credentials.is_some();
        if enabled == self.protocol_request_interception_enabled {
            return;
        }
        self.protocol_request_interception_enabled = enabled;
        self.update_protocol_cache_disabled();
        if enabled {
            self.push_cdp_request(CdpCommand::FetchEnable { handle_auth_requests: true, url_pattern: "*" });
        } else {
            self.push_cdp_request(CdpCommand::FetchDisable);
        }
    }

    /// Answers an authentication challenge: credentials are offered at most once
    /// for an interception id, a second challenge is cancelled.
    pub fn on_fetch_auth_required(&mut self, event: &EventAuthRequired)
        requires
            old(self).wf(),
        ensures
            final(self).wf(),
            final(self)@ == auth_required_step(old(self)@, *event),
    {
        let response = if self.attempted_authentications.contains_key(&event.request_id) {
            AuthChallengeResponse::CancelAuth
        } else if self.credentials.is_some() {
            self.attempted_authentications.insert(event.request_id.clone(), ());
            AuthChallengeResponse::ProvideCredentials
        } else {
            AuthChallengeResponse::Default
        };
        let (username, password) = match &self.credentials {
            Some(c) => (Some(c.username.clone()), Some(c.password.clone())),
            None => (None, None),
        };
        proof {
            assert(self@.attempted =~= auth_required_step(old(self)@, *event).attempted);
        }
        self.push_cdp_request(CdpCommand::ContinueWithAuth {
            request_id: event.request_id.clone(),
            response,
            username,
            password,
        });
    }

    /// Sets the offline mode; the network conditions are sent only on a change.
    pub fn set_offline_mode(&mut self, value: bool)
        requires
            old(self).wf(),
        ensures
            final(self).wf(),
            final(self)@ == offline_step(old(self)@, value),
    {
        if self.offline == value {
            return;
        }
        self.offline = value;
        self.push_cdp_request(CdpCommand::EmulateNetworkConditions {
            offline: value,
            latency: 0,
            download_throughput: -1,
            upload_throughput: -1,
        });
    }

    /// Marks a known request as served from the memory cache.
    pub fn on_request_served_from_cache(&mut self, event: &EventRequestServedFromCache)
        requires
            old(self).wf(),
        ensures
            final(self).wf(),
            final(self)@ == served_from_cache_step(old(self)@, *event),
    {
        if let Some(mut request) = self.requests.remove(&event.request_id) {
            request.from_memory_cache = true;
            self.requests.insert(event.request_id.clone(), request);
            proof {
                assert(self@.requests =~= served_from_cache_step(old(self)@, *event).requests);
            }
        } else {
            proof {
                assert(self@.requests =~= old(self)@.requests);
            }
        }
    }

    fn forget_attempt(&mut self, request: &HttpRequest<R>)
        requires
            old(self).wf(),
        ensures
            final(self).wf(),
            final(self)@ == (NetworkModel { attempted: forget_attempt(old(self)@.attempted, *request), ..old(self)@ }),
    {
        if let Some(interception_id) = &request.interception_id {
            let _ = self.attempted_authentications.remove(interception_id);
            assert(self@.attempted =~= old(self)@.attempted.remove(interception_id@));
        }
    }

    /// Attaches the response to a known request and hands it on as finished.
    #[verifier::rlimit(50)]
    pub fn on_response_received(&mut self, event: EventResponseReceived<R>)
        requires
            old(self).wf(),
        ensures
            final(self).wf(),
            final(self)@ == response_received_step(old(self)@, event),
    {
        let EventResponseReceived { request_id, response } = event;
        if let Some(mut request) = self.requests.remove(&request_id) {
            request.response = Some(response);
            self.forget_attempt(&request);
            self.queued_events.push_back(NetworkEvent::RequestFinished(request));
        } else {
            assert(self@.requests =~= old(self)@.requests);
        }
    }

    /// Hands a known request on as finished.
    pub fn on_network_loading_finished(&mut self, event: &EventLoadingFinished)
        requires
            old(self).wf(),
        ensures
            final(self).wf(),
            final(self)@ == loading_finished_step(old(self)@, *event),
    {
        if let Some(request) = self.requests.remove(&event.request_id) {
            self.forget_attempt(&request);
            self.queued_events.push_back(NetworkEvent::RequestFinished(request));
        } else {
            assert(self@.requests =~= old(self)@.requests);
        }
    }

    /// Records the error text of a known request and hands it on as failed.
    pub fn on_network_loading_failed(&mut self, event: &EventLoadingFailed)
        requires
            old(self).wf(),
        ensures
            final(self).wf(),
            final(self)@ == loading_failed_step(old(self)@, *event),
    {
        if let Some(mut request) = self.requests.remove(&event.request_id) {
            request.failure_text = Some(event.error_text.clone());
            self.forget_attempt(&request);
            self.queued_events.push_back(NetworkEvent::RequestFailed(request));
        } else {
            assert(self@.requests =~= old(self)@.requests);
        }
    }
}

} // verus!

verus! {

impl<R> NetworkManager<R> {
    /// Whether an XHR request is answered with an empty response; any other
    /// request keeps the decision taken so far.
    fn skip_xhr(&self, skip_networking: bool, event: &EventRequestPaused) -> (r: bool)
        ensures
            r == (skip_networking || (event.resource_type == ResourceType::Xhr
                && skips_xhr(self.flags(), event.url@))),
    {
        if skip_networking || event.resource_type != ResourceType::Xhr {
            return skip_networking;
        }
        let request_url = event.url.as_str();
        if self.block_analytics && ignore_script_xhr(request_url) {
            return true;
        }
        let t = to_chars(request_url);
        if self.block_stylesheets && ends_with_str(&t, ".css") {
            return true;
        }
        if self.ignore_visuals && self.only_html && self.visual_asset_url(request_url, &t) {
            return true;
        }
        ignore_script_xhr_media(request_url)
    }

    fn visual_asset_url(&self, url: &str, t: &Vec<char>) -> (r: bool)
        requires
            t@ == url@,
        ensures
            r == ends_with_visual_asset(url@),
    {
        match rfind_char(t, '.') {
            Some(position) => {
                let n = t.len();
                assert(position < n);
                let ext = url.substring_char(position + 1, n);
                let r = visual_asset_extension(ext);
                assert(r == ends_with_visual_asset(url@)) by {
                    if ends_with_visual_asset(url@) {
                        let p = choose|p: int| #[trigger] is_last_dot(url@, p)
                            && is_visual_asset_extension(url@.subrange(p + 1, url@.len() as int));
                        assert(p == position);
                    }
                    if r {
                        assert(is_last_dot(url@, position as int));
                    }
                }
                r
            },
            None => false,
        }
    }

    /// The skip ladder, applied to a paused request.
    fn skip_request(&self, event: &EventRequestPaused) -> (r: bool)
        ensures
            r == skips_request(self.flags(), *event),
    {
        let rt = event.resource_type;
        let url = event.url.as_str();
        let javascript_resource = rt == ResourceType::Script;
        let skip_networking = rt == ResourceType::Prefetch || rt == ResourceType::Ping
            || self.ignore_visuals && (rt == ResourceType::Image || rt == ResourceType::Media
                || rt == ResourceType::Font || rt == ResourceType::Other)
            || self.block_stylesheets && rt == ResourceType::Stylesheet
            || self.block_javascript && javascript_resource && !js_framework_allowed(url);
        let skip_networking = if !skip_networking && (self.only_html || self.ignore_visuals)
            && (javascript_resource || rt == ResourceType::Document) {
            ignore_script_embedded(url)
        } else {
            skip_networking
        };
        let skip_networking = if !skip_networking && javascript_resource && self.block_analytics {
            ignore_script(url)
        } else {
            skip_networking
        };
        let skip_networking = self.skip_xhr(skip_networking, event);
        skip_networking || (self.block_ads && self.detect_ad(event))
    }

    /// Whether a paused request is an ad, by the ad filters.
    pub fn detect_ad(&self, event: &EventRequestPaused) -> (r: bool)
        ensures
            r == detects_ad(self.flags(), *event),
    {
        let rt = event.resource_type;
        let asset = rt == ResourceType::Image || rt == ResourceType::Media || rt == ResourceType::Stylesheet;
        if self.ignore_visuals || !(asset || rt == ResourceType::Fetch || rt == ResourceType::Xhr) {
            return false;
        }
        let u = event.url.as_str();
        let same_site = match event.is_same_site {
            Some(b) => b,
            None => false,
        };
        let source = if same_site { u } else { "https://example.com" };
        let request_type = match rt {
            ResourceType::Image => "Image",
            ResourceType::Media => "Media",
            ResourceType::Stylesheet => "Stylesheet",
            ResourceType::Fetch => "Fetch",
            _ => "XHR",
        };
        ad_engine_matches(AD_FILTERS, u, source, request_type, event.method.as_str())
    }

    #[verifier::rlimit(50)]
    fn on_request(&mut self, event: EventRequestWillBeSent<R>, interception_id: Option<String>)
        requires
            old(self).wf(),
        ensures
            final(self).wf(),
            request_recorded(old(self)@, final(self)@, event, interception_id),
    {
        let ghost ev = event;
        let EventRequestWillBeSent { request_id, frame_id, url: _, redirect_response } = event;
        let mut redirect_chain: Vec<HttpRequest<R>> = Vec::new();
        let ghost redirected = false;
        if let Some(redirect_resp) = redirect_response {
            if let Some(request) = self.requests.remove(&request_id) {
                proof { redirected = true; }
                let HttpRequest {
                    request_id: prior_id,
                    frame_id: prior_frame,
                    interception_id: prior_iid,
                    is_navigation_request,
                    redirect_chain: prior_chain,
                    response: _,
                    failure_text,
                    from_memory_cache,
                } = request;
                let moved = HttpRequest {
                    request_id: prior_id,
                    frame_id: prior_frame,
                    interception_id: prior_iid,
                    is_navigation_request,
                    redirect_chain: Vec::new(),
                    response: Some(redirect_resp),
                    failure_text,
                    from_memory_cache,
                };
                self.forget_attempt(&moved);
                redirect_chain = prior_chain;
                redirect_chain.push(moved);
            }
        }
        let ghost mid = self@;
        let key = request_id.clone();
        let announced = request_id.clone();
        let request = HttpRequest {
            request_id,
            frame_id,
            interception_id,
            is_navigation_request: self.user_request_interception_enabled,
            redirect_chain,
            response: None,
            failure_text: None,
            from_memory_cache: false,
        };
        self.requests.insert(key, request);
        self.queued_events.push_back(NetworkEvent::Request(announced));
        proof {
            let rid = ev.request_id@;
            assert(redirected == (ev.redirect_response.is_some() && old(self)@.requests.contains_key(rid)));
            assert(self@.requests.remove(rid) =~= old(self)@.requests.remove(rid));
            if redirected {
                assert(self@.requests[rid].redirect_chain@.drop_last() =~= old(self)@.requests[rid].redirect_chain@);
            }
        }
    }

    /// Pairs a request about to be sent with its interception, or records it.
    /// Requests for `data:` URLs are never intercepted by the browser.
    pub fn on_request_will_be_sent(&mut self, event: EventRequestWillBeSent<R>)
        requires
            old(self).wf(),
        ensures
            final(self).wf(),
            will_be_sent_post(old(self)@, final(self)@, event),
    {
        let data = starts_with_chars(&to_chars(event.url.as_str()), &to_chars("data:"));
        if self.protocol_request_interception_enabled && !data {
            if let Some(interception_id) = self.request_id_to_interception_id.remove(&event.request_id) {
                assert(self@ == (NetworkModel {
                    rid_to_iid: old(self)@.rid_to_iid.remove(event.request_id@),
                    ..old(self)@
                }));
                self.on_request(event, Some(interception_id));
            } else {
                assert(self@.rid_to_iid =~= old(self)@.rid_to_iid);
                let key = event.request_id.clone();
                self.requests_will_be_sent.insert(key, event);
            }
        } else {
            self.on_request(event, None);
        }
    }

    /// Decides what becomes of a paused request: it is paired with the request
    /// that announced it and continued, or it goes down the skip ladder and is
    /// answered with an empty `200` or continued.
    pub fn on_fetch_request_paused(&mut self, event: &EventRequestPaused)
        requires
            old(self).wf(),
        ensures
            final(self).wf(),
            request_paused_post(old(self)@, final(self)@, *event),
    {
        if !self.user_request_interception_enabled && self.protocol_request_interception_enabled {
            self.push_cdp_request(CdpCommand::ContinueRequest { request_id: event.request_id.clone() });
        } else {
            match &event.network_id {
                Some(network_id) => {
                    if let Some(request_will_be_sent) = self.requests_will_be_sent.remove(network_id) {
                        let ghost m0 = old(self)@;
                        assert(self@ == (NetworkModel { will_be_sent: m0.will_be_sent.remove(network_id@), ..m0 }));
                        self.on_request(request_will_be_sent, Some(event.request_id.clone()));
                        let ghost m1 = self@;
                        self.push_cdp_request(CdpCommand::ContinueRequest { request_id: event.request_id.clone() });
                        assert(m0.will_be_sent.contains_key(network_id@));
                        assert(request_recorded(
                            NetworkModel { will_be_sent: m0.will_be_sent.remove(network_id@), ..m0 },
                            m1,
                            m0.will_be_sent[network_id@],
                            Some(event.request_id),
                        ));
                    } else {
                        assert(self@.will_be_sent =~= old(self)@.will_be_sent);
                        let skip = self.skip_request(event);
                        if skip {
                            self.push_cdp_request(CdpCommand::FulfillRequest {
                                request_id: event.request_id.clone(),
                                response_code: 200,
                            });
                        } else {
                            self.push_cdp_request(CdpCommand::ContinueRequest { request_id: event.request_id.clone() });
                        }
                    }
                },
                None => {
                    self.push_cdp_request(CdpCommand::ContinueRequest { request_id: event.request_id.clone() });
                },
            }
        }
    }
}

} // verus!

verus! {

/// `e` hands on the request `rid` as finished.
pub open spec fn finishes<R>(e: NetworkEvent<R>, rid: Seq<char>) -> bool {
    match e {
        NetworkEvent::RequestFinished(rec) => rec.request_id@ == rid,
        _ => false,
    }
}

/// How many events of `q` hand on the request `rid` as finished.
pub open spec fn finished_count<R>(q: Seq<NetworkEvent<R>>, rid: Seq<char>) -> nat
    decreases q.len(),
{
    if q.len() == 0 {
        0
    } else {
        finished_count(q.drop_last(), rid) + if finishes(q.last(), rid) { 1nat } else { 0nat }
    }
}

proof fn lemma_count_push<R>(q: Seq<NetworkEvent<R>>, e: NetworkEvent<R>, rid: Seq<char>)
    ensures
        finished_count(q.push(e), rid) == finished_count(q, rid) + if finishes(e, rid) { 1nat } else { 0nat },
{
    assert(q.push(e).drop_last() =~= q);
}

/// Every buffered announcement is filed under its own request id.
pub open spec fn buffered_keyed<R>(m: NetworkModel<R>) -> bool {
    forall|k: Seq<char>| #[trigger] m.will_be_sent.contains_key(k) ==> m.will_be_sent[k].request_id@ == k
}

/// Every record in the table is filed under its own request id.
pub open spec fn records_keyed<R>(m: NetworkModel<R>) -> bool {
    forall|k: Seq<char>| #[trigger] m.requests.contains_key(k) ==> m.requests[k].request_id@ == k
}

/// A request that reaches `loadingFinished` is gone from the table afterwards,
/// and the manager has handed it on as finished exactly once, whether its
/// response came before or not.
pub proof fn lemma_finished_exactly_once<R>(
    m: NetworkModel<R>,
    response: EventResponseReceived<R>,
    finished: EventLoadingFinished,
)
    requires
        records_keyed(m),
        m.requests.contains_key(finished.request_id@),
        response.request_id@ == finished.request_id@,
    ensures
        ({
            let rid = finished.request_id@;
            let m1 = loading_finished_step(m, finished);
            &&& !m1.requests.contains_key(rid)
            &&& finished_count(m1.queued, rid) == finished_count(m.queued, rid) + 1
        }),
        ({
            let rid = finished.request_id@;
            let m1 = response_received_step(m, response);
            let m2 = loading_finished_step(m1, finished);
            &&& !m2.requests.contains_key(rid)
            &&& finished_count(m2.queued, rid) == finished_count(m.queued, rid) + 1
        }),
{
    let rid = finished.request_id@;
    let rec = m.requests[rid];
    lemma_count_push(m.queued, NetworkEvent::RequestFinished(rec), rid);
    lemma_count_push(
        m.queued,
        NetworkEvent::RequestFinished(HttpRequest { response: Some(response.response), ..rec }),
        rid,
    );
}

/// A request is never handed on as finished twice: after `loadingFinished`
/// a second `loadingFinished` for it changes nothing.
pub proof fn lemma_finished_then_nothing<R>(m: NetworkModel<R>, finished: EventLoadingFinished)
    ensures
        loading_finished_step(loading_finished_step(m, finished), finished)
            == loading_finished_step(m, finished),
{
}

/// Credentials are offered at most once for an interception id: with
/// credentials set, the first challenge is answered with them and a second one
/// for the same id is cancelled.
pub proof fn lemma_credentials_offered_once<R>(m: NetworkModel<R>, event: EventAuthRequired)
    requires
        m.credentials.is_some(),
        !m.attempted.contains(event.request_id@),
    ensures
        auth_response(m, event.request_id@) == AuthChallengeResponse::ProvideCredentials,
        auth_response(auth_required_step(m, event), event.request_id@) == AuthChallengeResponse::CancelAuth,
        auth_required_step(auth_required_step(m, event), event).attempted
            == auth_required_step(m, event).attempted,
{
}

/// Once credentials were offered for an interception id, every further
/// challenge for it is cancelled.
pub proof fn lemma_attempted_cancelled<R>(m: NetworkModel<R>, event: EventAuthRequired)
    requires
        m.attempted.contains(event.request_id@),
    ensures
        auth_response(m, event.request_id@) == AuthChallengeResponse::CancelAuth,
        auth_required_step(m, event).attempted == m.attempted,
{
}

/// Setting the offline mode to the value it has sends nothing and changes nothing.
pub proof fn lemma_offline_same_value_noop<R>(m: NetworkModel<R>, value: bool)
    requires
        m.offline == value,
    ensures
        offline_step(m, value) == m,
{
}

/// A request for a `data:` URL is recorded at once, without an interception id,
/// and the pairing tables are left alone.
pub proof fn lemma_data_url_not_paired<R>(m: NetworkModel<R>, m2: NetworkModel<R>, event: EventRequestWillBeSent<R>)
    requires
        will_be_sent_post(m, m2, event),
        is_data_url(event.url@),
    ensures
        m2.will_be_sent == m.will_be_sent,
        m2.rid_to_iid == m.rid_to_iid,
        m2.requests.contains_key(event.request_id@),
        m2.requests[event.request_id@].interception_id.is_none(),
{
}

} // verus!
