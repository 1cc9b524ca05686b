use vstd::prelude::*;
use case_insensitive_string::CaseInsensitiveString;
use crate::chars::{is_last_of, rfind_char, is_prefix, is_suffix, to_chars, starts_with_chars, ends_with_str, str_eq};

verus! {

/// A set of patterns that answers whether any of them begins a given text.
pub struct Trie {
    words: Vec<Vec<char>>,
}

/// `text` begins with a word of `words`.
pub open spec fn has_word_prefix(words: Set<Seq<char>>, text: Seq<char>) -> bool {
    exists|w: Seq<char>| #[trigger] words.contains(w) && is_prefix(w, text)
}

/// The set of the views of a list of string slices.
pub open spec fn pattern_set(pats: Seq<&str>) -> Set<Seq<char>> {
    Set::new(|w: Seq<char>| exists|i: int| 0 <= i < pats.len() && #[trigger] pats[i]@ == w)
}

/// `text` begins with a pattern of `pats`.
pub open spec fn matches_pattern(pats: Seq<&str>, text: Seq<char>) -> bool {
    has_word_prefix(pattern_set(pats), text)
}

impl View for Trie {
    type V = Set<Seq<char>>;

    closed spec fn view(&self) -> Set<Seq<char>> {
        Set::new(|w: Seq<char>| exists|i: int| 0 <= i < self.words@.len() && #[trigger] self.words@[i]@ == w)
    }
}

impl Trie {
    /// An empty trie.
    pub fn new() -> (r: Trie)
        ensures
            r@ == Set::<Seq<char>>::empty(),
    {
        let r = Trie { words: Vec::new() };
        assert(r@ =~= Set::<Seq<char>>::empty());
        r
    }

    /// Adds a word.
    pub fn insert(&mut self, word: &str)
        ensures
            final(self)@ == old(self)@.insert(word@),
    {
        let w = to_chars(word);
        self.words.push(w);
        assert(final(self)@ =~= old(self)@.insert(word@)) by {
            assert(self.words@[self.words@.len() - 1]@ == word@);
            assert forall|x: Seq<char>| old(self)@.contains(x) implies self@.contains(x) by {
                let i = choose|i: int| 0 <= i < old(self).words@.len() && #[trigger] old(self).words@[i]@ == x;
                assert(self.words@[i]@ == x);
            }
        }
    }

    /// Whether a word of the trie is a prefix of `text`.
    pub fn contains_prefix(&self, text: &str) -> (r: bool)
        ensures
            r == has_word_prefix(self@, text@),
    {
        let t = to_chars(text);
        let mut i: usize = 0;
        while i < self.words.len()
            invariant
                t@ == text@,
                i <= self.words@.len(),
                forall|j: int| 0 <= j < i ==> !#[trigger] is_prefix(self.words@[j]@, t@),
            decreases self.words.len() - i,
        {
            if starts_with_chars(&t, &self.words[i]) {
                assert(self@.contains(self.words@[i as int]@));
                return true;
            }
            i = i + 1;
        }
        proof {
            if has_word_prefix(self@, text@) {
                let w = choose|w: Seq<char>| #[trigger] self@.contains(w) && is_prefix(w, text@);
                let j = choose|j: int| 0 <= j < self.words@.len() && #[trigger] self.words@[j]@ == w;
                assert(!is_prefix(self.words@[j]@, t@));
            }
        }
        false
    }

    /// A trie that holds exactly the given patterns.
    pub fn from_patterns(pats: &Vec<&str>) -> (r: Trie)
        ensures
            r@ == pattern_set(pats@),
    {
        let mut r = Trie::new();
        let mut i: usize = 0;
        while i < pats.len()
            invariant
                i <= pats@.len(),
                r@ == pattern_set(pats@.subrange(0, i as int)),
            decreases pats.len() - i,
        {
            r.insert(pats[i]);
            i = i + 1;
            assert(r@ =~= pattern_set(pats@.subrange(0, i as int))) by {
                let s = pats@.subrange(0, i as int);
                assert(s[i - 1]@ == pats@[i - 1]@);
                assert forall|w: Seq<char>| pattern_set(s).contains(w) implies r@.contains(w) by {
                    let k = choose|k: int| 0 <= k < s.len() && #[trigger] s[k]@ == w;
                    if k < i - 1 {
                        assert(pats@.subrange(0, i - 1)[k] == s[k]);
                    }
                }
                assert forall|w: Seq<char>| r@.contains(w) implies pattern_set(s).contains(w) by {
                    if w != pats@[i - 1]@ {
                        let k = choose|k: int| 0 <= k < i - 1 && #[trigger] pats@.subrange(0, i - 1)[k]@ == w;
                        assert(s[k] == pats@.subrange(0, i - 1)[k]);
                    }
                }
            }
        }
        assert(pats@.subrange(0, pats@.len() as int) =~= pats@);
        r
    }
}

} // verus!

verus! {

/// Prefixes of tracker, advertising and analytics scripts.
pub open spec fn script_patterns() -> Seq<&'static str> {
    seq![
        "https://www.googletagservices.com/tag/",
        "https://js.hs-analytics.net/analytics/",
        "https://js.hsadspixel.net",
        "https://www.google.com/adsense/",
        "https://www.googleadservices.com",
        "https://adservice.google.com",
        "https://www.gstatic.com/cv/js/sender/",
        "https://googleads.g.doubleclick.net",
        "https://www.google-analytics.com",
        "https://www.googletagmanager.com",
        "https://iabusprivacy.pmc.com/geo-info.js",
        "https://cdn.onesignal.com",
        "https://cdn.cookielaw.org/",
        "https://static.doubleclick.net",
        "https://cdn.piano.io",
        "https://px.ads.linkedin.com",
        "https://connect.facebook.net",
        "https://tags.tiqcdn.com",
        "https://tr.snapchat.com",
        "https://ads.twitter.com",
        "https://cdn.segment.com",
        "https://stats.wp.com",
        "https://analytics.",
        "http://analytics.",
        "https://cdn.cxense.com",
        "https://cdn.tinypass.com",
        "https://cd.connatix.com",
        ".newrelic.com",
        ".googlesyndication.com",
        ".amazon-adsystem.com",
        ".onetrust.com",
        "sc.omtrdc.net",
        "doubleclick.net",
        "hotjar.com",
        "datadome.com",
        "datadog-logs-us.js",
        "tinypass.min.js",
        ".airship.com",
        ".adlightning.com",
        "privacy-notice.js",
        "tracking.js",
        "ads.js",
        "https://ads.",
        "http://ads.",
        "https://tracking.",
        "http://tracking.",
        "https://geo.privacymanager.io/",
    ]
}

fn script_pattern_list() -> (r: Vec<&'static str>)
    ensures
        r@ == script_patterns(),
{
    let r = vec![
        "https://www.googletagservices.com/tag/",
        "https://js.hs-analytics.net/analytics/",
        "https://js.hsadspixel.net",
        "https://www.google.com/adsense/",
        "https://www.googleadservices.com",
        "https://adservice.google.com",
        "https://www.gstatic.com/cv/js/sender/",
        "https://googleads.g.doubleclick.net",
        "https://www.google-analytics.com",
        "https://www.googletagmanager.com",
        "https://iabusprivacy.pmc.com/geo-info.js",
        "https://cdn.onesignal.com",
        "https://cdn.cookielaw.org/",
        "https://static.doubleclick.net",
        "https://cdn.piano.io",
        "https://px.ads.linkedin.com",
        "https://connect.facebook.net",
        "https://tags.tiqcdn.com",
        "https://tr.snapchat.com",
        "https://ads.twitter.com",
        "https://cdn.segment.com",
        "https://stats.wp.com",
        "https://analytics.",
        "http://analytics.",
        "https://cdn.cxense.com",
        "https://cdn.tinypass.com",
        "https://cd.connatix.com",
        ".newrelic.com",
        ".googlesyndication.com",
        ".amazon-adsystem.com",
        ".onetrust.com",
        "sc.omtrdc.net",
        "doubleclick.net",
        "hotjar.com",
        "datadome.com",
        "datadog-logs-us.js",
        "tinypass.min.js",
        ".airship.com",
        ".adlightning.com",
        "privacy-notice.js",
        "tracking.js",
        "ads.js",
        "https://ads.",
        "http://ads.",
        "https://tracking.",
        "http://tracking.",
        "https://geo.privacymanager.io/",
    ];
    assert(r@ =~= script_patterns());
    r
}

/// Prefixes of tracking XHR endpoints.
pub open spec fn xhr_patterns() -> Seq<&'static str> {
    seq![
        "https://play.google.com/log?",
        "https://googleads.g.doubleclick.net/pagead/id",
        "https://js.monitor.azure.com/scripts",
        "https://securepubads.g.doubleclick.net",
        "https://pixel-config.reddit.com/pixels",
        "https://www.amazon.com/af/feedback-link?",
        "https://tr.snapchat.com/config/",
        "https://collect.tealiumiq.com/",
        "https://s.yimg.com/wi",
        "https://disney.my.sentry.io/api/",
        "https://www.redditstatic.com/ads",
        "https://buy.tinypass.com/",
        "https://idx.liadm.com",
        "https://geo.privacymanager.io/",
        "https://nimbleplot.com",
        "googlesyndication.com",
        ".piano.io/",
        ".browsiprod.com",
        ".onetrust.com/consent/",
        "https://logs.",
        "/track.php",
    ]
}

fn xhr_pattern_list() -> (r: Vec<&'static str>)
    ensures
        r@ == xhr_patterns(),
{
    let r = vec![
        "https://play.google.com/log?",
        "https://googleads.g.doubleclick.net/pagead/id",
        "https://js.monitor.azure.com/scripts",
        "https://securepubads.g.doubleclick.net",
        "https://pixel-config.reddit.com/pixels",
        "https://www.amazon.com/af/feedback-link?",
        "https://tr.snapchat.com/config/",
        "https://collect.tealiumiq.com/",
        "https://s.yimg.com/wi",
        "https://disney.my.sentry.io/api/",
        "https://www.redditstatic.com/ads",
        "https://buy.tinypass.com/",
        "https://idx.liadm.com",
        "https://geo.privacymanager.io/",
        "https://nimbleplot.com",
        "googlesyndication.com",
        ".piano.io/",
        ".browsiprod.com",
        ".onetrust.com/consent/",
        "https://logs.",
        "/track.php",
    ];
    assert(r@ =~= xhr_patterns());
    r
}

/// Prefixes of embedded players, widgets, font kits and ad frames.
pub open spec fn embedded_patterns() -> Seq<&'static str> {
    seq![
        "https://www.youtube.com/embed/",
        "https://www.google.com/maps/embed?",
        "https://player.vimeo.com/video/",
        "https://open.spotify.com/embed/",
        "https://w.soundcloud.com/player/",
        "https://platform.twitter.com/embed/",
        "https://www.instagram.com/embed.js",
        "https://www.facebook.com/plugins/",
        "https://cdn.embedly.com/widgets/",
        "https://player.twitch.tv/",
        "https://insight.adsrvr.org/track/",
        "cxense.com/",
        "https://tr.snapchat.com/",
        "https://buy.tinypass.com",
        "https://nimbleplot.com/",
        "https://kit.fontawesome.com/",
        "https://use.typekit.net",
        "https://cdn.tailwindcss.com",
        "https://googleads.g.doubleclick.net",
        "amazon-adsystem.com",
        "g.doubleclick.net",
        "googlesyndication.com",
        "adsafeprotected.com",
        ".googlesyndication.com/safeframe/",
        "/ccpa/user-consent.min.js",
        "privacy-notice.js",
    ]
}

fn embedded_pattern_list() -> (r: Vec<&'static str>)
    ensures
        r@ == embedded_patterns(),
{
    let r = vec![
        "https://www.youtube.com/embed/",
        "https://www.google.com/maps/embed?",
        "https://player.vimeo.com/video/",
        "https://open.spotify.com/embed/",
        "https://w.soundcloud.com/player/",
        "https://platform.twitter.com/embed/",
        "https://www.instagram.com/embed.js",
        "https://www.facebook.com/plugins/",
        "https://cdn.embedly.com/widgets/",
        "https://player.twitch.tv/",
        "https://insight.adsrvr.org/track/",
        "cxense.com/",
        "https://tr.snapchat.com/",
        "https://buy.tinypass.com",
        "https://nimbleplot.com/",
        "https://kit.fontawesome.com/",
        "https://use.typekit.net",
        "https://cdn.tailwindcss.com",
        "https://googleads.g.doubleclick.net",
        "amazon-adsystem.com",
        "g.doubleclick.net",
        "googlesyndication.com",
        "adsafeprotected.com",
        ".googlesyndication.com/safeframe/",
        "/ccpa/user-consent.min.js",
        "privacy-notice.js",
    ];
    assert(r@ =~= embedded_patterns());
    r
}

/// Prefixes of XHR endpoints of media players.
pub open spec fn xhr_media_patterns() -> Seq<&'static str> {
    seq![
        "https://www.youtube.com/s/player/",
        "https://www.vimeo.com/player/",
        "https://soundcloud.com/player/",
        "https://open.spotify.com/",
        "https://api.spotify.com/v1/",
        "https://music.apple.com/",
    ]
}

fn xhr_media_pattern_list() -> (r: Vec<&'static str>)
    ensures
        r@ == xhr_media_patterns(),
{
    let r = vec![
        "https://www.youtube.com/s/player/",
        "https://www.vimeo.com/player/",
        "https://soundcloud.com/player/",
        "https://open.spotify.com/",
        "https://api.spotify.com/v1/",
        "https://music.apple.com/",
    ];
    assert(r@ =~= xhr_media_patterns());
    r
}

/// Scripts that stay allowed when JavaScript is blocked.
pub open spec fn js_framework_allow() -> Seq<&'static str> {
    seq![
        "jquery.min.js",
        "jquery.qtip.min.js",
        "jquery.js",
        "angular.js",
        "jquery.slim.js",
        "react.development.js",
        "react-dom.development.js",
        "react.production.min.js",
        "react-dom.production.min.js",
        "vue.global.js",
        "vue.esm-browser.js",
        "vue.js",
        "bootstrap.min.js",
        "bootstrap.bundle.min.js",
        "bootstrap.esm.min.js",
        "d3.min.js",
        "d3.js",
        "app.js",
        "main.js",
        "index.js",
        "https://m.stripe.network/inner.html",
        "https://m.stripe.network/out-4.5.43.js",
        "https://challenges.cloudflare.com/turnstile",
        "https://js.stripe.com/v3/",
    ]
}

fn js_framework_allow_list() -> (r: Vec<&'static str>)
    ensures
        r@ == js_framework_allow(),
{
    let r = vec![
        "jquery.min.js",
        "jquery.qtip.min.js",
        "jquery.js",
        "angular.js",
        "jquery.slim.js",
        "react.development.js",
        "react-dom.development.js",
        "react.production.min.js",
        "react-dom.production.min.js",
        "vue.global.js",
        "vue.esm-browser.js",
        "vue.js",
        "bootstrap.min.js",
        "bootstrap.bundle.min.js",
        "bootstrap.esm.min.js",
        "d3.min.js",
        "d3.js",
        "app.js",
        "main.js",
        "index.js",
        "https://m.stripe.network/inner.html",
        "https://m.stripe.network/out-4.5.43.js",
        "https://challenges.cloudflare.com/turnstile",
        "https://js.stripe.com/v3/",
    ];
    assert(r@ =~= js_framework_allow());
    r
}

/// Extensions of visual assets, matched without regard to ASCII case.
pub open spec fn xhr_asset_extensions() -> Seq<&'static str> {
    seq![
        "jpg",
        "jpeg",
        "png",
        "gif",
        "svg",
        "webp",
        "mp4",
        "avi",
        "mov",
        "wmv",
        "flv",
        "mp3",
        "wav",
        "ogg",
        "woff",
        "woff2",
        "ttf",
        "otf",
        "swf",
        "xap",
        "ico",
        "eot",
        ".jpg",
        ".jpeg",
        ".png",
        ".gif",
        ".svg",
        ".webp",
        ".mp4",
        ".avi",
        ".mov",
        ".wmv",
        ".flv",
        ".mp3",
        ".wav",
        ".ogg",
        ".woff",
        ".woff2",
        ".ttf",
        ".otf",
        ".swf",
        ".xap",
        ".ico",
        ".eot",
    ]
}

fn xhr_asset_extension_list() -> (r: Vec<&'static str>)
    ensures
        r@ == xhr_asset_extensions(),
{
    let r = vec![
        "jpg",
        "jpeg",
        "png",
        "gif",
        "svg",
        "webp",
        "mp4",
        "avi",
        "mov",
        "wmv",
        "flv",
        "mp3",
        "wav",
        "ogg",
        "woff",
        "woff2",
        "ttf",
        "otf",
        "swf",
        "xap",
        "ico",
        "eot",
        ".jpg",
        ".jpeg",
        ".png",
        ".gif",
        ".svg",
        ".webp",
        ".mp4",
        ".avi",
        ".mov",
        ".wmv",
        ".flv",
        ".mp3",
        ".wav",
        ".ogg",
        ".woff",
        ".woff2",
        ".ttf",
        ".otf",
        ".swf",
        ".xap",
        ".ico",
        ".eot",
    ];
    assert(r@ =~= xhr_asset_extensions());
    r
}

/// Whether the URL is a tracker or analytics script: it starts with one of the
/// script patterns or ends with one of the usual tracker file names.
pub open spec fn is_ignored_script(url: Seq<char>) -> bool {
    matches_pattern(script_patterns(), url)
        || is_suffix("analytics.js"@, url)
        || is_suffix("ads.js"@, url)
        || is_suffix("tracking.js"@, url)
        || is_suffix("track.js"@, url)
}

/// Url matches analytics that we want to ignore or trackers.
pub fn ignore_script(url: &str) -> (r: bool)
    ensures
        r == is_ignored_script(url@),
{
    let trie = Trie::from_patterns(&script_pattern_list());
    if trie.contains_prefix(url) {
        return true;
    }
    let u = to_chars(url);
    ends_with_str(&u, "analytics.js") || ends_with_str(&u, "ads.js")
        || ends_with_str(&u, "tracking.js") || ends_with_str(&u, "track.js")
}

/// Url matches an embedded player, widget or ad frame that we want to ignore.
pub fn ignore_script_embedded(url: &str) -> (r: bool)
    ensures
        r == matches_pattern(embedded_patterns(), url@),
{
    Trie::from_patterns(&embedded_pattern_list()).contains_prefix(url)
}

/// Url matches a tracking XHR endpoint that we want to ignore.
pub fn ignore_script_xhr(url: &str) -> (r: bool)
    ensures
        r == matches_pattern(xhr_patterns(), url@),
{
    Trie::from_patterns(&xhr_pattern_list()).contains_prefix(url)
}

/// Url matches media that we want to ignore.
pub fn ignore_script_xhr_media(url: &str) -> (r: bool)
    ensures
        r == matches_pattern(xhr_media_patterns(), url@),
{
    Trie::from_patterns(&xhr_media_pattern_list()).contains_prefix(url)
}

/// `url` is one of the entries of `list`, character for character.
pub open spec fn listed(list: Seq<&str>, url: Seq<char>) -> bool {
    exists|i: int| 0 <= i < list.len() && #[trigger] list[i]@ == url
}

/// A script URL stays allowed when JavaScript is blocked: the URL, or the file
/// name after its last `/`, is on the allow list.
pub open spec fn is_allowed_script(url: Seq<char>) -> bool {
    listed(js_framework_allow(), url) || exists|p: int|
        #[trigger] is_last_of(url, '/', p) && listed(js_framework_allow(), url.subrange(p + 1, url.len() as int))
}

/// Whether a script URL stays allowed when JavaScript is blocked.
pub fn js_framework_allowed(url: &str) -> (r: bool)
    ensures
        r == is_allowed_script(url@),
{
    if listed_exactly(url) {
        return true;
    }
    let t = to_chars(url);
    match rfind_char(&t, '/') {
        Some(p) => {
            let n = t.len();
            assert(p < n);
            let name = url.substring_char(p + 1, n);
            let r = listed_exactly(name);
            assert(r == is_allowed_script(url@)) by {
                if is_allowed_script(url@) {
                    let q = choose|q: int| #[trigger] is_last_of(url@, '/', q)
                        && listed(js_framework_allow(), url@.subrange(q + 1, url@.len() as int));
                    assert(q == p);
                }
                if r {
                    assert(is_last_of(url@, '/', p as int));
                }
            }
            r
        },
        None => false,
    }
}

fn listed_exactly(url: &str) -> (r: bool)
    ensures
        r == listed(js_framework_allow(), url@),
{
    let list = js_framework_allow_list();
    let mut i: usize = 0;
    while i < list.len()
        invariant
            list@ == js_framework_allow(),
            i <= list@.len(),
            forall|j: int| 0 <= j < i ==> #[trigger] list@[j]@ != url@,
        decreases list.len() - i,
    {
        if str_eq(list[i], url) {
            return true;
        }
        i = i + 1;
    }
    false
}

/// Two characters are equal once ASCII upper case is folded to lower case.
pub open spec fn char_eq_ignore_ascii_case(a: char, b: char) -> bool {
    a == b
        || ('A' <= a && a <= 'Z' && a as u32 + 32 == b as u32)
        || ('A' <= b && b <= 'Z' && b as u32 + 32 == a as u32)
}

/// Two strings are equal once ASCII upper case is folded to lower case.
pub open spec fn eq_ignore_ascii_case(a: Seq<char>, b: Seq<char>) -> bool {
    a.len() == b.len() && forall|i: int| 0 <= i < a.len() ==> #[trigger] char_eq_ignore_ascii_case(a[i], b[i])
}

/// Relies on `==` of `case_insensitive_string::CaseInsensitiveString`, which
/// compares the two strings with `str::eq_ignore_ascii_case`.
#[verifier::external_body]
fn same_ignoring_ascii_case(a: &str, b: &str) -> (r: bool)
    ensures
        r == eq_ignore_ascii_case(a@, b@),
{
    CaseInsensitiveString::from(a) == CaseInsensitiveString::from(b)
}

/// `ext` is a visual asset extension, without regard to ASCII case.
pub open spec fn is_visual_asset_extension(ext: Seq<char>) -> bool {
    exists|i: int| 0 <= i < xhr_asset_extensions().len()
        && #[trigger] eq_ignore_ascii_case(xhr_asset_extensions()[i]@, ext)
}

/// Whether `ext` is the extension of a visual asset (image, video, audio, font).
pub fn visual_asset_extension(ext: &str) -> (r: bool)
    ensures
        r == is_visual_asset_extension(ext@),
{
    let list = xhr_asset_extension_list();
    let mut i: usize = 0;
    while i < list.len()
        invariant
            list@ == xhr_asset_extensions(),
            i <= list@.len(),
            forall|j: int| 0 <= j < i ==> !#[trigger] eq_ignore_ascii_case(list@[j]@, ext@),
        decreases list.len() - i,
    {
        if same_ignoring_ascii_case(list[i], ext) {
            return true;
        }
        i = i + 1;
    }
    false
}

} // verus!
