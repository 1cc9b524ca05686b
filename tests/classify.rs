use spider::classify::{
    ignore_script, ignore_script_embedded, ignore_script_xhr, ignore_script_xhr_media,
    js_framework_allowed, visual_asset_extension, Trie,
};

#[test]
fn trie_matches_a_prefix() {
    let mut trie = Trie::new();
    trie.insert("abc");
    trie.insert("xyz/");
    assert!(trie.contains_prefix("abcdef"));
    assert!(trie.contains_prefix("abc"));
    assert!(trie.contains_prefix("xyz/1"));
    assert!(!trie.contains_prefix("ab"));
    assert!(!trie.contains_prefix("zabc"));
    assert!(!trie.contains_prefix(""));
}

#[test]
fn empty_trie_matches_nothing_and_empty_word_matches_everything() {
    let mut trie = Trie::new();
    assert!(!trie.contains_prefix("anything"));
    assert!(!trie.contains_prefix(""));
    trie.insert("");
    assert!(trie.contains_prefix("anything"));
    assert!(trie.contains_prefix(""));
}

#[test]
fn analytics_scripts_are_ignored() {
    assert!(ignore_script("https://www.google-analytics.com/ga.js"));
    assert!(ignore_script("https://connect.facebook.net/en_US/fbevents.js"));
    assert!(ignore_script("https://cdn.example.com/lib/analytics.js"));
    assert!(ignore_script("https://cdn.example.com/track.js"));
    assert!(!ignore_script("https://cdn.example.com/app.js"));
}

#[test]
fn embedded_xhr_and_media_tables() {
    assert!(ignore_script_embedded("https://www.youtube.com/embed/abc"));
    assert!(!ignore_script_embedded("https://www.youtube.com/watch?v=abc"));
    assert!(ignore_script_xhr("https://play.google.com/log?format=json"));
    assert!(!ignore_script_xhr("https://example.com/api"));
    assert!(ignore_script_xhr_media("https://open.spotify.com/track/1"));
    assert!(!ignore_script_xhr_media("https://spotify.com/"));
}

#[test]
fn framework_scripts_are_allowed() {
    assert!(js_framework_allowed("https://cdn/react.production.min.js"));
    assert!(js_framework_allowed("https://js.stripe.com/v3/"));
    assert!(js_framework_allowed("jquery.js"));
    assert!(!js_framework_allowed("https://cdn/tracker.js"));
}

#[test]
fn asset_extensions_ignore_case() {
    assert!(visual_asset_extension("PNG"));
    assert!(visual_asset_extension("woff2"));
    assert!(!visual_asset_extension("html"));
}
