use spider::selectors::{
    build_selectors, clean_element_text, css_query_select_map, css_query_select_map_streamed,
    dedup_texts, element_text, is_valid_xpath, process_selector, ElementInfo, QueryMap,
};

fn selector_map(key: &str, sels: &[&str]) -> Vec<(String, Vec<String>)> {
    vec![(key.to_string(), sels.iter().map(|s| s.to_string()).collect())]
}

fn element(name: &str, attrs: &[(&str, &str)], texts: &[&str]) -> ElementInfo {
    ElementInfo {
        name: name.to_string(),
        attrs: attrs.iter().map(|(k, v)| (k.to_string(), v.to_string())).collect(),
        texts: texts.iter().map(|t| t.to_string()).collect(),
    }
}

#[test]
fn test_css_query_select_map_streamed() {
    let map = selector_map("list", &[".list", ".sub-list"]);
    let data = css_query_select_map_streamed(
        r#"<html><body><ul class="list"><li>Test</li></ul></body></html>"#,
        &build_selectors(map),
    );
    assert!(!data.is_empty(), "CSS extraction failed",);
}

#[test]
fn test_css_query_select_map() {
    let map = selector_map("list", &[".list", ".sub-list"]);
    let data = css_query_select_map(
        r#"<html><body><ul class="list">Test</ul></body></html>"#,
        &build_selectors(map),
    );
    assert!(!data.is_empty(), "CSS extraction failed",);
}

#[test]
fn test_css_query_select_map_streamed_multi_join() {
    let map = selector_map("list", &[".list", ".sub-list"]);
    let data = css_query_select_map_streamed(
        r#"<html>
            <body>
                <ul class="list"><li>First</li></ul>
                <ul class="sub-list"><li>Second</li></ul>
            </body>
        </html>"#,
        &build_selectors(map),
    );
    assert!(!data.is_empty(), "CSS extraction failed");
}

#[test]
fn test_xpath_query_select_map_streamed() {
    let map = selector_map("list", &["//*[@class='list']", "//*[@class='sub-list']"]);
    let selectors = build_selectors(map);
    let data = css_query_select_map_streamed(
        r#"<html><body><ul class="list"><li>Test</li></ul></body></html>"#,
        &selectors,
    );
    assert!(!data.is_empty(), "Xpath extraction failed",);
}

#[test]
fn selectors_route_css_then_xpath_then_drop() {
    let map = selector_map("k", &[".a", "//div[@id='x']", "[[[", "p > span"]);
    let built = build_selectors(map);
    assert_eq!(built.css.len(), 1);
    assert_eq!(built.css[0].0, "k");
    assert_eq!(built.css[0].1.len(), 2);
    assert_eq!(built.xpath.len(), 1);
    assert_eq!(built.xpath[0].1, vec!["//div[@id='x']".to_string()]);
}

#[test]
fn key_with_no_valid_selector_is_left_out() {
    let built = build_selectors(selector_map("none", &["[[["]));
    assert!(built.css.is_empty());
    assert!(built.xpath.is_empty());
}

#[test]
fn xpath_validity() {
    assert!(is_valid_xpath("//*[@class='list']"));
    assert!(!is_valid_xpath("//*[@class="));
}

#[test]
fn css_texts_are_found_per_key() {
    let built = build_selectors(selector_map("item", &["li"]));
    let data = css_query_select_map("<ul><li>One</li><li>Two</li></ul>", &built);
    assert_eq!(data.len(), 1);
    let items = data.get(&"item".to_string()).unwrap();
    assert_eq!(items, &vec!["One".to_string(), "Two".to_string()]);
}

#[test]
fn streamed_map_drops_repeated_neighbours() {
    let built = build_selectors(selector_map("item", &["li"]));
    let data = css_query_select_map_streamed("<ul><li>Same</li><li>Same</li><li>Other</li></ul>", &built);
    let items = data.get(&"item".to_string()).unwrap();
    assert_eq!(items, &vec!["Same".to_string(), "Other".to_string()]);
}

#[test]
fn meta_gives_its_content() {
    assert_eq!(element_text(&element("meta", &[("content", "hello")], &[])), "hello");
    assert_eq!(element_text(&element("meta", &[], &["x"])), "");
}

#[test]
fn link_and_script_give_their_address() {
    assert_eq!(element_text(&element("link", &[("href", "/a.css")], &["t"])), "/a.css");
    assert_eq!(element_text(&element("script", &[("src", "/a.js")], &["t"])), "/a.js");
    assert_eq!(element_text(&element("script", &[], &["var", "x"])), "var x");
}

#[test]
fn image_gives_source_and_alt() {
    assert_eq!(element_text(&element("img", &[("src", "  /p.png "), ("alt", "cat")], &[])), "[/p.png](\"cat\")");
    assert_eq!(element_text(&element("img", &[("alt", "cat")], &[])), "cat");
    assert_eq!(element_text(&element("img", &[("src", "/p.png")], &[])), "[/p.png]");
    assert_eq!(element_text(&element("source", &[("src", ""), ("alt", "")], &[])), "");
}

#[test]
fn other_elements_give_joined_text() {
    let e = element("div", &[], &["a", "b", "c"]);
    assert_eq!(clean_element_text(&e), "a b c");
    assert_eq!(element_text(&e), "a b c");
}

#[test]
fn empty_text_is_not_recorded() {
    let mut map = QueryMap::new();
    process_selector(&element("div", &[], &[]), &"k".to_string(), &mut map);
    assert!(map.is_empty());
    process_selector(&element("div", &[], &["x"]), &"k".to_string(), &mut map);
    process_selector(&element("div", &[], &["y"]), &"k".to_string(), &mut map);
    assert_eq!(map.get(&"k".to_string()).unwrap(), &vec!["x".to_string(), "y".to_string()]);
}

#[test]
fn dedup_keeps_first_of_each_run() {
    let v: Vec<String> = ["a", "a", "b", "a", "a"].iter().map(|s| s.to_string()).collect();
    assert_eq!(dedup_texts(&v), vec!["a".to_string(), "b".to_string(), "a".to_string()]);
}
