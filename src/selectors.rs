use vstd::prelude::*;
use vstd::string::StringExecFns;
use scraper::{Html, Selector};
use sxd_document::Package;
use crate::chars::str_eq;
use crate::keyed::KeyedMap;

verus! {

#[verifier::external_type_specification]
#[verifier::external_body]
pub struct ExSelector(scraper::Selector);

#[verifier::external_type_specification]
#[verifier::external_body]
pub struct ExHtml(scraper::Html);

#[verifier::external_type_specification]
#[verifier::external_body]
pub struct ExPackage(sxd_document::Package);

/// Whether a text parses as a CSS selector group.
pub uninterp spec fn css_parses(s: Seq<char>) -> bool;

/// Whether a text compiles to an XPath expression.
pub uninterp spec fn xpath_parses(s: Seq<char>) -> bool;

/// Relies on `scraper::Selector::parse`, whose success depends on the text alone.
#[verifier::external_body]
fn parse_css(s: &str) -> (r: Option<Selector>)
    ensures
        r.is_some() == css_parses(s@),
{
    Selector::parse(s).ok()
}

/// Relies on `sxd_xpath::Factory::build`: `Ok(Some(_))` when the text holds an
/// XPath expression; the outcome depends on the text alone.
#[verifier::external_body]
fn xpath_builds(s: &str) -> (r: bool)
    ensures
        r == xpath_parses(s@),
{
    match sxd_xpath::Factory::new().build(s) {
        Ok(Some(_)) => true,
        Ok(None) => false,
        Err(_) => false,
    }
}

/// Check if a selector is a valid xpath.
pub fn is_valid_xpath(expression: &str) -> (r: bool)
    ensures
        r == xpath_parses(expression@),
{
    xpath_builds(expression)
}

/// An element picked out of a page by a selector: its tag name, its
/// attributes and its text nodes.
pub struct ElementInfo {
    pub name: String,
    pub attrs: Vec<(String, String)>,
    pub texts: Vec<String>,
}

/// Relies on `scraper::Html::parse_document`, which accepts any text.
#[verifier::external_body]
fn parse_html(html: &str) -> (r: Html)
{
    Html::parse_document(html)
}

/// Relies on `scraper::Html::select`, with `Element::name`, `Element::attrs`
/// and `ElementRef::text` to copy out each matching element.
#[verifier::external_body]
fn select_elements(document: &Html, selector: &Selector) -> (r: Vec<ElementInfo>)
{
    let mut out = Vec::new();
    for e in document.select(selector) {
        let attrs = e.value().attrs().map(|(k, v)| (k.to_string(), v.to_string())).collect();
        let texts = e.text().map(|t| t.to_string()).collect();
        out.push(ElementInfo { name: e.value().name().to_string(), attrs, texts });
    }
    out
}

/// Relies on `sxd_document::parser::parse`, which reads the text as XML.
#[verifier::external_body]
fn parse_xml(html: &str) -> (r: Option<Package>)
{
    sxd_document::parser::parse(html).ok()
}

/// Relies on `sxd_xpath::evaluate_xpath` and `Value::into_string`: the value of
/// the expression on the document, as text, when it evaluates.
#[verifier::external_body]
fn evaluate_xpath_text(package: &Package, expression: &str) -> (r: Option<String>)
{
    sxd_xpath::evaluate_xpath(&package.as_document(), expression).ok().map(|v| v.into_string())
}

/// Relies on `str::trim`: the text without leading and trailing white space,
/// white space being the characters with the Unicode `White_Space` property.
#[verifier::external_body]
fn trim_str(s: &str) -> (r: &str)
    ensures
        r@ == trimmed(s@),
{
    s.trim()
}

/// A character with the Unicode `White_Space` property.
pub open spec fn is_white_space(c: char) -> bool {
    let u = c as u32;
    (0x9 <= u && u <= 0xD) || u == 0x20 || u == 0x85 || u == 0xA0 || u == 0x1680
        || (0x2000 <= u && u <= 0x200A) || u == 0x2028 || u == 0x2029 || u == 0x202F
        || u == 0x205F || u == 0x3000
}

/// The first position from `a` up to the end that is not white space.
pub open spec fn white_start(s: Seq<char>, a: int) -> int
    decreases s.len() - a,
{
    if 0 <= a < s.len() && is_white_space(s[a]) { white_start(s, a + 1) } else { a }
}

/// The end of `s[a..b]` without its trailing white space.
pub open spec fn white_end(s: Seq<char>, a: int, b: int) -> int
    decreases b - a,
{
    if a < b && is_white_space(s[b - 1]) { white_end(s, a, b - 1) } else { b }
}

/// The text without leading and trailing white space.
pub open spec fn trimmed(s: Seq<char>) -> Seq<char> {
    let a = white_start(s, 0);
    s.subrange(a, white_end(s, a, s.len() as int))
}

/// The value of the first attribute named `key`.
pub open spec fn attr_value(attrs: Seq<(String, String)>, key: Seq<char>) -> Option<Seq<char>>
    decreases attrs.len(),
{
    if attrs.len() == 0 {
        None
    } else if attrs[0].0@ == key {
        Some(attrs[0].1@)
    } else {
        attr_value(attrs.drop_first(), key)
    }
}

/// The text nodes joined with single spaces.
pub open spec fn joined(texts: Seq<String>) -> Seq<char>
    decreases texts.len(),
{
    if texts.len() == 0 {
        Seq::empty()
    } else if texts.len() == 1 {
        texts[0]@
    } else {
        joined(texts.drop_last()) + " "@ + texts.last()@
    }
}

/// The text that an element contributes: the `content` of a `meta`; the
/// `href` of a `link` or the `src` of a `script` or `styles`, else its text; for
/// an `img` or `source`, its trimmed `src` in brackets followed by its `alt` in
/// quotes and parentheses (or the `alt` alone); for any other element, its text.
pub open spec fn element_text_of(e: ElementInfo) -> Seq<char> {
    let name = e.name@;
    if name == "meta"@ {
        match attr_value(e.attrs@, "content"@) {
            Some(v) => v,
            None => Seq::empty(),
        }
    } else if name == "link"@ || name == "script"@ || name == "styles"@ {
        match attr_value(e.attrs@, if name == "link"@ { "href"@ } else { "src"@ }) {
            Some(v) => v,
            None => joined(e.texts@),
        }
    } else if name == "img"@ || name == "source"@ {
        let src_part = match attr_value(e.attrs@, "src"@) {
            Some(src) => if src.len() > 0 { "["@ + trimmed(src) + "]"@ } else { Seq::empty() },
            None => Seq::empty(),
        };
        match attr_value(e.attrs@, "alt"@) {
            Some(alt) => if alt.len() == 0 {
                src_part
            } else if src_part.len() == 0 {
                alt
            } else {
                src_part + "(\""@ + alt + "\")"@
            },
            None => src_part,
        }
    } else {
        joined(e.texts@)
    }
}

fn attr<'a>(attrs: &'a Vec<(String, String)>, key: &str) -> (r: Option<&'a String>)
    ensures
        match r {
            Some(v) => attr_value(attrs@, key@) == Some(v@),
            None => attr_value(attrs@, key@).is_none(),
        },
{
    let mut i: usize = 0;
    assert(attrs@.subrange(0, attrs@.len() as int) =~= attrs@);
    while i < attrs.len()
        invariant
            i <= attrs@.len(),
            attr_value(attrs@, key@) == attr_value(attrs@.subrange(i as int, attrs@.len() as int), key@),
        decreases attrs.len() - i,
    {
        let ghost rest = attrs@.subrange(i as int, attrs@.len() as int);
        assert(rest.drop_first() =~= attrs@.subrange(i + 1, attrs@.len() as int));
        assert(rest[0] == attrs@[i as int]);
        if str_eq(attrs[i].0.as_str(), key) {
            return Some(&attrs[i].1);
        }
        i = i + 1;
    }
    None
}

/// The text of an element: its text nodes joined with single spaces.
pub fn clean_element_text(element: &ElementInfo) -> (r: String)
    ensures
        r@ == joined(element.texts@),
{
    let texts = &element.texts;
    let mut out = String::new();
    let mut i: usize = 0;
    while i < texts.len()
        invariant
            i <= texts@.len(),
            out@ == joined(texts@.subrange(0, i as int)),
        decreases texts.len() - i,
    {
        let ghost sub = texts@.subrange(0, i + 1);
        assert(sub.drop_last() =~= texts@.subrange(0, i as int));
        if i > 0 {
            out.append(" ");
        }
        out.append(texts[i].as_str());
        i = i + 1;
        proof {
            if i == 1 {
                assert(out@ =~= sub[0]@);
            }
        }
    }
    assert(texts@.subrange(0, texts@.len() as int) =~= texts@);
    out
}

/// The text that an element contributes to the extracted map.
pub fn element_text(element: &ElementInfo) -> (r: String)
    ensures
        r@ == element_text_of(*element),
{
    let name = element.name.as_str();
    if str_eq(name, "meta") {
        match attr(&element.attrs, "content") {
            Some(v) => v.clone(),
            None => String::new(),
        }
    } else if str_eq(name, "link") || str_eq(name, "script") || str_eq(name, "styles") {
        let key = if str_eq(name, "link") { "href" } else { "src" };
        match attr(&element.attrs, key) {
            Some(v) => v.clone(),
            None => clean_element_text(element),
        }
    } else if str_eq(name, "img") || str_eq(name, "source") {
        let mut img_text = String::new();
        if let Some(src) = attr(&element.attrs, "src") {
            if !src.as_str().is_empty() {
                img_text.append("[");
                img_text.append(trim_str(src.as_str()));
                img_text.append("]");
            }
        }
        if let Some(alt) = attr(&element.attrs, "alt") {
            if !alt.as_str().is_empty() {
                if img_text.as_str().is_empty() {
                    img_text.append(alt.as_str());
                } else {
                    img_text.append("(\"");
                    img_text.append(alt.as_str());
                    img_text.append("\")");
                }
            }
        }
        img_text
    } else {
        clean_element_text(element)
    }
}

} // verus!

verus! {

/// The selectors to query a page with, under the key that their results go to.
pub struct DocumentSelectors {
    /// CSS selectors.
    pub css: Vec<(String, Vec<Selector>)>,
    /// XPath selectors.
    pub xpath: Vec<(String, Vec<String>)>,
}

/// How many of the texts parse as CSS selectors.
pub open spec fn css_count(sels: Seq<String>) -> nat
    decreases sels.len(),
{
    if sels.len() == 0 {
        0
    } else {
        css_count(sels.drop_last()) + if css_parses(sels.last()@) { 1nat } else { 0nat }
    }
}

/// The texts that are no CSS selectors but XPath expressions, in order.
pub open spec fn xpath_kept(sels: Seq<String>) -> Seq<Seq<char>>
    decreases sels.len(),
{
    if sels.len() == 0 {
        Seq::empty()
    } else {
        let rest = xpath_kept(sels.drop_last());
        if !css_parses(sels.last()@) && xpath_parses(sels.last()@) {
            rest.push(sels.last()@)
        } else {
            rest
        }
    }
}

/// Each key with at least one CSS selector, and how many it has, in order.
pub open spec fn css_plan(input: Seq<(String, Vec<String>)>) -> Seq<(Seq<char>, nat)>
    decreases input.len(),
{
    if input.len() == 0 {
        Seq::empty()
    } else {
        let rest = css_plan(input.drop_last());
        let n = css_count(input.last().1@);
        if n > 0 {
            rest.push((input.last().0@, n))
        } else {
            rest
        }
    }
}

/// Each key with at least one XPath expression, and those expressions, in order.
pub open spec fn xpath_plan(input: Seq<(String, Vec<String>)>) -> Seq<(Seq<char>, Seq<Seq<char>>)>
    decreases input.len(),
{
    if input.len() == 0 {
        Seq::empty()
    } else {
        let rest = xpath_plan(input.drop_last());
        let kept = xpath_kept(input.last().1@);
        if kept.len() > 0 {
            rest.push((input.last().0@, kept))
        } else {
            rest
        }
    }
}

/// The keys of the CSS selectors and how many each has.
pub open spec fn css_shape(css: Seq<(String, Vec<Selector>)>) -> Seq<(Seq<char>, nat)> {
    css.map_values(|e: (String, Vec<Selector>)| (e.0@, e.1@.len()))
}

/// The views of a list of strings.
pub open spec fn views(s: Seq<String>) -> Seq<Seq<char>> {
    s.map_values(|t: String| t@)
}

/// The keys of the XPath selectors and their expressions.
pub open spec fn xpath_shape(x: Seq<(String, Vec<String>)>) -> Seq<(Seq<char>, Seq<Seq<char>>)> {
    x.map_values(|e: (String, Vec<String>)| (e.0@, views(e.1@)))
}

/// Build valid css selectors for extracting: each text goes to the CSS
/// selectors of its key when it parses as one, else to the XPath selectors when
/// it is an XPath expression, else it is dropped; keys left with no selector of
/// a kind are left out of that kind.
pub fn build_selectors_base(selectors: Vec<(String, Vec<String>)>) -> (r: DocumentSelectors)
    ensures
        css_shape(r.css@) == css_plan(selectors@),
        xpath_shape(r.xpath@) == xpath_plan(selectors@),
{
    let mut valid_selectors: Vec<(String, Vec<Selector>)> = Vec::new();
    let mut valid_selectors_xpath: Vec<(String, Vec<String>)> = Vec::new();
    let mut i: usize = 0;
    while i < selectors.len()
        invariant
            i <= selectors@.len(),
            css_shape(valid_selectors@) == css_plan(selectors@.subrange(0, i as int)),
            xpath_shape(valid_selectors_xpath@) == xpath_plan(selectors@.subrange(0, i as int)),
        decreases selectors.len() - i,
    {
        let key = &selectors[i].0;
        let selector_set = &selectors[i].1;
        let mut selectors_vec: Vec<Selector> = Vec::new();
        let mut selectors_vec_xpath: Vec<String> = Vec::new();
        let mut j: usize = 0;
        while j < selector_set.len()
            invariant
                j <= selector_set@.len(),
                selectors_vec@.len() == css_count(selector_set@.subrange(0, j as int)),
                views(selectors_vec_xpath@) == xpath_kept(selector_set@.subrange(0, j as int)),
            decreases selector_set.len() - j,
        {
            let ghost sub = selector_set@.subrange(0, j + 1);
            assert(sub.drop_last() =~= selector_set@.subrange(0, j as int));
            let selector_str = selector_set[j].as_str();
            match parse_css(selector_str) {
                Some(selector) => selectors_vec.push(selector),
                None => {
                    if is_valid_xpath(selector_str) {
                        selectors_vec_xpath.push(selector_set[j].clone());
                        assert(views(selectors_vec_xpath@) =~= xpath_kept(sub));
                    }
                },
            }
            j = j + 1;
        }
        assert(selector_set@.subrange(0, selector_set@.len() as int) =~= selector_set@);
        let ghost sub = selectors@.subrange(0, i + 1);
        assert(sub.drop_last() =~= selectors@.subrange(0, i as int));
        assert(sub.last() == selectors@[i as int]);
        if selectors_vec.len() > 0 {
            valid_selectors.push((key.clone(), selectors_vec));
            assert(css_shape(valid_selectors@) =~= css_plan(sub));
        }
        if selectors_vec_xpath.len() > 0 {
            valid_selectors_xpath.push((key.clone(), selectors_vec_xpath));
            assert(xpath_shape(valid_selectors_xpath@) =~= xpath_plan(sub));
        }
        i = i + 1;
    }
    assert(selectors@.subrange(0, selectors@.len() as int) =~= selectors@);
    DocumentSelectors { css: valid_selectors, xpath: valid_selectors_xpath }
}

/// Build valid css selectors for extracting; see `build_selectors_base`.
pub fn build_selectors(selectors: Vec<(String, Vec<String>)>) -> (r: DocumentSelectors)
    ensures
        css_shape(r.css@) == css_plan(selectors@),
        xpath_shape(r.xpath@) == xpath_plan(selectors@),
{
    build_selectors_base(selectors)
}

} // verus!

verus! {

/// Extracted texts under the key of the selectors that found them.
pub type QueryMap = KeyedMap<Vec<String>>;

/// `m2` is `m` with `text` appended to the list under `name`.
pub open spec fn text_added(m: Map<Seq<char>, Vec<String>>, m2: Map<Seq<char>, Vec<String>>, name: Seq<char>, text: String) -> bool {
    &&& m2.contains_key(name)
    &&& m2[name]@ == (if m.contains_key(name) { m[name]@ } else { Seq::empty() }).push(text)
    &&& m2.remove(name) == m.remove(name)
}

/// Every key of the map is a key of the selectors, and every list under it
/// holds at least one text, none of them empty.
pub open spec fn query_map_ok(m: Map<Seq<char>, Vec<String>>, selectors: DocumentSelectors) -> bool {
    forall|k: Seq<char>| #[trigger] m.contains_key(k) ==> {
        &&& (exists|i: int| 0 <= i < selectors.css@.len() && #[trigger] selectors.css@[i].0@ == k)
            || (exists|i: int| 0 <= i < selectors.xpath@.len() && #[trigger] selectors.xpath@[i].0@ == k)
        &&& m[k]@.len() > 0
        &&& forall|j: int| 0 <= j < m[k]@.len() ==> (#[trigger] m[k]@[j])@.len() > 0
    }
}

fn push_text(map: &mut QueryMap, name: &String, text: String)
    requires
        old(map).wf(),
    ensures
        final(map).wf(),
        text_added(old(map).view(), final(map).view(), name@, text),
{
    let mut items = match map.remove(name) {
        Some(items) => items,
        None => Vec::new(),
    };
    items.push(text);
    map.insert(name.clone(), items);
    assert(final(map).view().remove(name@) =~= old(map).view().remove(name@));
}

/// Process a single element and update the map with the results: its text,
/// when not empty, is appended under `name`.
pub fn process_selector(element: &ElementInfo, name: &String, map: &mut QueryMap)
    requires
        old(map).wf(),
    ensures
        final(map).wf(),
        element_text_of(*element).len() == 0 ==> final(map).view() == old(map).view(),
        element_text_of(*element).len() > 0 ==> exists|t: String| t@ == element_text_of(*element)
            && text_added(old(map).view(), final(map).view(), name@, t),
{
    let text = element_text(element);
    if !text.as_str().is_empty() {
        let ghost t = text;
        push_text(map, name, text);
        assert(text_added(old(map).view(), final(map).view(), name@, t));
    }
}

proof fn lemma_added_ok(
    m: Map<Seq<char>, Vec<String>>,
    m2: Map<Seq<char>, Vec<String>>,
    name: Seq<char>,
    text: String,
    selectors: DocumentSelectors,
)
    requires
        query_map_ok(m, selectors),
        text_added(m, m2, name, text),
        text@.len() > 0,
        (exists|i: int| 0 <= i < selectors.css@.len() && #[trigger] selectors.css@[i].0@ == name)
            || (exists|i: int| 0 <= i < selectors.xpath@.len() && #[trigger] selectors.xpath@[i].0@ == name),
    ensures
        query_map_ok(m2, selectors),
{
    assert forall|k: Seq<char>| #[trigger] m2.contains_key(k) implies {
        &&& (exists|i: int| 0 <= i < selectors.css@.len() && #[trigger] selectors.css@[i].0@ == k)
            || (exists|i: int| 0 <= i < selectors.xpath@.len() && #[trigger] selectors.xpath@[i].0@ == k)
        &&& m2[k]@.len() > 0
        &&& forall|j: int| 0 <= j < m2[k]@.len() ==> (#[trigger] m2[k]@[j])@.len() > 0
    } by {
        if k != name {
            assert(m2.remove(name).contains_key(k));
            assert(m.contains_key(k));
            assert(m2[k] == m2.remove(name)[k]);
        } else {
            assert forall|j: int| 0 <= j < m2[k]@.len() implies (#[trigger] m2[k]@[j])@.len() > 0 by {
                if j < m2[k]@.len() - 1 {
                    assert(m.contains_key(k));
                    assert(m2[k]@[j] == m[k]@[j]);
                }
            }
        }
    }
}

fn query_css(html: &str, selectors: &DocumentSelectors, map: &mut QueryMap)
    requires
        old(map).wf(),
        query_map_ok(old(map).view(), *selectors),
    ensures
        final(map).wf(),
        query_map_ok(final(map).view(), *selectors),
{
    if selectors.css.len() == 0 {
        return;
    }
    let fragment = parse_html(html);
    let mut i: usize = 0;
    while i < selectors.css.len()
        invariant
            i <= selectors.css@.len(),
            map.wf(),
            query_map_ok(map.view(), *selectors),
        decreases selectors.css.len() - i,
    {
        let name = &selectors.css[i].0;
        let sels = &selectors.css[i].1;
        let mut j: usize = 0;
        while j < sels.len()
            invariant
                i < selectors.css@.len(),
                name == selectors.css@[i as int].0,
                j <= sels@.len(),
                map.wf(),
                query_map_ok(map.view(), *selectors),
            decreases sels.len() - j,
        {
            let elements = select_elements(&fragment, &sels[j]);
            let mut k: usize = 0;
            while k < elements.len()
                invariant
                    i < selectors.css@.len(),
                    name == selectors.css@[i as int].0,
                    k <= elements@.len(),
                    map.wf(),
                    query_map_ok(map.view(), *selectors),
                decreases elements.len() - k,
            {
                let ghost before = map.view();
                process_selector(&elements[k], name, map);
                proof {
                    if element_text_of(elements@[k as int]).len() > 0 {
                        let t = choose|t: String| t@ == element_text_of(elements@[k as int])
                            && text_added(before, map.view(), name@, t);
                        lemma_added_ok(before, map.view(), name@, t, *selectors);
                    }
                }
                k = k + 1;
            }
            j = j + 1;
        }
        i = i + 1;
    }
}

fn query_xpath(html: &str, selectors: &DocumentSelectors, map: &mut QueryMap)
    requires
        old(map).wf(),
        query_map_ok(old(map).view(), *selectors),
    ensures
        final(map).wf(),
        query_map_ok(final(map).view(), *selectors),
{
    if selectors.xpath.len() == 0 {
        return;
    }
    let package = match parse_xml(html) {
        Some(p) => p,
        None => return,
    };
    let mut i: usize = 0;
    while i < selectors.xpath.len()
        invariant
            i <= selectors.xpath@.len(),
            map.wf(),
            query_map_ok(map.view(), *selectors),
        decreases selectors.xpath.len() - i,
    {
        let name = &selectors.xpath[i].0;
        let exprs = &selectors.xpath[i].1;
        let mut j: usize = 0;
        while j < exprs.len()
            invariant
                i < selectors.xpath@.len(),
                name == selectors.xpath@[i as int].0,
                j <= exprs@.len(),
                map.wf(),
                query_map_ok(map.view(), *selectors),
            decreases exprs.len() - j,
        {
            if let Some(text) = evaluate_xpath_text(&package, exprs[j].as_str()) {
                if !text.as_str().is_empty() {
                    let ghost before = map.view();
                    let ghost t = text;
                    push_text(map, name, text);
                    proof { lemma_added_ok(before, map.view(), name@, t, *selectors); }
                }
            }
            j = j + 1;
        }
        i = i + 1;
    }
}

/// Sync CSS query selector map: the texts that the CSS selectors find in the
/// page, then the texts of the XPath selectors when the page reads as XML, each
/// under the key of its selectors.
pub fn css_query_select_map(html: &str, selectors: &DocumentSelectors) -> (r: QueryMap)
    ensures
        r.wf(),
        query_map_ok(r.view(), *selectors),
{
    let mut map: QueryMap = KeyedMap::new();
    query_css(html, selectors, &mut map);
    query_xpath(html, selectors, &mut map);
    map
}

/// `s` without the strings that equal the one before them.
pub open spec fn deduped(s: Seq<String>) -> Seq<String>
    decreases s.len(),
{
    if s.len() <= 1 {
        s
    } else if s.last()@ == s.drop_last().last()@ {
        deduped(s.drop_last())
    } else {
        deduped(s.drop_last()).push(s.last())
    }
}

proof fn lemma_deduped_nonempty(s: Seq<String>)
    requires
        s.len() > 0,
        forall|i: int| 0 <= i < s.len() ==> (#[trigger] s[i])@.len() > 0,
    ensures
        deduped(s).len() > 0,
        forall|j: int| 0 <= j < deduped(s).len() ==> (#[trigger] deduped(s)[j])@.len() > 0,
    decreases s.len(),
{
    if s.len() > 1 {
        let p = s.drop_last();
        assert forall|i: int| 0 <= i < p.len() implies (#[trigger] p[i])@.len() > 0 by {
            assert(p[i] == s[i]);
        }
        lemma_deduped_nonempty(p);
    }
}

/// The list without repeated neighbours, as `Vec::dedup` leaves it.
pub fn dedup_texts(items: &Vec<String>) -> (r: Vec<String>)
    ensures
        r@ == deduped(items@),
{
    let mut out: Vec<String> = Vec::new();
    let mut i: usize = 0;
    while i < items.len()
        invariant
            i <= items@.len(),
            out@ == deduped(items@.subrange(0, i as int)),
        decreases items.len() - i,
    {
        let ghost sub = items@.subrange(0, i + 1);
        assert(sub.drop_last() =~= items@.subrange(0, i as int));
        if i == 0 {
            out.push(items[i].clone());
            assert(out@ =~= sub);
        } else {
            assert(sub.drop_last().last() == items@[i - 1]);
            if items[i] != items[i - 1] {
                out.push(items[i].clone());
            }
        }
        i = i + 1;
    }
    assert(items@.subrange(0, items@.len() as int) =~= items@);
    out
}

/// `b` holds the keys of `a`, each with its list without repeated neighbours.
pub open spec fn is_deduped_map(a: Map<Seq<char>, Vec<String>>, b: Map<Seq<char>, Vec<String>>) -> bool {
    &&& b.dom() == a.dom()
    &&& forall|k: Seq<char>| #[trigger] b.contains_key(k) ==> b[k]@ == deduped(a[k]@)
}

/// The map with repeated neighbouring texts under each key left out.
pub fn dedup_values(map: &QueryMap) -> (r: QueryMap)
    requires
        map.wf(),
    ensures
        r.wf(),
        is_deduped_map(map.view(), r.view()),
{
    let entries = map.entries();
    let mut out: QueryMap = KeyedMap::new();
    let mut i: usize = 0;
    while i < entries.len()
        invariant
            map.wf(),
            forall|q: int| 0 <= q < entries@.len() ==> map.view().contains_key(#[trigger] entries@[q].0@)
                && map.view()[entries@[q].0@] == entries@[q].1,
            forall|k: Seq<char>| #[trigger] map.view().contains_key(k)
                ==> exists|q: int| 0 <= q < entries@.len() && entries@[q].0@ == k,
            i <= entries@.len(),
            out.wf(),
            forall|k: Seq<char>| #[trigger] out.view().contains_key(k) ==> map.view().contains_key(k)
                && out.view()[k]@ == deduped(map.view()[k]@),
            forall|q: int| 0 <= q < i ==> out.view().contains_key(#[trigger] entries@[q].0@),
        decreases entries.len() - i,
    {
        let key = &entries[i].0;
        let items = dedup_texts(&entries[i].1);
        let ghost before = out.view();
        out.insert(key.clone(), items);
        proof {
            assert(map.view().contains_key(key@));
            assert forall|q: int| 0 <= q < i + 1 implies out.view().contains_key(#[trigger] entries@[q].0@) by {
                if q < i {
                    assert(before.contains_key(entries@[q].0@));
                }
            }
        }
        i = i + 1;
    }
    proof {
        assert forall|k: Seq<char>| #[trigger] map.view().contains_key(k) implies out.view().contains_key(k) by {
            let q = choose|q: int| 0 <= q < entries@.len() && entries@[q].0@ == k;
            assert(out.view().contains_key(entries@[q].0@));
        }
        assert(out.view().dom() =~= map.view().dom());
    }
    out
}

/// Stream CSS query selector map: as `css_query_select_map`, with repeated
/// neighbouring texts under a key left out.
pub fn css_query_select_map_streamed(html: &str, selectors: &DocumentSelectors) -> (r: QueryMap)
    ensures
        r.wf(),
        exists|m: Map<Seq<char>, Vec<String>>| query_map_ok(m, *selectors) && is_deduped_map(m, r.view()),
{
    let map = css_query_select_map(html, selectors);
    let r = dedup_values(&map);
    assert(query_map_ok(map.view(), *selectors) && is_deduped_map(map.view(), r.view()));
    r
}

} // verus!
