use vstd::prelude::*;
use crate::chars::{contains_chars, occurs_in, string_of, to_chars};
use crate::keyed::KeyedMap;

verus! {

/// ASCII upper case folded to lower case; other characters are kept.
pub open spec fn lower_ascii(c: char) -> char {
    if 'A' <= c && c <= 'Z' { ((c as u8) + 32) as char } else { c }
}

fn to_lower_ascii(c: char) -> (r: char)
    ensures
        r == lower_ascii(c),
{
    if 'A' <= c && c <= 'Z' { ((c as u8) + 32) as char } else { c }
}

/// How many `/` stand among the first `k` characters of `t`.
pub open spec fn slash_count(t: Seq<char>, k: int) -> nat
    decreases k,
{
    if k <= 0 || k > t.len() {
        0
    } else {
        slash_count(t, k - 1) + if t[k - 1] == '/' { 1nat } else { 0nat }
    }
}

/// Position `i` of `t` lies in the scheme and host: before the third `/`.
pub open spec fn in_origin(t: Seq<char>, i: int) -> bool {
    0 <= i < t.len() && slash_count(t, i) < 3 && !(slash_count(t, i) == 2 && t[i] == '/')
}

/// `key` is the URL key of `url`: the characters before the first `#`, with the
/// scheme and host folded to ASCII lower case.
pub open spec fn is_url_key(url: Seq<char>, key: Seq<char>) -> bool {
    &&& key.len() <= url.len()
    &&& (key.len() == url.len() || url[key.len() as int] == '#')
    &&& forall|j: int| 0 <= j < key.len() ==> url[j] != '#'
    &&& forall|i: int| 0 <= i < key.len() ==> #[trigger] key[i] == if in_origin(url, i) {
        lower_ascii(url[i])
    } else {
        url[i]
    }
}

/// The URL key of a URL.
pub fn url_key(url: &str) -> (r: Vec<char>)
    ensures
        is_url_key(url@, r@),
{
    let t = to_chars(url);
    let mut r: Vec<char> = Vec::new();
    let mut slashes: usize = 0;
    let mut i: usize = 0;
    while i < t.len() && t[i] != '#'
        invariant
            t@ == url@,
            i <= t@.len(),
            r@.len() == i,
            slashes == slash_count(t@, i as int),
            slashes <= i,
            forall|j: int| 0 <= j < i ==> t@[j] != '#',
            forall|j: int| 0 <= j < i ==> #[trigger] r@[j] == if in_origin(t@, j) {
                lower_ascii(t@[j])
            } else {
                t@[j]
            },
        decreases t.len() - i,
    {
        let c = t[i];
        let origin = slashes < 3 && !(slashes == 2 && c == '/');
        if origin {
            r.push(to_lower_ascii(c));
        } else {
            r.push(c);
        }
        if c == '/' {
            slashes = slashes + 1;
        }
        i = i + 1;
    }
    r
}

/// A URL has one key.
pub proof fn lemma_url_key_unique(url: Seq<char>, k1: Seq<char>, k2: Seq<char>)
    requires
        is_url_key(url, k1),
        is_url_key(url, k2),
    ensures
        k1 == k2,
{
    if k1.len() < k2.len() {
        assert(url[k1.len() as int] != '#');
    }
    if k2.len() < k1.len() {
        assert(url[k2.len() as int] != '#');
    }
    assert forall|i: int| 0 <= i < k1.len() implies k1[i] == k2[i] by {
        assert(k1[i] == if in_origin(url, i) { lower_ascii(url[i]) } else { url[i] });
        assert(k2[i] == if in_origin(url, i) { lower_ascii(url[i]) } else { url[i] });
    }
    assert(k1 =~= k2);
}

/// `a` and `b` have the same scheme and host.
pub open spec fn same_origin(a: Seq<char>, b: Seq<char>) -> bool {
    &&& forall|i: int| #[trigger] in_origin(a, i) ==> in_origin(b, i) && a[i] == b[i]
    &&& forall|i: int| #[trigger] in_origin(b, i) ==> in_origin(a, i) && a[i] == b[i]
}

fn same_origin_exec(a: &Vec<char>, b: &Vec<char>) -> (r: bool)
    ensures
        r == same_origin(a@, b@),
{
    let mut i: usize = 0;
    let mut sa: usize = 0;
    let mut sb: usize = 0;
    loop
        invariant
            i <= a@.len() + 1,
            sa == slash_count(a@, i as int),
            sb == slash_count(b@, i as int),
            sa <= i,
            sb <= i,
            forall|j: int| 0 <= j < i ==> (#[trigger] in_origin(a@, j) <==> in_origin(b@, j)),
            forall|j: int| 0 <= j < i && in_origin(a@, j) ==> a@[j] == b@[j],
            i <= a@.len() && i <= b@.len(),
            forall|j: int| 0 <= j < i ==> in_origin(a@, j),
        decreases a@.len() - i,
    {
        let oa = i < a.len() && sa < 3 && !(sa == 2 && a[i] == '/');
        let ob = i < b.len() && sb < 3 && !(sb == 2 && b[i] == '/');
        if oa != ob {
            assert(in_origin(a@, i as int) != in_origin(b@, i as int));
            return false;
        }
        if !oa {
            proof {
                assert forall|j: int| #[trigger] in_origin(a@, j) implies in_origin(b@, j) && a@[j] == b@[j] by {
                    if j >= i {
                        lemma_origin_prefix(a@, i as int, j);
                    }
                }
                assert forall|j: int| #[trigger] in_origin(b@, j) implies in_origin(a@, j) && a@[j] == b@[j] by {
                    if j >= i {
                        lemma_origin_prefix(b@, i as int, j);
                    }
                }
            }
            return true;
        }
        if a[i] != b[i] {
            assert(in_origin(a@, i as int));
            return false;
        }
        if a[i] == '/' {
            sa = sa + 1;
            sb = sb + 1;
        }
        i = i + 1;
    }
}

proof fn lemma_slash_count_mono(t: Seq<char>, i: int, j: int)
    requires
        0 <= i <= j <= t.len(),
    ensures
        slash_count(t, i) <= slash_count(t, j),
    decreases j - i,
{
    if i < j {
        lemma_slash_count_mono(t, i, j - 1);
    }
}

/// Once a position is outside the origin, so is every later one.
proof fn lemma_origin_prefix(t: Seq<char>, i: int, j: int)
    requires
        0 <= i <= j,
        !in_origin(t, i),
    ensures
        !in_origin(t, j),
{
    if i < t.len() && j < t.len() {
        lemma_slash_count_mono(t, i, j);
        if slash_count(t, i) < 3 && i < j {
            assert(slash_count(t, i) == 2 && t[i] == '/');
            lemma_slash_count_mono(t, i + 1, j);
            assert(slash_count(t, i + 1) == 3);
        }
    }
}

} // verus!

verus! {

/// `key` contains one of the patterns.
pub open spec fn matches_any(patterns: Seq<String>, key: Seq<char>) -> bool {
    exists|i: int| 0 <= i < patterns.len() && occurs_in(#[trigger] patterns[i]@, key)
}

fn matches_any_exec(patterns: &Vec<String>, key: &Vec<char>) -> (r: bool)
    ensures
        r == matches_any(patterns@, key@),
{
    let mut i: usize = 0;
    while i < patterns.len()
        invariant
            i <= patterns@.len(),
            forall|j: int| 0 <= j < i ==> !occurs_in(#[trigger] patterns@[j]@, key@),
        decreases patterns.len() - i,
    {
        let p = to_chars(patterns[i].as_str());
        if contains_chars(key, &p) {
            return true;
        }
        i = i + 1;
    }
    false
}

/// Which URLs a crawl may visit: those with the seed's scheme and host, that
/// contain no blacklist pattern and, where a whitelist is given, one of its
/// patterns.
pub struct ScopeRule {
    pub blacklist: Vec<String>,
    pub whitelist: Vec<String>,
}

/// The URLs that were discovered, in order, and how far the next one to fetch
/// is along them: the pending URLs are those after it.
pub struct Frontier {
    seed: Vec<char>,
    visited: Vec<Vec<char>>,
    depths: Vec<u32>,
    head: usize,
    limit: u32,
    max_depth: u32,
    scope: ScopeRule,
}

/// The frontier as values.
pub struct FrontierModel {
    pub seed: Seq<char>,
    pub visited: Seq<Seq<char>>,
    pub depths: Seq<u32>,
    pub head: int,
    pub limit: u32,
    pub max_depth: u32,
    pub blacklist: Seq<String>,
    pub whitelist: Seq<String>,
}

/// The URLs that were handed out by `pop`, in order.
pub open spec fn popped(m: FrontierModel) -> Seq<Seq<char>> {
    m.visited.subrange(0, m.head)
}

/// No URL key occurs twice.
pub open spec fn distinct(s: Seq<Seq<char>>) -> bool {
    forall|i: int, j: int| 0 <= i < s.len() && 0 <= j < s.len() && i != j ==> s[i] != s[j]
}

/// A URL with key `key`, found at `depth`, joins the frontier.
pub open spec fn admits(m: FrontierModel, key: Seq<char>, depth: u32) -> bool {
    &&& same_origin(key, m.seed)
    &&& !matches_any(m.blacklist, key)
    &&& (m.whitelist.len() == 0 || matches_any(m.whitelist, key))
    &&& (m.max_depth == 0 || depth <= m.max_depth)
    &&& (m.limit == 0 || m.visited.len() < m.limit)
    &&& !m.visited.contains(key)
}

impl Frontier {
    /// The frontier as values.
    pub closed spec fn view(&self) -> FrontierModel {
        FrontierModel {
            seed: self.seed@,
            visited: self.visited@.map_values(|v: Vec<char>| v@),
            depths: self.depths@,
            head: self.head as int,
            limit: self.limit,
            max_depth: self.max_depth,
            blacklist: self.scope.blacklist@,
            whitelist: self.scope.whitelist@,
        }
    }

    /// Each URL is discovered once, each has a depth, and the next one to fetch
    /// is among them.
    pub closed spec fn wf(&self) -> bool {
        &&& distinct(self@.visited)
        &&& self.depths@.len() == self.visited@.len()
        &&& self.head <= self.visited@.len()
    }

    /// A frontier for a crawl from `seed`, which is discovered at depth 0 when
    /// the scope admits it. A `limit` or `max_depth` of 0 means no bound.
    pub fn new(seed: &str, limit: u32, max_depth: u32, scope: ScopeRule) -> (r: Frontier)
        ensures
            r.wf(),
            is_url_key(seed@, r@.seed),
            r@.head == 0,
            r@.limit == limit,
            r@.max_depth == max_depth,
            r@.blacklist == scope.blacklist@,
            r@.whitelist == scope.whitelist@,
            r@.visited == (if admits(
                FrontierModel { visited: Seq::empty(), ..r@ },
                r@.seed,
                0,
            ) {
                seq![r@.seed]
            } else {
                Seq::empty()
            }),
    {
        let key = url_key(seed);
        let mut f = Frontier {
            seed: key,
            visited: Vec::new(),
            depths: Vec::new(),
            head: 0,
            limit,
            max_depth,
            scope,
        };
        assert(f@.visited =~= Seq::<Seq<char>>::empty());
        let ghost m0 = f@;
        let added = f.add(seed, 0);
        proof {
            let k = choose|k: Seq<char>| is_url_key(seed@, k) && added == admits(m0, k, 0) && f@ == (
                FrontierModel {
                    visited: if added { m0.visited.push(k) } else { m0.visited },
                    depths: if added { m0.depths.push(0) } else { m0.depths },
                    ..m0
                });
            lemma_url_key_unique(seed@, k, m0.seed);
            assert(FrontierModel { visited: Seq::empty(), ..f@ }.visited == m0.visited);
            if added {
                assert(f@.visited =~= seq![f@.seed]);
            }
        }
        f
    }

    /// Discovers a URL found at `depth`: its key joins the visited URLs and
    /// the pending ones when the scope, the bounds and the dedup admit it.
    pub fn add(&mut self, url: &str, depth: u32) -> (r: bool)
        requires
            old(self).wf(),
        ensures
            final(self).wf(),
            exists|key: Seq<char>| is_url_key(url@, key) && r == admits(old(self)@, key, depth) && final(self)@ == (
                FrontierModel {
                    visited: if r { old(self)@.visited.push(key) } else { old(self)@.visited },
                    depths: if r { old(self)@.depths.push(depth) } else { old(self)@.depths },
                    ..old(self)@
                }),
    {
        let key = url_key(url);
        let ghost k = key@;
        let ghost m = self@;
        if !same_origin_exec(&key, &self.seed)
            || matches_any_exec(&self.scope.blacklist, &key)
            || (self.scope.whitelist.len() > 0 && !matches_any_exec(&self.scope.whitelist, &key))
            || (self.max_depth != 0 && depth > self.max_depth)
            || (self.limit != 0 && self.visited.len() >= self.limit as usize)
            || self.discovered(&key)
        {
            assert(!admits(m, k, depth));
            return false;
        }
        self.visited.push(key);
        self.depths.push(depth);
        proof {
            assert(self@.visited =~= m.visited.push(k));
            assert forall|i: int, j: int| 0 <= i < self@.visited.len() && 0 <= j < self@.visited.len() && i != j
                implies self@.visited[i] != self@.visited[j] by {
                if i == m.visited.len() as int {
                    assert(m.visited[j] == self@.visited[j]);
                } else if j == m.visited.len() as int {
                    assert(m.visited[i] == self@.visited[i]);
                }
            }
        }
        true
    }

    /// Whether a URL key was discovered.
    fn discovered(&self, key: &Vec<char>) -> (r: bool)
        ensures
            r == self@.visited.contains(key@),
    {
        let mut i: usize = 0;
        while i < self.visited.len()
            invariant
                i <= self.visited@.len(),
                forall|j: int| 0 <= j < i ==> (#[trigger] self.visited@[j])@ != key@,
            decreases self.visited.len() - i,
        {
            if same_chars(&self.visited[i], key) {
                assert(self@.visited[i as int] == key@);
                return true;
            }
            i = i + 1;
        }
        proof {
            if self@.visited.contains(key@) {
                let j = choose|j: int| 0 <= j < self@.visited.len() && self@.visited[j] == key@;
                assert(self.visited@[j]@ == key@);
            }
        }
        false
    }

    /// The next URL to fetch and its depth, oldest first; each discovered URL
    /// is handed out once.
    pub fn pop(&mut self) -> (r: Option<(String, u32)>)
        requires
            old(self).wf(),
        ensures
            final(self).wf(),
            old(self)@.head == old(self)@.visited.len() ==> r.is_none() && final(self)@ == old(self)@,
            old(self)@.head < old(self)@.visited.len() ==> {
                &&& r.is_some()
                &&& r.unwrap().0@ == old(self)@.visited[old(self)@.head]
                &&& r.unwrap().1 == old(self)@.depths[old(self)@.head]
                &&& final(self)@ == (FrontierModel { head: old(self)@.head + 1, ..old(self)@ })
            },
    {
        if self.head >= self.visited.len() {
            return None;
        }
        let url = string_of(&self.visited[self.head]);
        let depth = self.depths[self.head];
        self.head = self.head + 1;
        Some((url, depth))
    }

    /// How many URLs were discovered.
    pub fn len_visited(&self) -> (r: usize)
        ensures
            r == self@.visited.len(),
    {
        self.visited.len()
    }

    /// Whether no URL waits to be fetched.
    pub fn is_empty(&self) -> (r: bool)
        requires
            self.wf(),
        ensures
            r == (self@.head == self@.visited.len()),
    {
        self.head >= self.visited.len()
    }

    /// The discovered URLs, in order of discovery.
    pub fn snapshot_visited(&self) -> (r: Vec<String>)
        ensures
            r@.len() == self@.visited.len(),
            forall|i: int| 0 <= i < r@.len() ==> (#[trigger] r@[i])@ == self@.visited[i],
    {
        let mut out: Vec<String> = Vec::new();
        let mut i: usize = 0;
        while i < self.visited.len()
            invariant
                i <= self.visited@.len(),
                out@.len() == i,
                forall|j: int| 0 <= j < i ==> (#[trigger] out@[j])@ == self@.visited[j],
            decreases self.visited.len() - i,
        {
            out.push(string_of(&self.visited[i]));
            i = i + 1;
        }
        out
    }
}

/// Whether two character lists are equal.
fn same_chars(a: &Vec<char>, b: &Vec<char>) -> (r: bool)
    ensures
        r == (a@ == b@),
{
    if a.len() != b.len() {
        return false;
    }
    let mut i: usize = 0;
    while i < a.len()
        invariant
            a@.len() == b@.len(),
            i <= a@.len(),
            forall|j: int| 0 <= j < i ==> a@[j] == b@[j],
        decreases a.len() - i,
    {
        if a[i] != b[i] {
            return false;
        }
        i = i + 1;
    }
    assert(a@ =~= b@);
    true
}

} // verus!

verus! {

/// No URL is handed out by `pop` twice over a crawl: the URLs handed out so far
/// are distinct, and none of them can be discovered again, so none returns to
/// the pending ones.
pub proof fn lemma_pop_at_most_once(f: Frontier, url: Seq<char>, depth: u32)
    requires
        f.wf(),
        popped(f@).contains(url),
    ensures
        distinct(popped(f@)),
        !admits(f@, url, depth),
{
    let i = choose|i: int| 0 <= i < popped(f@).len() && popped(f@)[i] == url;
    assert(f@.visited[i] == url);
}

/// The time at which a request may be dispatched to a host last served at
/// `last`, at the earliest at `now`, `delay` milliseconds apart (capped at the
/// largest time).
pub open spec fn dispatch_time(last: Option<u64>, now: u64, delay: u64) -> u64 {
    match last {
        None => now,
        Some(t) => {
            let ready = if t + delay > u64::MAX { u64::MAX } else { (t + delay) as u64 };
            if now >= ready { now } else { ready }
        },
    }
}

/// The larger of the configured delay and the delay a host's robots rules ask for.
pub open spec fn effective_delay(delay: u64, crawl_delay: Option<u64>) -> u64 {
    match crawl_delay {
        Some(d) => if d > delay { d } else { delay },
        None => delay,
    }
}

/// The time of the last dispatch to each host, and the configured delay.
pub struct RateLimiter {
    delay: u64,
    last: KeyedMap<u64>,
}

impl RateLimiter {
    /// The last dispatch time per host.
    pub closed spec fn view(&self) -> Map<Seq<char>, u64> {
        self.last.view()
    }

    /// The configured delay between two requests to one host, in milliseconds.
    pub closed spec fn delay(&self) -> u64 {
        self.delay
    }

    pub closed spec fn wf(&self) -> bool {
        self.last.wf()
    }

    /// A limiter with no host served yet.
    pub fn new(delay: u64) -> (r: RateLimiter)
        ensures
            r.wf(),
            r@ == Map::<Seq<char>, u64>::empty(),
            r.delay() == delay,
    {
        RateLimiter { delay, last: KeyedMap::new() }
    }

    /// The delay between two requests to a host with the given robots delay.
    pub fn effective_delay(&self, crawl_delay: Option<u64>) -> (r: u64)
        ensures
            r == effective_delay(self.delay(), crawl_delay),
    {
        match crawl_delay {
            Some(d) => if d > self.delay { d } else { self.delay },
            None => self.delay,
        }
    }

    /// Reserves the next slot of `host`, asked for at time `now` (milliseconds):
    /// returns the time at which the request may go, which becomes the host's
    /// last dispatch. Other hosts are unaffected.
    pub fn acquire(&mut self, host: &String, now: u64, crawl_delay: Option<u64>) -> (r: u64)
        requires
            old(self).wf(),
        ensures
            final(self).wf(),
            final(self).delay() == old(self).delay(),
            r == dispatch_time(
                if old(self)@.contains_key(host@) { Some(old(self)@[host@]) } else { None },
                now,
                effective_delay(old(self).delay(), crawl_delay),
            ),
            final(self)@ == old(self)@.insert(host@, r),
    {
        let delay = self.effective_delay(crawl_delay);
        let at = match self.last.get(host) {
            None => now,
            Some(t) => {
                let ready = t.saturating_add(delay);
                if now >= ready { now } else { ready }
            },
        };
        self.last.insert(host.clone(), at);
        at
    }
}

/// Successive dispatches to one host are at least the effective delay apart,
/// whatever times they were asked for at (unless the first one is so late that
/// adding the delay passes the largest time).
pub proof fn lemma_dispatches_spaced(last: Option<u64>, now1: u64, now2: u64, delay: u64)
    requires
        dispatch_time(last, now1, delay) + delay <= u64::MAX,
    ensures
        dispatch_time(Some(dispatch_time(last, now1, delay)), now2, delay)
            >= dispatch_time(last, now1, delay) + delay,
{
}

} // verus!
