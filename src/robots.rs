use vstd::prelude::*;
use crate::chars::{is_prefix, occurs_in, starts_with_chars, contains_chars, to_chars, string_of};
use crate::crawl::lower_ascii;
use crate::keyed::KeyedMap;

verus! {

/// One `Allow` or `Disallow` line.
pub struct RobotsRule {
    pub allow: bool,
    pub path: String,
}

/// The rules for a set of user agents.
pub struct RobotsGroup {
    pub agents: Vec<String>,
    pub rules: Vec<RobotsRule>,
    pub crawl_delay: Option<u64>,
}

/// The groups of a robots file, in order.
pub struct RobotsRules {
    pub groups: Vec<RobotsGroup>,
}

/// A string folded to ASCII lower case.
pub open spec fn lower(s: Seq<char>) -> Seq<char> {
    s.map_values(|c: char| lower_ascii(c))
}

/// How well an agent token matches a user agent: `*` matches any with 0, a
/// token that occurs in it (without regard to ASCII case) with its length, any
/// other token not at all (-1).
pub open spec fn token_score(token: Seq<char>, agent: Seq<char>) -> int {
    if token == "*"@ {
        0
    } else if token.len() > 0 && occurs_in(lower(token), lower(agent)) {
        token.len() as int
    } else {
        -1
    }
}

/// The best score of a group's agent tokens.
pub open spec fn group_score(agents: Seq<String>, agent: Seq<char>) -> int
    decreases agents.len(),
{
    if agents.len() == 0 {
        -1
    } else {
        let rest = group_score(agents.drop_last(), agent);
        let s = token_score(agents.last()@, agent);
        if s > rest { s } else { rest }
    }
}

/// The group that applies to `agent`: the first of those with the best score,
/// if any group matches.
pub open spec fn selected_group(groups: Seq<RobotsGroup>, agent: Seq<char>) -> Option<int>
    decreases groups.len(),
{
    if groups.len() == 0 {
        None
    } else {
        let rest = selected_group(groups.drop_last(), agent);
        let s = group_score(groups.last().agents@, agent);
        match rest {
            Some(g) => if s > group_score(groups[g].agents@, agent) { Some(groups.len() - 1) } else { Some(g) },
            None => if s >= 0 { Some(groups.len() - 1) } else { None },
        }
    }
}

/// The deciding rule's path length and kind: the longest non-empty rule path
/// that begins `path`, `Allow` winning a tie; `(-1, true)` when none does.
pub open spec fn deciding_rule(rules: Seq<RobotsRule>, path: Seq<char>) -> (int, bool)
    decreases rules.len(),
{
    if rules.len() == 0 {
        (-1, true)
    } else {
        let rest = deciding_rule(rules.drop_last(), path);
        let r = rules.last();
        let n = r.path@.len() as int;
        if n > 0 && is_prefix(r.path@, path) && (n > rest.0 || (n == rest.0 && r.allow)) {
            (n, r.allow)
        } else {
            rest
        }
    }
}

/// Whether `agent` may fetch `path` under the rules.
pub open spec fn path_allowed(rules: RobotsRules, path: Seq<char>, agent: Seq<char>) -> bool {
    match selected_group(rules.groups@, agent) {
        Some(g) => deciding_rule(rules.groups@[g].rules@, path).1,
        None => true,
    }
}

fn lower_chars(s: &str) -> (r: Vec<char>)
    ensures
        r@ == lower(s@),
{
    let t = to_chars(s);
    let mut r: Vec<char> = Vec::new();
    let mut i: usize = 0;
    while i < t.len()
        invariant
            t@ == s@,
            i <= t@.len(),
            r@ == lower(t@.subrange(0, i as int)),
        decreases t.len() - i,
    {
        let c = t[i];
        r.push(if 'A' <= c && c <= 'Z' { ((c as u8) + 32) as char } else { c });
        i = i + 1;
        assert(r@ =~= lower(t@.subrange(0, i as int)));
    }
    assert(t@.subrange(0, t@.len() as int) =~= t@);
    r
}

/// The integer that a score held as an option stands for: -1 for none.
pub open spec fn score_of(o: Option<usize>) -> int {
    match o {
        Some(n) => n as int,
        None => -1,
    }
}

fn better(a: Option<usize>, b: Option<usize>) -> (r: bool)
    ensures
        r == (score_of(a) > score_of(b)),
{
    match (a, b) {
        (None, _) => false,
        (Some(_), None) => true,
        (Some(x), Some(y)) => x > y,
    }
}

fn token_score_exec(token: &String, agent: &Vec<char>, agent_str: &str) -> (r: Option<usize>)
    requires
        agent@ == lower(agent_str@),
    ensures
        score_of(r) == token_score(token@, agent_str@),
{
    if crate::chars::str_eq(token.as_str(), "*") {
        return Some(0);
    }
    let t = lower_chars(token.as_str());
    if t.len() > 0 && contains_chars(agent, &t) {
        Some(t.len())
    } else {
        None
    }
}

impl RobotsRules {
    fn group_score_exec(&self, g: usize, agent: &Vec<char>, agent_str: &str) -> (r: Option<usize>)
        requires
            g < self.groups@.len(),
            agent@ == lower(agent_str@),
        ensures
            score_of(r) == group_score(self.groups@[g as int].agents@, agent_str@),
    {
        let agents = &self.groups[g].agents;
        let mut best: Option<usize> = None;
        let mut i: usize = 0;
        while i < agents.len()
            invariant
                agents == self.groups@[g as int].agents,
                agent@ == lower(agent_str@),
                i <= agents@.len(),
                score_of(best) == group_score(agents@.subrange(0, i as int), agent_str@),
            decreases agents.len() - i,
        {
            let ghost sub = agents@.subrange(0, i + 1);
            assert(sub.drop_last() =~= agents@.subrange(0, i as int));
            let s = token_score_exec(&agents[i], agent, agent_str);
            if better(s, best) {
                best = s;
            }
            i = i + 1;
        }
        assert(agents@.subrange(0, agents@.len() as int) =~= agents@);
        best
    }

    /// Whether `agent` may fetch `path`: the group with the longest matching
    /// agent token decides, by its longest matching rule.
    pub fn allowed(&self, path: &str, agent: &str) -> (r: bool)
        ensures
            r == path_allowed(*self, path@, agent@),
    {
        let a = lower_chars(agent);
        let mut selected: Option<usize> = None;
        let mut best: Option<usize> = None;
        let mut g: usize = 0;
        while g < self.groups.len()
            invariant
                a@ == lower(agent@),
                g <= self.groups@.len(),
                selected_group(self.groups@.subrange(0, g as int), agent@) == match selected {
                    Some(s) => Some(s as int),
                    None => None::<int>,
                },
                match selected {
                    Some(s) => s < g && score_of(best) == group_score(self.groups@[s as int].agents@, agent@)
                        && best.is_some(),
                    None => best.is_none(),
                },
            decreases self.groups.len() - g,
        {
            let ghost sub = self.groups@.subrange(0, g + 1);
            assert(sub.drop_last() =~= self.groups@.subrange(0, g as int));
            proof {
                if let Some(s) = selected {
                    assert(sub[s as int] == self.groups@[s as int]);
                }
            }
            let s = self.group_score_exec(g, &a, agent);
            if better(s, best) {
                selected = Some(g);
                best = s;
            }
            g = g + 1;
        }
        assert(self.groups@.subrange(0, self.groups@.len() as int) =~= self.groups@);
        match selected {
            None => true,
            Some(s) => {
                let rules = &self.groups[s].rules;
                let p = to_chars(path);
                let mut len: Option<usize> = None;
                let mut allow = true;
                let mut i: usize = 0;
                while i < rules.len()
                    invariant
                        p@ == path@,
                        s < self.groups@.len(),
                        rules == self.groups@[s as int].rules,
                        i <= rules@.len(),
                        (score_of(len), allow) == deciding_rule(rules@.subrange(0, i as int), path@),
                    decreases rules.len() - i,
                {
                    let ghost sub = rules@.subrange(0, i + 1);
                    assert(sub.drop_last() =~= rules@.subrange(0, i as int));
                    let rp = to_chars(rules[i].path.as_str());
                    if rp.len() > 0 && starts_with_chars(&p, &rp) {
                        let n = Some(rp.len());
                        let tie = match len {
                            Some(l) => l == rp.len(),
                            None => false,
                        };
                        if better(n, len) || (tie && rules[i].allow) {
                            len = n;
                            allow = rules[i].allow;
                        }
                    }
                    i = i + 1;
                }
                assert(rules@.subrange(0, rules@.len() as int) =~= rules@);
                allow
            },
        }
    }
}

} // verus!

verus! {

/// A group of a robots file, as values.
pub struct GroupModel {
    pub agents: Seq<Seq<char>>,
    pub rules: Seq<(bool, Seq<char>)>,
    pub crawl_delay: Option<u64>,
}

/// A group as values.
pub open spec fn group_model(g: RobotsGroup) -> GroupModel {
    GroupModel {
        agents: g.agents@.map_values(|a: String| a@),
        rules: g.rules@.map_values(|r: RobotsRule| (r.allow, r.path@)),
        crawl_delay: g.crawl_delay,
    }
}

/// The groups of a robots file, as values.
pub open spec fn rules_model(r: RobotsRules) -> Seq<GroupModel> {
    r.groups@.map_values(|g: RobotsGroup| group_model(g))
}

/// A group with no agent, no rule and no delay.
pub open spec fn empty_group() -> GroupModel {
    GroupModel { agents: Seq::empty(), rules: Seq::empty(), crawl_delay: None }
}

/// Where a reader of a robots file stands: the closed groups, the open one,
/// and whether the open one already has rules.
pub struct ParseState {
    pub groups: Seq<GroupModel>,
    pub current: GroupModel,
    pub in_rules: bool,
}

/// The first position from `i` up to `stop` that holds `c`, else `stop`.
pub open spec fn find_from(t: Seq<char>, i: int, stop: int, c: char) -> int
    decreases stop - i,
{
    if i >= stop {
        stop
    } else if t[i] == c {
        i
    } else {
        find_from(t, i + 1, stop, c)
    }
}

/// A blank: space, tab or carriage return.
pub open spec fn is_blank(c: char) -> bool {
    c == ' ' || c == '\t' || c == '\r'
}

/// The first position from `a` up to `b` that is not blank, else `b`.
pub open spec fn skip_blank_start(t: Seq<char>, a: int, b: int) -> int
    decreases b - a,
{
    if a < b && is_blank(t[a]) { skip_blank_start(t, a + 1, b) } else { a }
}

/// The end of `t[a..b]` without its trailing blanks.
pub open spec fn skip_blank_end(t: Seq<char>, a: int, b: int) -> int
    decreases b - a,
{
    if a < b && is_blank(t[b - 1]) { skip_blank_end(t, a, b - 1) } else { b }
}

/// `t[a..b]` without blanks at either end.
pub open spec fn field(t: Seq<char>, a: int, b: int) -> Seq<char> {
    let a2 = skip_blank_start(t, a, b);
    t.subrange(a2, skip_blank_end(t, a2, b))
}

/// The value of the first `k` digits of `v`, capped at the largest `u64`.
pub open spec fn digits_value(v: Seq<char>, k: int) -> u64
    decreases k,
{
    if k <= 0 {
        0
    } else {
        let n = digits_value(v, k - 1);
        let m: int = if n > u64::MAX / 10 { u64::MAX as int } else { n * 10 };
        let d = (v[k - 1] as u32 - '0' as u32) as int;
        if m + d > u64::MAX { u64::MAX } else { (m + d) as u64 }
    }
}

/// A `Crawl-delay` value in milliseconds: a non-empty run of digits counts
/// whole seconds (capped), anything else gives no delay.
pub open spec fn millis_of(v: Seq<char>) -> Option<u64> {
    if v.len() > 0 && forall|i: int| 0 <= i < v.len() ==> '0' <= #[trigger] v[i] && v[i] <= '9' {
        let n = digits_value(v, v.len() as int);
        Some(if n > u64::MAX / 1000 { u64::MAX } else { (n * 1000) as u64 })
    } else {
        None
    }
}

/// The reader after one `key: value` line.
pub open spec fn step_line(st: ParseState, key: Seq<char>, value: Seq<char>) -> ParseState {
    let cur = st.current;
    if lower(key) == "user-agent"@ {
        let st1 = if st.in_rules {
            ParseState { groups: st.groups.push(cur), current: empty_group(), in_rules: false }
        } else {
            st
        };
        ParseState { current: GroupModel { agents: st1.current.agents.push(value), ..st1.current }, ..st1 }
    } else if cur.agents.len() > 0 && lower(key) == "allow"@ {
        ParseState { current: GroupModel { rules: cur.rules.push((true, value)), ..cur }, in_rules: true, ..st }
    } else if cur.agents.len() > 0 && lower(key) == "disallow"@ {
        ParseState { current: GroupModel { rules: cur.rules.push((false, value)), ..cur }, in_rules: true, ..st }
    } else if cur.agents.len() > 0 && lower(key) == "crawl-delay"@ {
        ParseState { current: GroupModel { crawl_delay: millis_of(value), ..cur }, in_rules: true, ..st }
    } else {
        st
    }
}

/// The groups once the reader is done: the open group closes if it has an agent.
pub open spec fn finish(st: ParseState) -> Seq<GroupModel> {
    if st.current.agents.len() > 0 { st.groups.push(st.current) } else { st.groups }
}

/// The position of the line after the one that starts at `start` and ends at `end`.
pub open spec fn next_line(t: Seq<char>, start: int, end: int) -> int {
    if start <= end && end < t.len() { end + 1 } else { t.len() as int }
}

/// The reader over the lines of `t` from `start`: the text before the first
/// `#` of a line counts, and a line with a `:` there is a `key: value` pair.
pub open spec fn parse_from(t: Seq<char>, start: int, st: ParseState) -> Seq<GroupModel>
    decreases t.len() - start,
{
    if start < 0 || start >= t.len() {
        finish(st)
    } else {
        let end = find_from(t, start, t.len() as int, '\n');
        let stop = find_from(t, start, end, '#');
        let colon = find_from(t, start, stop, ':');
        let st2 = if colon < stop {
            step_line(st, field(t, start, colon), field(t, colon + 1, stop))
        } else {
            st
        };
        parse_from(t, next_line(t, start, end), st2)
    }
}

/// The groups of a robots file: `User-agent` lines open a group (consecutive
/// ones share it), `Allow`, `Disallow` and `Crawl-delay` lines add to the open
/// group; field names go without regard to ASCII case and values are trimmed
/// of blanks; lines before any group or that are not understood are skipped.
pub open spec fn parsed_rules(text: Seq<char>) -> Seq<GroupModel> {
    parse_from(text, 0, ParseState { groups: Seq::empty(), current: empty_group(), in_rules: false })
}

fn find_char(t: &Vec<char>, from: usize, stop: usize, c: char) -> (r: usize)
    requires
        from <= stop <= t@.len(),
    ensures
        r == find_from(t@, from as int, stop as int, c),
        from <= r <= stop,
{
    let mut i = from;
    while i < stop && t[i] != c
        invariant
            from <= i <= stop <= t@.len(),
            find_from(t@, i as int, stop as int, c) == find_from(t@, from as int, stop as int, c),
        decreases stop - i,
    {
        i = i + 1;
    }
    i
}

/// The characters of `t` from `from` to `to`, without blanks at either end.
fn trimmed_field(t: &Vec<char>, from: usize, to: usize) -> (r: Vec<char>)
    requires
        from <= to <= t@.len(),
    ensures
        r@ == field(t@, from as int, to as int),
{
    let mut a = from;
    while a < to && (t[a] == ' ' || t[a] == '\t' || t[a] == '\r')
        invariant
            from <= a <= to <= t@.len(),
            skip_blank_start(t@, a as int, to as int) == skip_blank_start(t@, from as int, to as int),
        decreases to - a,
    {
        a = a + 1;
    }
    let mut b = to;
    while a < b && (t[b - 1] == ' ' || t[b - 1] == '\t' || t[b - 1] == '\r')
        invariant
            from <= a <= b <= to <= t@.len(),
            skip_blank_end(t@, a as int, b as int) == skip_blank_end(t@, a as int, to as int),
        decreases b - a,
    {
        b = b - 1;
    }
    let mut r: Vec<char> = Vec::new();
    let mut i = a;
    while i < b
        invariant
            a <= i <= b <= t@.len(),
            r@ == t@.subrange(a as int, i as int),
        decreases b - i,
    {
        r.push(t[i]);
        i = i + 1;
        assert(r@ =~= t@.subrange(a as int, i as int));
    }
    r
}

/// Whether a field name is `name` (given in lower case) without regard to ASCII case.
fn is_field(key: &Vec<char>, name: &str) -> (r: bool)
    ensures
        r == (lower(key@) == name@),
{
    let mut k: Vec<char> = Vec::new();
    let mut i: usize = 0;
    while i < key.len()
        invariant
            i <= key@.len(),
            k@ == lower(key@.subrange(0, i as int)),
        decreases key.len() - i,
    {
        let c = key[i];
        k.push(if 'A' <= c && c <= 'Z' { ((c as u8) + 32) as char } else { c });
        i = i + 1;
        assert(k@ =~= lower(key@.subrange(0, i as int)));
    }
    assert(key@.subrange(0, key@.len() as int) =~= key@);
    let n = to_chars(name);
    let r = k.len() == n.len() && starts_with_chars(&k, &n);
    assert(r == (k@ == n@)) by {
        if k@.len() == n@.len() {
            assert(k@.subrange(0, n@.len() as int) =~= k@);
        }
    }
    r
}

/// The delay a `Crawl-delay` value asks for, in milliseconds.
fn seconds_as_millis(v: &Vec<char>) -> (r: Option<u64>)
    ensures
        r == millis_of(v@),
{
    if v.len() == 0 {
        return None;
    }
    let mut n: u64 = 0;
    let mut i: usize = 0;
    while i < v.len()
        invariant
            i <= v@.len(),
            n == digits_value(v@, i as int),
            forall|j: int| 0 <= j < i ==> '0' <= #[trigger] v@[j] && v@[j] <= '9',
        decreases v.len() - i,
    {
        let c = v[i];
        if !('0' <= c && c <= '9') {
            return None;
        }
        let d = (c as u32 - '0' as u32) as u64;
        n = if n > u64::MAX / 10 { u64::MAX } else { n * 10 };
        n = n.saturating_add(d);
        i = i + 1;
    }
    Some(if n > u64::MAX / 1000 { u64::MAX } else { n * 1000 })
}

/// The reader's state as values.
pub open spec fn state_of(groups: Seq<RobotsGroup>, agents: Seq<String>, rules: Seq<RobotsRule>, delay: Option<u64>, in_rules: bool) -> ParseState {
    ParseState {
        groups: groups.map_values(|g: RobotsGroup| group_model(g)),
        current: GroupModel {
            agents: agents.map_values(|a: String| a@),
            rules: rules.map_values(|r: RobotsRule| (r.allow, r.path@)),
            crawl_delay: delay,
        },
        in_rules,
    }
}

impl RobotsRules {
    /// Reads a robots file; see `parsed_rules`.
    pub fn parse(text: &str) -> (r: RobotsRules)
        ensures
            rules_model(r) == parsed_rules(text@),
    {
        let t = to_chars(text);
        let mut groups: Vec<RobotsGroup> = Vec::new();
        let mut agents: Vec<String> = Vec::new();
        let mut rules: Vec<RobotsRule> = Vec::new();
        let mut delay: Option<u64> = None;
        let mut in_rules = false;
        let mut start: usize = 0;
        proof {
            let now = state_of(groups@, agents@, rules@, delay, in_rules);
            assert(now.groups =~= Seq::<GroupModel>::empty());
            assert(now.current.agents =~= Seq::<Seq<char>>::empty());
            assert(now.current.rules =~= Seq::<(bool, Seq<char>)>::empty());
            assert(now == ParseState { groups: Seq::empty(), current: empty_group(), in_rules: false });
        }
        while start < t.len()
            invariant
                t@ == text@,
                start <= t@.len(),
                parse_from(t@, start as int, state_of(groups@, agents@, rules@, delay, in_rules))
                    == parsed_rules(text@),
            decreases t.len() - start,
        {
            let ghost st = state_of(groups@, agents@, rules@, delay, in_rules);
            let end = find_char(&t, start, t.len(), '\n');
            let stop = find_char(&t, start, end, '#');
            let colon = find_char(&t, start, stop, ':');
            if colon < stop {
                let key = trimmed_field(&t, start, colon);
                let value = trimmed_field(&t, colon + 1, stop);
                let ghost kv = key@;
                let ghost vv = value@;
                if is_field(&key, "user-agent") {
                    if in_rules {
                        groups.push(RobotsGroup { agents, rules, crawl_delay: delay });
                        agents = Vec::new();
                        rules = Vec::new();
                        delay = None;
                        in_rules = false;
                    }
                    agents.push(string_of(&value));
                    proof {
                        let now = state_of(groups@, agents@, rules@, delay, in_rules);
                        let want = step_line(st, kv, vv);
                        assert(now.groups =~= want.groups);
                        assert(now.current.agents =~= want.current.agents);
                        assert(now.current.rules =~= want.current.rules);
                        assert(now == want);
                    }
                } else if agents.len() > 0 && is_field(&key, "allow") {
                    rules.push(RobotsRule { allow: true, path: string_of(&value) });
                    in_rules = true;
                    proof {
                        let now = state_of(groups@, agents@, rules@, delay, in_rules);
                        let want = step_line(st, kv, vv);
                        assert(now.groups =~= want.groups);
                        assert(now.current.agents =~= want.current.agents);
                        assert(now.current.rules =~= want.current.rules);
                        assert(now == want);
                    }
                } else if agents.len() > 0 && is_field(&key, "disallow") {
                    rules.push(RobotsRule { allow: false, path: string_of(&value) });
                    in_rules = true;
                    proof {
                        let now = state_of(groups@, agents@, rules@, delay, in_rules);
                        let want = step_line(st, kv, vv);
                        assert(now.groups =~= want.groups);
                        assert(now.current.agents =~= want.current.agents);
                        assert(now.current.rules =~= want.current.rules);
                        assert(now == want);
                    }
                } else if agents.len() > 0 && is_field(&key, "crawl-delay") {
                    delay = seconds_as_millis(&value);
                    in_rules = true;
                    proof {
                        let now = state_of(groups@, agents@, rules@, delay, in_rules);
                        let want = step_line(st, kv, vv);
                        assert(now.groups =~= want.groups);
                        assert(now.current.agents =~= want.current.agents);
                        assert(now.current.rules =~= want.current.rules);
                        assert(now == want);
                    }
                } else {
                    assert(state_of(groups@, agents@, rules@, delay, in_rules) == step_line(st, kv, vv));
                }
            }
            start = if end < t.len() { end + 1 } else { end };
        }
        let ghost st = state_of(groups@, agents@, rules@, delay, in_rules);
        if agents.len() > 0 {
            groups.push(RobotsGroup { agents, rules, crawl_delay: delay });
            let r = RobotsRules { groups };
            assert(rules_model(r) =~= finish(st));
            r
        } else {
            let r = RobotsRules { groups };
            assert(rules_model(r) =~= finish(st));
            r
        }
    }

    /// The crawl delay that the group for `agent` asks for, in milliseconds.
    pub fn crawl_delay(&self, agent: &str) -> (r: Option<u64>)
        ensures
            r == match selected_group(self.groups@, agent@) {
                Some(g) => self.groups@[g].crawl_delay,
                None => None,
            },
    {
        let a = lower_chars(agent);
        let mut selected: Option<usize> = None;
        let mut best: Option<usize> = None;
        let mut g: usize = 0;
        while g < self.groups.len()
            invariant
                a@ == lower(agent@),
                g <= self.groups@.len(),
                selected_group(self.groups@.subrange(0, g as int), agent@) == match selected {
                    Some(s) => Some(s as int),
                    None => None::<int>,
                },
                match selected {
                    Some(s) => s < g && score_of(best) == group_score(self.groups@[s as int].agents@, agent@)
                        && best.is_some(),
                    None => best.is_none(),
                },
            decreases self.groups.len() - g,
        {
            let ghost sub = self.groups@.subrange(0, g + 1);
            assert(sub.drop_last() =~= self.groups@.subrange(0, g as int));
            proof {
                if let Some(s) = selected {
                    assert(sub[s as int] == self.groups@[s as int]);
                }
            }
            let s = self.group_score_exec(g, &a, agent);
            if better(s, best) {
                selected = Some(g);
                best = s;
            }
            g = g + 1;
        }
        assert(self.groups@.subrange(0, self.groups@.len() as int) =~= self.groups@);
        match selected {
            Some(s) => self.groups[s].crawl_delay,
            None => None,
        }
    }
}

/// How long a fetched robots file is trusted, in milliseconds.
pub const ROBOTS_TTL: u64 = 3_600_000;

/// How long a failed robots fetch counts as "allow all", in milliseconds.
pub const ROBOTS_FAILURE_TTL: u64 = 600_000;

/// What is known of one host's robots file.
pub struct RobotsEntry {
    pub fetched_at: u64,
    pub ttl: u64,
    /// `None` when the fetch failed: everything is allowed.
    pub rules: Option<RobotsRules>,
}

/// The robots entries per host.
pub struct RobotsCache {
    entries: KeyedMap<RobotsEntry>,
}

/// An entry fetched at `fetched_at` with time to live `ttl` is stale at `now`.
pub open spec fn is_stale(fetched_at: u64, ttl: u64, now: u64) -> bool {
    now >= fetched_at + ttl
}

impl RobotsCache {
    /// The entries per host.
    pub closed spec fn view(&self) -> Map<Seq<char>, RobotsEntry> {
        self.entries.view()
    }

    pub closed spec fn wf(&self) -> bool {
        self.entries.wf()
    }

    /// A cache with no entry.
    pub fn new() -> (r: RobotsCache)
        ensures
            r.wf(),
            r@ == Map::<Seq<char>, RobotsEntry>::empty(),
    {
        RobotsCache { entries: KeyedMap::new() }
    }

    /// Whether the robots file of `host` must be fetched at `now`: it never
    /// was, or its entry expired.
    pub fn needs_fetch(&self, host: &String, now: u64) -> (r: bool)
        requires
            self.wf(),
        ensures
            r == (!self@.contains_key(host@) || is_stale(self@[host@].fetched_at, self@[host@].ttl, now)),
    {
        match self.entries.get(host) {
            None => true,
            Some(e) => now as u128 >= e.fetched_at as u128 + e.ttl as u128,
        }
    }

    /// Records the outcome of fetching the robots file of `host` at `now`:
    /// the parsed rules for an hour, or "allow all" for ten minutes when the
    /// fetch failed.
    pub fn store(&mut self, host: String, now: u64, body: Option<&str>)
        requires
            old(self).wf(),
        ensures
            final(self).wf(),
            final(self)@.contains_key(host@),
            final(self)@.remove(host@) == old(self)@.remove(host@),
            final(self)@[host@].fetched_at == now,
            final(self)@[host@].ttl == (if body.is_some() { ROBOTS_TTL } else { ROBOTS_FAILURE_TTL }),
            match final(self)@[host@].rules {
                Some(rules) => body.is_some() && rules_model(rules) == parsed_rules(body.unwrap()@),
                None => body.is_none(),
            },
    {
        let entry = match body {
            Some(text) => RobotsEntry { fetched_at: now, ttl: ROBOTS_TTL, rules: Some(RobotsRules::parse(text)) },
            None => RobotsEntry { fetched_at: now, ttl: ROBOTS_FAILURE_TTL, rules: None },
        };
        let ghost h = host@;
        self.entries.insert(host, entry);
        assert(self@.remove(h) =~= old(self)@.remove(h));
    }

    /// Whether `agent` may fetch `path` on `host`: yes when nothing is known
    /// of the host or its fetch failed, else as its rules say.
    pub fn allowed(&self, host: &String, path: &str, agent: &str) -> (r: bool)
        requires
            self.wf(),
        ensures
            r == match (if self@.contains_key(host@) { self@[host@].rules } else { None }) {
                Some(rules) => path_allowed(rules, path@, agent@),
                None => true,
            },
    {
        match self.entries.get(host) {
            Some(e) => match &e.rules {
                Some(rules) => rules.allowed(path, agent),
                None => true,
            },
            None => true,
        }
    }
}

} // verus!
