//! Reading the full node's INI-style configuration file.
//!
//! Keys before any `[section]` header are global; keys in the section of the
//! wanted network override them one by one; keys in other sections are ignored.
use vstd::prelude::*;
use crate::text::same_text;

verus! {

/// The characters `char::is_whitespace` accepts: those with the Unicode
/// `White_Space` property.
pub open spec fn is_ws(c: char) -> bool {
    let u = c as u32;
    ||| 9 <= u <= 13
    ||| u == 32
    ||| u == 0x85
    ||| u == 0xA0
    ||| u == 0x1680
    ||| 0x2000 <= u <= 0x200A
    ||| u == 0x2028
    ||| u == 0x2029
    ||| u == 0x202F
    ||| u == 0x205F
    ||| u == 0x3000
}

fn is_ws_char(c: char) -> (r: bool)
    ensures
        r == is_ws(c),
{
    let u = c as u32;
    (9 <= u && u <= 13) || u == 32 || u == 0x85 || u == 0xA0 || u == 0x1680 || (0x2000 <= u && u
        <= 0x200A) || u == 0x2028 || u == 0x2029 || u == 0x202F || u == 0x205F || u == 0x3000
}

/// The first index from `i` on that does not hold whitespace.
pub open spec fn ws_prefix_end(s: Seq<char>, i: int) -> int
    decreases s.len() - i,
{
    if 0 <= i < s.len() && is_ws(s[i]) {
        ws_prefix_end(s, i + 1)
    } else {
        i
    }
}

/// The end of `s[..j]` without its trailing whitespace, not going below `lo`.
pub open spec fn ws_suffix_start(s: Seq<char>, j: int, lo: int) -> int
    decreases j,
{
    if 0 <= lo < j <= s.len() && is_ws(s[j - 1]) {
        ws_suffix_start(s, j - 1, lo)
    } else {
        j
    }
}

/// `s` without leading and trailing whitespace.
pub open spec fn trim(s: Seq<char>) -> Seq<char> {
    let lo = ws_prefix_end(s, 0);
    s.subrange(lo, ws_suffix_start(s, s.len() as int, lo))
}

proof fn lemma_ws_prefix_end_bounds(s: Seq<char>, i: int)
    requires
        0 <= i <= s.len(),
    ensures
        i <= ws_prefix_end(s, i) <= s.len(),
    decreases s.len() - i,
{
    if i < s.len() && is_ws(s[i]) {
        lemma_ws_prefix_end_bounds(s, i + 1);
    }
}

proof fn lemma_ws_suffix_start_bounds(s: Seq<char>, j: int, lo: int)
    requires
        0 <= lo <= j <= s.len(),
    ensures
        lo <= ws_suffix_start(s, j, lo) <= j,
    decreases j,
{
    if lo < j && is_ws(s[j - 1]) {
        lemma_ws_suffix_start_bounds(s, j - 1, lo);
    }
}

/// `s` without leading and trailing whitespace.
pub fn trim_str(s: &str) -> (r: &str)
    ensures
        r@ == trim(s@),
{
    let n = s.unicode_len();
    let mut lo: usize = 0;
    while lo < n && is_ws_char(s.get_char(lo))
        invariant
            n == s@.len(),
            lo <= n,
            ws_prefix_end(s@, 0) == ws_prefix_end(s@, lo as int),
        decreases n - lo,
    {
        lo = lo + 1;
    }
    let mut hi: usize = n;
    while hi > lo && is_ws_char(s.get_char(hi - 1))
        invariant
            n == s@.len(),
            lo <= hi <= n,
            ws_prefix_end(s@, 0) == lo,
            ws_suffix_start(s@, n as int, lo as int) == ws_suffix_start(s@, hi as int, lo as int),
        decreases hi,
    {
        hi = hi - 1;
    }
    s.substring_char(lo, hi)
}

/// The first index from `i` on that holds `c`, if any.
pub open spec fn find_char(s: Seq<char>, c: char, i: int) -> Option<int>
    decreases s.len() - i,
{
    if i < 0 || i >= s.len() {
        None
    } else if s[i] == c {
        Some(i)
    } else {
        find_char(s, c, i + 1)
    }
}

proof fn lemma_find_char_bounds(s: Seq<char>, c: char, i: int)
    requires
        0 <= i,
    ensures
        find_char(s, c, i) is Some ==> i <= find_char(s, c, i)->0 < s.len() && s[find_char(
            s,
            c,
            i,
        )->0] == c,
    decreases s.len() - i,
{
    if i < s.len() && s[i] != c {
        lemma_find_char_bounds(s, c, i + 1);
    }
}

fn find_equals(s: &str) -> (r: Option<usize>)
    ensures
        match find_char(s@, '=', 0) {
            None => r is None,
            Some(p) => r == Some(p as usize),
        },
{
    let n = s.unicode_len();
    let mut i: usize = 0;
    while i < n
        invariant
            n == s@.len(),
            i <= n,
            find_char(s@, '=', 0) == find_char(s@, '=', i as int),
        decreases n - i,
    {
        if s.get_char(i) == '=' {
            return Some(i);
        }
        i = i + 1;
    }
    None
}

/// The lines of `s` that end in a line feed, from the first `n` characters, and
/// where the line after them starts.
pub open spec fn split_state(s: Seq<char>, n: int) -> (Seq<Seq<char>>, int)
    decreases n,
{
    if n <= 0 {
        (seq![], 0)
    } else {
        let (done, start) = split_state(s, n - 1);
        if s[n - 1] == '\n' {
            (done.push(s.subrange(start, n - 1)), n)
        } else {
            (done, start)
        }
    }
}

/// The lines of `s`: split at line feeds, without an empty line after a final
/// line feed.
pub open spec fn conf_lines(s: Seq<char>) -> Seq<Seq<char>> {
    let (done, start) = split_state(s, s.len() as int);
    if start < s.len() {
        done.push(s.subrange(start, s.len() as int))
    } else {
        done
    }
}

proof fn lemma_split_start(s: Seq<char>, n: int)
    requires
        0 <= n <= s.len(),
    ensures
        0 <= split_state(s, n).1 <= n,
    decreases n,
{
    if n > 0 {
        lemma_split_start(s, n - 1);
    }
}

/// What parsing has gathered so far: global pairs, pairs of the wanted
/// section, and the section being read.
pub ghost struct ConfState {
    pub global: Seq<(Seq<char>, Seq<char>)>,
    pub section: Seq<(Seq<char>, Seq<char>)>,
    pub current: Option<Seq<char>>,
}

/// The effect of one line on the parse.
pub open spec fn apply_line(st: ConfState, line: Seq<char>, target: Seq<char>) -> ConfState {
    let l = trim(line);
    if l.len() == 0 || l[0] == '#' {
        st
    } else if l[0] == '[' && l.last() == ']' {
        ConfState { current: Some(l.subrange(1, l.len() - 1)), ..st }
    } else {
        match find_char(l, '=', 0) {
            None => st,
            Some(p) => {
                let entry = (trim(l.subrange(0, p)), trim(l.subrange(p + 1, l.len() as int)));
                match st.current {
                    None => ConfState { global: st.global.push(entry), ..st },
                    Some(sec) => if sec == target {
                        ConfState { section: st.section.push(entry), ..st }
                    } else {
                        st
                    },
                }
            },
        }
    }
}

/// The parse of `lines`, one after another.
pub open spec fn conf_fold(lines: Seq<Seq<char>>, target: Seq<char>) -> ConfState
    decreases lines.len(),
{
    if lines.len() == 0 {
        ConfState { global: seq![], section: seq![], current: None }
    } else {
        apply_line(conf_fold(lines.drop_last(), target), lines.last(), target)
    }
}

/// The configuration section of a network.
pub open spec fn section_for(network: Seq<char>) -> Seq<char> {
    if network == "bitcoin"@ {
        "main"@
    } else if network == "testnet"@ {
        "test"@
    } else if network == "regtest"@ {
        "regtest"@
    } else if network == "signet"@ || network == "mutinynet"@ {
        "signet"@
    } else {
        "main"@
    }
}

fn section_name(network: &str) -> (r: String)
    ensures
        r@ == section_for(network@),
{
    if same_text(network, "bitcoin") {
        "main".to_owned()
    } else if same_text(network, "testnet") {
        "test".to_owned()
    } else if same_text(network, "regtest") {
        "regtest".to_owned()
    } else if same_text(network, "signet") || same_text(network, "mutinynet") {
        "signet".to_owned()
    } else {
        "main".to_owned()
    }
}

/// The value of `key` in `entries`: the last one given for it.
pub open spec fn lookup(entries: Seq<(Seq<char>, Seq<char>)>, key: Seq<char>) -> Option<Seq<char>>
    decreases entries.len(),
{
    if entries.len() == 0 {
        None
    } else if entries.last().0 == key {
        Some(entries.last().1)
    } else {
        lookup(entries.drop_last(), key)
    }
}

pub open spec fn pairs_view(v: Seq<(String, String)>) -> Seq<(Seq<char>, Seq<char>)> {
    v.map_values(|p: (String, String)| (p.0@, p.1@))
}

/// Key-value pairs read from a configuration file; a later pair for a key
/// overrides an earlier one.
#[derive(Debug)]
pub struct ConfMap {
    pub entries: Vec<(String, String)>,
}

impl ConfMap {
    pub open spec fn view(&self) -> Seq<(Seq<char>, Seq<char>)> {
        pairs_view(self.entries@)
    }

    /// The value of `key`.
    pub fn get(&self, key: &str) -> (r: Option<&String>)
        ensures
            match lookup(self.view(), key@) {
                None => r is None,
                Some(v) => r is Some && r->0@ == v,
            },
    {
        let mut i: usize = self.entries.len();
        proof {
            assert(self.view().subrange(0, i as int) =~= self.view());
        }
        while i > 0
            invariant
                i <= self.entries.len(),
                lookup(self.view(), key@) == lookup(self.view().subrange(0, i as int), key@),
            decreases i,
        {
            let k = &self.entries[i - 1].0;
            proof {
                assert(self.view().subrange(0, i as int).drop_last() =~= self.view().subrange(
                    0,
                    i - 1,
                ));
            }
            if same_text(k.as_str(), key) {
                return Some(&self.entries[i - 1].1);
            }
            i = i - 1;
        }
        None
    }
}

/// The pairs that a configuration file gives for a network.
pub open spec fn parsed_conf(content: Seq<char>, network: Seq<char>) -> Seq<(Seq<char>, Seq<char>)> {
    let st = conf_fold(conf_lines(content), section_for(network));
    st.global + st.section
}

struct ConfParse {
    global: Vec<(String, String)>,
    section: Vec<(String, String)>,
    current: Option<String>,
}

impl ConfParse {
    spec fn view(&self) -> ConfState {
        ConfState {
            global: pairs_view(self.global@),
            section: pairs_view(self.section@),
            current: match self.current {
                Some(c) => Some(c@),
                None => None,
            },
        }
    }

    fn take_line(&mut self, line: &str, target: &String)
        ensures
            final(self).view() == apply_line(old(self).view(), line@, target@),
    {
        let t = trim_str(line);
        let n = t.unicode_len();
        if n == 0 || t.get_char(0) == '#' {
            return;
        }
        if t.get_char(0) == '[' && t.get_char(n - 1) == ']' {
            self.current = Some(t.substring_char(1, n - 1).to_owned());
            return;
        }
        proof {
            lemma_find_char_bounds(t@, '=', 0);
        }
        match find_equals(t) {
            None => {},
            Some(p) => {
                let key = trim_str(t.substring_char(0, p)).to_owned();
                let value = trim_str(t.substring_char(p + 1, n)).to_owned();
                let ghost entry = (key@, value@);
                let in_global = self.current.is_none();
                if in_global {
                    proof {
                        assert(pairs_view(self.global@.push((key, value))) =~= pairs_view(
                            self.global@,
                        ).push(entry));
                    }
                    self.global.push((key, value));
                } else {
                    let same = match &self.current {
                        Some(c) => *c == *target,
                        None => false,
                    };
                    if same {
                        proof {
                            assert(pairs_view(self.section@.push((key, value))) =~= pairs_view(
                                self.section@,
                            ).push(entry));
                        }
                        self.section.push((key, value));
                    }
                }
            },
        }
    }
}

/// Parses configuration-file text for `network`: global pairs, then the pairs of
/// the network's section (`main`, `test`, `regtest` or `signet`), which
/// override them key by key. Comment lines, blank lines, lines without `=` and
/// other sections are skipped; keys and values are trimmed.
pub fn parse_bitcoin_conf(content: &str, network: &str) -> (r: ConfMap)
    ensures
        r.view() == parsed_conf(content@, network@),
{
    let target = section_name(network);
    let mut st = ConfParse { global: Vec::new(), section: Vec::new(), current: None };
    let n = content.unicode_len();
    let mut start: usize = 0;
    let mut i: usize = 0;
    let ghost mut done: Seq<Seq<char>> = seq![];
    proof {
        assert(st.view().global =~= seq![]);
        assert(st.view().section =~= seq![]);
    }
    while i < n
        invariant
            n == content@.len(),
            i <= n,
            split_state(content@, i as int) == (done, start as int),
            0 <= start <= i,
            st.view() == conf_fold(done, target@),
        decreases n - i,
    {
        if content.get_char(i) == '\n' {
            let line = content.substring_char(start, i);
            proof {
                assert(done.push(line@).drop_last() =~= done);
            }
            st.take_line(line, &target);
            proof {
                done = done.push(line@);
            }
            start = i + 1;
        }
        i = i + 1;
    }
    if start < n {
        let line = content.substring_char(start, n);
        proof {
            assert(done.push(line@).drop_last() =~= done);
        }
        st.take_line(line, &target);
    }
    let ConfParse { mut global, mut section, current: _ } = st;
    let ghost g = global@;
    let ghost s = section@;
    global.append(&mut section);
    proof {
        assert(pairs_view(g + s) =~= pairs_view(g) + pairs_view(s));
    }
    ConfMap { entries: global }
}

} // verus!
