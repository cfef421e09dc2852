//! The event filter query language of the web UI.
//!
//! A query is a whitespace-separated list of tokens:
//! - `user:<name>` — match UID (resolved externally)
//! - `comm:<pattern>` — match comm column (LIKE with glob-to-SQL conversion)
//! - `exit:<code>` — match `exit_code` exactly
//! - `session:<id>` — match `session_id` prefix
//! - `pid:<pid>`, `ppid:<ppid>`, `gid:<gid>`, `euid:<euid>`, `tty:<tty>` —
//!   match exactly
//! - `file:<pattern>` — match filename (LIKE with glob-to-SQL conversion)
//! - `cmd:<pattern>` — match the basename of filename
//! - `!keyword:value` — negate any keyword filter
//! - bare words — substring match on comm + filename + argv

use vstd::prelude::*;

use crate::text::{
    chars_of, copy_range, find_char, first_index, join, join_strings, lemma_first_index,
    parse_i32, parse_i32_str, parse_u32, parse_u32_str, push_chars, push_str, range_is,
    is_ws, lemma_single_word, lemma_trim_blank, split_ws, string_from_range, trim, trim_bounds, views, word_bounds,
};

verus! {

/// Wrapper for filter values that supports negation (`!` prefix).
#[derive(Debug, Clone, PartialEq, Eq)]
pub struct FilterValue<T> {
    /// The parsed value.
    pub value: T,
    /// Whether this filter is negated (`!` prefix).
    pub negated: bool,
}

impl<T> FilterValue<T> {
    /// Create a non-negated filter value.
    pub fn new(value: T) -> (r: Self)
        ensures
            r.value == value,
            !r.negated,
    {
        FilterValue { value, negated: false }
    }

    /// Create a negated filter value.
    pub fn negated(value: T) -> (r: Self)
        ensures
            r.value == value,
            r.negated,
    {
        FilterValue { value, negated: true }
    }
}

/// Parsed filter from the `?q=...` query string.
#[derive(Debug, Clone, PartialEq, Eq)]
pub struct EventFilter {
    /// Raw query string (for display).
    pub raw: Option<String>,
    /// Warnings from parsing (unknown keywords, invalid values).
    pub warnings: Vec<String>,
    /// Parsed `user:<name>` token.
    pub user: Option<FilterValue<String>>,
    /// Parsed `comm:<pattern>` token.
    pub comm: Option<FilterValue<String>>,
    /// Parsed `exit:<code>` token.
    pub exit_code: Option<FilterValue<i32>>,
    /// Parsed `session:<id>` token.
    pub session_id: Option<FilterValue<String>>,
    /// Parsed `pid:<pid>` token.
    pub pid: Option<FilterValue<u32>>,
    /// Parsed `ppid:<ppid>` token.
    pub ppid: Option<FilterValue<u32>>,
    /// Parsed `gid:<gid>` token.
    pub gid: Option<FilterValue<u32>>,
    /// Parsed `euid:<euid>` token.
    pub euid: Option<FilterValue<u32>>,
    /// Parsed `tty:<tty>` token.
    pub tty: Option<FilterValue<u32>>,
    /// Parsed `file:<pattern>` token.
    pub file: Option<FilterValue<String>>,
    /// Parsed `cmd:<pattern>` token (matches filename basename).
    pub cmd: Option<FilterValue<String>>,
    /// Remaining bare words joined by space.
    pub text: Option<String>,
}

/// The mathematical content of an [`EventFilter`].
pub struct FilterModel {
    pub raw: Option<Seq<char>>,
    pub warnings: Seq<Seq<char>>,
    pub user: Option<(Seq<char>, bool)>,
    pub comm: Option<(Seq<char>, bool)>,
    pub exit_code: Option<(i32, bool)>,
    pub session_id: Option<(Seq<char>, bool)>,
    pub pid: Option<(u32, bool)>,
    pub ppid: Option<(u32, bool)>,
    pub gid: Option<(u32, bool)>,
    pub euid: Option<(u32, bool)>,
    pub tty: Option<(u32, bool)>,
    pub file: Option<(Seq<char>, bool)>,
    pub cmd: Option<(Seq<char>, bool)>,
    pub text: Option<Seq<char>>,
}

/// The content of an optional text filter value.
pub open spec fn text_value(o: Option<FilterValue<String>>) -> Option<(Seq<char>, bool)> {
    match o {
        Some(fv) => Some((fv.value@, fv.negated)),
        None => None,
    }
}

/// The content of an optional numeric filter value.
pub open spec fn num_value<T>(o: Option<FilterValue<T>>) -> Option<(T, bool)> {
    match o {
        Some(fv) => Some((fv.value, fv.negated)),
        None => None,
    }
}

/// The content of an optional string.
pub open spec fn opt_text(o: Option<String>) -> Option<Seq<char>> {
    match o {
        Some(s) => Some(s@),
        None => None,
    }
}

impl View for EventFilter {
    type V = FilterModel;

    open spec fn view(&self) -> FilterModel {
        FilterModel {
            raw: opt_text(self.raw),
            warnings: views(self.warnings@),
            user: text_value(self.user),
            comm: text_value(self.comm),
            exit_code: num_value(self.exit_code),
            session_id: text_value(self.session_id),
            pid: num_value(self.pid),
            ppid: num_value(self.ppid),
            gid: num_value(self.gid),
            euid: num_value(self.euid),
            tty: num_value(self.tty),
            file: text_value(self.file),
            cmd: text_value(self.cmd),
            text: opt_text(self.text),
        }
    }
}

/// The model of a filter with no criteria and no warnings.
pub open spec fn empty_model() -> FilterModel {
    FilterModel {
        raw: None,
        warnings: Seq::empty(),
        user: None,
        comm: None,
        exit_code: None,
        session_id: None,
        pid: None,
        ppid: None,
        gid: None,
        euid: None,
        tty: None,
        file: None,
        cmd: None,
        text: None,
    }
}

/// Whether a filter model sets no criterion (warnings and `raw` aside).
pub open spec fn model_is_empty(m: FilterModel) -> bool {
    &&& m.user is None
    &&& m.comm is None
    &&& m.exit_code is None
    &&& m.session_id is None
    &&& m.pid is None
    &&& m.ppid is None
    &&& m.gid is None
    &&& m.euid is None
    &&& m.tty is None
    &&& m.file is None
    &&& m.cmd is None
    &&& m.text is None
}

impl Default for EventFilter {
    fn default() -> (r: Self)
        ensures
            r@ == empty_model(),
    {
        let r = EventFilter {
            raw: None,
            warnings: Vec::new(),
            user: None,
            comm: None,
            exit_code: None,
            session_id: None,
            pid: None,
            ppid: None,
            gid: None,
            euid: None,
            tty: None,
            file: None,
            cmd: None,
            text: None,
        };
        assert(r@.warnings =~= Seq::<Seq<char>>::empty());
        r
    }
}

// ---------------------------------------------------------------------------
// "Did you mean?" suggestions
// ---------------------------------------------------------------------------

/// The smallest of three numbers.
pub open spec fn min3(x: nat, y: nat, z: nat) -> nat {
    if x <= y && x <= z {
        x
    } else if y <= z {
        y
    } else {
        z
    }
}

/// The Levenshtein edit distance between two strings.
pub open spec fn lev(a: Seq<char>, b: Seq<char>) -> nat
    decreases a.len() + b.len(),
{
    if a.len() == 0 {
        b.len()
    } else if b.len() == 0 {
        a.len()
    } else {
        min3(
            lev(a.drop_last(), b) + 1,
            lev(a, b.drop_last()) + 1,
            lev(a.drop_last(), b.drop_last()) + (if a.last() == b.last() {
                0nat
            } else {
                1nat
            }),
        )
    }
}

proof fn lemma_lev_bound(a: Seq<char>, b: Seq<char>)
    ensures
        lev(a, b) <= (if a.len() >= b.len() {
            a.len()
        } else {
            b.len()
        }),
    decreases a.len() + b.len(),
{
    if a.len() > 0 && b.len() > 0 {
        lemma_lev_bound(a.drop_last(), b.drop_last());
    }
}

/// Compute the Levenshtein edit distance between two strings.
fn levenshtein(a: &[char], b: &[char]) -> (r: usize)
    requires
        a@.len() < usize::MAX,
        b@.len() < usize::MAX,
    ensures
        r == lev(a@, b@),
{
    let m = a.len();
    let n = b.len();
    let mut prev: Vec<usize> = Vec::new();
    let mut j: usize = 0;
    while j <= n
        invariant
            j <= n + 1,
            n == b@.len(),
            n < usize::MAX,
            prev@.len() == j,
            forall|k: int| 0 <= k < j ==> #[trigger] prev@[k] == lev(a@.take(0), b@.take(k)),
        decreases n + 1 - j,
    {
        proof {
            assert(b@.take(j as int).len() == j);
        }
        prev.push(j);
        j = j + 1;
    }
    let mut i: usize = 1;
    while i <= m
        invariant
            1 <= i <= m + 1,
            m == a@.len(),
            n == b@.len(),
            m < usize::MAX,
            n < usize::MAX,
            prev@.len() == n + 1,
            forall|k: int| 0 <= k <= n ==> #[trigger] prev@[k] == lev(a@.take(i - 1), b@.take(k)),
        decreases m + 1 - i,
    {
        let mut curr: Vec<usize> = Vec::new();
        proof {
            assert(a@.take(i as int).len() == i);
        }
        curr.push(i);
        let mut j: usize = 1;
        while j <= n
            invariant
                1 <= i <= m,
                1 <= j <= n + 1,
                m == a@.len(),
                n == b@.len(),
                m < usize::MAX,
                n < usize::MAX,
                prev@.len() == n + 1,
                curr@.len() == j,
                forall|k: int|
                    0 <= k <= n ==> #[trigger] prev@[k] == lev(a@.take(i - 1), b@.take(k)),
                forall|k: int| 0 <= k < j ==> #[trigger] curr@[k] == lev(a@.take(i as int), b@.take(k)),
            decreases n + 1 - j,
        {
            let ghost ai = a@.take(i as int);
            let ghost bj = b@.take(j as int);
            proof {
                lemma_lev_bound(a@.take(i - 1), b@.take(j as int));
                lemma_lev_bound(ai, b@.take(j - 1));
                lemma_lev_bound(a@.take(i - 1), b@.take(j - 1));
                assert(ai.drop_last() =~= a@.take(i - 1));
                assert(bj.drop_last() =~= b@.take(j - 1));
                assert(ai.last() == a@[i - 1]);
                assert(bj.last() == b@[j - 1]);
            }
            let cost: usize = if a[i - 1] != b[j - 1] {
                1
            } else {
                0
            };
            let x = prev[j] + 1;
            let y = curr[j - 1] + 1;
            let z = prev[j - 1] + cost;
            let best = if x <= y && x <= z {
                x
            } else if y <= z {
                y
            } else {
                z
            };
            curr.push(best);
            j = j + 1;
        }
        prev = curr;
        i = i + 1;
    }
    proof {
        assert(a@.take(m as int) =~= a@);
        assert(b@.take(n as int) =~= b@);
    }
    prev[n]
}

/// The length of the longest common prefix of two strings.
pub open spec fn common_prefix_len(a: Seq<char>, b: Seq<char>) -> nat
    decreases a.len(),
{
    if a.len() == 0 || b.len() == 0 || a[0] != b[0] {
        0
    } else {
        1 + common_prefix_len(a.drop_first(), b.drop_first())
    }
}

fn prefix_len(a: &[char], b: &[char]) -> (r: usize)
    ensures
        r == common_prefix_len(a@, b@),
{
    let mut k: usize = 0;
    assert(a@.skip(0) =~= a@);
    assert(b@.skip(0) =~= b@);
    while k < a.len() && k < b.len() && a[k] == b[k]
        invariant
            k <= a@.len(),
            k <= b@.len(),
            common_prefix_len(a@, b@) == k + common_prefix_len(a@.skip(k as int), b@.skip(
                k as int,
            )),
        decreases a.len() - k,
    {
        proof {
            assert(a@.skip(k as int).drop_first() =~= a@.skip(k + 1));
            assert(b@.skip(k as int).drop_first() =~= b@.skip(k + 1));
        }
        k = k + 1;
    }
    proof {
        let sa = a@.skip(k as int);
        let sb = b@.skip(k as int);
        if k < a@.len() && k < b@.len() {
            assert(sa[0] == a@[k as int]);
            assert(sb[0] == b@[k as int]);
        }
    }
    k
}

/// The number of keywords the query language knows.
pub const KNOWN_KEYWORD_COUNT: usize = 11;

/// Known filter keyword `i`, in the order suggestions are searched.
pub open spec fn known_kw(i: int) -> Seq<char> {
    if i == 0 {
        "ppid"@
    } else if i == 1 {
        "pid"@
    } else if i == 2 {
        "user"@
    } else if i == 3 {
        "comm"@
    } else if i == 4 {
        "exit"@
    } else if i == 5 {
        "session"@
    } else if i == 6 {
        "gid"@
    } else if i == 7 {
        "euid"@
    } else if i == 8 {
        "tty"@
    } else if i == 9 {
        "file"@
    } else {
        "cmd"@
    }
}

fn known_keyword(i: usize) -> (r: &'static str)
    requires
        i < KNOWN_KEYWORD_COUNT,
    ensures
        r@ == known_kw(i as int),
{
    if i == 0 {
        "ppid"
    } else if i == 1 {
        "pid"
    } else if i == 2 {
        "user"
    } else if i == 3 {
        "comm"
    } else if i == 4 {
        "exit"
    } else if i == 5 {
        "session"
    } else if i == 6 {
        "gid"
    } else if i == 7 {
        "euid"
    } else if i == 8 {
        "tty"
    } else if i == 9 {
        "file"
    } else {
        "cmd"
    }
}

/// Whether keyword `i` is within edit distance 1..=2 of `unknown`.
pub open spec fn is_candidate(unknown: Seq<char>, i: int) -> bool {
    0 <= i < KNOWN_KEYWORD_COUNT && 0 < lev(unknown, known_kw(i)) <= 2
}

/// Whether candidate `i` ranks strictly before candidate `j`: smaller
/// distance, or equal distance and a longer common prefix.
pub open spec fn ranks_before(unknown: Seq<char>, i: int, j: int) -> bool {
    let di = lev(unknown, known_kw(i));
    let dj = lev(unknown, known_kw(j));
    di < dj || (di == dj && common_prefix_len(unknown, known_kw(i)) > common_prefix_len(
        unknown,
        known_kw(j),
    ))
}

/// Whether keyword `i` is the suggestion for `unknown`: a candidate that no
/// candidate ranks before, and the first such in keyword order.
pub open spec fn is_suggestion(unknown: Seq<char>, i: int) -> bool {
    &&& is_candidate(unknown, i)
    &&& forall|j: int| is_candidate(unknown, j) ==> !ranks_before(unknown, j, i)
    &&& forall|j: int| 0 <= j < i && is_candidate(unknown, j) ==> ranks_before(unknown, i, j)
}

/// Find the closest known keyword within edit distance 2, if any.
/// On ties, prefer the keyword sharing the longest common prefix, then the
/// earliest keyword.
fn suggest_keyword(unknown: &[char]) -> (r: Option<&'static str>)
    requires
        unknown@.len() < usize::MAX,
    ensures
        r matches Some(s) ==> exists|i: int| is_suggestion(unknown@, i) && s@ == known_kw(i),
        r is None ==> forall|i: int| !is_candidate(unknown@, i),
{
    let mut best: Option<(usize, usize, usize)> = None;
    let mut i: usize = 0;
    while i < KNOWN_KEYWORD_COUNT
        invariant
            i <= KNOWN_KEYWORD_COUNT,
            unknown@.len() < usize::MAX,
            best is None ==> forall|j: int| 0 <= j < i ==> !is_candidate(unknown@, j),
            best matches Some(b) ==> {
                &&& b.0 < i
                &&& is_candidate(unknown@, b.0 as int)
                &&& b.1 == lev(unknown@, known_kw(b.0 as int))
                &&& b.2 == common_prefix_len(unknown@, known_kw(b.0 as int))
                &&& forall|j: int|
                    0 <= j < i && is_candidate(unknown@, j) ==> !ranks_before(
                        unknown@,
                        j,
                        b.0 as int,
                    )
                &&& forall|j: int|
                    0 <= j < b.0 && is_candidate(unknown@, j) ==> ranks_before(
                        unknown@,
                        b.0 as int,
                        j,
                    )
            },
        decreases KNOWN_KEYWORD_COUNT - i,
    {
        let kw = chars_of(known_keyword(i));
        proof {
            reveal_strlit("ppid");
            reveal_strlit("pid");
            reveal_strlit("user");
            reveal_strlit("comm");
            reveal_strlit("exit");
            reveal_strlit("session");
            reveal_strlit("gid");
            reveal_strlit("euid");
            reveal_strlit("tty");
            reveal_strlit("file");
            reveal_strlit("cmd");
            assert(kw@.len() <= 7);
        }
        let d = levenshtein(unknown, &kw);
        if d > 0 && d <= 2 {
            let p = prefix_len(unknown, &kw);
            match best {
                None => {
                    best = Some((i, d, p));
                },
                Some((bi, bd, bp)) => {
                    if d < bd || (d == bd && p > bp) {
                        best = Some((i, d, p));
                    }
                },
            }
        }
        i = i + 1;
    }
    match best {
        Some((bi, _, _)) => {
            let s = known_keyword(bi);
            Some(s)
        },
        None => None,
    }
}

// ---------------------------------------------------------------------------
// Parsing
// ---------------------------------------------------------------------------

/// The warning for a numeric keyword whose value does not parse.
pub open spec fn number_warning(key: Seq<char>, value: Seq<char>) -> Seq<char> {
    "\""@ + key + "\" expects a number, got \""@ + value + "\""@
}

/// The warning for an unknown keyword, with the suggestion if there is one.
pub open spec fn unknown_warning(key: Seq<char>) -> Seq<char> {
    let base = "Unknown filter keyword \""@ + key + "\""@;
    if exists|i: int| is_suggestion(key, i) {
        base + " Did you mean \""@ + known_kw(choose|i: int| is_suggestion(key, i)) + "\"?"@
    } else {
        base
    }
}

/// The state of a parse after some tokens: the filter so far and the bare
/// words collected.
pub struct ParseState {
    pub f: FilterModel,
    pub bare: Seq<Seq<char>>,
}

/// A filter value for `value`, negated or not.
pub open spec fn fv<T>(value: T, negated: bool) -> Option<(T, bool)> {
    Some((value, negated))
}

/// The effect of a `key:value` token (`tok` is the whole token, kept as a
/// bare word for unknown keys).
pub open spec fn apply_key(
    st: ParseState,
    tok: Seq<char>,
    key: Seq<char>,
    value: Seq<char>,
    negated: bool,
) -> ParseState {
    let f = st.f;
    if key == "user"@ {
        ParseState { f: FilterModel { user: fv(value, negated), ..f }, ..st }
    } else if key == "comm"@ {
        ParseState { f: FilterModel { comm: fv(value, negated), ..f }, ..st }
    } else if key == "exit"@ {
        match parse_i32(value) {
            Some(c) => ParseState { f: FilterModel { exit_code: fv(c, negated), ..f }, ..st },
            None => ParseState {
                f: FilterModel { warnings: f.warnings.push(number_warning(key, value)), ..f },
                ..st
            },
        }
    } else if key == "session"@ {
        ParseState { f: FilterModel { session_id: fv(value, negated), ..f }, ..st }
    } else if key == "pid"@ {
        match parse_u32(value) {
            Some(x) => ParseState { f: FilterModel { pid: fv(x, negated), ..f }, ..st },
            None => ParseState {
                f: FilterModel { warnings: f.warnings.push(number_warning(key, value)), ..f },
                ..st
            },
        }
    } else if key == "ppid"@ {
        match parse_u32(value) {
            Some(x) => ParseState { f: FilterModel { ppid: fv(x, negated), ..f }, ..st },
            None => ParseState {
                f: FilterModel { warnings: f.warnings.push(number_warning(key, value)), ..f },
                ..st
            },
        }
    } else if key == "gid"@ {
        match parse_u32(value) {
            Some(x) => ParseState { f: FilterModel { gid: fv(x, negated), ..f }, ..st },
            None => ParseState {
                f: FilterModel { warnings: f.warnings.push(number_warning(key, value)), ..f },
                ..st
            },
        }
    } else if key == "euid"@ {
        match parse_u32(value) {
            Some(x) => ParseState { f: FilterModel { euid: fv(x, negated), ..f }, ..st },
            None => ParseState {
                f: FilterModel { warnings: f.warnings.push(number_warning(key, value)), ..f },
                ..st
            },
        }
    } else if key == "tty"@ {
        match parse_u32(value) {
            Some(x) => ParseState { f: FilterModel { tty: fv(x, negated), ..f }, ..st },
            None => ParseState {
                f: FilterModel { warnings: f.warnings.push(number_warning(key, value)), ..f },
                ..st
            },
        }
    } else if key == "file"@ {
        ParseState { f: FilterModel { file: fv(value, negated), ..f }, ..st }
    } else if key == "cmd"@ {
        ParseState { f: FilterModel { cmd: fv(value, negated), ..f }, ..st }
    } else {
        ParseState {
            f: FilterModel { warnings: f.warnings.push(unknown_warning(key)), ..f },
            bare: st.bare.push(tok),
        }
    }
}

/// The effect of `rest` (the token `tok` without its `!`, if negated):
/// split at the first `:` into keyword and value, or a bare word.
pub open spec fn apply_rest(st: ParseState, tok: Seq<char>, rest: Seq<char>, negated: bool) -> ParseState {
    match first_index(rest, ':') {
        Some(i) => apply_key(st, tok, rest.take(i), rest.skip(i + 1), negated),
        None => ParseState { bare: st.bare.push(tok), ..st },
    }
}

/// The effect of one token on the parse.
pub open spec fn step(st: ParseState, tok: Seq<char>) -> ParseState {
    if tok.len() > 0 && tok[0] == '!' {
        let stripped = tok.drop_first();
        if stripped.len() == 0 || stripped[0] == '!' || !stripped.contains(':') {
            ParseState { bare: st.bare.push(tok), ..st }
        } else {
            apply_rest(st, tok, stripped, true)
        }
    } else {
        apply_rest(st, tok, tok, false)
    }
}

/// The effect of a sequence of tokens, left to right.
pub open spec fn steps(st: ParseState, toks: Seq<Seq<char>>) -> ParseState
    decreases toks.len(),
{
    if toks.len() == 0 {
        st
    } else {
        step(steps(st, toks.drop_last()), toks.last())
    }
}

/// The filter a query denotes.
pub open spec fn parse_model(query: Seq<char>) -> FilterModel {
    let q = trim(query);
    if q.len() == 0 {
        empty_model()
    } else {
        let st = steps(ParseState { f: empty_model(), bare: Seq::empty() }, split_ws(q));
        FilterModel {
            raw: Some(q),
            text: if st.bare.len() > 0 {
                Some(join(st.bare, " "@))
            } else {
                None
            },
            ..st.f
        }
    }
}

/// Whether the exec state (`f`, `bare`) matches the model state `st`.
pub open spec fn state_is(f: EventFilter, bare: Seq<String>, st: ParseState) -> bool {
    &&& f@.warnings == st.f.warnings
    &&& f@.user == st.f.user
    &&& f@.comm == st.f.comm
    &&& f@.exit_code == st.f.exit_code
    &&& f@.session_id == st.f.session_id
    &&& f@.pid == st.f.pid
    &&& f@.ppid == st.f.ppid
    &&& f@.gid == st.f.gid
    &&& f@.euid == st.f.euid
    &&& f@.tty == st.f.tty
    &&& f@.file == st.f.file
    &&& f@.cmd == st.f.cmd
    &&& views(bare) == st.bare
}

/// Whether a filter state carries no raw query and no text yet.
pub open spec fn no_raw_text(m: FilterModel) -> bool {
    m.raw is None && m.text is None
}

/// A filter value built from characters `v[from..to]`.
fn text_fv(v: &[char], from: usize, to: usize, negated: bool) -> (r: FilterValue<String>)
    requires
        from <= to <= v@.len(),
    ensures
        r.value@ == v@.subrange(from as int, to as int),
        r.negated == negated,
{
    FilterValue { value: string_from_range(v, from, to), negated }
}

/// The warning for a numeric keyword whose value does not parse.
fn make_number_warning(v: &[char], ks: usize, ke: usize, vs: usize, ve: usize) -> (w: String)
    requires
        ks <= ke <= v@.len(),
        vs <= ve <= v@.len(),
    ensures
        w@ == number_warning(v@.subrange(ks as int, ke as int), v@.subrange(vs as int, ve as int)),
{
    let mut w = String::new();
    push_str(&mut w, "\"");
    push_chars(&mut w, v, ks, ke);
    push_str(&mut w, "\" expects a number, got \"");
    push_chars(&mut w, v, vs, ve);
    push_str(&mut w, "\"");
    assert(w@ =~= number_warning(v@.subrange(ks as int, ke as int), v@.subrange(vs as int, ve as int)));
    w
}

proof fn lemma_suggestion_unique(u: Seq<char>, i: int, j: int)
    requires
        is_suggestion(u, i),
        is_suggestion(u, j),
    ensures
        i == j,
{
    if i < j {
        assert(ranks_before(u, j, i));
    } else if j < i {
        assert(ranks_before(u, i, j));
    }
}

/// The warning for an unknown keyword `v[ks..ke]`.
fn make_unknown_warning(v: &[char], ks: usize, ke: usize) -> (w: String)
    requires
        ks <= ke <= v@.len(),
        ke - ks < usize::MAX,
    ensures
        w@ == unknown_warning(v@.subrange(ks as int, ke as int)),
{
    let ghost key = v@.subrange(ks as int, ke as int);
    let mut w = String::new();
    push_str(&mut w, "Unknown filter keyword \"");
    push_chars(&mut w, v, ks, ke);
    push_str(&mut w, "\"");
    let kv = copy_range(v, ks, ke);
    match suggest_keyword(&kv) {
        Some(s) => {
            push_str(&mut w, " Did you mean \"");
            push_str(&mut w, s);
            push_str(&mut w, "\"?");
            proof {
                let i = choose|i: int| is_suggestion(key, i) && s@ == known_kw(i);
                let c = choose|i: int| is_suggestion(key, i);
                lemma_suggestion_unique(key, i, c);
            }
        },
        None => {
            proof {
                assert(!exists|i: int| is_suggestion(key, i));
            }
        },
    }
    assert(w@ =~= unknown_warning(key));
    w
}

impl EventFilter {
    /// Applies the `key:value` token `v[ts..te]`, whose keyword is
    /// `v[ks..ke]` and value `v[vs..ve]`.
    fn apply_key(
        &mut self,
        bare: &mut Vec<String>,
        v: &[char],
        ts: usize,
        te: usize,
        ks: usize,
        ke: usize,
        vs: usize,
        ve: usize,
        negated: bool,
        Ghost(st): Ghost<ParseState>,
    )
        requires
            ts <= te <= v@.len(),
            ks <= ke <= v@.len(),
            vs <= ve <= v@.len(),
            ke - ks < usize::MAX,
            state_is(*old(self), old(bare)@, st),
            no_raw_text(old(self)@),
        ensures
            state_is(
                *final(self),
                final(bare)@,
                apply_key(
                    st,
                    v@.subrange(ts as int, te as int),
                    v@.subrange(ks as int, ke as int),
                    v@.subrange(vs as int, ve as int),
                    negated,
                ),
            ),
            no_raw_text(final(self)@),
    {
        let ghost key = v@.subrange(ks as int, ke as int);
        let ghost value = v@.subrange(vs as int, ve as int);
        let ghost tok = v@.subrange(ts as int, te as int);
        let ghost post = apply_key(st, tok, key, value, negated);
        let ghost w0 = self.warnings@;
        let value_chars = copy_range(v, vs, ve);
        if range_is(v, ks, ke, "user") {
            self.user = Some(text_fv(v, vs, ve, negated));
        } else if range_is(v, ks, ke, "comm") {
            self.comm = Some(text_fv(v, vs, ve, negated));
        } else if range_is(v, ks, ke, "exit") {
            match parse_i32_str(&value_chars) {
                Some(c) => {
                    self.exit_code = Some(FilterValue { value: c, negated });
                },
                None => {
                    let w = make_number_warning(v, ks, ke, vs, ve);
                    self.warnings.push(w);
                    assert(views(self.warnings@) =~= views(w0).push(w@));
                },
            }
        } else if range_is(v, ks, ke, "session") {
            self.session_id = Some(text_fv(v, vs, ve, negated));
        } else if range_is(v, ks, ke, "pid") {
            match parse_u32_str(&value_chars) {
                Some(x) => {
                    self.pid = Some(FilterValue { value: x, negated });
                },
                None => {
                    let w = make_number_warning(v, ks, ke, vs, ve);
                    self.warnings.push(w);
                    assert(views(self.warnings@) =~= views(w0).push(w@));
                },
            }
        } else if range_is(v, ks, ke, "ppid") {
            match parse_u32_str(&value_chars) {
                Some(x) => {
                    self.ppid = Some(FilterValue { value: x, negated });
                },
                None => {
                    let w = make_number_warning(v, ks, ke, vs, ve);
                    self.warnings.push(w);
                    assert(views(self.warnings@) =~= views(w0).push(w@));
                },
            }
        } else if range_is(v, ks, ke, "gid") {
            match parse_u32_str(&value_chars) {
                Some(x) => {
                    self.gid = Some(FilterValue { value: x, negated });
                },
                None => {
                    let w = make_number_warning(v, ks, ke, vs, ve);
                    self.warnings.push(w);
                    assert(views(self.warnings@) =~= views(w0).push(w@));
                },
            }
        } else if range_is(v, ks, ke, "euid") {
            match parse_u32_str(&value_chars) {
                Some(x) => {
                    self.euid = Some(FilterValue { value: x, negated });
                },
                None => {
                    let w = make_number_warning(v, ks, ke, vs, ve);
                    self.warnings.push(w);
                    assert(views(self.warnings@) =~= views(w0).push(w@));
                },
            }
        } else if range_is(v, ks, ke, "tty") {
            match parse_u32_str(&value_chars) {
                Some(x) => {
                    self.tty = Some(FilterValue { value: x, negated });
                },
                None => {
                    let w = make_number_warning(v, ks, ke, vs, ve);
                    self.warnings.push(w);
                    assert(views(self.warnings@) =~= views(w0).push(w@));
                },
            }
        } else if range_is(v, ks, ke, "file") {
            self.file = Some(text_fv(v, vs, ve, negated));
        } else if range_is(v, ks, ke, "cmd") {
            self.cmd = Some(text_fv(v, vs, ve, negated));
        } else {
            let w = make_unknown_warning(v, ks, ke);
            self.warnings.push(w);
            assert(views(self.warnings@) =~= views(w0).push(w@));
            let ghost b0 = bare@;
            bare.push(string_from_range(v, ts, te));
            assert(views(bare@) =~= views(b0).push(tok));
        }
    }

    /// Applies the token `v[ts..te]`.
    fn apply_token(
        &mut self,
        bare: &mut Vec<String>,
        v: &[char],
        ts: usize,
        te: usize,
        Ghost(st): Ghost<ParseState>,
    )
        requires
            ts <= te <= v@.len(),
            state_is(*old(self), old(bare)@, st),
            no_raw_text(old(self)@),
        ensures
            state_is(*final(self), final(bare)@, step(st, v@.subrange(ts as int, te as int))),
            no_raw_text(final(self)@),
    {
        let ghost tok = v@.subrange(ts as int, te as int);
        let ghost b0 = bare@;
        let negated = te > ts && v[ts] == '!';
        let rs: usize = if negated {
            ts + 1
        } else {
            ts
        };
        let ghost rest = v@.subrange(rs as int, te as int);
        if negated {
            assert(tok.drop_first() =~= rest);
            let colon_anywhere = crate::text::contains_char(&copy_range(v, rs, te), ':');
            if rs == te || v[rs] == '!' || !colon_anywhere {
                bare.push(string_from_range(v, ts, te));
                assert(views(bare@) =~= views(b0).push(tok));
                return ;
            }
        }
        let rv = copy_range(v, rs, te);
        proof {
            lemma_first_index(rest, ':');
        }
        match find_char(&rv, ':') {
            Some(i) => {
                proof {
                    assert(rest.take(i as int) =~= v@.subrange(rs as int, rs + i));
                    assert(rest.skip(i + 1) =~= v@.subrange(rs + i + 1, te as int));
                }
                self.apply_key(bare, v, ts, te, rs, rs + i, rs + i + 1, te, negated, Ghost(st));
            },
            None => {
                bare.push(string_from_range(v, ts, te));
                assert(views(bare@) =~= views(b0).push(tok));
            },
        }
    }

    /// Parse a query string into an `EventFilter`.
    ///
    /// Unrecognized `key:value` pairs are treated as bare text.
    /// A `!` prefix on a keyword negates the filter.
    pub fn parse(query: &str) -> (r: Self)
        ensures
            r@ == parse_model(query@),
    {
        let all = chars_of(query);
        let (a, b) = trim_bounds(&all);
        if a == b {
            return EventFilter::default();
        }
        let q = copy_range(&all, a, b);
        let bounds = word_bounds(&q);
        let mut filter = EventFilter::default();
        let mut bare: Vec<String> = Vec::new();
        let ghost toks = split_ws(q@);
        let ghost init = ParseState { f: empty_model(), bare: Seq::empty() };
        proof {
            assert(views(bare@) =~= Seq::<Seq<char>>::empty());
            assert(toks.take(0) =~= Seq::<Seq<char>>::empty());
        }
        let mut k: usize = 0;
        while k < bounds.len()
            invariant
                k <= bounds@.len(),
                bounds@.len() == toks.len(),
                toks == split_ws(q@),
                forall|j: int|
                    #![trigger bounds@[j]]
                    0 <= j < bounds@.len() ==> {
                        &&& bounds@[j].0 < bounds@[j].1 <= q@.len()
                        &&& q@.subrange(bounds@[j].0 as int, bounds@[j].1 as int) == toks[j]
                    },
                state_is(filter, bare@, steps(init, toks.take(k as int))),
                no_raw_text(filter@),
            decreases bounds.len() - k,
        {
            let (ts, te) = bounds[k];
            proof {
                assert(toks.take(k + 1).drop_last() =~= toks.take(k as int));
                assert(toks.take(k + 1).last() == toks[k as int]);
            }
            filter.apply_token(&mut bare, &q, ts, te, Ghost(steps(init, toks.take(k as int))));
            k = k + 1;
        }
        proof {
            assert(toks.take(toks.len() as int) =~= toks);
        }
        filter.raw = Some(string_from_range(&all, a, b));
        if bare.len() > 0 {
            filter.text = Some(join_strings(&bare, " "));
        }
        filter
    }

    /// Returns `true` if no filter criteria are set.
    pub fn is_empty(&self) -> (r: bool)
        ensures
            r == model_is_empty(self@),
    {
        self.user.is_none() && self.comm.is_none() && self.exit_code.is_none()
            && self.session_id.is_none() && self.pid.is_none() && self.ppid.is_none()
            && self.gid.is_none() && self.euid.is_none() && self.tty.is_none()
            && self.file.is_none() && self.cmd.is_none() && self.text.is_none()
    }
}

/// A blank query (empty, or only whitespace) asks nothing: it parses to the
/// empty filter, with no raw text and no warnings.
pub proof fn law_blank_query_is_empty(query: Seq<char>)
    requires
        forall|i: int| 0 <= i < query.len() ==> is_ws(#[trigger] query[i]),
    ensures
        parse_model(query) == empty_model(),
        model_is_empty(parse_model(query)),
{
    lemma_trim_blank(query);
}

/// Whether a parse state has asked nothing yet: no criterion set and no
/// bare word collected.
pub open spec fn state_empty(st: ParseState) -> bool {
    model_is_empty(st.f) && st.bare.len() == 0
}

/// The state before any token.
pub open spec fn initial_state() -> ParseState {
    ParseState { f: empty_model(), bare: Seq::empty() }
}

/// Whether a token asks something on its own: parsed alone it sets a
/// criterion or is kept as a bare word. (A token that does neither is a
/// numeric keyword whose value is not a number; it only adds a warning.)
pub open spec fn token_asks(tok: Seq<char>) -> bool {
    !state_empty(step(initial_state(), tok))
}

/// Whether two parse states ask the same: the same criteria set (with the
/// same values) and the same bare words; only warnings may differ.
pub open spec fn same_criteria(a: ParseState, b: ParseState) -> bool {
    &&& a.f.user == b.f.user
    &&& a.f.comm == b.f.comm
    &&& a.f.exit_code == b.f.exit_code
    &&& a.f.session_id == b.f.session_id
    &&& a.f.pid == b.f.pid
    &&& a.f.ppid == b.f.ppid
    &&& a.f.gid == b.f.gid
    &&& a.f.euid == b.f.euid
    &&& a.f.tty == b.f.tty
    &&& a.f.file == b.f.file
    &&& a.f.cmd == b.f.cmd
    &&& a.f.text == b.f.text
    &&& a.bare == b.bare
}

/// A token either asks something whatever came before it, or changes
/// nothing but the warnings; and once something is asked it stays asked.
proof fn lemma_step_effect(st: ParseState, tok: Seq<char>)
    ensures
        token_asks(tok) ==> !state_empty(step(st, tok)),
        !token_asks(tok) ==> same_criteria(step(st, tok), st),
        !state_empty(st) ==> !state_empty(step(st, tok)),
{
}

proof fn lemma_steps_no_text(toks: Seq<Seq<char>>)
    ensures
        steps(initial_state(), toks).f.text is None,
    decreases toks.len(),
{
    if toks.len() > 0 {
        lemma_steps_no_text(toks.drop_last());
    }
}

proof fn lemma_steps_empty(toks: Seq<Seq<char>>)
    ensures
        state_empty(steps(initial_state(), toks)) <==> forall|i: int|
            0 <= i < toks.len() ==> !token_asks(#[trigger] toks[i]),
    decreases toks.len(),
{
    if toks.len() > 0 {
        let init = toks.drop_last();
        lemma_steps_empty(init);
        let st = steps(initial_state(), init);
        lemma_step_effect(st, toks.last());
        assert forall|i: int| 0 <= i < init.len() implies #[trigger] init[i] == toks[i] by {}
        if state_empty(step(st, toks.last())) {
            assert forall|i: int| 0 <= i < toks.len() implies !token_asks(#[trigger] toks[i]) by {
                if i < init.len() {
                    assert(init[i] == toks[i]);
                }
            }
        } else {
            if forall|i: int| 0 <= i < toks.len() ==> !token_asks(#[trigger] toks[i]) {
                assert(!token_asks(toks[toks.len() - 1]));
                assert forall|i: int| 0 <= i < init.len() implies !token_asks(#[trigger] init[i]) by {
                    assert(init[i] == toks[i]);
                }
            }
        }
    }
}

/// A query asks nothing exactly when none of its words asks anything on
/// its own: the filter is empty iff every whitespace-separated token is a
/// numeric keyword with a value that is not a number (`""` and `"   "`
/// are empty; `"pid:1"` and `"foo:bar"` are not). Raw text and warnings
/// never count.
pub proof fn law_empty_iff_no_token_asks(query: Seq<char>)
    ensures
        model_is_empty(parse_model(query)) <==> forall|i: int|
            0 <= i < split_ws(trim(query)).len() ==> !token_asks(#[trigger] split_ws(trim(query))[i]),
{
    let q = trim(query);
    lemma_steps_empty(split_ws(q));
    lemma_steps_no_text(split_ws(q));
    if q.len() > 0 {
        let st = steps(initial_state(), split_ws(q));
        assert(initial_state() == ParseState { f: empty_model(), bare: Seq::empty() });
        assert(model_is_empty(parse_model(query)) <==> state_empty(st));
    }
}

/// Whether `key` is a keyword that expects a number.
pub open spec fn numeric_keyword(key: Seq<char>) -> bool {
    key == "exit"@ || key == "pid"@ || key == "ppid"@ || key == "gid"@ || key == "euid"@ || key
        == "tty"@
}

/// Whether `value` is a number of the kind `key` expects.
pub open spec fn number_accepted(key: Seq<char>, value: Seq<char>) -> bool {
    if key == "exit"@ {
        parse_i32(value) is Some
    } else {
        parse_u32(value) is Some
    }
}

/// Whether a token is `key:value` or `!key:value` (one `!`) with a numeric
/// keyword and a value that is not a number.
pub open spec fn rejected_number_token(tok: Seq<char>) -> bool {
    let negated = tok.len() > 0 && tok[0] == '!';
    let rest = if negated {
        tok.drop_first()
    } else {
        tok
    };
    &&& !(negated && rest.len() > 0 && rest[0] == '!')
    &&& match first_index(rest, ':') {
        Some(i) => numeric_keyword(rest.take(i)) && !number_accepted(rest.take(i), rest.skip(i + 1)),
        None => false,
    }
}

/// The tokens that ask nothing on their own are exactly the numeric
/// keywords given something that is not a number.
pub proof fn law_silent_tokens(tok: Seq<char>)
    ensures
        !token_asks(tok) <==> rejected_number_token(tok),
{
    reveal_strlit("user");
    reveal_strlit("comm");
    reveal_strlit("exit");
    reveal_strlit("session");
    reveal_strlit("pid");
    reveal_strlit("ppid");
    reveal_strlit("gid");
    reveal_strlit("euid");
    reveal_strlit("tty");
    reveal_strlit("file");
    reveal_strlit("cmd");
    let negated = tok.len() > 0 && tok[0] == '!';
    let rest = if negated {
        tok.drop_first()
    } else {
        tok
    };
    lemma_first_index(rest, ':');
    let st0 = initial_state();
    if negated && (rest.len() == 0 || rest[0] == '!' || !rest.contains(':')) {
        if rest.len() > 0 && rest[0] != '!' {
            assert(first_index(rest, ':') is None) by {
                if first_index(rest, ':') is Some {
                    let i = first_index(rest, ':')->0;
                    assert(rest.contains(':') ) by { assert(rest[i] == ':'); }
                }
            }
        }
        assert(step(st0, tok).bare == seq![tok]);
    } else {
        assert(step(st0, tok) == apply_rest(st0, tok, rest, negated));
        match first_index(rest, ':') {
            None => {
                assert(step(st0, tok).bare.len() == 1);
            },
            Some(i) => {
                let key = rest.take(i);
                let value = rest.skip(i + 1);
                let after = apply_key(st0, tok, key, value, negated);
                assert(step(st0, tok) == after);
                if key == "user"@ || key == "comm"@ || key == "session"@ || key == "file"@ || key == "cmd"@ {
                    assert(!numeric_keyword(key)) by {
                        assert("user"@[0] == 'u' && "comm"@[0] == 'c' && "session"@[0] == 's' && "file"@[0] == 'f' && "cmd"@[0] == 'c');
                        assert("exit"@[0] == 'e' && "pid"@[0] == 'p' && "ppid"@[0] == 'p' && "gid"@[0] == 'g' && "euid"@[0] == 'e' && "tty"@[0] == 't');
                        assert("comm"@[1] == 'o' && "cmd"@[1] == 'm');
                    }
                    assert(!state_empty(after));
                } else if numeric_keyword(key) {
                    assert(key != "user"@ && key != "comm"@ && key != "session"@) by {
                        assert("user"@[0] == 'u' && "comm"@[0] == 'c' && "session"@[0] == 's');
                        assert("exit"@[0] == 'e' && "pid"@[0] == 'p' && "ppid"@[0] == 'p' && "gid"@[0] == 'g' && "euid"@[0] == 'e' && "tty"@[0] == 't');
                    }
                    assert(state_empty(after) <==> !number_accepted(key, value)) by {
                        assert("exit"@.len() == 4 && "pid"@.len() == 3 && "ppid"@.len() == 4 && "gid"@.len() == 3 && "euid"@.len() == 4 && "tty"@.len() == 3);
                        assert("exit"@[0] == 'e' && "pid"@[0] == 'p' && "ppid"@[0] == 'p' && "gid"@[0] == 'g' && "euid"@[0] == 'e' && "tty"@[0] == 't');
                        assert("ppid"@[1] == 'p' && "euid"@[1] == 'u' && "exit"@[1] == 'x');
                    }
                } else {
                    assert(after.bare == seq![tok]);
                }
            },
        }
    }
}

/// Whether `key` is one of the filter keywords.
pub open spec fn filter_keyword(key: Seq<char>) -> bool {
    numeric_keyword(key) || key == "user"@ || key == "comm"@ || key == "session"@ || key == "file"@
        || key == "cmd"@
}

/// A criterion with its negation flag set.
pub open spec fn flagged<T>(o: Option<(T, bool)>) -> Option<(T, bool)> {
    match o {
        Some((v, _)) => Some((v, true)),
        None => None,
    }
}

/// Whether a criterion is set, and then whether it is negated.
pub open spec fn flag_of<T>(o: Option<(T, bool)>) -> Option<bool> {
    match o {
        Some((_, n)) => Some(n),
        None => None,
    }
}

/// The field of keyword `key`, as whether it is set and negated.
pub open spec fn keyword_flag(f: FilterModel, key: Seq<char>) -> Option<bool> {
    if key == "user"@ {
        flag_of(f.user)
    } else if key == "comm"@ {
        flag_of(f.comm)
    } else if key == "exit"@ {
        flag_of(f.exit_code)
    } else if key == "session"@ {
        flag_of(f.session_id)
    } else if key == "pid"@ {
        flag_of(f.pid)
    } else if key == "ppid"@ {
        flag_of(f.ppid)
    } else if key == "gid"@ {
        flag_of(f.gid)
    } else if key == "euid"@ {
        flag_of(f.euid)
    } else if key == "tty"@ {
        flag_of(f.tty)
    } else if key == "file"@ {
        flag_of(f.file)
    } else {
        flag_of(f.cmd)
    }
}

/// `f` with the criterion of keyword `key` negated.
pub open spec fn negate_keyword(f: FilterModel, key: Seq<char>) -> FilterModel {
    if key == "user"@ {
        FilterModel { user: flagged(f.user), ..f }
    } else if key == "comm"@ {
        FilterModel { comm: flagged(f.comm), ..f }
    } else if key == "exit"@ {
        FilterModel { exit_code: flagged(f.exit_code), ..f }
    } else if key == "session"@ {
        FilterModel { session_id: flagged(f.session_id), ..f }
    } else if key == "pid"@ {
        FilterModel { pid: flagged(f.pid), ..f }
    } else if key == "ppid"@ {
        FilterModel { ppid: flagged(f.ppid), ..f }
    } else if key == "gid"@ {
        FilterModel { gid: flagged(f.gid), ..f }
    } else if key == "euid"@ {
        FilterModel { euid: flagged(f.euid), ..f }
    } else if key == "tty"@ {
        FilterModel { tty: flagged(f.tty), ..f }
    } else if key == "file"@ {
        FilterModel { file: flagged(f.file), ..f }
    } else {
        FilterModel { cmd: flagged(f.cmd), ..f }
    }
}

proof fn lemma_first_index_after(k: Seq<char>, t: Seq<char>, c: char)
    requires
        forall|j: int| 0 <= j < k.len() ==> k[j] != c,
    ensures
        first_index(k + t, c) == (match first_index(t, c) {
            Some(i) => Some(i + k.len()),
            None => None,
        }),
    decreases k.len(),
{
    if k.len() > 0 {
        lemma_first_index_after(k.drop_first(), t, c);
        assert((k + t).drop_first() =~= k.drop_first() + t);
    } else {
        assert(k + t =~= t);
    }
}

/// How one keyword token steps the parse: plain and with a `!`.
proof fn lemma_keyword_step(st: ParseState, key: Seq<char>, value: Seq<char>)
    requires
        filter_keyword(key),
    ensures
        step(st, key + ":"@ + value) == apply_key(st, key + ":"@ + value, key, value, false),
        step(st, "!"@ + (key + ":"@ + value)) == apply_key(st, "!"@ + (key + ":"@ + value), key, value, true),
        forall|j: int| 0 <= j < key.len() ==> #[trigger] key[j] != ':' && !is_ws(key[j]),
        key.len() > 0,
{
    reveal_strlit("user");
    reveal_strlit("comm");
    reveal_strlit("exit");
    reveal_strlit("session");
    reveal_strlit("pid");
    reveal_strlit("ppid");
    reveal_strlit("gid");
    reveal_strlit("euid");
    reveal_strlit("tty");
    reveal_strlit("file");
    reveal_strlit("cmd");
    reveal_strlit(":");
    reveal_strlit("!");
    assert(forall|j: int| 0 <= j < key.len() ==> key[j] != ':');
    let rest = key + ":"@ + value;
    lemma_first_index_after(key, ":"@ + value, ':');
    assert((key + ":"@ + value) =~= key + (":"@ + value));
    assert(first_index(":"@ + value, ':') == Some(0int));
    assert(first_index(rest, ':') == Some(key.len() as int));
    assert(rest.take(key.len() as int) =~= key);
    assert(rest.skip(key.len() as int + 1) =~= value);
    let tok = "!"@ + rest;
    assert(tok[0] == '!');
    assert(tok.drop_first() =~= rest);
    assert(rest[0] != '!');
    assert(rest.contains(':')) by {
        assert(rest[key.len() as int] == ':');
    }
    assert(step(st, rest) == apply_key(st, rest, key, value, false));
    assert(step(st, tok) == apply_key(st, tok, key, value, true));
    assert("user"@[0] == 'u' && "comm"@[0] == 'c' && "session"@[0] == 's' && "file"@[0] == 'f'
        && "cmd"@[0] == 'c');
    assert("exit"@[0] == 'e' && "pid"@[0] == 'p' && "ppid"@[0] == 'p' && "gid"@[0] == 'g'
        && "euid"@[0] == 'e' && "tty"@[0] == 't');
    assert("comm"@[1] == 'o' && "cmd"@[1] == 'm' && "ppid"@[1] == 'p' && "euid"@[1] == 'u'
        && "exit"@[1] == 'x' && "pid"@[1] == 'i');
}

/// A `!` before a keyword negates exactly that keyword's criterion: the
/// token `!key:value` sets the same criterion as `key:value`, with the
/// same value, negated where `key:value` sets it plain; neither collects a
/// bare word, and when the value is accepted neither adds a warning. A
/// numeric keyword whose value is not a number sets nothing either way.
pub proof fn law_negation_flips_only_the_flag(st: ParseState, key: Seq<char>, value: Seq<char>)
    requires
        filter_keyword(key),
    ensures
        ({
            let plain = step(st, key + ":"@ + value);
            let negated = step(st, "!"@ + (key + ":"@ + value));
            &&& plain.bare == st.bare
            &&& negated.bare == st.bare
            &&& if !numeric_keyword(key) || number_accepted(key, value) {
                &&& keyword_flag(plain.f, key) == Some(false)
                &&& keyword_flag(negated.f, key) == Some(true)
                &&& negated == ParseState { f: negate_keyword(plain.f, key), ..plain }
                &&& plain.f.warnings == st.f.warnings
            } else {
                negated == plain
            }
        }),
{
    lemma_keyword_step(st, key, value);
    reveal_strlit("user");
    reveal_strlit("comm");
    reveal_strlit("exit");
    reveal_strlit("session");
    reveal_strlit("pid");
    reveal_strlit("ppid");
    reveal_strlit("gid");
    reveal_strlit("euid");
    reveal_strlit("tty");
    reveal_strlit("file");
    reveal_strlit("cmd");
    assert("user"@[0] == 'u' && "comm"@[0] == 'c' && "session"@[0] == 's' && "file"@[0] == 'f'
        && "cmd"@[0] == 'c');
    assert("exit"@[0] == 'e' && "pid"@[0] == 'p' && "ppid"@[0] == 'p' && "gid"@[0] == 'g'
        && "euid"@[0] == 'e' && "tty"@[0] == 't');
    assert("comm"@[1] == 'o' && "cmd"@[1] == 'm' && "ppid"@[1] == 'p' && "euid"@[1] == 'u'
        && "exit"@[1] == 'x' && "pid"@[1] == 'i');
}

/// The filter whose only criterion is that of keyword `key` with `value`
/// (read as a number for the numeric keywords), negated or not.
pub open spec fn only_criterion(key: Seq<char>, value: Seq<char>, negated: bool) -> FilterModel {
    let e = empty_model();
    if key == "user"@ {
        FilterModel { user: Some((value, negated)), ..e }
    } else if key == "comm"@ {
        FilterModel { comm: Some((value, negated)), ..e }
    } else if key == "exit"@ {
        FilterModel { exit_code: Some((parse_i32(value)->0, negated)), ..e }
    } else if key == "session"@ {
        FilterModel { session_id: Some((value, negated)), ..e }
    } else if key == "pid"@ {
        FilterModel { pid: Some((parse_u32(value)->0, negated)), ..e }
    } else if key == "ppid"@ {
        FilterModel { ppid: Some((parse_u32(value)->0, negated)), ..e }
    } else if key == "gid"@ {
        FilterModel { gid: Some((parse_u32(value)->0, negated)), ..e }
    } else if key == "euid"@ {
        FilterModel { euid: Some((parse_u32(value)->0, negated)), ..e }
    } else if key == "tty"@ {
        FilterModel { tty: Some((parse_u32(value)->0, negated)), ..e }
    } else if key == "file"@ {
        FilterModel { file: Some((value, negated)), ..e }
    } else {
        FilterModel { cmd: Some((value, negated)), ..e }
    }
}

/// A query of one keyword token sets exactly that keyword's criterion:
/// `key:value` sets it plain and `!key:value` sets it negated, with the
/// value itself (or the number it reads as), no bare text and no warnings,
/// for every keyword and every accepted value without whitespace.
pub proof fn law_keyword_query_parses(key: Seq<char>, value: Seq<char>)
    requires
        filter_keyword(key),
        !numeric_keyword(key) || number_accepted(key, value),
        forall|j: int| 0 <= j < value.len() ==> !is_ws(#[trigger] value[j]),
    ensures
        parse_model(key + ":"@ + value) == (FilterModel {
            raw: Some(key + ":"@ + value),
            ..only_criterion(key, value, false)
        }),
        parse_model("!"@ + (key + ":"@ + value)) == (FilterModel {
            raw: Some("!"@ + (key + ":"@ + value)),
            ..only_criterion(key, value, true)
        }),
{
    reveal_strlit(":");
    reveal_strlit("!");
    let init = ParseState { f: empty_model(), bare: Seq::empty() };
    lemma_keyword_step(init, key, value);
    let t = key + ":"@ + value;
    let nt = "!"@ + t;
    assert forall|k: int| 0 <= k < t.len() implies !is_ws(#[trigger] t[k]) by {
        if k < key.len() {
            assert(t[k] == key[k]);
        } else if k > key.len() {
            assert(t[k] == value[k - key.len() - 1]);
        }
    }
    assert forall|k: int| 0 <= k < nt.len() implies !is_ws(#[trigger] nt[k]) by {
        if k > 0 {
            assert(nt[k] == t[k - 1]);
        }
    }
    lemma_single_word(t);
    lemma_single_word(nt);
    assert(seq![t].drop_last() =~= Seq::<Seq<char>>::empty());
    assert(seq![nt].drop_last() =~= Seq::<Seq<char>>::empty());
    assert(steps(init, Seq::<Seq<char>>::empty()) == init);
    assert(seq![t].last() == t);
    assert(seq![nt].last() == nt);
    assert(steps(init, seq![t]) == step(steps(init, seq![t].drop_last()), seq![t].last()));
    assert(steps(init, seq![t]) == step(init, t));
    assert(steps(init, seq![nt]) == step(steps(init, seq![nt].drop_last()), seq![nt].last()));
    assert(steps(init, seq![nt]) == step(init, nt));
    reveal_strlit("user");
    reveal_strlit("comm");
    reveal_strlit("exit");
    reveal_strlit("session");
    reveal_strlit("pid");
    reveal_strlit("ppid");
    reveal_strlit("gid");
    reveal_strlit("euid");
    reveal_strlit("tty");
    reveal_strlit("file");
    reveal_strlit("cmd");
    assert("user"@[0] == 'u' && "comm"@[0] == 'c' && "session"@[0] == 's' && "file"@[0] == 'f'
        && "cmd"@[0] == 'c');
    assert("exit"@[0] == 'e' && "pid"@[0] == 'p' && "ppid"@[0] == 'p' && "gid"@[0] == 'g'
        && "euid"@[0] == 'e' && "tty"@[0] == 't');
    assert("comm"@[1] == 'o' && "cmd"@[1] == 'm' && "ppid"@[1] == 'p' && "euid"@[1] == 'u'
        && "exit"@[1] == 'x' && "pid"@[1] == 'i');
}

} // verus!
