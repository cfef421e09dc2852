//! Turning an event filter into SQL for the `events` table.
//!
//! Every condition binds its value through a positional parameter (`?N`),
//! so no part of the user's query is ever spliced into the SQL text.

use vstd::prelude::*;

use crate::text::{chars_of, dec, first_index, join, join_strings, push_str, push_u64, replace_char, replace_chars, string_from_chars, string_from_range, views};
use crate::web::filter::{EventFilter, FilterModel, FilterValue};
use crate::web::listing::{offset_of, sort_column, EventSortKey, ListRequest, SortDirection};
use crate::web::users::{resolve_username, uid_of_name, PasswdTable};
use crate::text::{parse_u32, parse_u32_str};
pub use crate::common::sql::{copy_params, param_views, ParamModel, SqlParam};

verus! {

/// The conditions of a WHERE clause and the parameters they bind, in order.
pub struct WhereModel {
    pub conds: Seq<Seq<char>>,
    pub params: Seq<ParamModel>,
}

/// The placeholder of the `idx`-th parameter (1-based).
pub open spec fn placeholder(idx: nat) -> Seq<char> {
    "?"@ + dec(idx)
}

/// An exact-match condition; a negated one on a nullable column also
/// matches NULL.
pub open spec fn exact_condition(column: Seq<char>, negated: bool, nullable: bool, idx: nat) -> Seq<char> {
    if negated {
        if nullable {
            "("@ + column + " IS NULL OR "@ + column + " != "@ + placeholder(idx) + ")"@
        } else {
            column + " != "@ + placeholder(idx)
        }
    } else {
        column + " = "@ + placeholder(idx)
    }
}

/// The right-hand side of a LIKE: the placeholder, with `\` declared as the
/// escape character when the pattern escapes its literal `%` and `_`.
pub open spec fn like_operand(idx: nat, escaped: bool) -> Seq<char> {
    if escaped {
        placeholder(idx) + " ESCAPE '\\'"@
    } else {
        placeholder(idx)
    }
}

/// A LIKE condition; a negated one on a nullable column also matches NULL.
pub open spec fn like_condition(column: Seq<char>, negated: bool, nullable: bool, idx: nat, escaped: bool) -> Seq<char> {
    if negated {
        if nullable {
            "("@ + column + " IS NULL OR "@ + column + " NOT LIKE "@ + like_operand(idx, escaped) + ")"@
        } else {
            column + " NOT LIKE "@ + like_operand(idx, escaped)
        }
    } else {
        column + " LIKE "@ + like_operand(idx, escaped)
    }
}

/// `w` with an exact-match condition on `column` binding `value`.
pub open spec fn with_exact(w: WhereModel, column: Seq<char>, value: int, negated: bool, nullable: bool) -> WhereModel {
    WhereModel {
        conds: w.conds.push(exact_condition(column, negated, nullable, w.params.len() + 1)),
        params: w.params.push(ParamModel::Int(value)),
    }
}

/// `w` with a LIKE condition on `column` binding `pattern`.
pub open spec fn with_like(
    w: WhereModel,
    column: Seq<char>,
    pattern: Seq<char>,
    negated: bool,
    nullable: bool,
    escaped: bool,
) -> WhereModel {
    WhereModel {
        conds: w.conds.push(like_condition(column, negated, nullable, w.params.len() + 1, escaped)),
        params: w.params.push(ParamModel::Text(pattern)),
    }
}

/// `s` with the LIKE metacharacters `%` and `_`, and the escape character
/// `\` itself, escaped by `\` so that they match literally.
pub open spec fn escape_like(s: Seq<char>) -> Seq<char> {
    replace_char(replace_char(replace_char(s, '\\', "\\\\"@), '%', "\\%"@), '_', "\\_"@)
}

/// A glob (`*` any run, `?` one character, everything else literal) as a
/// LIKE pattern to be used with `ESCAPE '\'`.
pub open spec fn glob_to_like(glob: Seq<char>) -> Seq<char> {
    replace_char(replace_char(escape_like(glob), '*', "%"@), '?', "_"@)
}

/// The LIKE pattern for a command name: anchored after the last `/` of the
/// path unless it already starts with a wildcard.
pub open spec fn cmd_pattern(glob: Seq<char>) -> Seq<char> {
    let like = glob_to_like(glob);
    if like.len() > 0 && like[0] == '%' {
        like
    } else {
        "%/"@ + like
    }
}

/// The parts of `s` between occurrences of `c` (std's `str::split`).
pub open spec fn split_on(s: Seq<char>, c: char) -> Seq<Seq<char>>
    decreases s.len(),
{
    match first_index(s, c) {
        Some(i) => if 0 <= i < s.len() {
            seq![s.take(i)] + split_on(s.skip(i + 1), c)
        } else {
            seq![s]
        },
        None => seq![s],
    }
}

/// The test of one `cmd:` alternative, binding parameter `idx`.
pub open spec fn cmd_alternative(idx: nat, negated: bool) -> Seq<char> {
    "filename "@ + (if negated {
        "NOT LIKE "@
    } else {
        "LIKE "@
    }) + like_operand(idx, true)
}

/// The tests of `n` `cmd:` alternatives binding the parameters after the
/// first `base`.
pub open spec fn cmd_alternatives(n: nat, base: nat, negated: bool) -> Seq<Seq<char>> {
    Seq::new(n, |k: int| cmd_alternative((base + 1 + k) as nat, negated))
}

/// The condition of a `cmd:` filter with `n` alternatives: any of them
/// matches, or, negated, none does (a missing path matches none).
pub open spec fn cmd_condition(n: nat, base: nat, negated: bool) -> Seq<char> {
    if negated {
        "(filename IS NULL OR ("@ + join(cmd_alternatives(n, base, negated), " AND "@) + "))"@
    } else {
        "("@ + join(cmd_alternatives(n, base, negated), " OR "@) + ")"@
    }
}

/// The parameters of `cmd:` alternatives.
pub open spec fn cmd_params(alts: Seq<Seq<char>>) -> Seq<ParamModel> {
    alts.map_values(|a: Seq<char>| ParamModel::Text(cmd_pattern(a)))
}

/// `w` with the condition of a `cmd:` filter whose alternatives (separated
/// by `|`) are `alts`.
pub open spec fn with_cmd(w: WhereModel, alts: Seq<Seq<char>>, negated: bool) -> WhereModel {
    WhereModel {
        conds: w.conds.push(cmd_condition(alts.len(), w.params.len(), negated)),
        params: w.params + cmd_params(alts),
    }
}

/// The UID a `user:` value selects: a number, else the account of that name.
pub open spec fn user_uid(users: Seq<(u32, Seq<char>)>, value: Seq<char>) -> Option<u32> {
    match parse_u32(value) {
        Some(u) => Some(u),
        None => uid_of_name(users, value),
    }
}

/// The condition of a bare-text search binding parameter `idx`.
pub open spec fn text_condition(idx: nat) -> Seq<char> {
    "(comm LIKE "@ + placeholder(idx) + " OR filename LIKE "@ + placeholder(idx)
        + " OR argv LIKE "@ + placeholder(idx) + ")"@
}

/// The starting point: list views show exec events only.
pub open spec fn where_start() -> WhereModel {
    WhereModel { conds: seq!["event_type = 'exec'"@], params: Seq::empty() }
}

pub open spec fn step_comm(w: WhereModel, f: FilterModel) -> WhereModel {
    match f.comm {
        Some((v, n)) => with_like(w, "comm"@, glob_to_like(v), n, true, true),
        None => w,
    }
}

pub open spec fn step_exit(w: WhereModel, f: FilterModel) -> WhereModel {
    match f.exit_code {
        Some((v, n)) => with_exact(w, "exit_code"@, v as int, n, true),
        None => w,
    }
}

pub open spec fn step_session(w: WhereModel, f: FilterModel) -> WhereModel {
    match f.session_id {
        Some((v, n)) => with_like(w, "session_id"@, v + "%"@, n, false, false),
        None => w,
    }
}

pub open spec fn step_ids(w: WhereModel, f: FilterModel) -> WhereModel {
    let w1 = match f.pid {
        Some((v, n)) => with_exact(w, "pid"@, v as int, n, false),
        None => w,
    };
    let w2 = match f.ppid {
        Some((v, n)) => with_exact(w1, "ppid"@, v as int, n, false),
        None => w1,
    };
    let w3 = match f.gid {
        Some((v, n)) => with_exact(w2, "gid"@, v as int, n, false),
        None => w2,
    };
    let w4 = match f.euid {
        Some((v, n)) => with_exact(w3, "euid"@, v as int, n, false),
        None => w3,
    };
    match f.tty {
        Some((v, n)) => with_exact(w4, "tty_nr"@, v as int, n, true),
        None => w4,
    }
}

pub open spec fn step_paths(w: WhereModel, f: FilterModel) -> WhereModel {
    let w1 = match f.file {
        Some((v, n)) => with_like(w, "filename"@, glob_to_like(v), n, true, true),
        None => w,
    };
    match f.cmd {
        Some((v, n)) => with_cmd(w1, split_on(v, '|'), n),
        None => w1,
    }
}

pub open spec fn step_user(w: WhereModel, f: FilterModel, users: Seq<(u32, Seq<char>)>) -> WhereModel {
    match f.user {
        Some((v, n)) => match user_uid(users, v) {
            Some(uid) => with_exact(w, "uid"@, uid as int, n, false),
            None => w,
        },
        None => w,
    }
}

pub open spec fn step_text(w: WhereModel, f: FilterModel) -> WhereModel {
    match f.text {
        Some(t) => WhereModel {
            conds: w.conds.push(text_condition(w.params.len() + 1)),
            params: w.params.push(ParamModel::Text("%"@ + t + "%"@)),
        },
        None => w,
    }
}

/// The conditions and parameters a filter gives, in the order they are
/// added: comm, exit code, session, pid, ppid, gid, euid, tty, file, cmd,
/// user, bare text. Globs match their other characters literally; a `cmd:`
/// value may list alternatives separated by `|`. A `user:` value that is
/// neither a UID nor a known account adds no condition.
#[verifier::opaque]
pub open spec fn where_model(f: FilterModel, users: Seq<(u32, Seq<char>)>) -> WhereModel {
    step_text(
        step_user(step_paths(step_ids(step_session(step_exit(step_comm(where_start(), f), f), f), f), f), f, users),
        f,
    )
}

/// The WHERE clause of a model.
pub open spec fn where_clause(w: WhereModel) -> Seq<char> {
    "WHERE "@ + join(w.conds, " AND "@)
}

/// Whether an optional criterion is present, and then whether it is negated.
pub open spec fn negation_of<T>(o: Option<(T, bool)>) -> Option<bool> {
    match o {
        Some((_, n)) => Some(n),
        None => None,
    }
}

/// The `user:` criterion as the SQL sees it: present (and whether negated)
/// only when its value selects a UID.
pub open spec fn user_negation(f: FilterModel, users: Seq<(u32, Seq<char>)>) -> Option<bool> {
    match f.user {
        Some((v, n)) => if user_uid(users, v) is Some {
            Some(n)
        } else {
            None
        },
        None => None,
    }
}

/// Whether two filters ask the same questions, differing at most in the
/// values they ask them about.
pub open spec fn same_shape(
    f: FilterModel,
    f_users: Seq<(u32, Seq<char>)>,
    g: FilterModel,
    g_users: Seq<(u32, Seq<char>)>,
) -> bool {
    &&& negation_of(f.comm) == negation_of(g.comm)
    &&& negation_of(f.exit_code) == negation_of(g.exit_code)
    &&& negation_of(f.session_id) == negation_of(g.session_id)
    &&& negation_of(f.pid) == negation_of(g.pid)
    &&& negation_of(f.ppid) == negation_of(g.ppid)
    &&& negation_of(f.gid) == negation_of(g.gid)
    &&& negation_of(f.euid) == negation_of(g.euid)
    &&& negation_of(f.tty) == negation_of(g.tty)
    &&& negation_of(f.file) == negation_of(g.file)
    &&& negation_of(f.cmd) == negation_of(g.cmd)
    &&& cmd_alternative_count(f) == cmd_alternative_count(g)
    &&& user_negation(f, f_users) == user_negation(g, g_users)
    &&& (f.text is Some) == (g.text is Some)
}

/// Two clauses under construction with the same conditions and the same
/// number of parameters.
pub open spec fn agree(a: WhereModel, b: WhereModel) -> bool {
    a.conds == b.conds && a.params.len() == b.params.len()
}

/// The SQL text never holds a value of the filter: two filters that differ
/// only in the values they ask about get the same WHERE clause and bind the
/// same number of parameters. The values reach the database only as bound
/// parameters.
pub proof fn law_sql_text_holds_no_values(
    f: FilterModel,
    f_users: Seq<(u32, Seq<char>)>,
    g: FilterModel,
    g_users: Seq<(u32, Seq<char>)>,
)
    requires
        same_shape(f, f_users, g, g_users),
    ensures
        where_clause(where_model(f, f_users)) == where_clause(where_model(g, g_users)),
        where_model(f, f_users).params.len() == where_model(g, g_users).params.len(),
{
    reveal(where_model);
    let s = where_start();
    let (a1, b1) = (step_comm(s, f), step_comm(s, g));
    assert(agree(a1, b1));
    let (a2, b2) = (step_exit(a1, f), step_exit(b1, g));
    assert(agree(a2, b2));
    let (a3, b3) = (step_session(a2, f), step_session(b2, g));
    assert(agree(a3, b3));
    let (a4, b4) = (step_ids(a3, f), step_ids(b3, g));
    assert(agree(a4, b4));
    let (a5, b5) = (step_paths(a4, f), step_paths(b4, g));
    assert(agree(a5, b5)) by {
        let a45 = match f.file {
            Some((v, n)) => with_like(a4, "filename"@, glob_to_like(v), n, true, true),
            None => a4,
        };
        let b45 = match g.file {
            Some((v, n)) => with_like(b4, "filename"@, glob_to_like(v), n, true, true),
            None => b4,
        };
        assert(agree(a45, b45));
        match (f.cmd, g.cmd) {
            (Some((v, n)), Some((w, m))) => {
                assert(cmd_params(split_on(v, '|')).len() == split_on(v, '|').len());
                assert(cmd_params(split_on(w, '|')).len() == split_on(w, '|').len());
            },
            _ => {},
        }
    }
    let (a6, b6) = (step_user(a5, f, f_users), step_user(b5, g, g_users));
    assert(agree(a6, b6));
    let (a7, b7) = (step_text(a6, f), step_text(b6, g));
    assert(agree(a7, b7));
}

/// Whether `w` holds an exact-match test of `column` against a bound
/// integer `value`: some parameter `k` holds `value` and a condition
/// compares `column` with `?k`.
pub open spec fn tests_exact(w: WhereModel, column: Seq<char>, value: int, negated: bool, nullable: bool) -> bool {
    exists|k: nat|
        1 <= k <= w.params.len() && #[trigger] w.conds.contains(exact_condition(column, negated, nullable, k))
            && w.params[k - 1] == ParamModel::Int(value)
}

/// Whether `w` holds a LIKE test of `column` against a bound `pattern`.
pub open spec fn tests_like(
    w: WhereModel,
    column: Seq<char>,
    pattern: Seq<char>,
    negated: bool,
    nullable: bool,
    escaped: bool,
) -> bool {
    exists|k: nat|
        1 <= k <= w.params.len() && #[trigger] w.conds.contains(like_condition(column, negated, nullable, k, escaped))
            && w.params[k - 1] == ParamModel::Text(pattern)
}

/// Whether `w` holds the bare-text search binding `text` wrapped in `%`.
pub open spec fn tests_text(w: WhereModel, text: Seq<char>) -> bool {
    exists|k: nat|
        1 <= k <= w.params.len() && #[trigger] w.conds.contains(text_condition(k)) && w.params[k - 1]
            == ParamModel::Text("%"@ + text + "%"@)
}

/// Whether `b` keeps every condition and parameter of `a`, in place.
pub open spec fn keeps(a: WhereModel, b: WhereModel) -> bool {
    &&& a.conds.len() <= b.conds.len()
    &&& a.params.len() <= b.params.len()
    &&& forall|i: int| 0 <= i < a.conds.len() ==> #[trigger] b.conds[i] == a.conds[i]
    &&& forall|i: int| 0 <= i < a.params.len() ==> #[trigger] b.params[i] == a.params[i]
}

proof fn lemma_keeps_trans(a: WhereModel, b: WhereModel, c: WhereModel)
    requires
        keeps(a, b),
        keeps(b, c),
    ensures
        keeps(a, c),
{
}

proof fn lemma_tests_kept(a: WhereModel, b: WhereModel)
    requires
        keeps(a, b),
    ensures
        forall|col: Seq<char>, v: int, n: bool, nl: bool| tests_exact(a, col, v, n, nl) ==> #[trigger] tests_exact(b, col, v, n, nl),
        forall|col: Seq<char>, pat: Seq<char>, n: bool, nl: bool, e: bool|
            tests_like(a, col, pat, n, nl, e) ==> #[trigger] tests_like(b, col, pat, n, nl, e),
        forall|t: Seq<char>| tests_text(a, t) ==> #[trigger] tests_text(b, t),
{
    assert forall|col: Seq<char>, v: int, n: bool, nl: bool| tests_exact(a, col, v, n, nl) implies #[trigger] tests_exact(
        b,
        col,
        v,
        n,
        nl,
    ) by {
        let k = choose|k: nat|
            1 <= k <= a.params.len() && #[trigger] a.conds.contains(exact_condition(col, n, nl, k)) && a.params[k - 1]
                == ParamModel::Int(v);
        let j = choose|j: int| 0 <= j < a.conds.len() && a.conds[j] == exact_condition(col, n, nl, k);
        assert(b.conds[j] == a.conds[j]);
        assert(b.conds.contains(exact_condition(col, n, nl, k)));
    }
    assert forall|col: Seq<char>, pat: Seq<char>, n: bool, nl: bool, e: bool|
        tests_like(a, col, pat, n, nl, e) implies #[trigger] tests_like(b, col, pat, n, nl, e) by {
        let k = choose|k: nat|
            1 <= k <= a.params.len() && #[trigger] a.conds.contains(like_condition(col, n, nl, k, e)) && a.params[k
                - 1] == ParamModel::Text(pat);
        let j = choose|j: int| 0 <= j < a.conds.len() && a.conds[j] == like_condition(col, n, nl, k, e);
        assert(b.conds[j] == a.conds[j]);
        assert(b.conds.contains(like_condition(col, n, nl, k, e)));
    }
    assert forall|t: Seq<char>| tests_text(a, t) implies #[trigger] tests_text(b, t) by {
        let k = choose|k: nat|
            1 <= k <= a.params.len() && #[trigger] a.conds.contains(text_condition(k)) && a.params[k - 1]
                == ParamModel::Text("%"@ + t + "%"@);
        let j = choose|j: int| 0 <= j < a.conds.len() && a.conds[j] == text_condition(k);
        assert(b.conds[j] == a.conds[j]);
        assert(b.conds.contains(text_condition(k)));
    }
}

proof fn lemma_with_exact_tests(w: WhereModel, column: Seq<char>, value: int, negated: bool, nullable: bool)
    ensures
        tests_exact(with_exact(w, column, value, negated, nullable), column, value, negated, nullable),
        keeps(w, with_exact(w, column, value, negated, nullable)),
{
    let r = with_exact(w, column, value, negated, nullable);
    let k = (w.params.len() + 1) as nat;
    assert(r.conds[w.conds.len() as int] == exact_condition(column, negated, nullable, k));
    assert(r.conds.contains(exact_condition(column, negated, nullable, k)));
}

proof fn lemma_with_like_tests(
    w: WhereModel,
    column: Seq<char>,
    pattern: Seq<char>,
    negated: bool,
    nullable: bool,
    escaped: bool,
)
    ensures
        tests_like(with_like(w, column, pattern, negated, nullable, escaped), column, pattern, negated, nullable, escaped),
        keeps(w, with_like(w, column, pattern, negated, nullable, escaped)),
{
    let r = with_like(w, column, pattern, negated, nullable, escaped);
    let k = (w.params.len() + 1) as nat;
    assert(r.conds[w.conds.len() as int] == like_condition(column, negated, nullable, k, escaped));
    assert(r.conds.contains(like_condition(column, negated, nullable, k, escaped)));
}

proof fn lemma_front_tests(f: FilterModel)
    ensures
        ({
            let a3 = step_session(step_exit(step_comm(where_start(), f), f), f);
            &&& f.comm matches Some((v, n)) ==> tests_like(a3, "comm"@, glob_to_like(v), n, true, true)
            &&& f.exit_code matches Some((v, n)) ==> tests_exact(a3, "exit_code"@, v as int, n, true)
            &&& f.session_id matches Some((v, n)) ==> tests_like(a3, "session_id"@, v + "%"@, n, false, false)
        }),
{
    let s = where_start();
    let a1 = step_comm(s, f);
    let a2 = step_exit(a1, f);
    let a3 = step_session(a2, f);
    match f.comm {
        Some((v, n)) => lemma_with_like_tests(s, "comm"@, glob_to_like(v), n, true, true),
        None => {},
    }
    match f.exit_code {
        Some((v, n)) => lemma_with_exact_tests(a1, "exit_code"@, v as int, n, true),
        None => {},
    }
    match f.session_id {
        Some((v, n)) => lemma_with_like_tests(a2, "session_id"@, v + "%"@, n, false, false),
        None => {},
    }
    assert(keeps(a1, a2));
    assert(keeps(a2, a3));
    lemma_keeps_trans(a1, a2, a3);
    lemma_tests_kept(a1, a3);
    lemma_tests_kept(a2, a3);
}

proof fn lemma_ids_tests(w: WhereModel, f: FilterModel)
    ensures
        keeps(w, step_ids(w, f)),
        f.pid matches Some((v, n)) ==> tests_exact(step_ids(w, f), "pid"@, v as int, n, false),
        f.ppid matches Some((v, n)) ==> tests_exact(step_ids(w, f), "ppid"@, v as int, n, false),
        f.gid matches Some((v, n)) ==> tests_exact(step_ids(w, f), "gid"@, v as int, n, false),
        f.euid matches Some((v, n)) ==> tests_exact(step_ids(w, f), "euid"@, v as int, n, false),
        f.tty matches Some((v, n)) ==> tests_exact(step_ids(w, f), "tty_nr"@, v as int, n, true),
{
    let i1 = match f.pid {
        Some((v, n)) => with_exact(w, "pid"@, v as int, n, false),
        None => w,
    };
    let i2 = match f.ppid {
        Some((v, n)) => with_exact(i1, "ppid"@, v as int, n, false),
        None => i1,
    };
    let i3 = match f.gid {
        Some((v, n)) => with_exact(i2, "gid"@, v as int, n, false),
        None => i2,
    };
    let i4 = match f.euid {
        Some((v, n)) => with_exact(i3, "euid"@, v as int, n, false),
        None => i3,
    };
    let i5 = step_ids(w, f);
    match f.pid {
        Some((v, n)) => lemma_with_exact_tests(w, "pid"@, v as int, n, false),
        None => {},
    }
    match f.ppid {
        Some((v, n)) => lemma_with_exact_tests(i1, "ppid"@, v as int, n, false),
        None => {},
    }
    match f.gid {
        Some((v, n)) => lemma_with_exact_tests(i2, "gid"@, v as int, n, false),
        None => {},
    }
    match f.euid {
        Some((v, n)) => lemma_with_exact_tests(i3, "euid"@, v as int, n, false),
        None => {},
    }
    match f.tty {
        Some((v, n)) => lemma_with_exact_tests(i4, "tty_nr"@, v as int, n, true),
        None => {},
    }
    assert(keeps(i4, i5));
    assert(keeps(i3, i4));
    assert(keeps(i2, i3));
    assert(keeps(i1, i2));
    assert(keeps(w, i1));
    lemma_keeps_trans(i3, i4, i5);
    lemma_keeps_trans(i2, i3, i5);
    lemma_keeps_trans(i1, i2, i5);
    lemma_keeps_trans(w, i1, i5);
    lemma_tests_kept(i4, i5);
    lemma_tests_kept(i3, i5);
    lemma_tests_kept(i2, i5);
    lemma_tests_kept(i1, i5);
}

proof fn lemma_with_cmd_keeps(w: WhereModel, alts: Seq<Seq<char>>, negated: bool)
    ensures
        keeps(w, with_cmd(w, alts, negated)),
{
}

proof fn lemma_tail_tests(w: WhereModel, f: FilterModel, users: Seq<(u32, Seq<char>)>)
    ensures
        ({
            let fin = step_text(step_user(step_paths(w, f), f, users), f);
            &&& keeps(w, fin)
            &&& f.file matches Some((v, n)) ==> tests_like(fin, "filename"@, glob_to_like(v), n, true, true)
            &&& f.user matches Some((v, n)) ==> (user_uid(users, v) matches Some(u) ==> tests_exact(
                fin,
                "uid"@,
                u as int,
                n,
                false,
            ))
            &&& f.text matches Some(t) ==> tests_text(fin, t)
        }),
{
    let p1 = match f.file {
        Some((v, n)) => with_like(w, "filename"@, glob_to_like(v), n, true, true),
        None => w,
    };
    let a5 = step_paths(w, f);
    let a6 = step_user(a5, f, users);
    let a7 = step_text(a6, f);
    match f.file {
        Some((v, n)) => lemma_with_like_tests(w, "filename"@, glob_to_like(v), n, true, true),
        None => {},
    }
    match f.cmd {
        Some((v, n)) => lemma_with_cmd_keeps(p1, split_on(v, '|'), n),
        None => {},
    }
    assert(keeps(p1, a5));
    match f.user {
        Some((v, n)) => match user_uid(users, v) {
            Some(u) => lemma_with_exact_tests(a5, "uid"@, u as int, n, false),
            None => {},
        },
        None => {},
    }
    assert(keeps(a5, a6));
    assert(keeps(a6, a7));
    match f.text {
        Some(t) => {
            let k = (a6.params.len() + 1) as nat;
            assert(a7.conds[a6.conds.len() as int] == text_condition(k));
            assert(a7.conds.contains(text_condition(k)));
        },
        None => {},
    }
    lemma_keeps_trans(a5, a6, a7);
    lemma_keeps_trans(p1, a5, a7);
    lemma_keeps_trans(w, p1, a7);
    lemma_tests_kept(a6, a7);
    lemma_tests_kept(p1, a7);
}

/// Each criterion of a filter becomes a test of its own column, bound to
/// its own value: `exit:` tests `exit_code`, `pid:` `pid`, `ppid:` `ppid`,
/// `gid:` `gid`, `euid:` `euid` (the effective UID, so a command run under
/// sudo is found by the UID it ran as), `tty:` `tty_nr`, `user:` the real
/// `uid` it selects, `comm:` `comm`, `session:` a prefix of `session_id`,
/// `file:` `filename`, and bare words search command, path and arguments.
pub proof fn law_criteria_test_their_columns(f: FilterModel, users: Seq<(u32, Seq<char>)>)
    ensures
        f.exit_code matches Some((v, n)) ==> tests_exact(where_model(f, users), "exit_code"@, v as int, n, true),
        f.pid matches Some((v, n)) ==> tests_exact(where_model(f, users), "pid"@, v as int, n, false),
        f.ppid matches Some((v, n)) ==> tests_exact(where_model(f, users), "ppid"@, v as int, n, false),
        f.gid matches Some((v, n)) ==> tests_exact(where_model(f, users), "gid"@, v as int, n, false),
        f.euid matches Some((v, n)) ==> tests_exact(where_model(f, users), "euid"@, v as int, n, false),
        f.tty matches Some((v, n)) ==> tests_exact(where_model(f, users), "tty_nr"@, v as int, n, true),
        f.user matches Some((v, n)) ==> (user_uid(users, v) matches Some(u) ==> tests_exact(
            where_model(f, users),
            "uid"@,
            u as int,
            n,
            false,
        )),
        f.comm matches Some((v, n)) ==> tests_like(where_model(f, users), "comm"@, glob_to_like(v), n, true, true),
        f.session_id matches Some((v, n)) ==> tests_like(where_model(f, users), "session_id"@, v + "%"@, n, false, false),
        f.file matches Some((v, n)) ==> tests_like(where_model(f, users), "filename"@, glob_to_like(v), n, true, true),
        f.text matches Some(t) ==> tests_text(where_model(f, users), t),
{
    reveal(where_model);
    let a3 = step_session(step_exit(step_comm(where_start(), f), f), f);
    let a4 = step_ids(a3, f);
    let fin = step_text(step_user(step_paths(a4, f), f, users), f);
    assert(fin == where_model(f, users));
    lemma_front_tests(f);
    lemma_ids_tests(a3, f);
    lemma_tail_tests(a4, f, users);
    lemma_keeps_trans(a3, a4, fin);
    lemma_tests_kept(a3, fin);
    lemma_tests_kept(a4, fin);
}

/// A WHERE clause under construction.
pub struct WhereBuilder {
    pub conds: Vec<String>,
    pub params: Vec<SqlParam>,
}

impl View for WhereBuilder {
    type V = WhereModel;

    open spec fn view(&self) -> WhereModel {
        WhereModel { conds: views(self.conds@), params: param_views(self.params@) }
    }
}

/// Appends the placeholder of parameter `idx`.
fn push_placeholder(s: &mut String, idx: usize)
    ensures
        final(s)@ == old(s)@ + placeholder(idx as nat),
{
    push_str(s, "?");
    push_u64(s, idx as u64);
    assert(old(s)@ + "?"@ + dec(idx as nat) =~= old(s)@ + placeholder(idx as nat));
}

proof fn lemma_push_views(v: Seq<String>, s: String)
    ensures
        views(v.push(s)) == views(v).push(s@),
{
    assert(views(v.push(s)) =~= views(v).push(s@));
}

proof fn lemma_push_params(v: Seq<SqlParam>, p: SqlParam)
    ensures
        param_views(v.push(p)) == param_views(v).push(p@),
{
    assert(param_views(v.push(p)) =~= param_views(v).push(p@));
}

impl WhereBuilder {
    /// Adds an exact-match condition, respecting negation. For negated
    /// filters on nullable columns the condition is
    /// `(col IS NULL OR col != ?N)`.
    pub fn add_exact(&mut self, column: &str, value: i64, negated: bool, nullable: bool)
        requires
            old(self).params@.len() < usize::MAX,
        ensures
            final(self)@ == with_exact(old(self)@, column@, value as int, negated, nullable),
            final(self).params@.len() == old(self).params@.len() + 1,
    {
        let idx = self.params.len() + 1;
        let mut c = String::new();
        if negated {
            if nullable {
                push_str(&mut c, "(");
                push_str(&mut c, column);
                push_str(&mut c, " IS NULL OR ");
                push_str(&mut c, column);
                push_str(&mut c, " != ");
                push_placeholder(&mut c, idx);
                push_str(&mut c, ")");
            } else {
                push_str(&mut c, column);
                push_str(&mut c, " != ");
                push_placeholder(&mut c, idx);
            }
        } else {
            push_str(&mut c, column);
            push_str(&mut c, " = ");
            push_placeholder(&mut c, idx);
        }
        assert(c@ =~= exact_condition(column@, negated, nullable, idx as nat));
        proof {
            lemma_push_views(self.conds@, c);
            lemma_push_params(self.params@, SqlParam::Int(value));
        }
        self.conds.push(c);
        self.params.push(SqlParam::Int(value));
    }

    /// Adds a LIKE condition, respecting negation.
    pub fn add_like(&mut self, column: &str, pattern: String, negated: bool, nullable: bool, escaped: bool)
        requires
            old(self).params@.len() < usize::MAX,
        ensures
            final(self)@ == with_like(old(self)@, column@, pattern@, negated, nullable, escaped),
            final(self).params@.len() == old(self).params@.len() + 1,
    {
        let idx = self.params.len() + 1;
        let mut c = String::new();
        if negated {
            if nullable {
                push_str(&mut c, "(");
                push_str(&mut c, column);
                push_str(&mut c, " IS NULL OR ");
                push_str(&mut c, column);
                push_str(&mut c, " NOT LIKE ");
                push_like_operand(&mut c, idx, escaped);
                push_str(&mut c, ")");
            } else {
                push_str(&mut c, column);
                push_str(&mut c, " NOT LIKE ");
                push_like_operand(&mut c, idx, escaped);
            }
        } else {
            push_str(&mut c, column);
            push_str(&mut c, " LIKE ");
            push_like_operand(&mut c, idx, escaped);
        }
        assert(c@ =~= like_condition(column@, negated, nullable, idx as nat, escaped));
        proof {
            lemma_push_views(self.conds@, c);
            lemma_push_params(self.params@, SqlParam::Text(pattern));
        }
        self.conds.push(c);
        self.params.push(SqlParam::Text(pattern));
    }

    /// Adds the condition of a `cmd:` filter: its value is split at `|`
    /// into alternatives, each matched against the basename of the path.
    pub fn add_cmd(&mut self, value: &str, negated: bool)
        requires
            old(self).params@.len() + split_on(value@, '|').len() < usize::MAX,
        ensures
            final(self)@ == with_cmd(old(self)@, split_on(value@, '|'), negated),
            final(self).params@.len() == old(self).params@.len() + split_on(value@, '|').len(),
    {
        let alts = split_at_char(value, '|');
        let ghost av = views(alts@);
        proof {
            lemma_split_nonempty(value@, '|');
        }
        let base = self.params.len();
        let ghost params0 = self.params@;
        let mut parts: Vec<String> = Vec::new();
        let mut i: usize = 0;
        while i < alts.len()
            invariant
                i <= alts@.len(),
                av == views(alts@),
                base == params0.len(),
                base + av.len() < usize::MAX,
                parts@.len() == i,
                forall|k: int| 0 <= k < i ==> (#[trigger] parts@[k])@ == cmd_alternative((base + 1 + k) as nat, negated),
                self.params@.len() == base + i,
                param_views(self.params@) == param_views(params0) + cmd_params(av.take(i as int)),
                self.conds@ == old(self).conds@,
            decreases alts.len() - i,
        {
            let idx = base + i + 1;
            let mut c = owned_str("filename ");
            if negated {
                push_str(&mut c, "NOT LIKE ");
            } else {
                push_str(&mut c, "LIKE ");
            }
            push_like_operand(&mut c, idx, true);
            assert(c@ =~= cmd_alternative((base + 1 + i) as nat, negated));
            parts.push(c);
            let p = cmd_like(alts[i].as_str());
            proof {
                lemma_push_params(self.params@, SqlParam::Text(p));
                assert(av[i as int] == alts@[i as int]@);
                assert(cmd_params(av.take(i + 1)) =~= cmd_params(av.take(i as int)).push(
                    ParamModel::Text(cmd_pattern(av[i as int])),
                ));
            }
            self.params.push(SqlParam::Text(p));
            i = i + 1;
        }
        proof {
            assert(av.take(av.len() as int) =~= av);
            assert(views(parts@) =~= cmd_alternatives(av.len(), base as nat, negated));
        }
        let mut cond = String::new();
        if negated {
            push_str(&mut cond, "(filename IS NULL OR (");
            let joined = join_strings(&parts, " AND ");
            push_str(&mut cond, joined.as_str());
            push_str(&mut cond, "))");
        } else {
            push_str(&mut cond, "(");
            let joined = join_strings(&parts, " OR ");
            push_str(&mut cond, joined.as_str());
            push_str(&mut cond, ")");
        }
        assert(cond@ =~= cmd_condition(av.len(), base as nat, negated));
        proof {
            lemma_push_views(self.conds@, cond);
        }
        self.conds.push(cond);
    }

    /// Adds an exact-match condition for an optional numeric filter.
    fn add_exact_u32(&mut self, column: &str, fv: &Option<FilterValue<u32>>, nullable: bool)
        requires
            old(self).params@.len() < usize::MAX,
        ensures
            final(self)@ == (match *fv {
                Some(v) => with_exact(old(self)@, column@, v.value as int, v.negated, nullable),
                None => old(self)@,
            }),
            final(self).params@.len() <= old(self).params@.len() + 1,
    {
        match fv {
            Some(v) => self.add_exact(column, v.value as i64, v.negated, nullable),
            None => {},
        }
    }
}

/// Appends the right-hand side of a LIKE binding parameter `idx`.
fn push_like_operand(s: &mut String, idx: usize, escaped: bool)
    ensures
        final(s)@ == old(s)@ + like_operand(idx as nat, escaped),
{
    push_placeholder(s, idx);
    if escaped {
        push_str(s, " ESCAPE '\\'");
    }
}

/// A glob as a LIKE pattern: literal `\`, `%` and `_` escaped, then
/// `*` → `%` and `?` → `_`.
fn glob_pattern(glob: &str) -> (r: String)
    ensures
        r@ == glob_to_like(glob@),
{
    let v = chars_of(glob);
    let e1 = replace_chars(&v, '\\', "\\\\");
    let e2 = replace_chars(&e1, '%', "\\%");
    let e3 = replace_chars(&e2, '_', "\\_");
    let a = replace_chars(&e3, '*', "%");
    let b = replace_chars(&a, '?', "_");
    string_from_chars(&b)
}

/// The LIKE pattern of one `cmd:` alternative.
fn cmd_like(alt: &str) -> (r: String)
    ensures
        r@ == cmd_pattern(alt@),
{
    let glob = glob_pattern(alt);
    let gv = chars_of(glob.as_str());
    if gv.len() > 0 && gv[0] == '%' {
        glob
    } else {
        let mut p = owned_str("%/");
        push_str(&mut p, glob.as_str());
        p
    }
}

/// The parts of `s` between occurrences of `c`.
fn split_at_char(s: &str, c: char) -> (r: Vec<String>)
    ensures
        views(r@) == split_on(s@, c),
{
    let v = chars_of(s);
    let mut r: Vec<String> = Vec::new();
    let mut pos: usize = 0;
    assert(v@.skip(0) =~= v@);
    loop
        invariant_except_break
            pos <= v@.len(),
            v@ == s@,
            views(r@) + split_on(v@.skip(pos as int), c) == split_on(s@, c),
        ensures
            views(r@) == split_on(s@, c),
        decreases v.len() - pos,
    {
        let ghost rest = v@.skip(pos as int);
        match crate::text::find_from(&v, pos, c) {
            Some(i) => {
                let ghost part = v@.subrange(pos as int, i as int);
                proof {
                    assert(rest.take(i - pos) =~= part);
                    assert(rest.skip(i - pos + 1) =~= v@.skip(i + 1));
                    assert(split_on(rest, c) =~= seq![part] + split_on(v@.skip(i + 1), c));
                }
                let ghost before = views(r@);
                r.push(string_from_range(&v, pos, i));
                assert(views(r@) =~= before.push(part));
                assert(before + (seq![part] + split_on(v@.skip(i + 1), c)) =~= views(r@) + split_on(
                    v@.skip(i + 1),
                    c,
                ));
                pos = i + 1;
            },
            None => {
                let ghost before = views(r@);
                r.push(string_from_range(&v, pos, v.len()));
                assert(rest =~= v@.subrange(pos as int, v@.len() as int));
                assert(views(r@) =~= before.push(rest));
                assert(views(r@) =~= before + split_on(rest, c));
                break ;
            },
        }
    }
    r
}

proof fn lemma_split_nonempty(s: Seq<char>, c: char)
    ensures
        split_on(s, c).len() >= 1,
    decreases s.len(),
{
    match first_index(s, c) {
        Some(i) => if 0 <= i < s.len() {
            lemma_split_nonempty(s.skip(i + 1), c);
        },
        None => {},
    }
}

/// The UID a `user:` filter value selects.
fn user_filter_uid(users: &PasswdTable, value: &str) -> (r: Option<u32>)
    ensures
        r == user_uid(users@, value@),
{
    let v = chars_of(value);
    match parse_u32_str(&v) {
        Some(u) => Some(u),
        None => resolve_username(users, value),
    }
}

/// The number of alternatives of a filter's `cmd:` value.
pub open spec fn cmd_alternative_count(f: FilterModel) -> nat {
    match f.cmd {
        Some((v, _)) => split_on(v, '|').len(),
        None => 0,
    }
}

/// Whether the parameters of a filter can be numbered in a `usize`.
pub open spec fn where_fits(f: FilterModel) -> bool {
    cmd_alternative_count(f) + 32 < usize::MAX
}

impl WhereBuilder {
    /// Adds the comm, exit code and session conditions of a filter.
    fn apply_comm_exit_session(&mut self, filter: &EventFilter)
        requires
            old(self).params@.len() < 16,
        ensures
            final(self)@ == step_session(step_exit(step_comm(old(self)@, filter@), filter@), filter@),
            final(self).params@.len() <= old(self).params@.len() + 3,
    {
        let ghost f = filter@;
        match &filter.comm {
            Some(fv) => self.add_like("comm", glob_pattern(fv.value.as_str()), fv.negated, true, true),
            None => {},
        }
        assert(self@ == step_comm(old(self)@, f));
        let ghost w1 = self@;
        match &filter.exit_code {
            Some(fv) => self.add_exact("exit_code", fv.value as i64, fv.negated, true),
            None => {},
        }
        assert(self@ == step_exit(w1, f));
        let ghost w2 = self@;
        match &filter.session_id {
            Some(fv) => {
                let mut p = fv.value.clone();
                push_str(&mut p, "%");
                self.add_like("session_id", p, fv.negated, false, false);
            },
            None => {},
        }
        assert(self@ == step_session(w2, f));
    }

    /// Adds the numeric ID conditions of a filter.
    fn apply_ids(&mut self, filter: &EventFilter)
        requires
            old(self).params@.len() < 16,
        ensures
            final(self)@ == step_ids(old(self)@, filter@),
            final(self).params@.len() <= old(self).params@.len() + 5,
    {
        self.add_exact_u32("pid", &filter.pid, false);
        self.add_exact_u32("ppid", &filter.ppid, false);
        self.add_exact_u32("gid", &filter.gid, false);
        self.add_exact_u32("euid", &filter.euid, false);
        self.add_exact_u32("tty_nr", &filter.tty, true);
    }

    /// Adds the path conditions (`file:` and `cmd:`) of a filter.
    fn apply_paths(&mut self, filter: &EventFilter)
        requires
            old(self).params@.len() < 16,
            where_fits(filter@),
        ensures
            final(self)@ == step_paths(old(self)@, filter@),
            final(self).params@.len() <= old(self).params@.len() + 1 + cmd_alternative_count(filter@),
    {
        let ghost f = filter@;
        match &filter.file {
            Some(fv) => self.add_like("filename", glob_pattern(fv.value.as_str()), fv.negated, true, true),
            None => {},
        }
        let ghost w1 = self@;
        match &filter.cmd {
            Some(fv) => {
                assert(f.cmd == Some((fv.value@, fv.negated)));
                self.add_cmd(fv.value.as_str(), fv.negated);
            },
            None => {},
        }
        assert(self@ == step_paths(old(self)@, f));
    }

    /// Adds the user and bare-text conditions of a filter.
    fn apply_user_text(&mut self, filter: &EventFilter, users: &PasswdTable)
        requires
            old(self).params@.len() + 2 < usize::MAX,
        ensures
            final(self)@ == step_text(step_user(old(self)@, filter@, users@), filter@),
            final(self).params@.len() <= old(self).params@.len() + 2,
    {
        let ghost f = filter@;
        match &filter.user {
            Some(fv) => match user_filter_uid(users, fv.value.as_str()) {
                Some(uid) => self.add_exact("uid", uid as i64, fv.negated, false),
                None => {},
            },
            None => {},
        }
        assert(self@ == step_user(old(self)@, f, users@));
        let ghost w1 = self@;
        match &filter.text {
            Some(text) => {
                let idx = self.params.len() + 1;
                let mut c = owned_str("(comm LIKE ");
                push_placeholder(&mut c, idx);
                push_str(&mut c, " OR filename LIKE ");
                push_placeholder(&mut c, idx);
                push_str(&mut c, " OR argv LIKE ");
                push_placeholder(&mut c, idx);
                push_str(&mut c, ")");
                assert(c@ =~= text_condition(idx as nat));
                let mut p = owned_str("%");
                push_str(&mut p, text.as_str());
                push_str(&mut p, "%");
                proof {
                    lemma_push_views(self.conds@, c);
                    lemma_push_params(self.params@, SqlParam::Text(p));
                }
                self.conds.push(c);
                self.params.push(SqlParam::Text(p));
            },
            None => {},
        }
        assert(self@ == step_text(w1, f));
    }
}

/// Builds the WHERE clause and its positional parameters from a filter.
/// `users` resolves `user:` values that are account names.
pub fn build_where_clause(filter: &EventFilter, users: &PasswdTable) -> (r: (String, Vec<SqlParam>))
    requires
        where_fits(filter@),
    ensures
        r.0@ == where_clause(where_model(filter@, users@)),
        param_views(r.1@) == where_model(filter@, users@).params,
        r.1@.len() <= 11 + cmd_alternative_count(filter@),
{
    proof {
        reveal(where_model);
    }
    let mut w = WhereBuilder { conds: Vec::new(), params: Vec::new() };
    w.conds.push(owned_str("event_type = 'exec'"));
    assert(w@.conds =~= where_start().conds);
    assert(w@.params =~= where_start().params);
    w.apply_comm_exit_session(filter);
    w.apply_ids(filter);
    w.apply_paths(filter);
    w.apply_user_text(filter, users);
    let mut clause = owned_str("WHERE ");
    let joined = join_strings(&w.conds, " AND ");
    push_str(&mut clause, joined.as_str());
    (clause, w.params)
}

/// An owned copy of a string literal.
fn owned_str(s: &str) -> (r: String)
    ensures
        r@ == s@,
{
    crate::text::owned(s)
}

/// The columns of an event row in list views, in the order rows are read.
pub const SUMMARY_COLUMNS: &'static str = "id, timestamp, session_id, event_type, execution_id, pid, ppid, uid, euid, comm, filename, argv, exit_code";

/// The SQL keyword of a direction.
pub open spec fn direction_keyword(d: SortDirection) -> Seq<char> {
    match d {
        SortDirection::Asc => "ASC"@,
        SortDirection::Desc => "DESC"@,
    }
}

/// The statements of a page of the event list: a count of all matching
/// events, and the page itself.
#[derive(Debug, Clone)]
pub struct ListStatements {
    /// Counts the matching events.
    pub count_sql: String,
    /// The parameters of the count.
    pub count_params: Vec<SqlParam>,
    /// Selects the page, sorted, with the page size and offset bound last.
    pub select_sql: String,
    /// The parameters of the page query.
    pub select_params: Vec<SqlParam>,
}

/// The count statement of a filter's matches.
pub open spec fn count_sql(w: WhereModel) -> Seq<char> {
    "SELECT COUNT(*) FROM events "@ + where_clause(w)
}

/// The page statement: the filter's matches sorted by the requested column
/// (ties newest first), limited to the page.
pub open spec fn select_sql(w: WhereModel, sort: EventSortKey, dir: SortDirection) -> Seq<char> {
    "SELECT "@ + SUMMARY_COLUMNS@ + " FROM events "@ + where_clause(w) + " ORDER BY "@ + sort_column(
        sort,
    ) + " "@ + direction_keyword(dir) + ", id DESC LIMIT "@ + placeholder(w.params.len() + 1)
        + " OFFSET "@ + placeholder(w.params.len() + 2)
}

/// The statement of the live tail: up to 100 matches newer than a given
/// event, oldest first.
pub open spec fn since_sql(w: WhereModel) -> Seq<char> {
    "SELECT "@ + SUMMARY_COLUMNS@ + " FROM events "@ + where_clause(w) + " AND id > "@ + placeholder(
        w.params.len() + 1,
    ) + " ORDER BY id ASC LIMIT 100"@
}

/// Builds the statements of one page of the filtered, sorted event list.
pub fn list_statements(req: &ListRequest, filter: &EventFilter, users: &PasswdTable) -> (r: ListStatements)
    requires
        where_fits(filter@),
        offset_of(req.page, req.page_size) <= u32::MAX,
    ensures
        ({
            let w = where_model(filter@, users@);
            &&& r.count_sql@ == count_sql(w)
            &&& param_views(r.count_params@) == w.params
            &&& r.select_sql@ == select_sql(w, req.sort, req.direction)
            &&& param_views(r.select_params@) == w.params.push(ParamModel::Int(req.page_size as int)).push(
                ParamModel::Int(offset_of(req.page, req.page_size)),
            )
        }),
{
    let (clause, params) = build_where_clause(filter, users);
    let ghost w = where_model(filter@, users@);
    let mut count = owned_str("SELECT COUNT(*) FROM events ");
    push_str(&mut count, clause.as_str());
    let n = params.len();
    assert(n == w.params.len());
    let mut select = owned_str("SELECT ");
    push_str(&mut select, SUMMARY_COLUMNS);
    push_str(&mut select, " FROM events ");
    push_str(&mut select, clause.as_str());
    push_str(&mut select, " ORDER BY ");
    push_str(&mut select, req.sort.as_sql_column());
    push_str(&mut select, " ");
    push_str(&mut select, req.direction.as_sql());
    push_str(&mut select, ", id DESC LIMIT ");
    push_placeholder(&mut select, n + 1);
    push_str(&mut select, " OFFSET ");
    push_placeholder(&mut select, n + 2);
    assert(select@ =~= select_sql(w, req.sort, req.direction));
    let mut select_params = copy_params(&params);
    let offset = req.offset();
    proof {
        lemma_push_params(select_params@, SqlParam::Int(req.page_size as i64));
    }
    select_params.push(SqlParam::Int(req.page_size as i64));
    proof {
        lemma_push_params(select_params@, SqlParam::Int(offset as i64));
    }
    select_params.push(SqlParam::Int(offset as i64));
    ListStatements { count_sql: count, count_params: params, select_sql: select, select_params }
}

/// Builds the live-tail statement: matches of the filter newer than
/// `after_id`, oldest first, at most 100.
pub fn list_since_statement(after_id: i64, filter: &EventFilter, users: &PasswdTable) -> (r: (String, Vec<SqlParam>))
    requires
        where_fits(filter@),
    ensures
        ({
            let w = where_model(filter@, users@);
            &&& r.0@ == since_sql(w)
            &&& param_views(r.1@) == w.params.push(ParamModel::Int(after_id as int))
        }),
{
    let (clause, mut params) = build_where_clause(filter, users);
    let ghost w = where_model(filter@, users@);
    let n = params.len();
    assert(n == w.params.len());
    let mut sql = owned_str("SELECT ");
    push_str(&mut sql, SUMMARY_COLUMNS);
    push_str(&mut sql, " FROM events ");
    push_str(&mut sql, clause.as_str());
    push_str(&mut sql, " AND id > ");
    push_placeholder(&mut sql, n + 1);
    push_str(&mut sql, " ORDER BY id ASC LIMIT 100");
    assert(sql@ =~= since_sql(w));
    proof {
        lemma_push_params(params@, SqlParam::Int(after_id));
    }
    params.push(SqlParam::Int(after_id));
    (sql, params)
}

/// The newest event's ID, 0 for an empty table.
pub const MAX_EVENT_ID_SQL: &'static str = "SELECT COALESCE(MAX(id), 0) FROM events";

/// One event with every column of its detail, by ID (`?1`).
pub const DETAIL_SQL: &'static str = "SELECT id, timestamp, session_id, event_type, execution_id, pid, ppid, uid, gid, euid, comm, filename, argv, exit_code, tty_nr, fd, data, data_len, byte_count FROM events WHERE id = ?1";

/// The I/O of one exec of a process: session (`?1`), PID (`?2`) and
/// execution (`?3`), in the order it happened.
pub const IO_SQL: &'static str = "SELECT timestamp, fd, data, byte_count FROM events WHERE session_id = ?1 AND pid = ?2 AND execution_id = ?3 AND event_type IN ('read', 'write') ORDER BY id ASC";

/// The execs started by a process: session (`?1`) and parent PID (`?2`),
/// each with whether it has captured I/O, in the order they happened.
pub const CHILDREN_SQL: &'static str = "SELECT c.id, c.pid, c.comm, c.filename, c.argv, c.exit_code, EXISTS (SELECT 1 FROM events io WHERE io.session_id = c.session_id AND io.pid = c.pid AND io.execution_id = c.execution_id AND io.event_type IN ('read', 'write')) FROM events c WHERE c.session_id = ?1 AND c.ppid = ?2 AND c.event_type = 'exec' ORDER BY c.id ASC";

/// The exec of a process's parent in the same session: session (`?1`) and
/// the parent's PID (`?2`), the latest one before the child.
pub const PARENT_SQL: &'static str = "SELECT id, comm, filename, argv FROM events WHERE session_id = ?1 AND pid = ?2 AND event_type = 'exec' AND id < ?3 ORDER BY id DESC LIMIT 1";

} // verus!
