//! Presentation view models for events.

use vstd::prelude::*;

use crate::text::{
    lemma_replace_char_absent, replace_char,
    all_digits, chars_of, dec, dec_int, find_from, first_index, has_at, i64_to_string, join, join_strings,
    last_index, lemma_first_index, lemma_last_index, owned, push_str, rfind_char, starts_with,
    string_from_chars, string_from_range, u64_to_string, views,
};
use crate::web::event::{ChildProcess, EventDetail, EventSummary, IoChunk, ParentProcess};
use crate::web::filter::opt_text;
use crate::web::users::{display_uid, law_uid_shown_as_its_account, resolve_uid, unique_uids, PasswdTable};

verus! {

broadcast use vstd::string::group_string_axioms;

// ---------------------------------------------------------------------------
// Calls into outside crates
// ---------------------------------------------------------------------------

/// The error `serde_json` reports for text that is not the JSON expected.
#[verifier::external_type_specification]
#[verifier::external_body]
pub struct ExJsonError(serde_json::Error);

/// The error `ansi_to_html` reports for input it cannot convert.
#[verifier::external_type_specification]
#[verifier::external_body]
pub struct ExAnsiError(ansi_to_html::Error);

/// The strings of `text` read as a JSON array of strings, as
/// `serde_json::from_str::<Vec<String>>` reads it; `None` when it is not one.
pub uninterp spec fn json_strings(text: Seq<char>) -> Option<Seq<Seq<char>>>;

/// The HTML that `ansi_to_html::Converter` with the 4-bit colour variable
/// prefix `prefix` makes of `input`; `None` when it reports an error.
pub uninterp spec fn ansi_html(prefix: Seq<char>, input: Seq<char>) -> Option<Seq<char>>;

/// Parses `text` as a JSON array of strings (`serde_json::from_str`). The
/// contract names the result: the strings read, or failure, as a function
/// of the text.
#[verifier::external_body]
fn parse_json_strings(text: &str) -> (r: Result<Vec<String>, serde_json::Error>)
    ensures
        r matches Ok(v) ==> json_strings(text@) == Some(views(v@)),
        r is Err ==> json_strings(text@) is None,
{
    serde_json::from_str::<Vec<String>>(text)
}

/// Converts ANSI escape sequences in `input` to HTML
/// (`ansi_to_html::Converter::new().four_bit_var_prefix(..).convert(..)`).
/// The contract names the result as a function of the prefix and the input.
#[verifier::external_body]
fn convert_ansi(prefix: &str, input: &str) -> (r: Result<String, ansi_to_html::Error>)
    ensures
        r matches Ok(h) ==> ansi_html(prefix@, input@) == Some(h@),
        r is Err ==> ansi_html(prefix@, input@) is None,
{
    ansi_to_html::Converter::new().four_bit_var_prefix(Some(prefix.to_owned())).convert(input)
}

// ---------------------------------------------------------------------------
// Specifications
// ---------------------------------------------------------------------------

/// The dash shown for a missing value.
pub open spec fn em_dash() -> Seq<char> {
    seq!['\u{2014}']
}

/// The mark appended to a shortened text.
pub open spec fn ellipsis() -> Seq<char> {
    seq!['\u{2026}']
}

/// The arguments a stored argv column holds, when it is a JSON array of
/// strings.
pub open spec fn argv_of(argv: Option<Seq<char>>) -> Option<Seq<Seq<char>>> {
    match argv {
        Some(a) => json_strings(a),
        None => None,
    }
}

/// `argv[0]`, when there is one and it is not empty.
pub open spec fn argv0(argv: Option<Seq<Seq<char>>>) -> Option<Seq<char>> {
    match argv {
        Some(v) => if v.len() > 0 && v[0].len() > 0 {
            Some(v[0])
        } else {
            None
        },
        None => None,
    }
}

/// Whether `s` is a nonempty run of ASCII digits.
pub open spec fn digit_run(s: Seq<char>) -> bool {
    s.len() > 0 && all_digits(s)
}

/// Whether a path names an open file descriptor: `/proc/self/fd/<N>`,
/// `/proc/<pid>/fd/<N>` or `/dev/fd/<N>`.
pub open spec fn is_fd_path_spec(p: Seq<char>) -> bool {
    if starts_with(p, "/proc/"@) {
        let rest = p.skip(6);
        match first_index(rest, '/') {
            Some(i) => {
                let tail = rest.skip(i + 1);
                starts_with(tail, "fd/"@) && digit_run(tail.skip(3))
            },
            None => false,
        }
    } else if starts_with(p, "/dev/fd/"@) {
        digit_run(p.skip(8))
    } else {
        false
    }
}

/// The last component of a path.
pub open spec fn basename(p: Seq<char>) -> Seq<char> {
    match last_index(p, '/') {
        Some(i) => p.skip(i + 1),
        None => p,
    }
}

/// The shown command name when there is no command at all.
pub open spec fn comm_display(comm: Option<Seq<char>>) -> Seq<char> {
    match comm {
        Some(c) => c,
        None => em_dash(),
    }
}

/// The directory and name a command is shown under. For a descriptor path
/// the directory is the path and the name is the basename of `argv[0]`
/// (else the command name); otherwise the executed path (else `argv[0]`) is
/// split at its last `/`, and a bare name has no directory.
pub open spec fn command_parts(filename: Option<Seq<char>>, argv: Option<Seq<Seq<char>>>, comm: Seq<char>) -> (Seq<char>, Seq<char>) {
    let path = match filename {
        Some(f) => if f.len() > 0 {
            Some(f)
        } else {
            None
        },
        None => None,
    };
    match path {
        Some(f) => if is_fd_path_spec(f) {
            (
                f,
                match argv0(argv) {
                    Some(a) => basename(a),
                    None => comm,
                },
            )
        } else {
            split_path(f, comm)
        },
        None => split_path(
            match argv0(argv) {
                Some(a) => a,
                None => Seq::empty(),
            },
            comm,
        ),
    }
}

/// A path split into its directory (with the trailing `/`) and its last
/// component; a bare name has no directory, and an empty one shows `comm`.
pub open spec fn split_path(full: Seq<char>, comm: Seq<char>) -> (Seq<char>, Seq<char>) {
    match last_index(full, '/') {
        Some(i) => (full.take(i) + seq!['/'], full.skip(i + 1)),
        None => (
            Seq::empty(),
            if full.len() == 0 {
                comm
            } else {
                full
            },
        ),
    }
}

/// The arguments after the program, joined with spaces.
pub open spec fn args_tail(argv: Option<Seq<Seq<char>>>) -> Seq<char> {
    match argv {
        Some(v) => if v.len() > 1 {
            join(v.skip(1), " "@)
        } else {
            Seq::empty()
        },
        None => Seq::empty(),
    }
}

/// `s` cut to `max` characters, the last of them an ellipsis, when longer.
pub open spec fn truncated(s: Seq<char>, max: nat) -> Seq<char> {
    if s.len() <= max {
        s
    } else {
        s.take(max - 1) + ellipsis()
    }
}

/// Truncation keeps a string within the limit: a string of at most `max`
/// characters is kept whole; a longer one becomes exactly `max` characters,
/// its first `max - 1` followed by an ellipsis.
pub proof fn law_truncation_fits(s: Seq<char>, max: nat)
    requires
        max > 0,
    ensures
        truncated(s, max).len() == (if s.len() <= max {
            s.len()
        } else {
            max
        }),
        s.len() > max ==> truncated(s, max).take(max - 1) == s.take(max - 1),
        s.len() > max ==> truncated(s, max).last() == '\u{2026}',
{
    reveal_strlit("\u{2026}");
    if s.len() > max {
        assert(truncated(s, max).take(max - 1) =~= s.take(max - 1));
    }
}

/// The command with its arguments.
pub open spec fn with_args(name: Seq<char>, args: Seq<char>) -> Seq<char> {
    if args.len() == 0 {
        name
    } else {
        name + " "@ + args
    }
}

/// The number of bytes of the UTF-8 encoding of `c`.
pub open spec fn char_width(c: char) -> nat {
    if (c as u32) < 0x80 {
        1
    } else if (c as u32) < 0x800 {
        2
    } else if (c as u32) < 0x10000 {
        3
    } else {
        4
    }
}

/// The number of bytes of the UTF-8 encoding of `s` (std's `str::len`).
pub open spec fn utf8_len(s: Seq<char>) -> nat
    decreases s.len(),
{
    if s.len() == 0 {
        0
    } else {
        utf8_len(s.drop_last()) + char_width(s.last())
    }
}

/// Whether the first `bytes` bytes of `s` end on a character boundary.
pub open spec fn boundary_at(s: Seq<char>, bytes: nat) -> bool {
    exists|k: int| 0 <= k <= s.len() && #[trigger] utf8_len(s.take(k)) == bytes
}

/// The session ID as the list column shows it: cut after its first ten
/// bytes, with an ellipsis, when it is longer.
pub open spec fn short_session(s: Seq<char>) -> Seq<char> {
    if utf8_len(s) > 10 {
        s.take(choose|k: int| 0 <= k <= s.len() && #[trigger] utf8_len(s.take(k)) == 10)
            + ellipsis()
    } else {
        s
    }
}

/// A timestamp without its fractional seconds.
pub open spec fn timestamp_display(t: Seq<char>) -> Seq<char> {
    match first_index(t, '.') {
        Some(i) => t.take(i),
        None => t,
    }
}

/// How an exit code is shown.
pub open spec fn exit_display(code: Option<i32>) -> Seq<char> {
    match code {
        Some(c) => dec_int(c as int),
        None => em_dash(),
    }
}

/// The CSS class of an exit code: green for success, red for failure, grey
/// while unknown.
pub open spec fn exit_class(code: Option<i32>) -> Seq<char> {
    match code {
        Some(c) => if c == 0 {
            "text-green-400"@
        } else {
            "text-red-400"@
        },
        None => "text-gray-500"@,
    }
}

/// The length of the shortened arguments column.
pub const MAX_ARGS_DISPLAY_LEN: usize = 40;

// ---------------------------------------------------------------------------
// Helpers
// ---------------------------------------------------------------------------

/// Whether `v[from..]` is a nonempty run of ASCII digits.
fn digits_from(v: &[char], from: usize) -> (r: bool)
    requires
        from <= v@.len(),
    ensures
        r == digit_run(v@.skip(from as int)),
{
    if from == v.len() {
        return false;
    }
    let mut i = from;
    while i < v.len()
        invariant
            from <= i <= v@.len(),
            forall|k: int| from <= k < i ==> '0' <= #[trigger] v@[k] <= '9',
        decreases v.len() - i,
    {
        if !('0' <= v[i] && v[i] <= '9') {
            assert(v@.skip(from as int)[i - from] == v@[i as int]);
            return false;
        }
        i = i + 1;
    }
    assert forall|k: int| 0 <= k < v@.skip(from as int).len() implies crate::text::is_digit(
        #[trigger] v@.skip(from as int)[k],
    ) by {
        assert(v@.skip(from as int)[k] == v@[from + k]);
    }
    true
}

/// Whether `v` starts with the characters of `lit`.
fn starts_with_lit(v: &[char], lit: &str) -> (r: bool)
    ensures
        r == starts_with(v@, lit@),
{
    let l = chars_of(lit);
    let r = has_at(v, 0, &l);
    proof {
        if l@.len() <= v@.len() {
            assert(v@.subrange(0, l@.len() as int) =~= v@.take(l@.len() as int));
        }
    }
    r
}

/// Whether a path is an fd-based execution path (e.g. `/proc/self/fd/9`).
pub fn is_fd_path(path: &str) -> (r: bool)
    ensures
        r == is_fd_path_spec(path@),
{
    proof {
        reveal_strlit("/proc/");
        reveal_strlit("fd/");
        reveal_strlit("/dev/fd/");
    }
    let v = chars_of(path);
    if starts_with_lit(&v, "/proc/") {
        let ghost rest = v@.skip(6);
        let i: usize = match find_from(&v, 6, '/') {
            Some(i) => i,
            None => {
                return false;
            },
        };
        assert(i < v.len());
        let tail_start: usize = i + 1;
        let ghost tail = rest.skip(i - 6 + 1);
        assert(tail =~= v@.skip(tail_start as int));
        let fd = chars_of("fd/");
        if !(has_at(&v, tail_start, &fd)) {
            proof {
                if starts_with(tail, "fd/"@) {
                    assert(v@.subrange(tail_start as int, tail_start + 3) =~= tail.take(3));
                }
            }
            return false;
        }
        assert(v@.subrange(tail_start as int, tail_start + 3) =~= tail.take(3));
        assert(tail.skip(3) =~= v@.skip(tail_start + 3));
        digits_from(&v, tail_start + 3)
    } else if starts_with_lit(&v, "/dev/fd/") {
        digits_from(&v, 8)
    } else {
        false
    }
}

/// The arguments of an optional argv column, when it is a JSON array of
/// strings.
pub fn parse_argv(argv: &Option<String>) -> (r: Option<Vec<String>>)
    ensures
        r matches Some(v) ==> argv_of(opt_text(*argv)) == Some(views(v@)),
        r is None ==> argv_of(opt_text(*argv)) is None,
{
    match argv {
        Some(a) => match parse_json_strings(a.as_str()) {
            Ok(v) => Some(v),
            Err(_) => None,
        },
        None => None,
    }
}

/// The views of optionally parsed arguments.
pub open spec fn opt_views(argv: Option<Vec<String>>) -> Option<Seq<Seq<char>>> {
    match argv {
        Some(v) => Some(views(v@)),
        None => None,
    }
}

/// `argv[0]` of parsed arguments, when present and not empty.
fn first_arg(argv: &Option<Vec<String>>) -> (r: Option<String>)
    ensures
        opt_text(r) == argv0(opt_views(*argv)),
{
    match argv {
        Some(v) => {
            if v.len() > 0 && v[0].as_str().unicode_len() > 0 {
                proof {
                    assert(views(v@)[0] == v@[0]@);
                }
                Some(v[0].clone())
            } else {
                proof {
                    if v@.len() > 0 {
                        assert(views(v@)[0] == v@[0]@);
                    }
                }
                None
            }
        },
        None => None,
    }
}

/// The last component of a path.
fn basename_of(p: &[char]) -> (r: String)
    ensures
        r@ == basename(p@),
{
    match rfind_char(p, '/') {
        Some(i) => {
            proof {
                lemma_last_index(p@, '/');
            }
            assert(i < p.len());
            let j: usize = i + 1;
            let r = string_from_range(p, j, p.len());
            assert(r@ =~= p@.skip(i + 1));
            r
        },
        None => string_from_chars(p),
    }
}

/// A path split into directory and name, as `split_path`.
fn split_full_path(full: &[char], comm: &String) -> (r: (String, String))
    ensures
        (r.0@, r.1@) == split_path(full@, comm@),
{
    match rfind_char(full, '/') {
        Some(i) => {
            proof {
                lemma_last_index(full@, '/');
            }
            assert(i < full.len());
            let mut dir = string_from_range(full, 0, i);
            crate::text::push_char(&mut dir, '/');
            let j: usize = i + 1;
            let name = string_from_range(full, j, full.len());
            assert(dir@ =~= full@.take(i as int) + seq!['/']);
            assert(name@ =~= full@.skip(i + 1));
            (dir, name)
        },
        None => {
            if full.len() == 0 {
                (String::new(), comm.clone())
            } else {
                (String::new(), string_from_chars(full))
            }
        },
    }
}

/// The arguments after the program, joined with spaces.
fn args_after_program(argv: &Option<Vec<String>>) -> (r: String)
    ensures
        r@ == args_tail(opt_views(*argv)),
{
    match argv {
        Some(v) => {
            if v.len() > 1 {
                let mut tail: Vec<String> = Vec::new();
                let mut i: usize = 1;
                while i < v.len()
                    invariant
                        1 <= i <= v@.len(),
                        tail@.len() == i - 1,
                        forall|k: int| 0 <= k < i - 1 ==> tail@[k] == v@[k + 1],
                    decreases v.len() - i,
                {
                    tail.push(v[i].clone());
                    i = i + 1;
                }
                let r = join_strings(&tail, " ");
                assert(views(tail@) =~= views(v@).skip(1));
                r
            } else {
                String::new()
            }
        },
        None => String::new(),
    }
}

/// Truncate a string to `max_len` chars, appending "\u{2026}" if truncated.
pub fn truncate(s: &str, max_len: usize) -> (r: String)
    requires
        s@.len() > max_len ==> max_len > 0,
    ensures
        r@ == truncated(s@, max_len as nat),
{
    let v = chars_of(s);
    if v.len() <= max_len {
        owned(s)
    } else {
        let mut r = string_from_range(&v, 0, max_len - 1);
        crate::text::push_char(&mut r, '\u{2026}');
        assert(r@ =~= s@.take(max_len - 1) + ellipsis());
        r
    }
}

/// The UTF-8 width of a character.
fn width_of(c: char) -> (r: usize)
    ensures
        r == char_width(c),
{
    if (c as u32) < 0x80 {
        1
    } else if (c as u32) < 0x800 {
        2
    } else if (c as u32) < 0x10000 {
        3
    } else {
        4
    }
}

proof fn lemma_utf8_len_mono(s: Seq<char>, j: int, k: int)
    requires
        0 <= j <= k <= s.len(),
    ensures
        utf8_len(s.take(j)) <= utf8_len(s.take(k)),
        j < k ==> utf8_len(s.take(j)) < utf8_len(s.take(k)),
    decreases k - j,
{
    if j < k {
        lemma_utf8_len_mono(s, j, k - 1);
        assert(s.take(k).drop_last() =~= s.take(k - 1));
    }
}

/// The number of bytes of the UTF-8 encoding of `s` (std's `str::len`).
pub fn utf8_byte_len(s: &str) -> (r: u64)
    requires
        utf8_len(s@) <= u64::MAX,
    ensures
        r == utf8_len(s@),
{
    let v = chars_of(s);
    let mut total: u64 = 0;
    let mut i: usize = 0;
    assert(v@.take(0) =~= Seq::<char>::empty());
    while i < v.len()
        invariant
            i <= v@.len(),
            v@ == s@,
            total == utf8_len(v@.take(i as int)),
            utf8_len(s@) <= u64::MAX,
        decreases v.len() - i,
    {
        assert(v@.take(i + 1).drop_last() =~= v@.take(i as int));
        proof {
            lemma_utf8_len_mono(v@, i + 1, v@.len() as int);
            assert(v@.take(v@.len() as int) =~= v@);
        }
        total = total + width_of(v[i]) as u64;
        i = i + 1;
    }
    assert(v@.take(v@.len() as int) =~= v@);
    total
}

/// The session ID as the list column shows it.
pub fn shorten_session(s: &str) -> (r: String)
    requires
        utf8_len(s@) > 10 ==> boundary_at(s@, 10),
    ensures
        r@ == short_session(s@),
{
    let v = chars_of(s);
    let mut i: usize = 0;
    let mut bytes: usize = 0;
    assert(v@.take(0) =~= Seq::<char>::empty());
    while i < v.len() && bytes < 10
        invariant
            i <= v@.len(),
            v@ == s@,
            bytes == utf8_len(v@.take(i as int)),
            bytes <= 13,
            i > 0 ==> utf8_len(v@.take(i - 1)) < 10,
        decreases v.len() - i,
    {
        assert(v@.take(i + 1).drop_last() =~= v@.take(i as int));
        bytes = bytes + width_of(v[i]);
        i = i + 1;
    }
    proof {
        assert(v@.take(v@.len() as int) =~= v@);
        lemma_utf8_len_mono(v@, i as int, v@.len() as int);
    }
    if bytes > 10 || i < v.len() {
        proof {
            let k = choose|k: int| 0 <= k <= s@.len() && #[trigger] utf8_len(s@.take(k)) == 10;
            if k < i {
                lemma_utf8_len_mono(v@, k, i - 1);
            } else if k > i {
                lemma_utf8_len_mono(v@, i as int, k);
            }
            assert(k == i);
        }
        let mut r = string_from_range(&v, 0, i);
        crate::text::push_char(&mut r, '\u{2026}');
        assert(r@ =~= s@.take(i as int) + ellipsis());
        r
    } else {
        owned(s)
    }
}

/// A timestamp without its fractional seconds.
pub fn format_timestamp(t: &str) -> (r: String)
    ensures
        r@ == timestamp_display(t@),
{
    let v = chars_of(t);
    match crate::text::find_char(&v, '.') {
        Some(i) => {
            proof {
                lemma_first_index(v@, '.');
            }
            let r = string_from_range(&v, 0, i);
            assert(r@ =~= t@.take(i as int));
            r
        },
        None => owned(t),
    }
}

/// The display text and CSS class of an exit code.
pub fn exit_code_display(code: Option<i32>) -> (r: (String, &'static str))
    ensures
        r.0@ == exit_display(code),
        r.1@ == exit_class(code),
{
    match code {
        Some(0) => {
            let s = i64_to_string(0);
            (s, "text-green-400")
        },
        Some(c) => (i64_to_string(c as i64), "text-red-400"),
        None => {
            proof {
                reveal_strlit("\u{2014}");
            }
            (owned("\u{2014}"), "text-gray-500")
        },
    }
}

// ---------------------------------------------------------------------------
// The event list row
// ---------------------------------------------------------------------------

/// Formatted event summary for display in the event table.
///
/// All fields are pre-formatted strings ready for template rendering.
#[derive(Debug, Clone)]
pub struct EventSummaryView {
    /// Database ID (for constructing detail URLs).
    pub id: i64,
    /// Formatted timestamp, e.g. "2026-05-10 14:32:01".
    pub timestamp: String,
    /// Session ID, cut for the list column.
    pub session_id_short: String,
    /// Full session ID (for tooltips / detail view).
    pub session_id: String,
    /// The user the UID resolves to.
    pub user: String,
    /// Command name, or "\u{2014}" if absent.
    pub comm: String,
    /// Basename of the executed binary, e.g. "ps", "cargo". Bold in UI.
    pub command_name: String,
    /// Directory portion of the full path, e.g. "/usr/bin/". Empty when
    /// only a bare name is available. Rendered in a lighter font.
    pub command_dir: String,
    /// Arguments (argv[1..]), truncated, for display after the name.
    pub command_args: String,
    /// Full command + args (for tooltip on the cell).
    pub command_full: String,
    /// Exit code display: "0", "1", "\u{2014}" (for None).
    pub exit_code: String,
    /// CSS class for exit code styling.
    pub exit_code_class: &'static str,
    /// Raw UID for click-to-filter.
    pub uid: u32,
    /// Raw exit code for click-to-filter (None when not yet exited).
    pub exit_code_raw: Option<i32>,
}

/// Whether `r` is the list row of summary `s` whose argv column reads as
/// `argv`, with UIDs resolved through `users`.
pub open spec fn is_summary_view(
    r: EventSummaryView,
    s: EventSummary,
    argv: Option<Seq<Seq<char>>>,
    users: Seq<(u32, Seq<char>)>,
) -> bool {
    let comm = comm_display(opt_text(s.comm));
    let parts = command_parts(opt_text(s.filename), argv, comm);
    let args = truncated(args_tail(argv), MAX_ARGS_DISPLAY_LEN as nat);
    &&& r.id == s.id
    &&& r.timestamp@ == timestamp_display(s.timestamp@)
    &&& r.session_id_short@ == short_session(s.session_id@)
    &&& r.session_id@ == s.session_id@
    &&& r.user@ == display_uid(users, s.uid)
    &&& r.comm@ == comm
    &&& r.command_dir@ == parts.0
    &&& r.command_name@ == parts.1
    &&& r.command_args@ == args
    &&& r.command_full@ == with_args(parts.1, args)
    &&& r.exit_code@ == exit_display(s.exit_code)
    &&& r.exit_code_class@ == exit_class(s.exit_code)
    &&& r.uid == s.uid
    &&& r.exit_code_raw == s.exit_code
}

/// Whether the session ID of a summary can be cut for the list column (its
/// tenth byte ends a character, when it is longer than ten bytes).
pub open spec fn session_cuttable(s: EventSummary) -> bool {
    utf8_len(s.session_id@) > 10 ==> boundary_at(s.session_id@, 10)
}

/// The shown command name: the recorded one, else a dash.
fn comm_or_dash(comm: &Option<String>) -> (r: String)
    ensures
        r@ == comm_display(opt_text(*comm)),
{
    match comm {
        Some(c) => c.clone(),
        None => {
            proof {
                reveal_strlit("\u{2014}");
            }
            owned("\u{2014}")
        },
    }
}

/// The directory and name a command is shown under.
fn command_dir_and_name(filename: &Option<String>, argv: &Option<Vec<String>>, comm: &String) -> (r: (
    String,
    String,
))
    ensures
        (r.0@, r.1@) == command_parts(opt_text(*filename), opt_views(*argv), comm@),
{
    let path: Option<&String> = match filename {
        Some(f) => if f.as_str().unicode_len() > 0 {
            Some(f)
        } else {
            None
        },
        None => None,
    };
    match path {
        Some(f) => {
            if is_fd_path(f.as_str()) {
                let name = match first_arg(argv) {
                    Some(a) => basename_of(&chars_of(a.as_str())),
                    None => comm.clone(),
                };
                (f.clone(), name)
            } else {
                split_full_path(&chars_of(f.as_str()), comm)
            }
        },
        None => {
            let full: Vec<char> = match first_arg(argv) {
                Some(a) => chars_of(a.as_str()),
                None => Vec::new(),
            };
            split_full_path(&full, comm)
        },
    }
}

impl EventSummaryView {
    /// The list row of a summary whose argv column has been read as `argv`.
    pub fn from_parts(s: &EventSummary, argv: &Option<Vec<String>>, users: &PasswdTable) -> (r: Self)
        requires
            session_cuttable(*s),
        ensures
            is_summary_view(r, *s, opt_views(*argv), users@),
    {
        let comm = comm_or_dash(&s.comm);
        let (command_dir, command_name) = command_dir_and_name(&s.filename, argv, &comm);
        let all_args = args_after_program(argv);
        let command_args = truncate(all_args.as_str(), MAX_ARGS_DISPLAY_LEN);
        let command_full = if command_args.as_str().unicode_len() == 0 {
            command_name.clone()
        } else {
            let mut full = command_name.clone();
            push_str(&mut full, " ");
            push_str(&mut full, command_args.as_str());
            full
        };
        let (exit_code, exit_code_class) = exit_code_display(s.exit_code);
        EventSummaryView {
            id: s.id,
            timestamp: format_timestamp(s.timestamp.as_str()),
            session_id_short: shorten_session(s.session_id.as_str()),
            session_id: s.session_id.clone(),
            user: resolve_uid(users, s.uid),
            comm,
            command_name,
            command_dir,
            command_args,
            command_full,
            exit_code,
            exit_code_class,
            uid: s.uid,
            exit_code_raw: s.exit_code,
        }
    }

    /// Create a view from a domain `EventSummary`, resolving its UID
    /// through `users`.
    pub fn from_summary(s: &EventSummary, users: &PasswdTable) -> (r: Self)
        requires
            session_cuttable(*s),
        ensures
            is_summary_view(r, *s, argv_of(opt_text(s.argv)), users@),
    {
        let argv = parse_argv(&s.argv);
        Self::from_parts(s, &argv, users)
    }
}

// ---------------------------------------------------------------------------
// The detail panel
// ---------------------------------------------------------------------------

/// A command line for display: the arguments joined with spaces, else the
/// executed path, else the command name, else nothing.
pub open spec fn command_string(argv: Option<Seq<Seq<char>>>, filename: Option<Seq<char>>, comm: Option<Seq<char>>) -> Seq<char> {
    let fallback = match filename {
        Some(f) => f,
        None => match comm {
            Some(c) => c,
            None => Seq::empty(),
        },
    };
    match argv {
        Some(v) => if v.len() > 0 {
            join(v, " "@)
        } else {
            fallback
        },
        None => fallback,
    }
}

/// `s` with `&`, `<` and `>` written as HTML entities.
pub open spec fn html_escape(s: Seq<char>) -> Seq<char> {
    replace_char(replace_char(replace_char(s, '&', "&amp;"@), '<', "&lt;"@), '>', "&gt;"@)
}

/// Escaped text holds no markup: after HTML-escaping, no `<` or `>` is
/// left, so captured output shown through the fallback cannot open a tag.
pub proof fn law_escaped_text_has_no_tags(s: Seq<char>)
    ensures
        !html_escape(s).contains('<'),
        !html_escape(s).contains('>'),
{
    reveal_strlit("&amp;");
    reveal_strlit("&lt;");
    reveal_strlit("&gt;");
    let a = replace_char(s, '&', "&amp;"@);
    let b = replace_char(a, '<', "&lt;"@);
    assert(!"&lt;"@.contains('<')) by {
        if "&lt;"@.contains('<') {
            let k = choose|k: int| 0 <= k < "&lt;"@.len() && "&lt;"@[k] == '<';
        }
    }
    assert(!"&gt;"@.contains('<')) by {
        if "&gt;"@.contains('<') {
            let k = choose|k: int| 0 <= k < "&gt;"@.len() && "&gt;"@[k] == '<';
        }
    }
    assert(!"&gt;"@.contains('>')) by {
        if "&gt;"@.contains('>') {
            let k = choose|k: int| 0 <= k < "&gt;"@.len() && "&gt;"@[k] == '>';
        }
    }
    lemma_replace_char_absent(a, '<', "&lt;"@, '<');
    lemma_replace_char_absent(b, '>', "&gt;"@, '<');
    lemma_replace_char_absent(b, '>', "&gt;"@, '>');
}

/// Terminal output as HTML: the converter's HTML, or the escaped text when
/// the converter fails.
pub open spec fn terminal_html(raw: Seq<char>) -> Seq<char> {
    match ansi_html("ansi-"@, raw) {
        Some(h) => h,
        None => html_escape(raw),
    }
}

/// How a TTY number is shown: `pts/<minor>` for pseudo-terminals (major
/// 136), `<major>/<minor>` for other devices, a dash for none.
pub open spec fn tty_display(tty_nr: Option<u32>) -> Seq<char> {
    match tty_nr {
        Some(nr) => if nr > 0 {
            let major = ((nr / 256) % 256) as nat;
            let minor = (nr % 256) as nat;
            if major == 136 {
                "pts/"@ + dec(minor)
            } else {
                dec(major) + "/"@ + dec(minor)
            }
        } else {
            em_dash()
        },
        None => em_dash(),
    }
}

/// The data of the chunks, concatenated in order.
pub open spec fn chunks_text(c: Seq<IoChunk>) -> Seq<char>
    decreases c.len(),
{
    if c.len() == 0 {
        Seq::empty()
    } else {
        chunks_text(c.drop_last()) + c.last().data@
    }
}

/// The total byte count of the chunks.
pub open spec fn chunks_bytes(c: Seq<IoChunk>) -> int
    decreases c.len(),
{
    if c.len() == 0 {
        0
    } else {
        chunks_bytes(c.drop_last()) + c.last().byte_count
    }
}

/// A UID shown with its user: `name (uid)`.
pub open spec fn uid_label(users: Seq<(u32, Seq<char>)>, uid: u32) -> Seq<char> {
    display_uid(users, uid) + " ("@ + dec(uid as nat) + ")"@
}

/// Formatted event detail for the expansion panel.
#[derive(Debug, Clone)]
pub struct EventDetailView {
    /// Event ID.
    pub id: i64,
    /// Full session ID.
    pub session_id: String,
    /// PID.
    pub pid: String,
    /// PPID.
    pub ppid: String,
    /// UID.
    pub uid: String,
    /// EUID.
    pub euid: String,
    /// GID.
    pub gid: String,
    /// TTY device string, e.g. "pts/3" or "\u{2014}".
    pub tty: String,
    /// Full command line (filename + argv joined).
    pub full_command: String,
    /// Event type.
    pub event_type: String,
    /// Timestamp.
    pub timestamp: String,
    /// Exit code display.
    pub exit_code: String,
    /// Whether there is any stdin data.
    pub has_stdin: bool,
    /// Stdin data rendered as HTML (ANSI escape codes converted to `<span>` tags).
    pub stdin_html: String,
    /// Total stdin bytes.
    pub stdin_bytes: u64,
    /// Whether there is any stdout data.
    pub has_stdout: bool,
    /// Stdout/stderr data rendered as HTML (ANSI escape codes converted to `<span>` tags).
    pub stdout_html: String,
    /// Total stdout bytes.
    pub stdout_bytes: u64,
    /// Raw UID for click-to-filter.
    pub uid_raw: u32,
    /// Raw EUID for click-to-filter.
    pub euid_raw: u32,
    /// Raw TTY number for click-to-filter (None when no TTY).
    pub tty_nr_raw: Option<u32>,
    /// Raw exit code for click-to-filter (None when not yet exited).
    pub exit_code_raw: Option<i32>,
    /// Child processes spawned by this process.
    pub children: Vec<ChildProcessView>,
    /// Parent process info (if found in the same session).
    pub parent: Option<ParentProcessView>,
}

/// View model for a child process displayed in the parent's detail panel.
#[derive(Debug, Clone)]
pub struct ChildProcessView {
    /// Database event ID.
    pub id: i64,
    /// PID.
    pub pid: u32,
    /// Formatted command string.
    pub command: String,
    /// Exit code display.
    pub exit_code: String,
    /// CSS class for exit code.
    pub exit_code_class: &'static str,
    /// Whether this child has captured I/O.
    pub has_io: bool,
}

/// View model for a parent process link in the child's detail panel.
#[derive(Debug, Clone)]
pub struct ParentProcessView {
    /// Database event ID (for navigation).
    pub id: i64,
    /// Formatted command string.
    pub command: String,
}

/// Whether `r` shows child process `c`.
pub open spec fn is_child_view(r: ChildProcessView, c: ChildProcess) -> bool {
    &&& r.id == c.id
    &&& r.pid == c.pid
    &&& r.command@ == command_string(argv_of(opt_text(c.argv)), opt_text(c.filename), opt_text(c.comm))
    &&& r.exit_code@ == exit_display(c.exit_code)
    &&& r.exit_code_class@ == exit_class(c.exit_code)
    &&& r.has_io == c.has_io
}

/// Whether `r` shows parent process `p`.
pub open spec fn is_parent_view(r: ParentProcessView, p: ParentProcess) -> bool {
    &&& r.id == p.id
    &&& r.command@ == command_string(argv_of(opt_text(p.argv)), opt_text(p.filename), opt_text(p.comm))
}

/// Whether the byte counts of an event's I/O can be summed.
pub open spec fn io_totals_fit(d: EventDetail) -> bool {
    chunks_bytes(d.stdin_data@) <= u64::MAX && chunks_bytes(d.stdout_data@) <= u64::MAX
}

/// Whether `r` is the detail panel of `d`, with UIDs resolved through
/// `users`.
pub open spec fn is_detail_view(r: EventDetailView, d: EventDetail, users: Seq<(u32, Seq<char>)>) -> bool {
    let s = d.summary;
    &&& r.id == s.id
    &&& r.session_id@ == s.session_id@
    &&& r.pid@ == dec(s.pid as nat)
    &&& r.ppid@ == dec(s.ppid as nat)
    &&& r.uid@ == uid_label(users, s.uid)
    &&& r.euid@ == uid_label(users, s.euid)
    &&& r.gid@ == dec(d.gid as nat)
    &&& r.tty@ == tty_display(d.tty_nr)
    &&& r.full_command@ == command_string(argv_of(opt_text(s.argv)), opt_text(s.filename), opt_text(s.comm))
    &&& r.event_type@ == s.event_type@
    &&& r.timestamp@ == s.timestamp@
    &&& r.exit_code@ == exit_display(s.exit_code)
    &&& r.has_stdin == (d.stdin_data@.len() > 0)
    &&& r.stdin_html@ == terminal_html(chunks_text(d.stdin_data@))
    &&& r.stdin_bytes == chunks_bytes(d.stdin_data@)
    &&& r.has_stdout == (d.stdout_data@.len() > 0)
    &&& r.stdout_html@ == terminal_html(chunks_text(d.stdout_data@))
    &&& r.stdout_bytes == chunks_bytes(d.stdout_data@)
    &&& r.uid_raw == s.uid
    &&& r.euid_raw == s.euid
    &&& r.tty_nr_raw == (match d.tty_nr {
        Some(nr) => if nr > 0 {
            Some(nr)
        } else {
            None
        },
        None => None,
    })
    &&& r.exit_code_raw == s.exit_code
    &&& r.children@.len() == d.children@.len()
    &&& forall|i: int| 0 <= i < r.children@.len() ==> is_child_view(#[trigger] r.children@[i], d.children@[i])
    &&& match (r.parent, d.parent) {
        (Some(rp), Some(dp)) => is_parent_view(rp, dp),
        (None, None) => true,
        _ => false,
    }
}

/// A list row names the user who ran the command by the real UID: the
/// account of the event's `uid` (its number when no account has it),
/// whatever the effective UID, so a command run under sudo is listed under
/// the user who typed it.
pub proof fn law_row_user_is_real_uid(
    r: EventSummaryView,
    s: EventSummary,
    argv: Option<Seq<Seq<char>>>,
    users: Seq<(u32, Seq<char>)>,
)
    requires
        is_summary_view(r, s, argv, users),
        unique_uids(users),
    ensures
        forall|k: int| 0 <= k < users.len() && #[trigger] users[k].0 == s.uid ==> r.user@ == users[k].1,
        (forall|k: int| 0 <= k < users.len() ==> #[trigger] users[k].0 != s.uid) ==> r.user@ == dec(s.uid as nat),
        r.uid == s.uid,
{
    law_uid_shown_as_its_account(users, s.uid);
}

/// The detail panel labels each ID by its own value: the UID line shows the
/// account and number of the event's real `uid`, the EUID line those of its
/// effective `euid` (for a command run under sudo, `root (0)`), each as
/// `name (number)`, the number twice when no account has it; PID, PPID and
/// GID are shown as their numbers.
pub proof fn law_detail_ids_labelled(r: EventDetailView, d: EventDetail, users: Seq<(u32, Seq<char>)>)
    requires
        is_detail_view(r, d, users),
        unique_uids(users),
    ensures
        forall|k: int|
            0 <= k < users.len() && #[trigger] users[k].0 == d.summary.uid ==> r.uid@ == users[k].1 + " ("@
                + dec(d.summary.uid as nat) + ")"@,
        (forall|k: int| 0 <= k < users.len() ==> #[trigger] users[k].0 != d.summary.uid) ==> r.uid@ == dec(
            d.summary.uid as nat,
        ) + " ("@ + dec(d.summary.uid as nat) + ")"@,
        forall|k: int|
            0 <= k < users.len() && #[trigger] users[k].0 == d.summary.euid ==> r.euid@ == users[k].1 + " ("@
                + dec(d.summary.euid as nat) + ")"@,
        (forall|k: int| 0 <= k < users.len() ==> #[trigger] users[k].0 != d.summary.euid) ==> r.euid@ == dec(
            d.summary.euid as nat,
        ) + " ("@ + dec(d.summary.euid as nat) + ")"@,
        r.uid_raw == d.summary.uid,
        r.euid_raw == d.summary.euid,
        r.pid@ == dec(d.summary.pid as nat),
        r.ppid@ == dec(d.summary.ppid as nat),
        r.gid@ == dec(d.gid as nat),
{
    law_uid_shown_as_its_account(users, d.summary.uid);
    law_uid_shown_as_its_account(users, d.summary.euid);
}

/// A command line from its parts, once the argv column has been read.
pub fn command_from_parts(argv: &Option<Vec<String>>, filename: &Option<String>, comm: &Option<String>) -> (r: String)
    ensures
        r@ == command_string(opt_views(*argv), opt_text(*filename), opt_text(*comm)),
{
    match argv {
        Some(v) => {
            if v.len() > 0 {
                return join_strings(v, " ");
            }
        },
        None => {},
    }
    match filename {
        Some(f) => f.clone(),
        None => match comm {
            Some(c) => c.clone(),
            None => String::new(),
        },
    }
}

/// Build a display string from filename/argv — used by the detail view.
///
/// Prefers argv if available (JSON array), falls back to filename, then comm.
pub fn build_command_string(s: &EventSummary) -> (r: String)
    ensures
        r@ == command_string(argv_of(opt_text(s.argv)), opt_text(s.filename), opt_text(s.comm)),
{
    command_from_parts(&parse_argv(&s.argv), &s.filename, &s.comm)
}

/// Build a display string from a child process's fields.
pub fn build_child_command_string(c: &ChildProcess) -> (r: String)
    ensures
        r@ == command_string(argv_of(opt_text(c.argv)), opt_text(c.filename), opt_text(c.comm)),
{
    command_from_parts(&parse_argv(&c.argv), &c.filename, &c.comm)
}

/// `raw` with `&`, `<` and `>` written as HTML entities.
pub fn escape_html(raw: &str) -> (r: String)
    ensures
        r@ == html_escape(raw@),
{
    let v = chars_of(raw);
    let a = crate::text::replace_chars(&v, '&', "&amp;");
    let b = crate::text::replace_chars(&a, '<', "&lt;");
    let c = crate::text::replace_chars(&b, '>', "&gt;");
    string_from_chars(&c)
}

/// The HTML of terminal output once the converter has run: its HTML, or
/// when it failed (`None`) the escaped text, so nothing leaks into the DOM.
pub fn html_or_escaped(converted: Option<String>, raw: &str) -> (r: String)
    ensures
        r@ == (match converted {
            Some(h) => h@,
            None => html_escape(raw@),
        }),
{
    match converted {
        Some(h) => h,
        None => escape_html(raw),
    }
}

/// Convert a raw string (possibly containing ANSI escape sequences) to HTML.
///
/// ANSI SGR codes (colours, bold, etc.) become `<span style="...">` elements.
/// 4-bit colours use CSS custom properties with an `ansi-` prefix
/// (e.g. `var(--ansi-red, #fallback)`), so the caller can theme them via CSS.
/// If conversion fails, the text is HTML-escaped and returned as plain text.
pub fn ansi_to_html(raw: &str) -> (r: String)
    ensures
        r@ == terminal_html(raw@),
{
    let converted = match convert_ansi("ansi-", raw) {
        Ok(h) => Some(h),
        Err(_) => None,
    };
    html_or_escaped(converted, raw)
}

/// How a TTY number is shown.
pub fn format_tty(tty_nr: Option<u32>) -> (r: String)
    ensures
        r@ == tty_display(tty_nr),
{
    match tty_nr {
        Some(nr) => {
            if nr > 0 {
                let major = (nr >> 8) & 0xFF;
                let minor = nr & 0xFF;
                assert((nr >> 8) & 0xff == (nr / 256) % 256) by (bit_vector);
                assert(nr & 0xff == nr % 256) by (bit_vector);
                if major == 136 {
                    let mut s = owned("pts/");
                    crate::text::push_u64(&mut s, minor as u64);
                    return s;
                } else {
                    let mut s = u64_to_string(major as u64);
                    push_str(&mut s, "/");
                    crate::text::push_u64(&mut s, minor as u64);
                    return s;
                }
            }
        },
        None => {},
    }
    proof {
        reveal_strlit("\u{2014}");
    }
    owned("\u{2014}")
}

/// The data of a run of chunks, concatenated.
fn concat_chunks(chunks: &Vec<IoChunk>) -> (r: String)
    ensures
        r@ == chunks_text(chunks@),
{
    let mut r = String::new();
    let mut i: usize = 0;
    while i < chunks.len()
        invariant
            i <= chunks@.len(),
            r@ == chunks_text(chunks@.take(i as int)),
        decreases chunks.len() - i,
    {
        push_str(&mut r, chunks[i].data.as_str());
        assert(chunks@.take(i + 1).drop_last() =~= chunks@.take(i as int));
        i = i + 1;
    }
    assert(chunks@.take(chunks@.len() as int) =~= chunks@);
    r
}

proof fn lemma_chunks_bytes_prefix(c: Seq<IoChunk>, i: int)
    requires
        0 <= i <= c.len(),
    ensures
        0 <= chunks_bytes(c.take(i)) <= chunks_bytes(c),
    decreases c.len() - i,
{
    if i < c.len() {
        lemma_chunks_bytes_prefix(c, i + 1);
        assert(c.take(i + 1).drop_last() =~= c.take(i));
        lemma_chunks_bytes_nonneg(c.take(i));
    } else {
        assert(c.take(i) =~= c);
        lemma_chunks_bytes_nonneg(c);
    }
}

proof fn lemma_chunks_bytes_nonneg(c: Seq<IoChunk>)
    ensures
        chunks_bytes(c) >= 0,
    decreases c.len(),
{
    if c.len() > 0 {
        lemma_chunks_bytes_nonneg(c.drop_last());
    }
}

/// The total byte count of a run of chunks.
fn sum_chunk_bytes(chunks: &Vec<IoChunk>) -> (r: u64)
    requires
        chunks_bytes(chunks@) <= u64::MAX,
    ensures
        r == chunks_bytes(chunks@),
{
    let mut total: u64 = 0;
    let mut i: usize = 0;
    while i < chunks.len()
        invariant
            i <= chunks@.len(),
            total == chunks_bytes(chunks@.take(i as int)),
            chunks_bytes(chunks@) <= u64::MAX,
        decreases chunks.len() - i,
    {
        assert(chunks@.take(i + 1).drop_last() =~= chunks@.take(i as int));
        proof {
            lemma_chunks_bytes_prefix(chunks@, i + 1);
        }
        total = total + chunks[i].byte_count;
        i = i + 1;
    }
    assert(chunks@.take(chunks@.len() as int) =~= chunks@);
    total
}

/// `name (uid)` for a UID.
fn label_uid(users: &PasswdTable, uid: u32) -> (r: String)
    ensures
        r@ == uid_label(users@, uid),
{
    let mut s = resolve_uid(users, uid);
    push_str(&mut s, " (");
    crate::text::push_u64(&mut s, uid as u64);
    push_str(&mut s, ")");
    s
}

impl ChildProcessView {
    /// The view of a child process.
    pub fn from_child(c: &ChildProcess) -> (r: Self)
        ensures
            is_child_view(r, *c),
    {
        let command = build_child_command_string(c);
        let (exit_code, exit_code_class) = exit_code_display(c.exit_code);
        ChildProcessView { id: c.id, pid: c.pid, command, exit_code, exit_code_class, has_io: c.has_io }
    }
}

impl ParentProcessView {
    /// The view of a parent process.
    pub fn from_parent(p: &ParentProcess) -> (r: Self)
        ensures
            is_parent_view(r, *p),
    {
        let command = command_from_parts(&parse_argv(&p.argv), &p.filename, &p.comm);
        ParentProcessView { id: p.id, command }
    }
}

impl EventDetailView {
    /// Create from a domain `EventDetail`, resolving UIDs through `users`.
    pub fn from_detail(d: &EventDetail, users: &PasswdTable) -> (r: Self)
        requires
            io_totals_fit(*d),
        ensures
            is_detail_view(r, *d, users@),
    {
        let tty = format_tty(d.tty_nr);
        let full_command = build_command_string(&d.summary);
        let stdin_raw = concat_chunks(&d.stdin_data);
        let stdin_bytes = sum_chunk_bytes(&d.stdin_data);
        let stdout_raw = concat_chunks(&d.stdout_data);
        let stdout_bytes = sum_chunk_bytes(&d.stdout_data);
        let stdin_html = ansi_to_html(stdin_raw.as_str());
        let stdout_html = ansi_to_html(stdout_raw.as_str());
        let mut children: Vec<ChildProcessView> = Vec::new();
        let mut i: usize = 0;
        while i < d.children.len()
            invariant
                i <= d.children@.len(),
                children@.len() == i,
                forall|k: int| 0 <= k < i ==> is_child_view(#[trigger] children@[k], d.children@[k]),
            decreases d.children.len() - i,
        {
            children.push(ChildProcessView::from_child(&d.children[i]));
            i = i + 1;
        }
        let parent = match &d.parent {
            Some(p) => Some(ParentProcessView::from_parent(p)),
            None => None,
        };
        let (exit_code, _class) = exit_code_display(d.summary.exit_code);
        let tty_nr_raw = match d.tty_nr {
            Some(nr) => if nr > 0 {
                Some(nr)
            } else {
                None
            },
            None => None,
        };
        EventDetailView {
            id: d.summary.id,
            session_id: d.summary.session_id.clone(),
            pid: u64_to_string(d.summary.pid as u64),
            ppid: u64_to_string(d.summary.ppid as u64),
            uid: label_uid(users, d.summary.uid),
            euid: label_uid(users, d.summary.euid),
            gid: u64_to_string(d.gid as u64),
            tty,
            full_command,
            event_type: d.summary.event_type.clone(),
            timestamp: d.summary.timestamp.clone(),
            exit_code,
            has_stdin: d.stdin_data.len() > 0,
            stdin_html,
            stdin_bytes,
            has_stdout: d.stdout_data.len() > 0,
            stdout_html,
            stdout_bytes,
            uid_raw: d.summary.uid,
            euid_raw: d.summary.euid,
            tty_nr_raw,
            exit_code_raw: d.summary.exit_code,
            children,
            parent,
        }
    }
}

} // verus!
