//! The filter keyword registry, used for autocompletion and help.

use vstd::prelude::*;

use crate::web::filter::{known_kw, KNOWN_KEYWORD_COUNT};

verus! {

/// The expected value type for a filter keyword.
#[derive(Debug, Clone, Copy, PartialEq, Eq, Structural)]
pub enum ValueType {
    /// Numeric value (e.g. PID, UID, exit code).
    Number,
    /// Free-form text value.
    Text,
    /// Glob pattern with `*` and `?` wildcards.
    Glob,
}

/// The name of a value type.
pub open spec fn value_type_name(t: ValueType) -> Seq<char> {
    match t {
        ValueType::Number => "number"@,
        ValueType::Text => "text"@,
        ValueType::Glob => "glob"@,
    }
}

impl ValueType {
    /// The lowercase name of the type, as shown and serialised.
    pub fn as_str(self) -> (r: &'static str)
        ensures
            r@ == value_type_name(self),
    {
        match self {
            ValueType::Number => "number",
            ValueType::Text => "text",
            ValueType::Glob => "glob",
        }
    }
}

/// Metadata for a filter keyword, used for autocompletion and help.
#[derive(Debug, Clone, Copy)]
pub struct FilterKeywordMeta {
    /// The keyword name (e.g. "pid", "ppid").
    pub keyword: &'static str,
    /// Human-readable description.
    pub description: &'static str,
    /// Expected value type.
    pub value_type: ValueType,
    /// Example usage.
    pub example: &'static str,
    /// Whether this keyword supports `!` negation.
    pub supports_negation: bool,
}

/// The number of registered keywords.
pub const FILTER_KEYWORD_COUNT: usize = 11;

/// Registry entry `i`: keyword, description, value type and example.
pub open spec fn registry_entry(i: int) -> (Seq<char>, Seq<char>, ValueType, Seq<char>) {
    if i == 0 {
        ("pid"@, "Process ID"@, ValueType::Number, "pid:1234"@)
    } else if i == 1 {
        ("ppid"@, "Parent process ID"@, ValueType::Number, "ppid:1"@)
    } else if i == 2 {
        ("user"@, "Username or UID"@, ValueType::Text, "user:root"@)
    } else if i == 3 {
        ("comm"@, "Kernel task name (supports * and ? globs)"@, ValueType::Glob, "comm:bash"@)
    } else if i == 4 {
        ("cmd"@, "Command name from path (supports * and ? globs)"@, ValueType::Glob, "cmd:git"@)
    } else if i == 5 {
        ("exit"@, "Exit code"@, ValueType::Number, "exit:0"@)
    } else if i == 6 {
        ("session"@, "Session ID (prefix match)"@, ValueType::Text, "session:ox_abc"@)
    } else if i == 7 {
        ("gid"@, "Group ID"@, ValueType::Number, "gid:1000"@)
    } else if i == 8 {
        ("euid"@, "Effective user ID"@, ValueType::Number, "euid:0"@)
    } else if i == 9 {
        ("tty"@, "TTY number (0 = no PTY)"@, ValueType::Number, "tty:34816"@)
    } else {
        ("file"@, "Executable path (supports * and ? globs)"@, ValueType::Glob, "file:/usr/bin/*"@)
    }
}

/// Whether `m` is registry entry `i`.
pub open spec fn is_registry_entry(m: FilterKeywordMeta, i: int) -> bool {
    let (k, d, t, e) = registry_entry(i);
    &&& m.keyword@ == k
    &&& m.description@ == d
    &&& m.value_type == t
    &&& m.example@ == e
    &&& m.supports_negation
}

/// All supported filter keywords, in the order the help lists them.
pub fn filter_keywords() -> (r: Vec<FilterKeywordMeta>)
    ensures
        r@.len() == FILTER_KEYWORD_COUNT,
        forall|i: int| 0 <= i < FILTER_KEYWORD_COUNT ==> is_registry_entry(#[trigger] r@[i], i),
{
    let mut v: Vec<FilterKeywordMeta> = Vec::new();
    v.push(
        FilterKeywordMeta {
            keyword: "pid",
            description: "Process ID",
            value_type: ValueType::Number,
            example: "pid:1234",
            supports_negation: true,
        },
    );
    v.push(
        FilterKeywordMeta {
            keyword: "ppid",
            description: "Parent process ID",
            value_type: ValueType::Number,
            example: "ppid:1",
            supports_negation: true,
        },
    );
    v.push(
        FilterKeywordMeta {
            keyword: "user",
            description: "Username or UID",
            value_type: ValueType::Text,
            example: "user:root",
            supports_negation: true,
        },
    );
    v.push(
        FilterKeywordMeta {
            keyword: "comm",
            description: "Kernel task name (supports * and ? globs)",
            value_type: ValueType::Glob,
            example: "comm:bash",
            supports_negation: true,
        },
    );
    v.push(
        FilterKeywordMeta {
            keyword: "cmd",
            description: "Command name from path (supports * and ? globs)",
            value_type: ValueType::Glob,
            example: "cmd:git",
            supports_negation: true,
        },
    );
    v.push(
        FilterKeywordMeta {
            keyword: "exit",
            description: "Exit code",
            value_type: ValueType::Number,
            example: "exit:0",
            supports_negation: true,
        },
    );
    v.push(
        FilterKeywordMeta {
            keyword: "session",
            description: "Session ID (prefix match)",
            value_type: ValueType::Text,
            example: "session:ox_abc",
            supports_negation: true,
        },
    );
    v.push(
        FilterKeywordMeta {
            keyword: "gid",
            description: "Group ID",
            value_type: ValueType::Number,
            example: "gid:1000",
            supports_negation: true,
        },
    );
    v.push(
        FilterKeywordMeta {
            keyword: "euid",
            description: "Effective user ID",
            value_type: ValueType::Number,
            example: "euid:0",
            supports_negation: true,
        },
    );
    v.push(
        FilterKeywordMeta {
            keyword: "tty",
            description: "TTY number (0 = no PTY)",
            value_type: ValueType::Number,
            example: "tty:34816",
            supports_negation: true,
        },
    );
    v.push(
        FilterKeywordMeta {
            keyword: "file",
            description: "Executable path (supports * and ? globs)",
            value_type: ValueType::Glob,
            example: "file:/usr/bin/*",
            supports_negation: true,
        },
    );
    v
}

/// Whether the query parser knows keyword `k`.
pub open spec fn parser_knows(k: Seq<char>) -> bool {
    exists|j: int| 0 <= j < KNOWN_KEYWORD_COUNT && #[trigger] known_kw(j) == k
}

/// Whether the registry lists keyword `k`.
pub open spec fn registry_lists(k: Seq<char>) -> bool {
    exists|i: int| 0 <= i < FILTER_KEYWORD_COUNT && #[trigger] registry_entry(i).0 == k
}

/// The registry documents exactly the keywords the query parser knows: every
/// registered keyword is known to the parser, and every known keyword is
/// registered.
pub proof fn law_registry_matches_parser()
    ensures
        forall|i: int| 0 <= i < FILTER_KEYWORD_COUNT ==> parser_knows(#[trigger] registry_entry(i).0),
        forall|j: int| 0 <= j < KNOWN_KEYWORD_COUNT ==> registry_lists(#[trigger] known_kw(j)),
{
    let map_to_known: Seq<int> = seq![1int, 0, 2, 3, 10, 4, 5, 6, 7, 8, 9];
    let map_to_registry: Seq<int> = seq![1int, 0, 2, 3, 5, 6, 7, 8, 9, 10, 4];
    assert forall|i: int| 0 <= i < FILTER_KEYWORD_COUNT implies parser_knows(
        #[trigger] registry_entry(i).0,
    ) by {
        let j = map_to_known[i];
        assert(known_kw(j) == registry_entry(i).0);
    }
    assert forall|j: int| 0 <= j < KNOWN_KEYWORD_COUNT implies registry_lists(#[trigger] known_kw(j)) by {
        let i = map_to_registry[j];
        assert(registry_entry(i).0 == known_kw(j));
    }
}

} // verus!
