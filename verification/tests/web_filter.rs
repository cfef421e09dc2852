use shspectr::web::filter::{EventFilter, FilterValue};


#[test]
fn parse_empty_query() {
    let f = EventFilter::parse("");
    assert!(f.is_empty(), "empty string should produce empty filter");
    assert_eq!(f.raw, None);
}

#[test]
fn parse_whitespace_query() {
    let f = EventFilter::parse("   ");
    assert!(f.is_empty(), "whitespace should produce empty filter");
}

#[test]
fn parse_user_filter() {
    let f = EventFilter::parse("user:root");
    assert_eq!(f.user, Some(FilterValue::new("root".to_owned())));
    assert!(f.text.is_none());
}

#[test]
fn parse_comm_filter() {
    let f = EventFilter::parse("comm:bash");
    assert_eq!(f.comm, Some(FilterValue::new("bash".to_owned())));
}

#[test]
fn parse_exit_filter() {
    let f = EventFilter::parse("exit:0");
    assert_eq!(f.exit_code, Some(FilterValue::new(0)));
}

#[test]
fn parse_exit_filter_negative() {
    let f = EventFilter::parse("exit:-1");
    assert_eq!(f.exit_code, Some(FilterValue::new(-1)));
}

#[test]
fn parse_session_filter() {
    let f = EventFilter::parse("session:ox_abc");
    assert_eq!(f.session_id, Some(FilterValue::new("ox_abc".to_owned())));
}

#[test]
fn parse_pid_filter() {
    let f = EventFilter::parse("pid:1234");
    assert_eq!(f.pid, Some(FilterValue::new(1234)));
}

#[test]
fn parse_bare_words() {
    let f = EventFilter::parse("cargo build");
    assert_eq!(f.text.as_deref(), Some("cargo build"));
    assert!(f.comm.is_none());
}

#[test]
fn parse_mixed_filters() {
    let f = EventFilter::parse("user:root comm:bash cargo exit:0");
    assert_eq!(f.user, Some(FilterValue::new("root".to_owned())));
    assert_eq!(f.comm, Some(FilterValue::new("bash".to_owned())));
    assert_eq!(f.exit_code, Some(FilterValue::new(0)));
    assert_eq!(f.text.as_deref(), Some("cargo"));
}

#[test]
fn parse_unknown_key_treated_as_bare_word() {
    let f = EventFilter::parse("foo:bar");
    assert_eq!(f.text.as_deref(), Some("foo:bar"));
    assert_eq!(f.warnings.len(), 1);
    assert!(f.warnings[0].contains("foo"));
}

#[test]
fn parse_invalid_exit_ignored() {
    let f = EventFilter::parse("exit:notanumber");
    assert_eq!(f.exit_code, None, "invalid exit code should be None");
    // "exit:notanumber" is a recognized key — exit_code just fails to parse.
    // The token is consumed by the match arm, so it won't appear in text.
    assert!(f.text.is_none());
    assert_eq!(f.warnings.len(), 1);
    assert!(f.warnings[0].contains("expects a number"));
}

#[test]
fn is_empty_with_no_criteria() {
    let f = EventFilter::default();
    assert!(f.is_empty());
}

#[test]
fn is_empty_false_with_criteria() {
    let f = EventFilter::parse("pid:1");
    assert!(!f.is_empty());
}

// --- New filter keyword tests ---

#[test]
fn parse_ppid_filter() {
    let f = EventFilter::parse("ppid:1");
    assert_eq!(f.ppid, Some(FilterValue::new(1)));
}

#[test]
fn parse_ppid_invalid() {
    let f = EventFilter::parse("ppid:abc");
    assert_eq!(f.ppid, None);
}

#[test]
fn parse_gid_filter() {
    let f = EventFilter::parse("gid:1000");
    assert_eq!(f.gid, Some(FilterValue::new(1000)));
}

#[test]
fn parse_euid_filter() {
    let f = EventFilter::parse("euid:0");
    assert_eq!(f.euid, Some(FilterValue::new(0)));
}

#[test]
fn parse_tty_filter() {
    let f = EventFilter::parse("tty:0");
    assert_eq!(f.tty, Some(FilterValue::new(0)));
}

#[test]
fn parse_file_filter() {
    let f = EventFilter::parse("file:/usr/bin/*");
    assert_eq!(f.file, Some(FilterValue::new("/usr/bin/*".to_owned())));
}

#[test]
fn parse_file_glob_question_mark() {
    let f = EventFilter::parse("file:/usr/bin/bas?");
    assert_eq!(f.file, Some(FilterValue::new("/usr/bin/bas?".to_owned())));
}

// --- Negation tests ---

#[test]
fn parse_negation_exact() {
    let f = EventFilter::parse("!exit:0");
    assert_eq!(f.exit_code, Some(FilterValue::negated(0)));
}

#[test]
fn parse_negation_glob() {
    let f = EventFilter::parse("!comm:bash");
    assert_eq!(f.comm, Some(FilterValue::negated("bash".to_owned())));
}

#[test]
fn parse_negation_prefix() {
    let f = EventFilter::parse("!session:ox_");
    assert_eq!(f.session_id, Some(FilterValue::negated("ox_".to_owned())));
}

#[test]
fn parse_bang_alone_is_bare() {
    let f = EventFilter::parse("!");
    assert_eq!(f.text.as_deref(), Some("!"));
}

#[test]
fn parse_bang_no_keyword() {
    let f = EventFilter::parse("!foo");
    assert_eq!(f.text.as_deref(), Some("!foo"));
}

#[test]
fn parse_double_bang() {
    let f = EventFilter::parse("!!exit:0");
    assert_eq!(f.text.as_deref(), Some("!!exit:0"));
    assert_eq!(f.exit_code, None);
}

#[test]
fn parse_user_numeric() {
    let f = EventFilter::parse("user:1000");
    assert_eq!(f.user, Some(FilterValue::new("1000".to_owned())));
}

// --- Warning tests ---

#[test]
fn parse_unknown_keyword_warns() {
    let f = EventFilter::parse("foo:bar");
    assert_eq!(f.warnings.len(), 1);
    assert!(f.warnings[0].contains("foo"));
}

#[test]
fn parse_known_keywords_no_warnings() {
    let f = EventFilter::parse("pid:1 comm:bash");
    assert!(f.warnings.is_empty());
}

#[test]
fn parse_numeric_field_invalid_warns() {
    let f = EventFilter::parse("pid:abc");
    assert_eq!(f.warnings.len(), 1);
    assert!(f.warnings[0].contains("expects a number"));
    assert!(f.warnings[0].contains("abc"));
}

#[test]
fn parse_numeric_field_valid_no_warning() {
    let f = EventFilter::parse("pid:123");
    assert!(f.warnings.is_empty());
}

#[test]
fn parse_did_you_mean() {
    let f = EventFilter::parse("ppd:1");
    assert_eq!(f.warnings.len(), 1);
    assert!(f.warnings[0].contains("Did you mean \"ppid\"?"));
}

#[test]
fn parse_did_you_mean_comm() {
    let f = EventFilter::parse("commm:bash");
    assert_eq!(f.warnings.len(), 1);
    assert!(f.warnings[0].contains("Did you mean \"comm\"?"));
}

#[test]
fn parse_exit_invalid_warns() {
    let f = EventFilter::parse("exit:abc");
    assert_eq!(f.warnings.len(), 1);
    assert!(f.warnings[0].contains("expects a number"));
}

#[test]
fn parse_warnings_dont_affect_is_empty() {
    let f = EventFilter::parse("foo:bar");
    // has warning and bare text, but bare text makes it non-empty
    assert!(!f.is_empty());
    // A filter with only warnings and no actual criteria would need
    // a token that doesn't become bare text — but unknown keys do
    // become bare text, so this is fine.
}

// --- cmd: filter tests ---

#[test]
fn parse_cmd_filter() {
    let f = EventFilter::parse("cmd:ps");
    assert_eq!(f.cmd, Some(FilterValue::new("ps".to_owned())));
}

#[test]
fn parse_cmd_glob() {
    let f = EventFilter::parse("cmd:git*");
    assert_eq!(f.cmd, Some(FilterValue::new("git*".to_owned())));
}

#[test]
fn parse_cmd_negated() {
    let f = EventFilter::parse("!cmd:git");
    assert_eq!(f.cmd, Some(FilterValue::negated("git".to_owned())));
}

#[test]
fn parse_keeps_the_trimmed_query_and_last_value_wins() {
    let f = EventFilter::parse("  pid:1 pid:2  ");
    assert_eq!(f.raw.as_deref(), Some("pid:1 pid:2"));
    assert_eq!(f.pid, Some(FilterValue::new(2)));
}

#[test]
fn parse_cmd_alternatives_are_kept_verbatim() {
    let f = EventFilter::parse("cmd:ls|git");
    assert_eq!(f.cmd, Some(FilterValue::new("ls|git".to_owned())));
}

#[test]
fn parse_bare_words_join_with_single_spaces() {
    let f = EventFilter::parse("a   b\tc");
    assert_eq!(f.text.as_deref(), Some("a b c"));
}

#[test]
fn only_rejected_numbers_leave_a_query_empty() {
    assert!(EventFilter::parse("pid:x !tty:y exit:z").is_empty());
    assert!(!EventFilter::parse("pid:x foo").is_empty());
    assert!(!EventFilter::parse("pid:x !pid").is_empty());
}

#[test]
fn negation_flips_only_the_flag() {
    let plain = EventFilter::parse("tty:4");
    let negated = EventFilter::parse("!tty:4");
    assert_eq!(plain.tty, Some(FilterValue::new(4)));
    assert_eq!(negated.tty, Some(FilterValue::negated(4)));
    assert!(plain.text.is_none() && negated.text.is_none());
    assert!(plain.warnings.is_empty() && negated.warnings.is_empty());
}
