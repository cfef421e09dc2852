use shspectr::web::event::{ChildProcess, EventDetail, EventSummary, IoChunk, ParentProcess};
use shspectr::web::users::{load_passwd, resolve_uid, resolve_username, PasswdTable};
use shspectr::web::view::{
    ansi_to_html, build_child_command_string, escape_html, format_tty, truncate,
    ChildProcessView, EventDetailView, EventSummaryView, ParentProcessView,
};

fn users() -> PasswdTable {
    load_passwd("root:x:0:0:root:/root:/bin/bash\njon:x:1000:1000::/home/jon:/bin/sh\n")
}


fn make_summary() -> EventSummary {
    EventSummary {
        id: 1,
        timestamp: "2026-05-10T14:32:01.123456".to_owned(),
        session_id: "ox_abc123def456".to_owned(),
        event_type: "exec".to_owned(),
        execution_id: 1,
        pid: 1234,
        ppid: 1000,
        uid: 1000,
        euid: 1000,
        comm: Some("cargo".to_owned()),
        filename: Some("/usr/bin/cargo".to_owned()),
        argv: Some(r#"["cargo","build","--release"]"#.to_owned()),
        exit_code: Some(0),
    }
}

#[test]
fn from_summary_formats_timestamp() {
    let view = EventSummaryView::from_summary(&make_summary(), &users());
    assert_eq!(view.timestamp, "2026-05-10T14:32:01");
}

#[test]
fn from_summary_truncates_session_id() {
    let view = EventSummaryView::from_summary(&make_summary(), &users());
    assert_eq!(view.session_id_short, "ox_abc123d\u{2026}");
    assert_eq!(view.session_id, "ox_abc123def456");
}

#[test]
fn from_summary_builds_command_from_argv() {
    let view = EventSummaryView::from_summary(&make_summary(), &users());
    // argv is ["cargo","build","--release"], filename is /usr/bin/cargo
    assert_eq!(view.command_name, "cargo");
    assert_eq!(view.command_dir, "/usr/bin/");
    assert_eq!(view.command_args, "build --release");
    assert_eq!(view.command_full, "cargo build --release");
}

#[test]
fn from_summary_fallback_to_filename() {
    let mut s = make_summary();
    s.argv = None;
    let view = EventSummaryView::from_summary(&s, &users());
    assert_eq!(view.command_name, "cargo");
    assert_eq!(view.command_dir, "/usr/bin/");
    assert_eq!(view.command_args, "");
    assert_eq!(view.command_full, "cargo");
}

#[test]
fn from_summary_fallback_to_comm() {
    let mut s = make_summary();
    s.argv = None;
    s.filename = None;
    let view = EventSummaryView::from_summary(&s, &users());
    assert_eq!(view.command_name, "cargo");
    assert_eq!(view.command_dir, "");
    assert_eq!(view.command_args, "");
    assert_eq!(view.command_full, "cargo");
}

#[test]
fn from_summary_bare_command_no_dir() {
    let mut s = make_summary();
    s.filename = Some("ps".to_owned());
    s.argv = Some(r#"["ps","-ao","ppid,args"]"#.to_owned());
    let view = EventSummaryView::from_summary(&s, &users());
    assert_eq!(view.command_name, "ps");
    assert_eq!(view.command_dir, "");
    assert_eq!(view.command_args, "-ao ppid,args");
}

#[test]
fn from_summary_snap_path() {
    let mut s = make_summary();
    s.filename = Some("/snap/mise/111/bin/mise".to_owned());
    s.argv = Some(r#"["/snap/mise/111/bin/mise","hook-env","-s","fish"]"#.to_owned());
    let view = EventSummaryView::from_summary(&s, &users());
    assert_eq!(view.command_name, "mise");
    assert_eq!(view.command_dir, "/snap/mise/111/bin/");
    assert_eq!(view.command_args, "hook-env -s fish");
}

#[test]
fn from_summary_exit_code_zero_is_green() {
    let view = EventSummaryView::from_summary(&make_summary(), &users());
    assert_eq!(view.exit_code, "0");
    assert_eq!(view.exit_code_class, "text-green-400");
}

#[test]
fn from_summary_exit_code_nonzero_is_red() {
    let mut s = make_summary();
    s.exit_code = Some(1);
    let view = EventSummaryView::from_summary(&s, &users());
    assert_eq!(view.exit_code, "1");
    assert_eq!(view.exit_code_class, "text-red-400");
}

#[test]
fn from_summary_exit_code_none_is_dash() {
    let mut s = make_summary();
    s.exit_code = None;
    let view = EventSummaryView::from_summary(&s, &users());
    assert_eq!(view.exit_code, "\u{2014}");
    assert_eq!(view.exit_code_class, "text-gray-500");
}

#[test]
fn truncate_long_string() {
    let long = "a".repeat(50);
    let result = truncate(&long, 40);
    assert_eq!(result.chars().count(), 40);
    assert!(result.ends_with('\u{2026}'));
}

#[test]
fn truncate_short_string() {
    let result = truncate("short", 40);
    assert_eq!(result, "short");
}

fn make_detail() -> EventDetail {
    EventDetail {
        summary: EventSummary {
            id: 1,
            timestamp: "2026-05-10T14:32:01".to_owned(),
            session_id: "ox_abc123".to_owned(),
            event_type: "exec".to_owned(),
            execution_id: 1,
            pid: 4821,
            ppid: 4800,
            uid: 1000,
            euid: 1000,
            comm: Some("cat".to_owned()),
            filename: Some("/usr/bin/cat".to_owned()),
            argv: Some(r#"["cat","secret.txt"]"#.to_owned()),
            exit_code: Some(0),
        },
        gid: 1000,
        tty_nr: Some(0x8803), // major 136, minor 3 → pts/3
        fd: None,
        data: None,
        data_len: None,
        byte_count: None,
        stdin_data: vec![],
        stdout_data: vec![IoChunk {
            timestamp: "2026-05-10T14:32:02".to_owned(),
            data: "TOP SECRET\n".to_owned(),
            byte_count: 11,
        }],
        children: vec![],
        parent: None,
    }
}

#[test]
fn tty_nr_to_pts() {
    let view = EventDetailView::from_detail(&make_detail(), &users());
    assert_eq!(view.tty, "pts/3");
}

#[test]
fn stdout_data_concatenated() {
    let view = EventDetailView::from_detail(&make_detail(), &users());
    // Plain text with no ANSI codes passes through as-is.
    assert_eq!(view.stdout_html, "TOP SECRET\n");
    assert_eq!(view.stdout_bytes, 11);
    assert!(view.has_stdout);
}

#[test]
fn no_stdin_data() {
    let view = EventDetailView::from_detail(&make_detail(), &users());
    assert!(!view.has_stdin);
    assert!(view.stdin_html.is_empty());
}

#[test]
fn ansi_colour_converted_to_span() {
    // Bold green "ok" followed by reset.
    let html = ansi_to_html("\x1b[1;32mok\x1b[0m");
    assert!(html.contains("<span"), "should produce span tags: {html}");
    assert!(html.contains("ok"), "should preserve text: {html}");
    assert!(
        !html.contains("\x1b"),
        "should strip escape sequences: {html}"
    );
    // 4-bit colours should use CSS custom properties with the ansi- prefix.
    assert!(
        html.contains("--ansi-"),
        "should use --ansi- CSS vars: {html}"
    );
}

#[test]
fn ansi_plain_text_unchanged() {
    let html = ansi_to_html("hello world\n");
    assert_eq!(html, "hello world\n");
}

#[test]
fn fd_path_proc_self_uses_argv0() {
    let mut s = make_summary();
    s.filename = Some("/proc/self/fd/9".to_owned());
    s.argv = Some(r#"["systemd-executor","--deserialize","57"]"#.to_owned());
    let view = EventSummaryView::from_summary(&s, &users());
    assert_eq!(view.command_name, "systemd-executor");
    assert_eq!(view.command_dir, "/proc/self/fd/9");
    assert_eq!(view.command_args, "--deserialize 57");
}

#[test]
fn fd_path_dev_fd_uses_argv0() {
    let mut s = make_summary();
    s.filename = Some("/dev/fd/3".to_owned());
    s.argv = Some(r#"["my-program","--flag"]"#.to_owned());
    let view = EventSummaryView::from_summary(&s, &users());
    assert_eq!(view.command_name, "my-program");
    assert_eq!(view.command_dir, "/dev/fd/3");
}

#[test]
fn fd_path_proc_pid_uses_argv0() {
    let mut s = make_summary();
    s.filename = Some("/proc/12345/fd/9".to_owned());
    s.argv = Some(r#"["some-daemon"]"#.to_owned());
    let view = EventSummaryView::from_summary(&s, &users());
    assert_eq!(view.command_name, "some-daemon");
    assert_eq!(view.command_dir, "/proc/12345/fd/9");
}

#[test]
fn fd_path_empty_argv_falls_back_to_comm() {
    let mut s = make_summary();
    s.filename = Some("/proc/self/fd/9".to_owned());
    s.argv = None;
    s.comm = Some("systemd-exec".to_owned());
    let view = EventSummaryView::from_summary(&s, &users());
    assert_eq!(view.command_name, "systemd-exec");
    assert_eq!(view.command_dir, "/proc/self/fd/9");
}

#[test]
fn normal_path_unaffected_by_fd_logic() {
    let view = EventSummaryView::from_summary(&make_summary(), &users());
    assert_eq!(view.command_name, "cargo");
    assert_eq!(view.command_dir, "/usr/bin/");
}

#[test]
fn ansi_html_special_chars_escaped() {
    let html = ansi_to_html("<script>alert(1)</script>");
    assert!(
        !html.contains("<script>"),
        "should HTML-escape special chars: {html}"
    );
}

#[test]
fn full_command_from_argv() {
    let view = EventDetailView::from_detail(&make_detail(), &users());
    assert_eq!(view.full_command, "cat secret.txt");
}

#[test]
fn tty_nr_zero_shows_dash() {
    let mut d = make_detail();
    d.tty_nr = Some(0);
    let view = EventDetailView::from_detail(&d, &users());
    assert_eq!(view.tty, "\u{2014}");
}

#[test]
fn tty_nr_none_shows_dash() {
    let mut d = make_detail();
    d.tty_nr = None;
    let view = EventDetailView::from_detail(&d, &users());
    assert_eq!(view.tty, "\u{2014}");
}

#[test]
fn resolve_uid_root() {
    let name = resolve_uid(&users(), 0);
    assert_eq!(name, "root");
}

#[test]
fn resolve_uid_unknown() {
    let name = resolve_uid(&users(), 99999);
    assert_eq!(name, "99999");
}

#[test]
fn load_passwd_returns_map() {
    let map = load_passwd("root:x:0:0:root:/root:/bin/bash\nbroken line\ndaemon:x:abc:1::/:/bin/false\n");
    assert_eq!(map.len(), 1, "only well-formed lines are kept");
    assert_eq!(resolve_uid(&map, 0), "root");
    assert_eq!(resolve_username(&map, "root"), Some(0));
    assert_eq!(resolve_username(&map, "daemon"), None);
}

#[test]
fn load_passwd_later_line_wins_for_a_uid() {
    let map = load_passwd("a:x:5:5::/:/bin/sh\nb:x:5:5::/:/bin/sh\n");
    assert_eq!(map.len(), 1);
    assert_eq!(resolve_uid(&map, 5), "b");
}

#[test]
fn summary_user_is_resolved_through_the_table() {
    let view = EventSummaryView::from_summary(&make_summary(), &users());
    assert_eq!(view.user, "jon");
    let view = EventSummaryView::from_summary(&make_summary(), &PasswdTable::empty());
    assert_eq!(view.user, "1000");
}

#[test]
fn short_session_id_is_kept_whole() {
    let mut s = make_summary();
    s.session_id = "ox_abc".to_owned();
    let view = EventSummaryView::from_summary(&s, &users());
    assert_eq!(view.session_id_short, "ox_abc");
}

#[test]
fn long_arguments_are_truncated_in_the_list() {
    let mut s = make_summary();
    let long = "x".repeat(100);
    s.argv = Some(format!("[\"cargo\",\"{long}\"]"));
    let view = EventSummaryView::from_summary(&s, &users());
    assert_eq!(view.command_args.chars().count(), 40);
    assert!(view.command_args.ends_with('\u{2026}'));
    assert_eq!(view.command_full, format!("cargo {}", view.command_args));
}

#[test]
fn malformed_argv_falls_back_to_filename() {
    let mut s = make_summary();
    s.argv = Some("not json".to_owned());
    let view = EventSummaryView::from_summary(&s, &users());
    assert_eq!(view.command_full, "cargo");
    assert_eq!(view.command_dir, "/usr/bin/");
}

#[test]
fn escape_html_replaces_markup() {
    assert_eq!(escape_html("a<b>&c"), "a&lt;b&gt;&amp;c");
}

#[test]
fn format_tty_names_consoles_and_terminals() {
    assert_eq!(format_tty(Some(0x8803)), "pts/3");
    assert_eq!(format_tty(Some(0)), "\u{2014}");
    assert_eq!(format_tty(None), "\u{2014}");
}

#[test]
fn truncate_exactly_at_limit_keeps_string() {
    assert_eq!(truncate("abcd", 4), "abcd");
    assert_eq!(truncate("abcde", 4), "abc\u{2026}");
}

#[test]
fn child_and_parent_views_build_commands() {
    let child = ChildProcess {
        id: 7,
        pid: 42,
        comm: Some("ls".to_owned()),
        filename: Some("/bin/ls".to_owned()),
        argv: Some(r#"["ls","-la"]"#.to_owned()),
        exit_code: Some(2),
        has_io: true,
    };
    assert_eq!(build_child_command_string(&child), "ls -la");
    let v = ChildProcessView::from_child(&child);
    assert_eq!(v.command, "ls -la");
    assert_eq!(v.exit_code, "2");
    assert_eq!(v.exit_code_class, "text-red-400");
    assert!(v.has_io);

    let parent = ParentProcess {
        id: 3,
        comm: Some("bash".to_owned()),
        filename: None,
        argv: None,
    };
    let p = ParentProcessView::from_parent(&parent);
    assert_eq!(p.id, 3);
    assert_eq!(p.command, "bash");
}

#[test]
fn detail_view_lists_children_and_parent() {
    let mut d = make_detail();
    d.children.push(ChildProcess {
        id: 9,
        pid: 5000,
        comm: Some("grep".to_owned()),
        filename: None,
        argv: None,
        exit_code: None,
        has_io: false,
    });
    d.parent = Some(ParentProcess {
        id: 1,
        comm: None,
        filename: Some("/bin/bash".to_owned()),
        argv: None,
    });
    d.stdin_data.push(IoChunk {
        timestamp: "t".to_owned(),
        data: "a<b".to_owned(),
        byte_count: 3,
    });
    let view = EventDetailView::from_detail(&d, &users());
    assert_eq!(view.children.len(), 1);
    assert_eq!(view.children[0].command, "grep");
    assert_eq!(view.children[0].exit_code, "\u{2014}");
    assert_eq!(view.parent.as_ref().map(|p| p.command.as_str()), Some("/bin/bash"));
    assert!(view.has_stdin);
    assert_eq!(view.stdin_bytes, 3);
    assert_eq!(view.stdin_html, "a&lt;b");
    assert_eq!(view.uid, "jon (1000)");
    assert_eq!(view.gid, "1000");
}

#[test]
fn names_resolve_back_through_their_uid() {
    let table = users();
    let uid = resolve_username(&table, "jon").expect("jon is an account");
    assert_eq!(uid, 1000);
    assert_eq!(resolve_uid(&table, uid), "jon");
}

#[test]
fn escaped_output_holds_no_tags() {
    let escaped = escape_html("<b>x</b> & <script>");
    assert!(!escaped.contains('<'));
    assert!(!escaped.contains('>'));
    assert_eq!(escaped, "&lt;b&gt;x&lt;/b&gt; &amp; &lt;script&gt;");
}

#[test]
fn uids_resolve_back_through_their_name() {
    let table = users();
    let name = resolve_uid(&table, 0);
    assert_eq!(resolve_username(&table, &name), Some(0));
}
