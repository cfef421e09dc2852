use shspectr::recorder::filter::{passes_filter, FilterConfig, FilterInput};

#[test]
fn no_filters_passes_everything() {
    let config = FilterConfig::default();
    let input = FilterInput {
        tty_nr: 0,
        comm: "cat".into(),
        ancestor_comms: vec![],
    };
    assert!(passes_filter(&config, &input));
}

#[test]
fn pty_filter_passes_pty_process() {
    let config = FilterConfig {
        filter_pty: true,
        ..Default::default()
    };
    let input = FilterInput {
        tty_nr: 42,
        comm: "bash".into(),
        ancestor_comms: vec![],
    };
    assert!(passes_filter(&config, &input));
}

#[test]
fn pty_filter_rejects_non_pty_process() {
    let config = FilterConfig {
        filter_pty: true,
        ..Default::default()
    };
    let input = FilterInput {
        tty_nr: 0,
        comm: "cron".into(),
        ancestor_comms: vec![],
    };
    assert!(!passes_filter(&config, &input));
}

#[test]
fn ancestor_filter_passes_matching_ancestor() {
    let config = FilterConfig {
        filter_ancestors: vec!["sshd".into()],
        ..Default::default()
    };
    let input = FilterInput {
        tty_nr: 0,
        comm: "ls".into(),
        ancestor_comms: vec!["bash".into(), "sshd".into()],
    };
    assert!(passes_filter(&config, &input));
}

#[test]
fn ancestor_filter_passes_matching_self_comm() {
    let config = FilterConfig {
        filter_ancestors: vec!["sshd".into()],
        ..Default::default()
    };
    let input = FilterInput {
        tty_nr: 0,
        comm: "sshd".into(),
        ancestor_comms: vec![],
    };
    assert!(passes_filter(&config, &input));
}

#[test]
fn ancestor_filter_rejects_no_match() {
    let config = FilterConfig {
        filter_ancestors: vec!["sshd".into()],
        ..Default::default()
    };
    let input = FilterInput {
        tty_nr: 0,
        comm: "cron".into(),
        ancestor_comms: vec!["crond".into(), "systemd".into()],
    };
    assert!(!passes_filter(&config, &input));
}

#[test]
fn or_composition_pty_matches() {
    let config = FilterConfig {
        filter_pty: true,
        filter_ancestors: vec!["sshd".into()],
    };
    // Has PTY but no matching ancestor — should still pass.
    let input = FilterInput {
        tty_nr: 42,
        comm: "vim".into(),
        ancestor_comms: vec!["bash".into()],
    };
    assert!(passes_filter(&config, &input));
}

#[test]
fn or_composition_ancestor_matches() {
    let config = FilterConfig {
        filter_pty: true,
        filter_ancestors: vec!["sshd".into()],
    };
    // No PTY but has matching ancestor — should still pass.
    let input = FilterInput {
        tty_nr: 0,
        comm: "rsync".into(),
        ancestor_comms: vec!["sshd".into()],
    };
    assert!(passes_filter(&config, &input));
}

#[test]
fn or_composition_neither_matches() {
    let config = FilterConfig {
        filter_pty: true,
        filter_ancestors: vec!["sshd".into()],
    };
    let input = FilterInput {
        tty_nr: 0,
        comm: "cron".into(),
        ancestor_comms: vec!["crond".into()],
    };
    assert!(!passes_filter(&config, &input));
}

#[test]
fn multiple_ancestor_names() {
    let config = FilterConfig {
        filter_ancestors: vec!["sshd".into(), "my-agent".into()],
        ..Default::default()
    };
    let input = FilterInput {
        tty_nr: 0,
        comm: "python".into(),
        ancestor_comms: vec!["my-agent".into()],
    };
    assert!(passes_filter(&config, &input));
}

#[test]
fn filter_config_is_empty() {
    assert!(FilterConfig::default().is_empty());
    assert!(
        !FilterConfig {
            filter_pty: true,
            ..Default::default()
        }
        .is_empty()
    );
    assert!(
        !FilterConfig {
            filter_ancestors: vec!["sshd".into()],
            ..Default::default()
        }
        .is_empty()
    );
}
