use shspectr::common::event::{EventHeader, ExecEvent, ExitEvent, IoEvent, COMM_LEN};
use shspectr::common::event_type::EventType;
use shspectr::recorder::filter::FilterConfig;
use shspectr::recorder::handler::{handle_event, SinkAction, SkipReason};
use shspectr::recorder::session::SessionCorrelator;

fn header(t: EventType, pid: u32, ppid: u32, tty_nr: u32, comm: &str) -> EventHeader {
    let mut c = [0u8; COMM_LEN];
    c[..comm.len()].copy_from_slice(comm.as_bytes());
    EventHeader::new(t, 1, pid, ppid, pid, pid, 1000, 1000, 1000, c, tty_nr, u64::from(pid), 7)
}

fn exec_record(pid: u32, ppid: u32, tty_nr: u32, comm: &str) -> Vec<u8> {
    let mut e = ExecEvent::zeroed(header(EventType::Exec, pid, ppid, tty_nr, comm));
    e.filename[..7].copy_from_slice(b"/bin/ls");
    e.argv[0][..2].copy_from_slice(b"ls");
    e.argc = 1;
    e.to_bytes()
}

fn no_filters() -> FilterConfig {
    FilterConfig::default()
}

#[test]
fn exec_records_reach_the_sink_with_their_session() {
    let mut c = SessionCorrelator::default();
    let action = handle_event(&exec_record(100, 1, 42, "bash"), &mut c, &no_filters());
    match action {
        SinkAction::Exec { session, event } => {
            assert_eq!(session.pid, 100);
            assert_eq!(session.tty_nr, 42);
            assert_eq!(session.comm, "bash");
            assert_eq!(session.cgroup_id, 7);
            assert_eq!(event.filename, "/bin/ls");
            assert_eq!(event.argv, vec!["ls".to_owned()]);
            let sid: &str = session.session_id.as_ref();
            assert!(sid.starts_with("ox_"));
        }
        other => panic!("unexpected action {other:?}"),
    }
    assert_eq!(c.tracked_count(), 1);
}

#[test]
fn malformed_records_are_skipped_without_state_change() {
    let mut c = SessionCorrelator::default();
    let action = handle_event(&[0u8; 10], &mut c, &no_filters());
    assert!(matches!(action, SinkAction::Skip(SkipReason::Malformed(_))));
    assert_eq!(c.tracked_count(), 0);
}

#[test]
fn truncated_exec_records_are_skipped() {
    let mut c = SessionCorrelator::default();
    let record = exec_record(100, 1, 0, "ls");
    let action = handle_event(&record[..200], &mut c, &no_filters());
    assert!(matches!(
        action,
        SinkAction::Skip(SkipReason::TooShort(EventType::Exec))
    ));
    assert_eq!(c.tracked_count(), 0);
}

#[test]
fn filtered_records_are_held_back_but_tracked() {
    let mut c = SessionCorrelator::default();
    let config = FilterConfig {
        filter_pty: true,
        filter_ancestors: vec![],
    };
    let action = handle_event(&exec_record(100, 1, 0, "cron"), &mut c, &config);
    assert!(matches!(action, SinkAction::Skip(SkipReason::Filtered)));
    assert_eq!(c.tracked_count(), 1);
    let action = handle_event(&exec_record(200, 1, 5, "bash"), &mut c, &config);
    assert!(matches!(action, SinkAction::Exec { .. }));
}

#[test]
fn exits_forget_the_process_and_report_completion() {
    let mut c = SessionCorrelator::default();
    let first = handle_event(&exec_record(100, 1, 0, "sh"), &mut c, &no_filters());
    let sid = match first {
        SinkAction::Exec { session, .. } => session.session_id,
        other => panic!("unexpected action {other:?}"),
    };
    let exit = ExitEvent::new(header(EventType::Exit, 100, 1, 0, "sh"), 3).to_bytes();
    match handle_event(&exit, &mut c, &no_filters()) {
        SinkAction::Exit {
            session,
            event,
            session_complete,
        } => {
            assert_eq!(session.session_id, sid);
            assert_eq!(event.exit_code, 3);
            assert!(session_complete);
        }
        other => panic!("unexpected action {other:?}"),
    }
    assert_eq!(c.tracked_count(), 0);
}

#[test]
fn io_records_join_the_session_of_their_terminal() {
    let mut c = SessionCorrelator::default();
    let shell = match handle_event(&exec_record(100, 1, 9, "bash"), &mut c, &no_filters()) {
        SinkAction::Exec { session, .. } => session.session_id,
        other => panic!("unexpected action {other:?}"),
    };
    let mut io = IoEvent::zeroed(header(EventType::Write, 200, 100, 9, "cat"));
    io.fd = 1;
    io.data_len = 3;
    io.count = 3;
    io.data[..3].copy_from_slice(b"hi\n");
    match handle_event(&io.to_bytes(), &mut c, &no_filters()) {
        SinkAction::Io {
            session,
            event,
            event_type,
        } => {
            assert_eq!(session.session_id, shell);
            assert_eq!(event.data, b"hi\n".to_vec());
            assert_eq!(event_type, EventType::Write);
        }
        other => panic!("unexpected action {other:?}"),
    }
}
