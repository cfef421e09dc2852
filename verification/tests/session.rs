use shspectr::common::session::SessionId;
use shspectr::recorder::session::{
    generate_session_id, session_id_from_bytes, EventInfo, ExitInfo, SessionCorrelator, SESSION_ID_SUFFIX_LEN,
};

fn ei(pid: u32, ppid: u32, tty_nr: u32) -> EventInfo {
    ei_comm(pid, ppid, tty_nr, "test")
}

fn ei_comm(pid: u32, ppid: u32, tty_nr: u32, comm: &str) -> EventInfo {
    EventInfo {
        pid,
        ppid,
        tty_nr,
        comm: comm.into(),
        execution_id: u64::from(pid),
    }
}

#[test]
fn session_id_format() {
    let id = generate_session_id().expect("random bytes");
    let s: &str = id.as_ref();
    assert!(s.starts_with("ox_"), "should start with ox_: {s}");
    assert_eq!(s.len(), 3 + SESSION_ID_SUFFIX_LEN);
    assert!(s[3..].chars().all(|c| c.is_ascii_alphanumeric()));
}

#[test]
fn session_ids_are_unique() {
    let ids: Vec<SessionId> = (0..100).map(|_| generate_session_id().expect("random bytes")).collect();
    let unique: std::collections::HashSet<&SessionId> = ids.iter().collect();
    assert_eq!(ids.len(), unique.len(), "session IDs should be unique");
}

#[test]
fn generated_session_ids_are_accepted_by_the_validator() {
    for _ in 0..20 {
        let id = generate_session_id().expect("random bytes");
        let s: &str = id.as_ref();
        assert!(SessionId::is_valid(s));
        assert!(SessionId::new(s.to_string()).is_some());
    }
}

#[test]
fn pty_processes_share_session() {
    let mut c = SessionCorrelator::default();
    let s1 = c.on_exec(&ei(100, 1, 42)).unwrap().clone();
    let s2 = c.on_exec(&ei(200, 1, 42)).unwrap().clone();
    assert_eq!(s1, s2, "same tty_nr should yield same session");
}

#[test]
fn different_ptys_get_different_sessions() {
    let mut c = SessionCorrelator::default();
    let s1 = c.on_exec(&ei(100, 1, 42)).unwrap().clone();
    let s2 = c.on_exec(&ei(200, 1, 43)).unwrap().clone();
    assert_ne!(s1, s2, "different tty_nr should yield different sessions");
}

#[test]
fn child_inherits_parent_session() {
    let mut c = SessionCorrelator::default();
    let parent_sid = c.on_exec(&ei(100, 1, 0)).unwrap().clone();
    let child_sid = c.on_exec(&ei(200, 100, 0)).unwrap().clone();
    assert_eq!(parent_sid, child_sid, "child should inherit parent session");
}

#[test]
fn grandchild_inherits_session() {
    let mut c = SessionCorrelator::default();
    let s1 = c.on_exec(&ei(100, 1, 0)).unwrap().clone();
    let s2 = c.on_exec(&ei(200, 100, 0)).unwrap().clone();
    let s3 = c.on_exec(&ei(300, 200, 0)).unwrap().clone();
    assert_eq!(s1, s2);
    assert_eq!(s2, s3, "grandchild should inherit through chain");
}

#[test]
fn unknown_parent_gets_singleton() {
    let mut c = SessionCorrelator::default();
    let s1 = c.on_exec(&ei(100, 999, 0)).unwrap().clone();
    let s2 = c.on_exec(&ei(200, 998, 0)).unwrap().clone();
    assert_ne!(s1, s2, "unrelated processes should get different sessions");
}

#[test]
fn reexec_keeps_session() {
    let mut c = SessionCorrelator::default();
    let s1 = c.on_exec(&ei(100, 1, 42)).unwrap().clone();
    let s2 = c.on_exec(&ei(100, 1, 42)).unwrap().clone();
    assert_eq!(s1, s2, "re-exec should keep existing session");
}

#[test]
fn reexec_refreshes_process_metadata_and_execution_id() {
    let mut c = SessionCorrelator::default();
    c.on_exec(&ei_comm(100, 1, 42, "bash"));
    c.on_exec(&EventInfo {
        pid: 100,
        ppid: 55,
        tty_nr: 99,
        comm: "python".into(),
        execution_id: 1234,
    });

    assert_eq!(c.process(100).map(|info| info.execution_id), Some(1234));
    let info = c.process(100).expect("tracked");
    assert_eq!(info.ppid, 55);
    assert_eq!(info.tty_nr, 99);
    assert_eq!(info.comm, "python");
}

#[test]
fn on_exit_removes_process() {
    let mut c = SessionCorrelator::default();
    let sid = c.on_exec(&ei(100, 1, 0)).unwrap().clone();
    let removed = c.on_exit(100);
    assert_eq!(
        removed,
        Some(ExitInfo {
            session_id: sid,
            session_complete: true,
        })
    );
    assert_eq!(c.tracked_count(), 0);
}

#[test]
fn on_exit_unknown_pid_returns_none() {
    let mut c = SessionCorrelator::default();
    assert_eq!(c.on_exit(999), None);
}

#[test]
fn session_for_untracked_process_creates_entry() {
    let mut c = SessionCorrelator::default();
    let sid = c.session_for(&ei(100, 1, 0)).unwrap().clone();
    let s: &str = sid.as_ref();
    assert!(s.starts_with("ox_"));
    assert_eq!(c.tracked_count(), 1);
}

#[test]
fn session_for_tracked_process_returns_existing() {
    let mut c = SessionCorrelator::default();
    let s1 = c.on_exec(&ei(100, 1, 42)).unwrap().clone();
    let s2 = c.session_for(&ei(100, 1, 42)).unwrap().clone();
    assert_eq!(s1, s2);
}

#[test]
fn io_event_on_pty_process_inherits_session() {
    let mut c = SessionCorrelator::default();
    let shell_sid = c.on_exec(&ei(100, 1, 42)).unwrap().clone();
    let io_sid = c.session_for(&ei(200, 100, 42)).unwrap().clone();
    assert_eq!(shell_sid, io_sid);
}

#[test]
fn ancestor_comms_walks_chain() {
    let mut c = SessionCorrelator::default();
    c.on_exec(&ei_comm(1, 0, 0, "systemd"));
    c.on_exec(&ei_comm(100, 1, 0, "sshd"));
    c.on_exec(&ei_comm(200, 100, 0, "bash"));
    c.on_exec(&ei_comm(300, 200, 0, "ls"));

    let comms = c.ancestor_comms(300);
    assert_eq!(comms, vec!["bash", "sshd", "systemd"]);
}

#[test]
fn ancestor_comms_empty_for_unknown() {
    let c = SessionCorrelator::default();
    assert!(c.ancestor_comms(999).is_empty());
}

#[test]
fn ancestor_comms_stops_at_a_cycle_bound() {
    let mut c = SessionCorrelator::default();
    c.on_exec(&ei_comm(10, 11, 0, "a"));
    c.on_exec(&ei_comm(11, 10, 0, "b"));
    let comms = c.ancestor_comms(10);
    assert_eq!(comms.len(), 32);
    assert_eq!(comms[0], "b");
    assert_eq!(comms[1], "a");
}

#[test]
fn tty_session_entry_persists_after_last_process_exits() {
    let mut c = SessionCorrelator::default();
    c.on_exec(&ei(100, 1, 5));
    assert_eq!(c.tty_session_count(), 1);
    let exit = c.on_exit(100).expect("tracked process should exit");
    assert!(
        !exit.session_complete,
        "PTY sessions should stay open across command gaps"
    );
    assert_eq!(
        c.tty_session_count(),
        1,
        "TTY session should remain so later commands on the same terminal reuse it"
    );
}

#[test]
fn tty_session_entry_retained_while_processes_remain() {
    let mut c = SessionCorrelator::default();
    c.on_exec(&ei(100, 1, 5));
    c.on_exec(&ei(101, 1, 5));
    assert_eq!(c.tty_session_count(), 1);
    c.on_exit(100);
    assert_eq!(
        c.tty_session_count(),
        1,
        "entry must remain while a process is still on the TTY"
    );
    let exit = c.on_exit(101).expect("tracked process should exit");
    assert!(!exit.session_complete);
    assert_eq!(c.tty_session_count(), 1);
}

#[test]
fn tty_session_count_zero_for_tty_nr_zero() {
    let mut c = SessionCorrelator::default();
    c.on_exec(&ei(100, 1, 0));
    assert_eq!(
        c.tty_session_count(),
        0,
        "tty_nr=0 must not create a tty_sessions entry"
    );
    c.on_exit(100);
    assert_eq!(c.tty_session_count(), 0);
}

#[test]
fn pty_session_survives_gap_between_commands() {
    let mut c = SessionCorrelator::default();
    let first = c.on_exec(&ei_comm(100, 1, 9, "ls")).unwrap().clone();
    let exit = c.on_exit(100).expect("tracked process should exit");
    assert_eq!(exit.session_id, first);
    assert!(!exit.session_complete);

    let second = c.on_exec(&ei_comm(200, 1, 9, "whoami")).unwrap().clone();
    assert_eq!(
        second, first,
        "same tty_nr should keep one session across command gaps"
    );
}

#[test]
fn non_pty_session_only_completes_when_last_process_exits() {
    let mut c = SessionCorrelator::default();
    let session_id = c.on_exec(&ei(100, 1, 0)).unwrap().clone();
    let child_session = c.on_exec(&ei(200, 100, 0)).unwrap().clone();
    assert_eq!(child_session, session_id);

    let parent_exit = c.on_exit(100).expect("parent should be tracked");
    assert_eq!(parent_exit.session_id, session_id);
    assert!(
        !parent_exit.session_complete,
        "session must remain open while child is tracked"
    );

    let child_exit = c.on_exit(200).expect("child should be tracked");
    assert_eq!(child_exit.session_id, session_id);
    assert!(
        child_exit.session_complete,
        "last non-PTY process should complete the session"
    );
}

#[test]
fn new_correlator_tracks_nothing() {
    let c = SessionCorrelator::new();
    assert_eq!(c.tracked_count(), 0);
    assert_eq!(c.tty_session_count(), 0);
    assert!(c.process(1).is_none());
}

#[test]
fn session_ids_map_each_byte_to_a_digit_or_letter() {
    let id = session_id_from_bytes([0, 9, 10, 35, 36, 255, 100, 200]);
    let s: &str = id.as_ref();
    assert_eq!(s, "ox_09az03sk");
    assert!(SessionId::is_valid(s));
}

#[test]
fn tty_session_outlives_every_process_on_it() {
    let mut c = SessionCorrelator::default();
    let first = c.on_exec(&ei(100, 1, 7)).unwrap().clone();
    c.on_exec(&ei(101, 100, 7));
    c.on_exit(101);
    c.on_exit(100);
    c.on_exec(&ei(300, 1, 0));
    let later = c.session_for(&ei(400, 999, 7)).unwrap().clone();
    assert_eq!(later, first);
    assert!(SessionId::is_valid(first.as_str()));
}
