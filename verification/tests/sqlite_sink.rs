use rusqlite::types::Value;
use rusqlite::Connection;

use shspectr::common::event_type::EventType;
use shspectr::common::schema::SCHEMA;
use shspectr::common::session::SessionId;
use shspectr::common::sql::SqlParam;
use shspectr::recorder::event::{ParsedExecEvent, ParsedExitEvent, ParsedIoEvent};
use shspectr::recorder::handler::{SessionInfo, SinkAction, SkipReason};
use shspectr::recorder::sqlite_sink::{
    ensure_session, insert_exec, insert_exit, insert_io, statements_for,
};

fn open_in_memory() -> Connection {
    let conn = Connection::open_in_memory().expect("open in-memory SQLite");
    conn.execute_batch(SCHEMA).expect("create SQLite schema");
    conn
}

fn run(conn: &Connection, stmt: &(&str, Vec<SqlParam>)) {
    let values: Vec<Value> = stmt
        .1
        .iter()
        .map(|p| match p {
            SqlParam::Text(s) => Value::Text(s.clone()),
            SqlParam::Int(n) => Value::Integer(*n),
            SqlParam::Null => Value::Null,
        })
        .collect();
    conn.execute(stmt.0, rusqlite::params_from_iter(values))
        .expect("statement runs");
}

fn test_session(id: &str) -> SessionInfo {
    SessionInfo {
        session_id: SessionId::from_str_unchecked(id),
        pid: 100,
        comm: "bash".into(),
        uid: 1000,
        euid: 1000,
        tty_nr: 42,
        cgroup_id: 99,
    }
}

fn sample_exec() -> ParsedExecEvent {
    ParsedExecEvent {
        pid: 100,
        ppid: 1,
        uid: 1000,
        gid: 1000,
        euid: 1000,
        comm: "ls".into(),
        tty_nr: 42,
        cgroup_id: 99,
        execution_id: 100,
        filename: "/usr/bin/ls".into(),
        argv: vec!["ls".into(), "-la".into()],
        retval: 0,
    }
}

fn sample_exit(exit_code: i32) -> ParsedExitEvent {
    ParsedExitEvent {
        pid: 100,
        ppid: 1,
        uid: 1000,
        gid: 1000,
        euid: 1000,
        comm: "ls".into(),
        tty_nr: 42,
        cgroup_id: 99,
        execution_id: 100,
        exit_code,
    }
}

fn record_exit(conn: &Connection, sid: &str, e: &ParsedExitEvent) {
    for stmt in insert_exit(sid, e) {
        run(conn, &stmt);
    }
}

#[test]
fn schema_creation() {
    let conn = open_in_memory();
    let count: i64 = conn
        .query_row("SELECT COUNT(*) FROM sessions", [], |r| r.get(0))
        .unwrap();
    assert_eq!(count, 0);
    let count: i64 = conn
        .query_row("SELECT COUNT(*) FROM events", [], |r| r.get(0))
        .unwrap();
    assert_eq!(count, 0);
}

#[test]
fn ensure_session_creates_row() {
    let conn = open_in_memory();
    run(&conn, &ensure_session(&test_session("ox_test1234")));

    let (id, root_pid, uid): (String, i64, i64) = conn
        .query_row(
            "SELECT id, root_pid, uid FROM sessions WHERE id = ?1",
            ["ox_test1234"],
            |r| Ok((r.get(0)?, r.get(1)?, r.get(2)?)),
        )
        .unwrap();
    assert_eq!(id, "ox_test1234");
    assert_eq!(root_pid, 100);
    assert_eq!(uid, 1000);
}

#[test]
fn ensure_session_idempotent() {
    let conn = open_in_memory();
    run(&conn, &ensure_session(&test_session("ox_test1234")));
    run(
        &conn,
        &ensure_session(&SessionInfo {
            session_id: SessionId::from_str_unchecked("ox_test1234"),
            pid: 200,
            comm: "zsh".into(),
            uid: 2000,
            euid: 2000,
            tty_nr: 0,
            cgroup_id: 0,
        }),
    );

    let root_pid: i64 = conn
        .query_row(
            "SELECT root_pid FROM sessions WHERE id = ?1",
            ["ox_test1234"],
            |r| r.get(0),
        )
        .unwrap();
    assert_eq!(root_pid, 100);
}

#[test]
fn insert_exec_event() {
    let conn = open_in_memory();
    run(&conn, &ensure_session(&test_session("ox_abc")));
    run(&conn, &insert_exec("ox_abc", &sample_exec()));

    let (event_type, pid, filename, argv): (String, i64, String, String) = conn
        .query_row(
            "SELECT event_type, pid, filename, argv FROM events WHERE session_id = ?1",
            ["ox_abc"],
            |r| Ok((r.get(0)?, r.get(1)?, r.get(2)?, r.get(3)?)),
        )
        .unwrap();
    assert_eq!(event_type, "exec");
    assert_eq!(pid, 100);
    assert_eq!(filename, "/usr/bin/ls");
    assert_eq!(argv, r#"["ls","-la"]"#);
}

#[test]
fn insert_exit_updates_session() {
    let conn = open_in_memory();
    run(&conn, &ensure_session(&test_session("ox_abc")));
    let mut exit = sample_exit(0);
    exit.comm = "bash".into();
    record_exit(&conn, "ox_abc", &exit);

    let ended_at: Option<String> = conn
        .query_row(
            "SELECT ended_at FROM sessions WHERE id = ?1",
            ["ox_abc"],
            |r| r.get(0),
        )
        .unwrap();
    assert!(ended_at.is_some(), "ended_at should be set after exit");
}

#[test]
fn insert_io_event() {
    let conn = open_in_memory();
    run(&conn, &ensure_session(&test_session("ox_abc")));

    let io = ParsedIoEvent {
        pid: 100,
        ppid: 1,
        uid: 1000,
        gid: 1000,
        euid: 1000,
        comm: "echo".into(),
        tty_nr: 42,
        cgroup_id: 99,
        execution_id: 100,
        fd: 1,
        data: b"hello world\n".to_vec(),
        count: 12,
    };
    run(&conn, &insert_io("ox_abc", &io, EventType::Write));

    let (event_type, fd, data): (String, i64, String) = conn
        .query_row(
            "SELECT event_type, fd, data FROM events WHERE session_id = ?1",
            ["ox_abc"],
            |r| Ok((r.get(0)?, r.get(1)?, r.get(2)?)),
        )
        .unwrap();
    assert_eq!(event_type, "write");
    assert_eq!(fd, 1);
    assert_eq!(data, "hello world\n");
}

#[test]
fn insert_io_event_replaces_invalid_utf8() {
    let conn = open_in_memory();
    run(&conn, &ensure_session(&test_session("ox_abc")));
    let io = ParsedIoEvent {
        pid: 100,
        ppid: 1,
        uid: 1000,
        gid: 1000,
        euid: 1000,
        comm: "cat".into(),
        tty_nr: 42,
        cgroup_id: u64::MAX,
        execution_id: 100,
        fd: 0,
        data: vec![b'a', 0xFF, b'b'],
        count: u64::MAX,
    };
    run(&conn, &insert_io("ox_abc", &io, EventType::Read));
    let (data, data_len, byte_count): (String, i64, i64) = conn
        .query_row(
            "SELECT data, data_len, byte_count FROM events WHERE session_id = ?1",
            ["ox_abc"],
            |r| Ok((r.get(0)?, r.get(1)?, r.get(2)?)),
        )
        .unwrap();
    assert_eq!(data, "a\u{FFFD}b");
    assert_eq!(data_len, 3);
    assert_eq!(byte_count, i64::MAX);
}

#[test]
fn insert_exit_backfills_exit_code_on_exec_row() {
    let conn = open_in_memory();
    run(&conn, &ensure_session(&test_session("ox_abc")));
    run(&conn, &insert_exec("ox_abc", &sample_exec()));
    record_exit(&conn, "ox_abc", &sample_exit(42));

    let exit_code: Option<i64> = conn
        .query_row(
            "SELECT exit_code FROM events WHERE session_id = ?1 AND event_type = 'exec' AND pid = ?2",
            [Value::Text("ox_abc".into()), Value::Integer(100)],
            |r| r.get(0),
        )
        .unwrap();
    assert_eq!(
        exit_code,
        Some(42),
        "exec row should have exit_code backfilled"
    );
}

#[test]
fn query_events_by_session_and_type() {
    let conn = open_in_memory();
    run(&conn, &ensure_session(&test_session("ox_abc")));
    run(&conn, &insert_exec("ox_abc", &sample_exec()));
    record_exit(&conn, "ox_abc", &sample_exit(0));

    let count: i64 = conn
        .query_row(
            "SELECT COUNT(*) FROM events WHERE session_id = ?1 AND event_type = ?2",
            ["ox_abc", "exec"],
            |r| r.get(0),
        )
        .unwrap();
    assert_eq!(count, 1);

    let total: i64 = conn
        .query_row(
            "SELECT COUNT(*) FROM events WHERE session_id = ?1",
            ["ox_abc"],
            |r| r.get(0),
        )
        .unwrap();
    assert_eq!(total, 2);
}

#[test]
fn handled_records_become_statement_batches() {
    let conn = open_in_memory();
    let skip = statements_for(&SinkAction::Skip(SkipReason::Filtered));
    assert!(skip.is_empty());

    let exec = statements_for(&SinkAction::Exec {
        session: test_session("ox_batch01"),
        event: sample_exec(),
    });
    assert_eq!(exec.len(), 2);
    for st in &exec {
        run(&conn, st);
    }
    let exit = statements_for(&SinkAction::Exit {
        session: test_session("ox_batch01"),
        event: sample_exit(3),
        session_complete: true,
    });
    assert_eq!(exit.len(), 4);
    for st in &exit {
        run(&conn, st);
    }
    let (sessions, events, code): (i64, i64, Option<i64>) = conn
        .query_row(
            "SELECT (SELECT COUNT(*) FROM sessions), (SELECT COUNT(*) FROM events), \
             (SELECT exit_code FROM events WHERE event_type = 'exec')",
            [],
            |r| Ok((r.get(0)?, r.get(1)?, r.get(2)?)),
        )
        .unwrap();
    assert_eq!(sessions, 1);
    assert_eq!(events, 2);
    assert_eq!(code, Some(3));
}
