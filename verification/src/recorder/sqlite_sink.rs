//! SQLite sink: the statements that store session events in a local SQLite
//! database. Sessions are created on first event and updated on last exit;
//! events are inserted as they arrive. Executing the statements against a
//! connection is left to the caller.

use vstd::prelude::*;

use crate::common::event_type::{name_of, EventType};
use crate::common::sql::{param_views, ParamModel, SqlParam};
use crate::recorder::event::{ParsedExecEvent, ParsedExitEvent, ParsedIoEvent};
use crate::recorder::handler::{SessionInfo, SinkAction};
use crate::text::{owned, views};
use crate::utf8::{from_utf8_lossy, utf8_lossy};

verus! {

/// What `serde_json::to_string` writes for a list of strings.
pub uninterp spec fn json_string_array(items: Seq<Seq<char>>) -> Seq<char>;

/// Serialises a list of strings as a JSON array (`serde_json::to_string`);
/// the result is named as a function of the strings. Serialising strings
/// cannot fail, so the empty fallback of the call is never taken.
#[verifier::external_body]
fn argv_json(argv: &Vec<String>) -> (r: String)
    ensures
        r@ == json_string_array(views(argv@)),
{
    serde_json::to_string(argv).unwrap_or_default()
}

/// A `u64` as an SQLite integer, saturating at `i64::MAX`.
pub open spec fn saturating_i64(v: u64) -> int {
    if v <= i64::MAX {
        v as int
    } else {
        i64::MAX as int
    }
}

fn to_i64_saturating(v: u64) -> (r: i64)
    ensures
        r == saturating_i64(v),
{
    if v <= i64::MAX as u64 {
        v as i64
    } else {
        i64::MAX
    }
}

/// Inserts the session row unless one with that ID exists.
pub const ENSURE_SESSION_SQL: &'static str = "INSERT OR IGNORE INTO sessions (id, started_at, root_pid, root_comm, uid, euid, tty_nr, cgroup_id)
                 VALUES (?1, datetime('now'), ?2, ?3, ?4, ?5, ?6, ?7)";

/// Inserts an exec row.
pub const INSERT_EXEC_SQL: &'static str = "INSERT INTO events (session_id, event_type, timestamp, pid, ppid, uid, gid, euid, comm, tty_nr, filename, argv)
                 VALUES (?1, 'exec', datetime('now'), ?2, ?3, ?4, ?5, ?6, ?7, ?8, ?9, ?10)";

/// Inserts an exit row.
pub const INSERT_EXIT_SQL: &'static str = "INSERT INTO events (session_id, event_type, timestamp, pid, ppid, uid, gid, euid, comm, tty_nr, exit_code)
                 VALUES (?1, 'exit', datetime('now'), ?2, ?3, ?4, ?5, ?6, ?7, ?8, ?9)";

/// Copies an exit code onto the latest exec row of the same PID in the
/// session, so that the web reader need not join the exit row.
pub const BACKFILL_EXIT_CODE_SQL: &'static str = "UPDATE events SET exit_code = ?1 WHERE id = ( SELECT id FROM events WHERE session_id = ?2 AND pid = ?3 AND event_type = 'exec' ORDER BY id DESC LIMIT 1 )";

/// Marks the session as ended now.
pub const END_SESSION_SQL: &'static str = "UPDATE sessions SET ended_at = datetime('now') WHERE id = ?1";

/// Inserts an I/O row.
pub const INSERT_IO_SQL: &'static str = "INSERT INTO events (session_id, event_type, timestamp, pid, ppid, uid, gid, euid, comm, tty_nr, fd, data, data_len, byte_count)
                 VALUES (?1, ?2, datetime('now'), ?3, ?4, ?5, ?6, ?7, ?8, ?9, ?10, ?11, ?12, ?13)";

/// The parameters that create the row of a session.
pub open spec fn session_params(info: SessionInfo) -> Seq<ParamModel> {
    seq![
        ParamModel::Text(info.session_id@),
        ParamModel::Int(info.pid as int),
        ParamModel::Text(info.comm@),
        ParamModel::Int(info.uid as int),
        ParamModel::Int(info.euid as int),
        ParamModel::Int(info.tty_nr as int),
        ParamModel::Int(saturating_i64(info.cgroup_id)),
    ]
}

/// The parameters of the exec row of `e` in session `sid`.
pub open spec fn exec_params(sid: Seq<char>, e: ParsedExecEvent) -> Seq<ParamModel> {
    seq![
        ParamModel::Text(sid),
        ParamModel::Int(e.pid as int),
        ParamModel::Int(e.ppid as int),
        ParamModel::Int(e.uid as int),
        ParamModel::Int(e.gid as int),
        ParamModel::Int(e.euid as int),
        ParamModel::Text(e.comm@),
        ParamModel::Int(e.tty_nr as int),
        ParamModel::Text(e.filename@),
        ParamModel::Text(json_string_array(views(e.argv@))),
    ]
}

/// The parameters of the exit row of `e` in session `sid`.
pub open spec fn exit_params(sid: Seq<char>, e: ParsedExitEvent) -> Seq<ParamModel> {
    seq![
        ParamModel::Text(sid),
        ParamModel::Int(e.pid as int),
        ParamModel::Int(e.ppid as int),
        ParamModel::Int(e.uid as int),
        ParamModel::Int(e.gid as int),
        ParamModel::Int(e.euid as int),
        ParamModel::Text(e.comm@),
        ParamModel::Int(e.tty_nr as int),
        ParamModel::Int(e.exit_code as int),
    ]
}

/// The parameters of the I/O row of `e` in session `sid`.
pub open spec fn io_params(sid: Seq<char>, e: ParsedIoEvent, t: EventType) -> Seq<ParamModel> {
    seq![
        ParamModel::Text(sid),
        ParamModel::Text(name_of(t)),
        ParamModel::Int(e.pid as int),
        ParamModel::Int(e.ppid as int),
        ParamModel::Int(e.uid as int),
        ParamModel::Int(e.gid as int),
        ParamModel::Int(e.euid as int),
        ParamModel::Text(e.comm@),
        ParamModel::Int(e.tty_nr as int),
        ParamModel::Int(e.fd as int),
        ParamModel::Text(utf8_lossy(e.data@)),
        ParamModel::Int(saturating_i64(e.data@.len() as u64)),
        ParamModel::Int(saturating_i64(e.count)),
    ]
}

/// The value an event row stores in one of the process columns shared by
/// every event: the session it belongs to and the identity of the process.
pub open spec fn process_column(
    col: Seq<char>,
    sid: Seq<char>,
    pid: u32,
    ppid: u32,
    uid: u32,
    gid: u32,
    euid: u32,
    comm: Seq<char>,
    tty_nr: u32,
) -> Option<ParamModel> {
    if col == "session_id"@ {
        Some(ParamModel::Text(sid))
    } else if col == "pid"@ {
        Some(ParamModel::Int(pid as int))
    } else if col == "ppid"@ {
        Some(ParamModel::Int(ppid as int))
    } else if col == "uid"@ {
        Some(ParamModel::Int(uid as int))
    } else if col == "gid"@ {
        Some(ParamModel::Int(gid as int))
    } else if col == "euid"@ {
        Some(ParamModel::Int(euid as int))
    } else if col == "comm"@ {
        Some(ParamModel::Text(comm))
    } else if col == "tty_nr"@ {
        Some(ParamModel::Int(tty_nr as int))
    } else {
        None
    }
}

/// The columns `INSERT_EXEC_SQL` binds, `?1` to `?10` in order.
pub open spec fn exec_columns() -> Seq<Seq<char>> {
    seq!["session_id"@, "pid"@, "ppid"@, "uid"@, "gid"@, "euid"@, "comm"@, "tty_nr"@, "filename"@, "argv"@]
}

/// The columns `INSERT_EXIT_SQL` binds, `?1` to `?9` in order.
pub open spec fn exit_columns() -> Seq<Seq<char>> {
    seq!["session_id"@, "pid"@, "ppid"@, "uid"@, "gid"@, "euid"@, "comm"@, "tty_nr"@, "exit_code"@]
}

/// The columns `INSERT_IO_SQL` binds, `?1` to `?13` in order.
pub open spec fn io_columns() -> Seq<Seq<char>> {
    seq![
        "session_id"@,
        "event_type"@,
        "pid"@,
        "ppid"@,
        "uid"@,
        "gid"@,
        "euid"@,
        "comm"@,
        "tty_nr"@,
        "fd"@,
        "data"@,
        "data_len"@,
        "byte_count"@,
    ]
}

/// What the exec row of `e` in session `sid` stores in column `col`.
pub open spec fn exec_column(sid: Seq<char>, e: ParsedExecEvent, col: Seq<char>) -> Option<ParamModel> {
    match process_column(col, sid, e.pid, e.ppid, e.uid, e.gid, e.euid, e.comm@, e.tty_nr) {
        Some(v) => Some(v),
        None => if col == "filename"@ {
            Some(ParamModel::Text(e.filename@))
        } else if col == "argv"@ {
            Some(ParamModel::Text(json_string_array(views(e.argv@))))
        } else {
            None
        },
    }
}

/// What the exit row of `e` in session `sid` stores in column `col`.
pub open spec fn exit_column(sid: Seq<char>, e: ParsedExitEvent, col: Seq<char>) -> Option<ParamModel> {
    match process_column(col, sid, e.pid, e.ppid, e.uid, e.gid, e.euid, e.comm@, e.tty_nr) {
        Some(v) => Some(v),
        None => if col == "exit_code"@ {
            Some(ParamModel::Int(e.exit_code as int))
        } else {
            None
        },
    }
}

/// What the I/O row of `e` (of type `t`) in session `sid` stores in column
/// `col`.
pub open spec fn io_column(sid: Seq<char>, e: ParsedIoEvent, t: EventType, col: Seq<char>) -> Option<ParamModel> {
    match process_column(col, sid, e.pid, e.ppid, e.uid, e.gid, e.euid, e.comm@, e.tty_nr) {
        Some(v) => Some(v),
        None => if col == "event_type"@ {
            Some(ParamModel::Text(name_of(t)))
        } else if col == "fd"@ {
            Some(ParamModel::Int(e.fd as int))
        } else if col == "data"@ {
            Some(ParamModel::Text(utf8_lossy(e.data@)))
        } else if col == "data_len"@ {
            Some(ParamModel::Int(saturating_i64(e.data@.len() as u64)))
        } else if col == "byte_count"@ {
            Some(ParamModel::Int(saturating_i64(e.count)))
        } else {
            None
        },
    }
}

/// Every parameter of an event insert is the value of the column it fills:
/// in the exec, exit and I/O rows, `?k` holds the event's own field for the
/// `k`-th column of the statement (the effective UID in `euid`, the real
/// one in `uid`, the group in `gid`, and so on), in the statement's order.
pub proof fn law_rows_bind_their_columns(sid: Seq<char>, x: ParsedExecEvent, y: ParsedExitEvent, z: ParsedIoEvent, t: EventType)
    ensures
        exec_params(sid, x).len() == exec_columns().len(),
        forall|k: int| 0 <= k < exec_columns().len() ==> exec_column(sid, x, #[trigger] exec_columns()[k]) == Some(exec_params(sid, x)[k]),
        exit_params(sid, y).len() == exit_columns().len(),
        forall|k: int| 0 <= k < exit_columns().len() ==> exit_column(sid, y, #[trigger] exit_columns()[k]) == Some(exit_params(sid, y)[k]),
        io_params(sid, z, t).len() == io_columns().len(),
        forall|k: int| 0 <= k < io_columns().len() ==> io_column(sid, z, t, #[trigger] io_columns()[k]) == Some(io_params(sid, z, t)[k]),
{
    reveal_strlit("session_id");
    reveal_strlit("pid");
    reveal_strlit("ppid");
    reveal_strlit("uid");
    reveal_strlit("gid");
    reveal_strlit("euid");
    reveal_strlit("comm");
    reveal_strlit("tty_nr");
    reveal_strlit("filename");
    reveal_strlit("argv");
    reveal_strlit("exit_code");
    reveal_strlit("event_type");
    reveal_strlit("fd");
    reveal_strlit("data");
    reveal_strlit("data_len");
    reveal_strlit("byte_count");
    assert("session_id"@.len() == 10 && "session_id"@[0] == 's');
    assert("pid"@.len() == 3 && "pid"@[0] == 'p');
    assert("ppid"@.len() == 4 && "ppid"@[0] == 'p');
    assert("uid"@.len() == 3 && "uid"@[0] == 'u');
    assert("gid"@.len() == 3 && "gid"@[0] == 'g');
    assert("euid"@.len() == 4 && "euid"@[0] == 'e');
    assert("comm"@.len() == 4 && "comm"@[0] == 'c');
    assert("tty_nr"@.len() == 6 && "tty_nr"@[0] == 't');
    assert("filename"@.len() == 8 && "filename"@[0] == 'f');
    assert("argv"@.len() == 4 && "argv"@[0] == 'a');
    assert("exit_code"@.len() == 9 && "exit_code"@[0] == 'e');
    assert("event_type"@.len() == 10 && "event_type"@[0] == 'e');
    assert("fd"@.len() == 2 && "fd"@[0] == 'f');
    assert("data"@.len() == 4 && "data"@[0] == 'd');
    assert("data_len"@.len() == 8 && "data_len"@[0] == 'd');
    assert("byte_count"@.len() == 10 && "byte_count"@[0] == 'b');
}

/// The columns `ENSURE_SESSION_SQL` binds, `?1` to `?7` in order.
pub open spec fn session_columns() -> Seq<Seq<char>> {
    seq!["id"@, "root_pid"@, "root_comm"@, "uid"@, "euid"@, "tty_nr"@, "cgroup_id"@]
}

/// What the session row of `info` stores in column `col`: the session and
/// the process that started it.
pub open spec fn session_column(info: SessionInfo, col: Seq<char>) -> Option<ParamModel> {
    if col == "id"@ {
        Some(ParamModel::Text(info.session_id@))
    } else if col == "root_pid"@ {
        Some(ParamModel::Int(info.pid as int))
    } else if col == "root_comm"@ {
        Some(ParamModel::Text(info.comm@))
    } else if col == "uid"@ {
        Some(ParamModel::Int(info.uid as int))
    } else if col == "euid"@ {
        Some(ParamModel::Int(info.euid as int))
    } else if col == "tty_nr"@ {
        Some(ParamModel::Int(info.tty_nr as int))
    } else if col == "cgroup_id"@ {
        Some(ParamModel::Int(saturating_i64(info.cgroup_id)))
    } else {
        None
    }
}

/// Every parameter of the session insert is the value of the column it
/// fills, in the statement's order.
pub proof fn law_session_row_binds_its_columns(info: SessionInfo)
    ensures
        session_params(info).len() == session_columns().len(),
        forall|k: int|
            0 <= k < session_columns().len() ==> session_column(info, #[trigger] session_columns()[k]) == Some(
                session_params(info)[k],
            ),
{
    reveal_strlit("id");
    reveal_strlit("root_pid");
    reveal_strlit("root_comm");
    reveal_strlit("uid");
    reveal_strlit("euid");
    reveal_strlit("tty_nr");
    reveal_strlit("cgroup_id");
    assert("id"@.len() == 2 && "id"@[0] == 'i');
    assert("root_pid"@.len() == 8 && "root_pid"@[0] == 'r' && "root_pid"@[5] == 'p');
    assert("root_comm"@.len() == 9 && "root_comm"@[0] == 'r');
    assert("uid"@.len() == 3 && "uid"@[0] == 'u');
    assert("euid"@.len() == 4 && "euid"@[0] == 'e');
    assert("tty_nr"@.len() == 6 && "tty_nr"@[0] == 't');
    assert("cgroup_id"@.len() == 9 && "cgroup_id"@[0] == 'c');
}

/// The statement that ensures a session row exists: created on the first
/// call for a session ID, left unchanged by later ones.
pub fn ensure_session(info: &SessionInfo) -> (r: (&'static str, Vec<SqlParam>))
    ensures
        r.0 == ENSURE_SESSION_SQL,
        param_views(r.1@) == session_params(*info),
{
    let mut p: Vec<SqlParam> = Vec::new();
    p.push(SqlParam::Text(owned(info.session_id.as_str())));
    p.push(SqlParam::Int(info.pid as i64));
    p.push(SqlParam::Text(info.comm.clone()));
    p.push(SqlParam::Int(info.uid as i64));
    p.push(SqlParam::Int(info.euid as i64));
    p.push(SqlParam::Int(info.tty_nr as i64));
    p.push(SqlParam::Int(to_i64_saturating(info.cgroup_id)));
    assert(param_views(p@) =~= session_params(*info));
    (ENSURE_SESSION_SQL, p)
}

/// The statement that records an exec event; the argument list is stored
/// as a JSON array.
pub fn insert_exec(session_id: &str, event: &ParsedExecEvent) -> (r: (&'static str, Vec<SqlParam>))
    ensures
        r.0 == INSERT_EXEC_SQL,
        param_views(r.1@) == exec_params(session_id@, *event),
{
    let argv = argv_json(&event.argv);
    let mut p: Vec<SqlParam> = Vec::new();
    p.push(SqlParam::Text(owned(session_id)));
    p.push(SqlParam::Int(event.pid as i64));
    p.push(SqlParam::Int(event.ppid as i64));
    p.push(SqlParam::Int(event.uid as i64));
    p.push(SqlParam::Int(event.gid as i64));
    p.push(SqlParam::Int(event.euid as i64));
    p.push(SqlParam::Text(event.comm.clone()));
    p.push(SqlParam::Int(event.tty_nr as i64));
    p.push(SqlParam::Text(event.filename.clone()));
    p.push(SqlParam::Text(argv));
    assert(param_views(p@) =~= exec_params(session_id@, *event));
    (INSERT_EXEC_SQL, p)
}

/// The statements that record an exit event, in the order they run: the
/// exit row, the exit code copied onto the latest exec row of the process,
/// and the session's end time.
pub fn insert_exit(session_id: &str, event: &ParsedExitEvent) -> (r: Vec<(&'static str, Vec<SqlParam>)>)
    ensures
        r@.len() == 3,
        r@[0].0 == INSERT_EXIT_SQL,
        param_views(r@[0].1@) == exit_params(session_id@, *event),
        r@[1].0 == BACKFILL_EXIT_CODE_SQL,
        param_views(r@[1].1@) == seq![
            ParamModel::Int(event.exit_code as int),
            ParamModel::Text(session_id@),
            ParamModel::Int(event.pid as int),
        ],
        r@[2].0 == END_SESSION_SQL,
        param_views(r@[2].1@) == seq![ParamModel::Text(session_id@)],
{
    let mut row: Vec<SqlParam> = Vec::new();
    row.push(SqlParam::Text(owned(session_id)));
    row.push(SqlParam::Int(event.pid as i64));
    row.push(SqlParam::Int(event.ppid as i64));
    row.push(SqlParam::Int(event.uid as i64));
    row.push(SqlParam::Int(event.gid as i64));
    row.push(SqlParam::Int(event.euid as i64));
    row.push(SqlParam::Text(event.comm.clone()));
    row.push(SqlParam::Int(event.tty_nr as i64));
    row.push(SqlParam::Int(event.exit_code as i64));
    assert(param_views(row@) =~= exit_params(session_id@, *event));

    let mut backfill: Vec<SqlParam> = Vec::new();
    backfill.push(SqlParam::Int(event.exit_code as i64));
    backfill.push(SqlParam::Text(owned(session_id)));
    backfill.push(SqlParam::Int(event.pid as i64));
    assert(param_views(backfill@) =~= seq![
        ParamModel::Int(event.exit_code as int),
        ParamModel::Text(session_id@),
        ParamModel::Int(event.pid as int),
    ]);

    let mut end: Vec<SqlParam> = Vec::new();
    end.push(SqlParam::Text(owned(session_id)));
    assert(param_views(end@) =~= seq![ParamModel::Text(session_id@)]);

    let mut r: Vec<(&'static str, Vec<SqlParam>)> = Vec::new();
    r.push((INSERT_EXIT_SQL, row));
    r.push((BACKFILL_EXIT_CODE_SQL, backfill));
    r.push((END_SESSION_SQL, end));
    r
}

/// The statement that records an I/O event; the captured bytes are stored
/// as text, invalid UTF-8 replaced.
pub fn insert_io(session_id: &str, event: &ParsedIoEvent, event_type: EventType) -> (r: (&'static str, Vec<SqlParam>))
    ensures
        r.0 == INSERT_IO_SQL,
        param_views(r.1@) == io_params(session_id@, *event, event_type),
{
    let data = from_utf8_lossy(event.data.as_slice());
    let mut p: Vec<SqlParam> = Vec::new();
    p.push(SqlParam::Text(owned(session_id)));
    p.push(SqlParam::Text(owned(event_type.as_str())));
    p.push(SqlParam::Int(event.pid as i64));
    p.push(SqlParam::Int(event.ppid as i64));
    p.push(SqlParam::Int(event.uid as i64));
    p.push(SqlParam::Int(event.gid as i64));
    p.push(SqlParam::Int(event.euid as i64));
    p.push(SqlParam::Text(event.comm.clone()));
    p.push(SqlParam::Int(event.tty_nr as i64));
    p.push(SqlParam::Int(event.fd as i64));
    p.push(SqlParam::Text(data));
    p.push(SqlParam::Int(to_i64_saturating(event.data.len() as u64)));
    p.push(SqlParam::Int(to_i64_saturating(event.count)));
    assert(param_views(p@) =~= io_params(session_id@, *event, event_type));
    (INSERT_IO_SQL, p)
}

/// What the statements of a batch are and bind, in order.
pub open spec fn batch_views(b: Seq<(&'static str, Vec<SqlParam>)>) -> Seq<(Seq<char>, Seq<ParamModel>)> {
    b.map_values(|st: (&'static str, Vec<SqlParam>)| (st.0@, param_views(st.1@)))
}

/// The statements that store what the handler decided for one record: none
/// for a skipped record; otherwise the session row is ensured first, then
/// the event is recorded.
pub open spec fn action_statements(a: SinkAction) -> Seq<(Seq<char>, Seq<ParamModel>)> {
    match a {
        SinkAction::Skip(_) => Seq::empty(),
        SinkAction::Exec { session, event } => seq![
            (ENSURE_SESSION_SQL@, session_params(session)),
            (INSERT_EXEC_SQL@, exec_params(session.session_id@, event)),
        ],
        SinkAction::Exit { session, event, session_complete } => seq![
            (ENSURE_SESSION_SQL@, session_params(session)),
            (INSERT_EXIT_SQL@, exit_params(session.session_id@, event)),
            (
                BACKFILL_EXIT_CODE_SQL@,
                seq![
                    ParamModel::Int(event.exit_code as int),
                    ParamModel::Text(session.session_id@),
                    ParamModel::Int(event.pid as int),
                ],
            ),
            (END_SESSION_SQL@, seq![ParamModel::Text(session.session_id@)]),
        ],
        SinkAction::Io { session, event, event_type } => seq![
            (ENSURE_SESSION_SQL@, session_params(session)),
            (INSERT_IO_SQL@, io_params(session.session_id@, event, event_type)),
        ],
    }
}

/// The statements that store one handled record, in the order they run.
pub fn statements_for(action: &SinkAction) -> (r: Vec<(&'static str, Vec<SqlParam>)>)
    ensures
        batch_views(r@) == action_statements(*action),
{
    let mut r: Vec<(&'static str, Vec<SqlParam>)> = Vec::new();
    match action {
        SinkAction::Skip(_) => {},
        SinkAction::Exec { session, event } => {
            r.push(ensure_session(session));
            r.push(insert_exec(session.session_id.as_str(), event));
        },
        SinkAction::Exit { session, event, session_complete: _ } => {
            r.push(ensure_session(session));
            let mut rest = insert_exit(session.session_id.as_str(), event);
            let third = rest.pop().unwrap();
            let second = rest.pop().unwrap();
            let first = rest.pop().unwrap();
            r.push(first);
            r.push(second);
            r.push(third);
        },
        SinkAction::Io { session, event, event_type } => {
            r.push(ensure_session(session));
            r.push(insert_io(session.session_id.as_str(), event, *event_type));
        },
    }
    assert(batch_views(r@) =~= action_statements(*action));
    r
}

} // verus!
