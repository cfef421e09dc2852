//! Row builders for populating an events database in tests: each row has
//! defaults that setters override, and yields the statement that inserts it.

use vstd::prelude::*;

use crate::text::owned;
use crate::common::sql::{param_views, ParamModel, SqlParam};
use crate::web::view::{utf8_byte_len, utf8_len};

verus! {

/// A `sessions` row.
#[derive(Debug, Clone)]
pub struct SessionRow {
    pub id: String,
    pub root_pid: u32,
    pub uid: u32,
    pub euid: u32,
}

impl SessionRow {
    /// A session with root PID 100 and UID/EUID 1000.
    pub fn new(id: &str) -> (r: Self)
        ensures
            r.id@ == id@,
            r.root_pid == 100,
            r.uid == 1000,
            r.euid == 1000,
    {
        SessionRow { id: owned(id), root_pid: 100, uid: 1000, euid: 1000 }
    }

    /// The row with another root PID.
    pub fn root_pid(self, v: u32) -> (r: Self)
        ensures
            r.root_pid == v,
            r.id@ == self.id@,
            r.uid == self.uid,
            r.euid == self.euid,
    {
        SessionRow { id: self.id, root_pid: v, uid: self.uid, euid: self.euid }
    }

    /// The row with another UID.
    pub fn uid(self, v: u32) -> (r: Self)
        ensures
            r.uid == v,
            r.id@ == self.id@,
            r.root_pid == self.root_pid,
            r.euid == self.euid,
    {
        SessionRow { id: self.id, root_pid: self.root_pid, uid: v, euid: self.euid }
    }

    /// The row with another EUID.
    pub fn euid(self, v: u32) -> (r: Self)
        ensures
            r.euid == v,
            r.id@ == self.id@,
            r.root_pid == self.root_pid,
            r.uid == self.uid,
    {
        SessionRow { id: self.id, root_pid: self.root_pid, uid: self.uid, euid: v }
    }

    /// The statement that inserts the row, and its parameters.
    pub fn insert_statement(&self) -> (r: (&'static str, Vec<SqlParam>))
        ensures
            param_views(r.1@) == seq![
                ParamModel::Text(self.id@),
                ParamModel::Int(self.root_pid as int),
                ParamModel::Int(self.uid as int),
                ParamModel::Int(self.euid as int),
            ],
    {
        let mut p: Vec<SqlParam> = Vec::new();
        p.push(SqlParam::Text(self.id.clone()));
        p.push(SqlParam::Int(self.root_pid as i64));
        p.push(SqlParam::Int(self.uid as i64));
        p.push(SqlParam::Int(self.euid as i64));
        assert(param_views(p@) =~= seq![
            ParamModel::Text(self.id@),
            ParamModel::Int(self.root_pid as int),
            ParamModel::Int(self.uid as int),
            ParamModel::Int(self.euid as int),
        ]);
        (
            "INSERT INTO sessions (id, started_at, root_pid, uid, euid) VALUES (?1, datetime('now'), ?2, ?3, ?4)",
            p,
        )
    }
}

/// An exec row of the `events` table.
#[derive(Debug, Clone)]
pub struct ExecEventRow {
    pub session_id: String,
    pub execution_id: u64,
    pub pid: u32,
    pub ppid: u32,
    pub uid: u32,
    pub gid: u32,
    pub euid: u32,
    pub tty_nr: Option<u32>,
    pub comm: String,
    pub filename: String,
    pub argv: String,
    pub exit_code: Option<i32>,
}

/// An optional integer as a parameter.
fn opt_int(v: Option<i64>) -> (r: SqlParam)
    ensures
        r@ == (match v {
            Some(n) => ParamModel::Int(n as int),
            None => ParamModel::Null,
        }),
{
    match v {
        Some(n) => SqlParam::Int(n),
        None => SqlParam::Null,
    }
}

impl ExecEventRow {
    /// An exec of `/usr/bin/cmd` (`cmd`, no arguments) by PID 100 (parent
    /// 1, execution 100) as UID/GID/EUID 1000 without a terminal, exited 0.
    pub fn new(session_id: &str) -> (r: Self)
        ensures
            r.session_id@ == session_id@,
            r.execution_id == 100,
            r.pid == 100,
            r.ppid == 1,
            r.uid == 1000,
            r.gid == 1000,
            r.euid == 1000,
            r.tty_nr is None,
            r.comm@ == "cmd"@,
            r.filename@ == "/usr/bin/cmd"@,
            r.argv@ == "[]"@,
            r.exit_code == Some(0i32),
    {
        ExecEventRow {
            session_id: owned(session_id),
            execution_id: 100,
            pid: 100,
            ppid: 1,
            uid: 1000,
            gid: 1000,
            euid: 1000,
            tty_nr: None,
            comm: owned("cmd"),
            filename: owned("/usr/bin/cmd"),
            argv: owned("[]"),
            exit_code: Some(0),
        }
    }

    /// The row with another execution ID.
    pub fn execution_id(self, v: u64) -> (r: Self)
        ensures
            r.execution_id == v,
            r == (ExecEventRow { execution_id: r.execution_id, ..self }),
    {
        ExecEventRow { execution_id: v, ..self }
    }

    /// The row with another PID.
    pub fn pid(self, v: u32) -> (r: Self)
        ensures
            r.pid == v,
            r == (ExecEventRow { pid: r.pid, ..self }),
    {
        ExecEventRow { pid: v, ..self }
    }

    /// The row with another parent PID.
    pub fn ppid(self, v: u32) -> (r: Self)
        ensures
            r.ppid == v,
            r == (ExecEventRow { ppid: r.ppid, ..self }),
    {
        ExecEventRow { ppid: v, ..self }
    }

    /// The row with another UID.
    pub fn uid(self, v: u32) -> (r: Self)
        ensures
            r.uid == v,
            r == (ExecEventRow { uid: r.uid, ..self }),
    {
        ExecEventRow { uid: v, ..self }
    }

    /// The row with another GID.
    pub fn gid(self, v: u32) -> (r: Self)
        ensures
            r.gid == v,
            r == (ExecEventRow { gid: r.gid, ..self }),
    {
        ExecEventRow { gid: v, ..self }
    }

    /// The row with another EUID.
    pub fn euid(self, v: u32) -> (r: Self)
        ensures
            r.euid == v,
            r == (ExecEventRow { euid: r.euid, ..self }),
    {
        ExecEventRow { euid: v, ..self }
    }

    /// The row with a terminal.
    pub fn tty_nr(self, v: u32) -> (r: Self)
        ensures
            r.tty_nr == Some(v),
            r == (ExecEventRow { tty_nr: r.tty_nr, ..self }),
    {
        ExecEventRow { tty_nr: Some(v), ..self }
    }

    /// The row with another command name.
    pub fn comm(self, v: &str) -> (r: Self)
        ensures
            r.comm@ == v@,
            r == (ExecEventRow { comm: r.comm, ..self }),
    {
        ExecEventRow { comm: owned(v), ..self }
    }

    /// The row with another executed path.
    pub fn filename(self, v: &str) -> (r: Self)
        ensures
            r.filename@ == v@,
            r == (ExecEventRow { filename: r.filename, ..self }),
    {
        ExecEventRow { filename: owned(v), ..self }
    }

    /// The row with other arguments (a JSON array).
    pub fn argv(self, v: &str) -> (r: Self)
        ensures
            r.argv@ == v@,
            r == (ExecEventRow { argv: r.argv, ..self }),
    {
        ExecEventRow { argv: owned(v), ..self }
    }

    /// The row with an exit code.
    pub fn exit_code(self, v: i32) -> (r: Self)
        ensures
            r.exit_code == Some(v),
            r == (ExecEventRow { exit_code: r.exit_code, ..self }),
    {
        ExecEventRow { exit_code: Some(v), ..self }
    }

    /// The row of a process that has not exited.
    pub fn no_exit_code(self) -> (r: Self)
        ensures
            r.exit_code is None,
            r == (ExecEventRow { exit_code: r.exit_code, ..self }),
    {
        ExecEventRow { exit_code: None, ..self }
    }

    /// The statement that inserts the row, and its parameters (an
    /// execution ID must fit SQLite's signed integers).
    pub fn insert_statement(&self) -> (r: (&'static str, Vec<SqlParam>))
        requires
            self.execution_id <= i64::MAX,
        ensures
            param_views(r.1@) == seq![
                ParamModel::Text(self.session_id@),
                ParamModel::Int(self.execution_id as int),
                ParamModel::Int(self.pid as int),
                ParamModel::Int(self.ppid as int),
                ParamModel::Int(self.uid as int),
                ParamModel::Int(self.gid as int),
                ParamModel::Int(self.euid as int),
                match self.tty_nr {
                    Some(t) => ParamModel::Int(t as int),
                    None => ParamModel::Null,
                },
                ParamModel::Text(self.comm@),
                ParamModel::Text(self.filename@),
                ParamModel::Text(self.argv@),
                match self.exit_code {
                    Some(c) => ParamModel::Int(c as int),
                    None => ParamModel::Null,
                },
            ],
    {
        let mut p: Vec<SqlParam> = Vec::new();
        p.push(SqlParam::Text(self.session_id.clone()));
        p.push(SqlParam::Int(self.execution_id as i64));
        p.push(SqlParam::Int(self.pid as i64));
        p.push(SqlParam::Int(self.ppid as i64));
        p.push(SqlParam::Int(self.uid as i64));
        p.push(SqlParam::Int(self.gid as i64));
        p.push(SqlParam::Int(self.euid as i64));
        p.push(
            opt_int(
                match self.tty_nr {
                    Some(t) => Some(t as i64),
                    None => None,
                },
            ),
        );
        p.push(SqlParam::Text(self.comm.clone()));
        p.push(SqlParam::Text(self.filename.clone()));
        p.push(SqlParam::Text(self.argv.clone()));
        p.push(
            opt_int(
                match self.exit_code {
                    Some(c) => Some(c as i64),
                    None => None,
                },
            ),
        );
        assert(param_views(p@) =~= seq![
            ParamModel::Text(self.session_id@),
            ParamModel::Int(self.execution_id as int),
            ParamModel::Int(self.pid as int),
            ParamModel::Int(self.ppid as int),
            ParamModel::Int(self.uid as int),
            ParamModel::Int(self.gid as int),
            ParamModel::Int(self.euid as int),
            match self.tty_nr {
                Some(t) => ParamModel::Int(t as int),
                None => ParamModel::Null,
            },
            ParamModel::Text(self.comm@),
            ParamModel::Text(self.filename@),
            ParamModel::Text(self.argv@),
            match self.exit_code {
                Some(c) => ParamModel::Int(c as int),
                None => ParamModel::Null,
            },
        ]);
        (
            "INSERT INTO events (session_id, event_type, timestamp, execution_id, pid, ppid, uid, gid, euid, tty_nr, comm, filename, argv, exit_code) VALUES (?1, 'exec', datetime('now'), ?2, ?3, ?4, ?5, ?6, ?7, ?8, ?9, ?10, ?11, ?12)",
            p,
        )
    }
}

/// A read or write row of the `events` table.
#[derive(Debug, Clone)]
pub struct IoEventRow {
    pub session_id: String,
    pub execution_id: u64,
    pub pid: u32,
    pub event_type: String,
    pub fd: u32,
    pub data: String,
}

impl IoEventRow {
    /// An empty write to stdout by PID 100 (execution 100).
    pub fn new(session_id: &str) -> (r: Self)
        ensures
            r.session_id@ == session_id@,
            r.execution_id == 100,
            r.pid == 100,
            r.event_type@ == "write"@,
            r.fd == 1,
            r.data@ == Seq::<char>::empty(),
    {
        IoEventRow {
            session_id: owned(session_id),
            execution_id: 100,
            pid: 100,
            event_type: owned("write"),
            fd: 1,
            data: String::new(),
        }
    }

    /// The row with another execution ID.
    pub fn execution_id(self, v: u64) -> (r: Self)
        ensures
            r.execution_id == v,
            r == (IoEventRow { execution_id: r.execution_id, ..self }),
    {
        IoEventRow { execution_id: v, ..self }
    }

    /// The row with another PID.
    pub fn pid(self, v: u32) -> (r: Self)
        ensures
            r.pid == v,
            r == (IoEventRow { pid: r.pid, ..self }),
    {
        IoEventRow { pid: v, ..self }
    }

    /// The row with another event type (`read` or `write`).
    pub fn event_type(self, v: &str) -> (r: Self)
        ensures
            r.event_type@ == v@,
            r == (IoEventRow { event_type: r.event_type, ..self }),
    {
        IoEventRow { event_type: owned(v), ..self }
    }

    /// The row with another descriptor.
    pub fn fd(self, v: u32) -> (r: Self)
        ensures
            r.fd == v,
            r == (IoEventRow { fd: r.fd, ..self }),
    {
        IoEventRow { fd: v, ..self }
    }

    /// The row with another payload.
    pub fn data(self, v: &str) -> (r: Self)
        ensures
            r.data@ == v@,
            r == (IoEventRow { data: r.data, ..self }),
    {
        IoEventRow { data: owned(v), ..self }
    }

    /// The statement that inserts the row, and its parameters: the process
    /// has parent 1 and UID/GID/EUID 1000, and both the stored length and
    /// the syscall's byte count are the payload's length in bytes (which,
    /// like an execution ID, must fit SQLite's signed integers).
    pub fn insert_statement(&self) -> (r: (&'static str, Vec<SqlParam>))
        requires
            self.execution_id <= i64::MAX,
            utf8_len(self.data@) <= i64::MAX,
        ensures
            param_views(r.1@) == seq![
                ParamModel::Text(self.session_id@),
                ParamModel::Text(self.event_type@),
                ParamModel::Int(self.execution_id as int),
                ParamModel::Int(self.pid as int),
                ParamModel::Int(self.fd as int),
                ParamModel::Text(self.data@),
                ParamModel::Int(utf8_len(self.data@) as int),
                ParamModel::Int(utf8_len(self.data@) as int),
            ],
    {
        let n = utf8_byte_len(self.data.as_str());
        let mut p: Vec<SqlParam> = Vec::new();
        p.push(SqlParam::Text(self.session_id.clone()));
        p.push(SqlParam::Text(self.event_type.clone()));
        p.push(SqlParam::Int(self.execution_id as i64));
        p.push(SqlParam::Int(self.pid as i64));
        p.push(SqlParam::Int(self.fd as i64));
        p.push(SqlParam::Text(self.data.clone()));
        p.push(SqlParam::Int(n as i64));
        p.push(SqlParam::Int(n as i64));
        assert(param_views(p@) =~= seq![
            ParamModel::Text(self.session_id@),
            ParamModel::Text(self.event_type@),
            ParamModel::Int(self.execution_id as int),
            ParamModel::Int(self.pid as int),
            ParamModel::Int(self.fd as int),
            ParamModel::Text(self.data@),
            ParamModel::Int(utf8_len(self.data@) as int),
            ParamModel::Int(utf8_len(self.data@) as int),
        ]);
        (
            "INSERT INTO events (session_id, event_type, timestamp, execution_id, pid, ppid, uid, gid, euid, fd, data, data_len, byte_count) VALUES (?1, ?2, datetime('now'), ?3, ?4, 1, 1000, 1000, 1000, ?5, ?6, ?7, ?8)",
            p,
        )
    }
}

} // verus!
