//! Domain types for session events as the web reader loads them.

use vstd::prelude::*;

verus! {

/// Summary of an event, used in list views.
/// Maps to columns in the `events` table.
#[derive(Debug, Clone)]
pub struct EventSummary {
    /// `events.id` (INTEGER PRIMARY KEY AUTOINCREMENT).
    pub id: i64,
    /// `events.timestamp` (TEXT NOT NULL) — ISO 8601 datetime string.
    pub timestamp: String,
    /// `events.session_id` (TEXT NOT NULL).
    pub session_id: String,
    /// `events.event_type` (TEXT NOT NULL) — "exec", "exit", "read", "write".
    pub event_type: String,
    /// `events.execution_id` (INTEGER NOT NULL) — one exec of a process.
    pub execution_id: u64,
    /// `events.pid` (INTEGER NOT NULL).
    pub pid: u32,
    /// `events.ppid` (INTEGER NOT NULL).
    pub ppid: u32,
    /// `events.uid` (INTEGER NOT NULL).
    pub uid: u32,
    /// `events.euid` (INTEGER NOT NULL).
    pub euid: u32,
    /// `events.comm` (TEXT, nullable).
    pub comm: Option<String>,
    /// `events.filename` (TEXT, nullable).
    pub filename: Option<String>,
    /// `events.argv` (TEXT, nullable) — JSON array stored as string.
    pub argv: Option<String>,
    /// `events.exit_code` (INTEGER, nullable).
    pub exit_code: Option<i32>,
}

/// A single I/O data chunk from a read/write event.
#[derive(Debug, Clone)]
pub struct IoChunk {
    /// Timestamp of the I/O event.
    pub timestamp: String,
    /// The data payload.
    pub data: String,
    /// Number of bytes the syscall transferred.
    pub byte_count: u64,
}

/// A process started by the process of an event.
#[derive(Debug, Clone)]
pub struct ChildProcess {
    /// Database event ID of the child's exec.
    pub id: i64,
    /// PID.
    pub pid: u32,
    /// Command name.
    pub comm: Option<String>,
    /// Executed path.
    pub filename: Option<String>,
    /// JSON array of arguments.
    pub argv: Option<String>,
    /// Exit code, once known.
    pub exit_code: Option<i32>,
    /// Whether the child has captured I/O.
    pub has_io: bool,
}

/// The process that started the process of an event.
#[derive(Debug, Clone)]
pub struct ParentProcess {
    /// Database event ID of the parent's exec.
    pub id: i64,
    /// Command name.
    pub comm: Option<String>,
    /// Executed path.
    pub filename: Option<String>,
    /// JSON array of arguments.
    pub argv: Option<String>,
}

/// Full detail for a single event, including I/O data.
#[derive(Debug, Clone)]
pub struct EventDetail {
    /// Core event fields.
    pub summary: EventSummary,
    /// `events.gid` (INTEGER NOT NULL).
    pub gid: u32,
    /// `events.tty_nr` (INTEGER, nullable).
    pub tty_nr: Option<u32>,
    /// `events.fd` (INTEGER, nullable).
    pub fd: Option<u32>,
    /// `events.data` (TEXT, nullable).
    pub data: Option<String>,
    /// `events.data_len` (INTEGER, nullable).
    pub data_len: Option<u32>,
    /// `events.byte_count` (INTEGER, nullable).
    pub byte_count: Option<u64>,
    /// I/O chunks for stdin (fd=0) related to this exec.
    pub stdin_data: Vec<IoChunk>,
    /// I/O chunks for stdout/stderr (fd=1,2) related to this exec.
    pub stdout_data: Vec<IoChunk>,
    /// Processes this process started.
    pub children: Vec<ChildProcess>,
    /// The process that started this one, if recorded in the same session.
    pub parent: Option<ParentProcess>,
}

/// The stream an I/O chunk on file descriptor `fd` belongs to: 0 is stdin,
/// 1 and 2 are stdout; other descriptors are not shown.
pub enum IoStream {
    Stdin,
    Stdout,
    Ignored,
}

/// The stream of a descriptor.
pub open spec fn stream_of(fd: Option<u32>) -> IoStream {
    match fd {
        Some(0) => IoStream::Stdin,
        Some(1) => IoStream::Stdout,
        Some(2) => IoStream::Stdout,
        _ => IoStream::Ignored,
    }
}

impl EventDetail {
    /// Files one I/O row of the event's process under stdin or stdout by its
    /// descriptor; a missing payload counts as empty and a missing byte count
    /// as zero.
    pub fn add_io_row(&mut self, timestamp: String, fd: Option<u32>, data: Option<String>, byte_count: Option<u64>)
        ensures
            *final(self) == (EventDetail {
                stdin_data: final(self).stdin_data,
                stdout_data: final(self).stdout_data,
                ..*old(self)
            }),
            final(self).summary == old(self).summary,
            final(self).children@ == old(self).children@,
            final(self).stdin_data@ == (match stream_of(fd) {
                IoStream::Stdin => old(self).stdin_data@.push(final(self).stdin_data@.last()),
                _ => old(self).stdin_data@,
            }),
            final(self).stdout_data@ == (match stream_of(fd) {
                IoStream::Stdout => old(self).stdout_data@.push(final(self).stdout_data@.last()),
                _ => old(self).stdout_data@,
            }),
            stream_of(fd) is Stdin ==> {
                let c = final(self).stdin_data@.last();
                &&& c.timestamp@ == timestamp@
                &&& c.data@ == (match data {
                    Some(d) => d@,
                    None => Seq::<char>::empty(),
                })
                &&& c.byte_count == (match byte_count {
                    Some(b) => b,
                    None => 0,
                })
            },
            stream_of(fd) is Stdout ==> {
                let c = final(self).stdout_data@.last();
                &&& c.timestamp@ == timestamp@
                &&& c.data@ == (match data {
                    Some(d) => d@,
                    None => Seq::<char>::empty(),
                })
                &&& c.byte_count == (match byte_count {
                    Some(b) => b,
                    None => 0,
                })
            },
    {
        let chunk = IoChunk {
            timestamp,
            data: match data {
                Some(d) => d,
                None => String::new(),
            },
            byte_count: match byte_count {
                Some(b) => b,
                None => 0,
            },
        };
        match fd {
            Some(0) => self.stdin_data.push(chunk),
            Some(1) | Some(2) => self.stdout_data.push(chunk),
            _ => {},
        }
    }
}

} // verus!
