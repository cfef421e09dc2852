//! Event parsing: converts raw ring buffer bytes into structured types.
//!
//! All functions in this module are pure — they take byte slices and return
//! structured data, with no I/O side effects.

use vstd::prelude::*;

use crate::bytes::{le_i64, le_u32, le_u64, read_i64, read_u32, u32_bytes, u64_bytes};
use crate::common::event::{
    argv_bytes, decoded_type, exec_bytes, exit_bytes, header_bytes, header_in, io_bytes,
    lemma_header_prefix, lemma_u32_at, lemma_u64_at, lemma_window, EventHeader, ExecEvent, ExitEvent, IoEvent, ARGC_OFFSET, ARGV_OFFSET,
    COMM_LEN, COMM_OFFSET, COUNT_OFFSET, DATA_LEN_OFFSET, DATA_OFFSET, EXEC_EVENT_SIZE,
    EXIT_CODE_OFFSET, EXIT_EVENT_SIZE, FD_OFFSET, FILENAME_OFFSET, HEADER_SIZE, IO_EVENT_SIZE,
    MAX_ARGV_COUNT, MAX_ARG_LEN, MAX_DATA_LEN, MAX_FILENAME_LEN, RETVAL_OFFSET, WIRE_VERSION,
};
use crate::common::event_type::{type_of_wire, EventType};
use crate::utf8::{from_utf8_lossy, utf8_lossy};

verus! {

broadcast use {crate::bytes::lemma_u32_bytes_len, crate::bytes::lemma_u64_bytes_len};

/// The length of the NUL-terminated prefix of `s` (all of `s` without a NUL).
pub open spec fn cstr_len(s: Seq<u8>) -> nat
    decreases s.len(),
{
    if s.len() == 0 || s[0] == 0 {
        0
    } else {
        1 + cstr_len(s.drop_first())
    }
}

/// The text of a NUL-terminated byte buffer, decoded lossily.
pub open spec fn cstr(s: Seq<u8>) -> Seq<char> {
    utf8_lossy(s.take(cstr_len(s) as int))
}

proof fn lemma_cstr_len(s: Seq<u8>, k: int)
    requires
        0 <= k <= s.len(),
        forall|j: int| 0 <= j < k ==> s[j] != 0,
        k == s.len() || s[k] == 0,
    ensures
        cstr_len(s) == k,
    decreases k,
{
    if k > 0 {
        assert forall|j: int| 0 <= j < k - 1 implies s.drop_first()[j] != 0 by {
            assert(s.drop_first()[j] == s[j + 1]);
        }
        if k < s.len() {
            assert(s.drop_first()[k - 1] == s[k]);
        }
        lemma_cstr_len(s.drop_first(), k - 1);
    }
}

/// The text of the NUL-terminated buffer `data[from..from + len]`.
fn cstr_at(data: &[u8], from: usize, len: usize) -> (s: String)
    requires
        from + len <= data@.len(),
    ensures
        s@ == cstr(data@.subrange(from as int, from + len)),
{
    let ghost w = data@.subrange(from as int, from + len);
    let _n = data.len();
    let mut end: usize = 0;
    while end < len && data[from + end] != 0
        invariant
            end <= len,
            from + len <= data@.len(),
            from + len <= data.len(),
            w == data@.subrange(from as int, from + len),
            forall|j: int| 0 <= j < end ==> w[j] != 0,
        decreases len - end,
    {
        end = end + 1;
    }
    proof {
        lemma_cstr_len(w, end as int);
    }
    let mut v: Vec<u8> = Vec::new();
    let mut i: usize = 0;
    while i < end
        invariant
            i <= end <= len,
            from + len <= data.len(),
            w == data@.subrange(from as int, from + len),
            v@ == w.take(i as int),
        decreases end - i,
    {
        v.push(data[from + i]);
        assert(w.take(i + 1) =~= w.take(i as int).push(w[i as int]));
        i = i + 1;
    }
    from_utf8_lossy(&v)
}

/// Extract a UTF-8 string from a null-terminated byte buffer.
///
/// Stops at the first null byte. Invalid UTF-8 sequences are replaced
/// with the Unicode replacement character (U+FFFD).
pub fn cstr_from_bytes(bytes: &[u8]) -> (s: String)
    ensures
        s@ == cstr(bytes@),
{
    let s = cstr_at(bytes, 0, bytes.len());
    assert(bytes@.subrange(0, bytes@.len() as int) =~= bytes@);
    s
}

/// Whether `data` holds a header of the current wire version with a known
/// event type.
pub open spec fn header_accepts(data: Seq<u8>) -> bool {
    &&& data.len() >= HEADER_SIZE
    &&& le_u32(data, 4) == WIRE_VERSION
    &&& type_of_wire(le_u32(data, 0)) is Some
}

/// Parse the event header from raw ring buffer bytes.
///
/// Returns `None` if the buffer is too short or the header does not
/// decode to a known event type.
pub fn parse_header(data: &[u8]) -> (r: Option<EventHeader>)
    ensures
        r is Some <==> header_accepts(data@),
        r matches Some(h) ==> header_in(data@, h) && decoded_type(h) == type_of_wire(
            le_u32(data@, 0),
        ),
{
    if data.len() < HEADER_SIZE {
        return None;
    }
    let header = EventHeader::read_fields(data);
    if header.decoded_event_type().is_none() {
        return None;
    }
    Some(header)
}

/// A parsed exec event with owned string fields, ready for logging or
/// serialization.
#[derive(Debug, Clone, PartialEq, Eq)]
pub struct ParsedExecEvent {
    pub pid: u32,
    pub ppid: u32,
    pub uid: u32,
    pub gid: u32,
    pub euid: u32,
    pub comm: String,
    pub tty_nr: u32,
    pub cgroup_id: u64,
    pub execution_id: u64,
    pub filename: String,
    pub argv: Vec<String>,
    pub retval: i64,
}

/// The number of argument slots an exec record holds: `argc`, at most
/// [`MAX_ARGV_COUNT`].
pub open spec fn argv_count(data: Seq<u8>) -> int {
    if le_u32(data, ARGC_OFFSET as int) < MAX_ARGV_COUNT {
        le_u32(data, ARGC_OFFSET as int) as int
    } else {
        MAX_ARGV_COUNT as int
    }
}

/// The bytes of argument slot `i` of an exec record.
pub open spec fn argv_slot(data: Seq<u8>, i: int) -> Seq<u8> {
    data.subrange(ARGV_OFFSET + i * MAX_ARG_LEN, ARGV_OFFSET + (i + 1) * MAX_ARG_LEN)
}

/// Whether [`parse_exec_event`] accepts `data`.
pub open spec fn exec_accepts(data: Seq<u8>) -> bool {
    &&& header_accepts(data)
    &&& type_of_wire(le_u32(data, 0)) == Some(EventType::Exec)
    &&& data.len() >= EXEC_EVENT_SIZE
}

/// Whether `p` holds the fields of the exec record `data`.
pub open spec fn exec_parsed_from(p: ParsedExecEvent, data: Seq<u8>) -> bool {
    &&& p.pid == le_u32(data, 16)
    &&& p.ppid == le_u32(data, 20)
    &&& p.uid == le_u32(data, 32)
    &&& p.gid == le_u32(data, 36)
    &&& p.euid == le_u32(data, 40)
    &&& p.comm@ == cstr(data.subrange(COMM_OFFSET as int, COMM_OFFSET + COMM_LEN))
    &&& p.tty_nr == le_u32(data, 60)
    &&& p.execution_id == le_u64(data, 64)
    &&& p.cgroup_id == le_u64(data, 72)
    &&& p.filename@ == cstr(
        data.subrange(FILENAME_OFFSET as int, FILENAME_OFFSET + MAX_FILENAME_LEN),
    )
    &&& p.argv@.len() == argv_count(data)
    &&& forall|i: int| 0 <= i < p.argv@.len() ==> #[trigger] p.argv@[i]@ == cstr(argv_slot(data, i))
    &&& p.retval == le_i64(data, RETVAL_OFFSET as int)
}

/// Parse a raw exec event from ring buffer bytes.
///
/// Returns `None` unless the buffer holds a valid header of type `Exec` and
/// is long enough for a whole exec event.
pub fn parse_exec_event(data: &[u8]) -> (r: Option<ParsedExecEvent>)
    ensures
        r is Some <==> exec_accepts(data@),
        r matches Some(p) ==> exec_parsed_from(p, data@),
{
    let header = match parse_header(data) {
        Some(h) => h,
        None => return None,
    };
    match header.decoded_event_type() {
        Some(EventType::Exec) => {},
        _ => return None,
    }
    if data.len() < EXEC_EVENT_SIZE {
        return None;
    }
    let argc = read_u32(data, ARGC_OFFSET);
    let n: usize = if (argc as usize) < MAX_ARGV_COUNT {
        argc as usize
    } else {
        MAX_ARGV_COUNT
    };
    let mut argv: Vec<String> = Vec::new();
    let mut i: usize = 0;
    while i < n
        invariant
            i <= n <= MAX_ARGV_COUNT,
            n == argv_count(data@),
            data@.len() >= EXEC_EVENT_SIZE,
            argv@.len() == i,
            forall|k: int| 0 <= k < i ==> #[trigger] argv@[k]@ == cstr(argv_slot(data@, k)),
        decreases n - i,
    {
        let s = cstr_at(data, ARGV_OFFSET + i * MAX_ARG_LEN, MAX_ARG_LEN);
        argv.push(s);
        i = i + 1;
    }
    Some(
        ParsedExecEvent {
            pid: header.pid,
            ppid: header.ppid,
            uid: header.uid,
            gid: header.gid,
            euid: header.euid,
            comm: cstr_at(data, COMM_OFFSET, COMM_LEN),
            tty_nr: header.tty_nr,
            cgroup_id: header.cgroup_id,
            execution_id: header.execution_id,
            filename: cstr_at(data, FILENAME_OFFSET, MAX_FILENAME_LEN),
            argv,
            retval: read_i64(data, RETVAL_OFFSET),
        },
    )
}

/// A parsed exit event with fields ready for logging or serialization.
#[derive(Debug, Clone, PartialEq, Eq)]
pub struct ParsedExitEvent {
    pub pid: u32,
    pub ppid: u32,
    pub uid: u32,
    pub gid: u32,
    pub euid: u32,
    pub comm: String,
    pub tty_nr: u32,
    pub cgroup_id: u64,
    pub execution_id: u64,
    pub exit_code: i32,
}

/// Whether [`parse_exit_event`] accepts `data`.
pub open spec fn exit_accepts(data: Seq<u8>) -> bool {
    &&& header_accepts(data)
    &&& type_of_wire(le_u32(data, 0)) == Some(EventType::Exit)
    &&& data.len() >= EXIT_EVENT_SIZE
}

/// Whether `p` holds the fields of the exit record `data`.
pub open spec fn exit_parsed_from(p: ParsedExitEvent, data: Seq<u8>) -> bool {
    &&& p.pid == le_u32(data, 16)
    &&& p.ppid == le_u32(data, 20)
    &&& p.uid == le_u32(data, 32)
    &&& p.gid == le_u32(data, 36)
    &&& p.euid == le_u32(data, 40)
    &&& p.comm@ == cstr(data.subrange(COMM_OFFSET as int, COMM_OFFSET + COMM_LEN))
    &&& p.tty_nr == le_u32(data, 60)
    &&& p.execution_id == le_u64(data, 64)
    &&& p.cgroup_id == le_u64(data, 72)
    &&& p.exit_code == le_u32(data, EXIT_CODE_OFFSET as int) as i32
}

/// Parse a raw exit event from ring buffer bytes.
///
/// Returns `None` unless the buffer holds a valid header of type `Exit` and
/// is long enough for a whole exit event.
pub fn parse_exit_event(data: &[u8]) -> (r: Option<ParsedExitEvent>)
    ensures
        r is Some <==> exit_accepts(data@),
        r matches Some(p) ==> exit_parsed_from(p, data@),
{
    let header = match parse_header(data) {
        Some(h) => h,
        None => return None,
    };
    match header.decoded_event_type() {
        Some(EventType::Exit) => {},
        _ => return None,
    }
    if data.len() < EXIT_EVENT_SIZE {
        return None;
    }
    Some(
        ParsedExitEvent {
            pid: header.pid,
            ppid: header.ppid,
            uid: header.uid,
            gid: header.gid,
            euid: header.euid,
            comm: cstr_at(data, COMM_OFFSET, COMM_LEN),
            tty_nr: header.tty_nr,
            cgroup_id: header.cgroup_id,
            execution_id: header.execution_id,
            exit_code: read_u32(data, EXIT_CODE_OFFSET) as i32,
        },
    )
}

/// A parsed I/O event with fields ready for logging or serialization.
#[derive(Debug, Clone, PartialEq, Eq)]
pub struct ParsedIoEvent {
    pub pid: u32,
    pub ppid: u32,
    pub uid: u32,
    pub gid: u32,
    pub euid: u32,
    pub comm: String,
    pub tty_nr: u32,
    pub cgroup_id: u64,
    pub execution_id: u64,
    pub fd: u32,
    pub data: Vec<u8>,
    pub count: u64,
}

/// Whether [`parse_io_event`] accepts `data`.
pub open spec fn io_accepts(data: Seq<u8>) -> bool {
    &&& header_accepts(data)
    &&& (type_of_wire(le_u32(data, 0)) == Some(EventType::Read) || type_of_wire(le_u32(data, 0))
        == Some(EventType::Write))
    &&& data.len() >= IO_EVENT_SIZE
}

/// The number of payload bytes an I/O record carries: `data_len`, at most
/// [`MAX_DATA_LEN`].
pub open spec fn io_payload_len(data: Seq<u8>) -> int {
    if le_u32(data, DATA_LEN_OFFSET as int) < MAX_DATA_LEN {
        le_u32(data, DATA_LEN_OFFSET as int) as int
    } else {
        MAX_DATA_LEN as int
    }
}

/// Whether `p` holds the fields of the I/O record `data`.
pub open spec fn io_parsed_from(p: ParsedIoEvent, data: Seq<u8>) -> bool {
    &&& p.pid == le_u32(data, 16)
    &&& p.ppid == le_u32(data, 20)
    &&& p.uid == le_u32(data, 32)
    &&& p.gid == le_u32(data, 36)
    &&& p.euid == le_u32(data, 40)
    &&& p.comm@ == cstr(data.subrange(COMM_OFFSET as int, COMM_OFFSET + COMM_LEN))
    &&& p.tty_nr == le_u32(data, 60)
    &&& p.execution_id == le_u64(data, 64)
    &&& p.cgroup_id == le_u64(data, 72)
    &&& p.fd == le_u32(data, FD_OFFSET as int)
    &&& p.count == le_u64(data, COUNT_OFFSET as int)
    &&& p.data@ == data.subrange(DATA_OFFSET as int, DATA_OFFSET + io_payload_len(data))
}

/// Parse a raw I/O event from ring buffer bytes.
///
/// Returns `None` unless the buffer holds a valid header of type `Read` or
/// `Write` and is long enough for a whole I/O event. The payload length is
/// clamped to [`MAX_DATA_LEN`].
pub fn parse_io_event(data: &[u8]) -> (r: Option<ParsedIoEvent>)
    ensures
        r is Some <==> io_accepts(data@),
        r matches Some(p) ==> io_parsed_from(p, data@),
{
    let header = match parse_header(data) {
        Some(h) => h,
        None => return None,
    };
    match header.decoded_event_type() {
        Some(EventType::Read) | Some(EventType::Write) => {},
        _ => return None,
    }
    if data.len() < IO_EVENT_SIZE {
        return None;
    }
    let raw_len = read_u32(data, DATA_LEN_OFFSET);
    let n: usize = if (raw_len as usize) < MAX_DATA_LEN {
        raw_len as usize
    } else {
        MAX_DATA_LEN
    };
    let mut payload: Vec<u8> = Vec::new();
    let mut i: usize = 0;
    while i < n
        invariant
            i <= n <= MAX_DATA_LEN,
            data@.len() >= IO_EVENT_SIZE,
            data.len() >= IO_EVENT_SIZE,
            payload@ == data@.subrange(DATA_OFFSET as int, DATA_OFFSET + i),
        decreases n - i,
    {
        payload.push(data[DATA_OFFSET + i]);
        assert(data@.subrange(DATA_OFFSET as int, DATA_OFFSET + i + 1) =~= data@.subrange(
            DATA_OFFSET as int,
            DATA_OFFSET + i,
        ).push(data@[DATA_OFFSET + i]));
        i = i + 1;
    }
    Some(
        ParsedIoEvent {
            pid: header.pid,
            ppid: header.ppid,
            uid: header.uid,
            gid: header.gid,
            euid: header.euid,
            comm: cstr_at(data, COMM_OFFSET, COMM_LEN),
            tty_nr: header.tty_nr,
            cgroup_id: header.cgroup_id,
            execution_id: header.execution_id,
            fd: read_u32(data, FD_OFFSET),
            data: payload,
            count: crate::bytes::read_u64(data, COUNT_OFFSET),
        },
    )
}

proof fn lemma_argv_bytes(argv: [[u8; MAX_ARG_LEN]; MAX_ARGV_COUNT], n: int)
    requires
        0 <= n <= MAX_ARGV_COUNT,
    ensures
        argv_bytes(argv, n).len() == n * MAX_ARG_LEN,
        forall|i: int|
            0 <= i < n ==> #[trigger] argv_bytes(argv, n).subrange(
                i * MAX_ARG_LEN,
                (i + 1) * MAX_ARG_LEN,
            ) == argv@[i]@,
    decreases n,
{
    if n > 0 {
        lemma_argv_bytes(argv, n - 1);
        let prev = argv_bytes(argv, n - 1);
        let cur = argv_bytes(argv, n);
        assert forall|i: int| 0 <= i < n implies #[trigger] cur.subrange(
            i * MAX_ARG_LEN,
            (i + 1) * MAX_ARG_LEN,
        ) == argv@[i]@ by {
            if i < n - 1 {
                assert(cur.subrange(i * MAX_ARG_LEN, (i + 1) * MAX_ARG_LEN) =~= prev.subrange(
                    i * MAX_ARG_LEN,
                    (i + 1) * MAX_ARG_LEN,
                ));
            } else {
                assert(cur.subrange(i * MAX_ARG_LEN, (i + 1) * MAX_ARG_LEN) =~= argv@[i]@);
            }
        }
    }
}

/// Parsing the encoded bytes of an exec event gives back the fields that
/// were written: numbers exactly, text up to its first NUL.
pub proof fn law_exec_roundtrip(e: ExecEvent)
    requires
        decoded_type(e.header) == Some(EventType::Exec),
    ensures
        exec_accepts(exec_bytes(e)),
        forall|p: ParsedExecEvent|
            exec_parsed_from(p, exec_bytes(e)) ==> {
                &&& p.pid == e.header.pid
                &&& p.ppid == e.header.ppid
                &&& p.uid == e.header.uid
                &&& p.gid == e.header.gid
                &&& p.euid == e.header.euid
                &&& p.comm@ == cstr(e.header.comm@)
                &&& p.tty_nr == e.header.tty_nr
                &&& p.execution_id == e.header.execution_id
                &&& p.cgroup_id == e.header.cgroup_id
                &&& p.filename@ == cstr(e.filename@)
                &&& p.argv@.len() == (if e.argc < MAX_ARGV_COUNT {
                    e.argc as int
                } else {
                    MAX_ARGV_COUNT as int
                })
                &&& forall|i: int|
                    0 <= i < p.argv@.len() ==> #[trigger] p.argv@[i]@ == cstr(e.argv@[i]@)
                &&& p.retval == e.retval
            },
{
    let b = exec_bytes(e);
    let hb = header_bytes(e.header);
    let a = argv_bytes(e.argv, MAX_ARGV_COUNT as int);
    lemma_argv_bytes(e.argv, MAX_ARGV_COUNT as int);
    crate::common::event::law_header_roundtrip(e.header);
    assert(hb.len() == HEADER_SIZE) by {
        crate::common::event::lemma_header_split(e.header);
    }
    assert(b.len() == EXEC_EVENT_SIZE);
    assert(b.subrange(0, 80) =~= hb);
    lemma_header_prefix(b, e.header);
    assert(b.subrange(80, 336) =~= e.filename@);
    assert(b.subrange(336, 5456) =~= a);
    assert(b.subrange(5456, 5460) =~= u32_bytes(e.argc));
    lemma_u32_at(b, 5456, e.argc);
    assert(b.subrange(5464, 5472) =~= u64_bytes(e.retval as u64));
    lemma_u64_at(b, 5464, e.retval as u64);
    let r = e.retval;
    assert(((r as u64) as i64) == r) by (bit_vector);
    assert forall|i: int| 0 <= i < MAX_ARGV_COUNT implies #[trigger] argv_slot(b, i) == e.argv@[i]@ by {
        lemma_window(b, a, 336, i * MAX_ARG_LEN, (i + 1) * MAX_ARG_LEN);
        assert(a.subrange(i * MAX_ARG_LEN, (i + 1) * MAX_ARG_LEN) == e.argv@[i]@);
    }
    assert forall|p: ParsedExecEvent| exec_parsed_from(p, b) implies forall|i: int|
        0 <= i < p.argv@.len() ==> #[trigger] p.argv@[i]@ == cstr(e.argv@[i]@) by {
        assert forall|i: int| 0 <= i < p.argv@.len() implies #[trigger] p.argv@[i]@ == cstr(
            e.argv@[i]@,
        ) by {
            assert(argv_slot(b, i) == e.argv@[i]@);
        }
    }
}

/// Parsing the encoded bytes of an exit event gives back the fields that
/// were written.
pub proof fn law_exit_roundtrip(e: ExitEvent)
    requires
        decoded_type(e.header) == Some(EventType::Exit),
    ensures
        exit_accepts(exit_bytes(e)),
        forall|p: ParsedExitEvent|
            exit_parsed_from(p, exit_bytes(e)) ==> {
                &&& p.pid == e.header.pid
                &&& p.ppid == e.header.ppid
                &&& p.uid == e.header.uid
                &&& p.gid == e.header.gid
                &&& p.euid == e.header.euid
                &&& p.comm@ == cstr(e.header.comm@)
                &&& p.tty_nr == e.header.tty_nr
                &&& p.execution_id == e.header.execution_id
                &&& p.cgroup_id == e.header.cgroup_id
                &&& p.exit_code == e.exit_code
            },
{
    let b = exit_bytes(e);
    let hb = header_bytes(e.header);
    assert(hb.len() == HEADER_SIZE) by {
        crate::common::event::lemma_header_split(e.header);
    }
    assert(b.subrange(0, 80) =~= hb);
    lemma_header_prefix(b, e.header);
    assert(b.subrange(80, 84) =~= u32_bytes(e.exit_code as u32));
    lemma_u32_at(b, 80, e.exit_code as u32);
    let c = e.exit_code;
    assert(((c as u32) as i32) == c) by (bit_vector);
}

/// Parsing the encoded bytes of an I/O event gives back the fields that were
/// written, with the payload cut to `data_len` (at most [`MAX_DATA_LEN`]).
pub proof fn law_io_roundtrip(e: IoEvent)
    requires
        decoded_type(e.header) == Some(EventType::Read) || decoded_type(e.header) == Some(
            EventType::Write,
        ),
    ensures
        io_accepts(io_bytes(e)),
        forall|p: ParsedIoEvent|
            io_parsed_from(p, io_bytes(e)) ==> {
                &&& p.pid == e.header.pid
                &&& p.ppid == e.header.ppid
                &&& p.uid == e.header.uid
                &&& p.gid == e.header.gid
                &&& p.euid == e.header.euid
                &&& p.comm@ == cstr(e.header.comm@)
                &&& p.tty_nr == e.header.tty_nr
                &&& p.execution_id == e.header.execution_id
                &&& p.cgroup_id == e.header.cgroup_id
                &&& p.fd == e.fd
                &&& p.count == e.count
                &&& p.data@ == e.data@.take(
                    if e.data_len < MAX_DATA_LEN {
                        e.data_len as int
                    } else {
                        MAX_DATA_LEN as int
                    },
                )
            },
{
    let b = io_bytes(e);
    let hb = header_bytes(e.header);
    assert(hb.len() == HEADER_SIZE) by {
        crate::common::event::lemma_header_split(e.header);
    }
    assert(b.subrange(0, 80) =~= hb);
    lemma_header_prefix(b, e.header);
    assert(b.subrange(80, 84) =~= u32_bytes(e.fd));
    lemma_u32_at(b, 80, e.fd);
    assert(b.subrange(84, 88) =~= u32_bytes(e.data_len));
    lemma_u32_at(b, 84, e.data_len);
    assert(b.subrange(88, 96) =~= u64_bytes(e.count));
    lemma_u64_at(b, 88, e.count);
    let n = io_payload_len(b);
    assert(b.subrange(96, 96 + n) =~= e.data@.take(n));
}

} // verus!
