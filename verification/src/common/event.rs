//! The ring-buffer wire contract: fixed-layout event structs and their
//! byte encoding.
//!
//! Every struct is laid out as the probes write it: little-endian fields at
//! fixed offsets, arrays inline, padding zeroed. `to_bytes` writes that
//! layout and the decoders in this crate read it back field by field.

use vstd::prelude::*;

use crate::bytes::{
    le_i64, le_u32, le_u64, lemma_le_u32_window, lemma_u32_roundtrip, lemma_u64_roundtrip,
    read_u32, read_u64, u32_bytes, u64_bytes, write_bytes, write_u32, write_u64,
};
use crate::common::event_type::{type_of_wire, wire_of, EventType};

verus! {

broadcast use {crate::bytes::lemma_u32_bytes_len, crate::bytes::lemma_u64_bytes_len};

/// Maximum number of arguments captured per execve call.
pub const MAX_ARGV_COUNT: usize = 20;

/// Maximum byte length of a single argument.
pub const MAX_ARG_LEN: usize = 256;

/// Maximum byte length of I/O data captured per event.
pub const MAX_DATA_LEN: usize = 4096;

/// Maximum byte length of an executable filename path.
pub const MAX_FILENAME_LEN: usize = 256;

/// Kernel task comm field length.
pub const COMM_LEN: usize = 16;

/// Current version of the ring-buffer wire contract.
pub const WIRE_VERSION: u32 = 1;

/// Size in bytes of an encoded [`EventHeader`].
pub const HEADER_SIZE: usize = 80;

/// Size in bytes of an encoded [`ExecEvent`].
pub const EXEC_EVENT_SIZE: usize = 5472;

/// Size in bytes of an encoded [`IoEvent`].
pub const IO_EVENT_SIZE: usize = 4192;

/// Size in bytes of an encoded [`ExitEvent`].
pub const EXIT_EVENT_SIZE: usize = 88;

/// Byte offset of the `comm` array inside an encoded header.
pub const COMM_OFFSET: usize = 44;

/// Byte offset of the `filename` array inside an encoded exec event.
pub const FILENAME_OFFSET: usize = 80;

/// Byte offset of the first `argv` slot inside an encoded exec event.
pub const ARGV_OFFSET: usize = 336;

/// Byte offset of `argc` inside an encoded exec event.
pub const ARGC_OFFSET: usize = 5456;

/// Byte offset of `retval` inside an encoded exec event.
pub const RETVAL_OFFSET: usize = 5464;

/// Byte offset of `fd` inside an encoded I/O event.
pub const FD_OFFSET: usize = 80;

/// Byte offset of `data_len` inside an encoded I/O event.
pub const DATA_LEN_OFFSET: usize = 84;

/// Byte offset of `count` inside an encoded I/O event.
pub const COUNT_OFFSET: usize = 88;

/// Byte offset of the `data` array inside an encoded I/O event.
pub const DATA_OFFSET: usize = 96;

/// Byte offset of `exit_code` inside an encoded exit event.
pub const EXIT_CODE_OFFSET: usize = 80;

/// Error returned when parsing a raw event from a byte buffer fails.
#[derive(Debug, Clone, PartialEq, Eq)]
pub enum ParseError {
    /// The byte buffer is shorter than the required size.
    BufferTooShort {
        /// Minimum number of bytes needed.
        need: usize,
        /// Actual number of bytes provided.
        got: usize,
    },
    /// The wire version in the header does not match [`WIRE_VERSION`].
    InvalidWireVersion(u32),
    /// The event type discriminant is not a known [`EventType`] variant.
    InvalidEventType(u32),
    /// The event type in the header does not match the expected type for
    /// the target struct (e.g. an `Exit` header in an `ExecEvent` buffer).
    UnexpectedEventType {
        /// The event type that was expected.
        expected: &'static str,
        /// The event type discriminant found in the header.
        got: u32,
    },
}

/// The text of a parse error.
pub open spec fn parse_error_text(e: ParseError) -> Seq<char> {
    match e {
        ParseError::BufferTooShort { need, got } => "buffer too short: need "@ + crate::text::dec(
            need as nat,
        ) + " bytes, got "@ + crate::text::dec(got as nat),
        ParseError::InvalidWireVersion(v) => "unsupported wire version "@ + crate::text::dec(v as nat)
            + " (expected "@ + crate::text::dec(WIRE_VERSION as nat) + ")"@,
        ParseError::InvalidEventType(t) => "invalid event type discriminant "@ + crate::text::dec(
            t as nat,
        ),
        ParseError::UnexpectedEventType { expected, got } => "expected "@ + expected@
            + " event type, got discriminant "@ + crate::text::dec(got as nat),
    }
}

impl ParseError {
    /// The human-readable description of this error.
    pub fn message(&self) -> (s: String)
        ensures
            s@ == parse_error_text(*self),
    {
        let mut s = String::new();
        match self {
            ParseError::BufferTooShort { need, got } => {
                crate::text::push_str(&mut s, "buffer too short: need ");
                crate::text::push_u64(&mut s, *need as u64);
                crate::text::push_str(&mut s, " bytes, got ");
                crate::text::push_u64(&mut s, *got as u64);
            },
            ParseError::InvalidWireVersion(v) => {
                crate::text::push_str(&mut s, "unsupported wire version ");
                crate::text::push_u64(&mut s, *v as u64);
                crate::text::push_str(&mut s, " (expected ");
                crate::text::push_u64(&mut s, WIRE_VERSION as u64);
                crate::text::push_str(&mut s, ")");
            },
            ParseError::InvalidEventType(t) => {
                crate::text::push_str(&mut s, "invalid event type discriminant ");
                crate::text::push_u64(&mut s, *t as u64);
            },
            ParseError::UnexpectedEventType { expected, got } => {
                crate::text::push_str(&mut s, "expected ");
                crate::text::push_str(&mut s, expected);
                crate::text::push_str(&mut s, " event type, got discriminant ");
                crate::text::push_u64(&mut s, *got as u64);
            },
        }
        s
    }
}

/// Common header shared by all events sent through the ring buffer.
#[derive(Debug, Clone, Copy)]
pub struct EventHeader {
    pub event_type: u32,
    pub wire_version: u32,
    pub timestamp_ns: u64,
    pub pid: u32,
    pub ppid: u32,
    pub tgid: u32,
    pub tid: u32,
    pub uid: u32,
    pub gid: u32,
    pub euid: u32,
    pub comm: [u8; COMM_LEN],
    pub tty_nr: u32,
    pub execution_id: u64,
    pub cgroup_id: u64,
}

/// The event type a header denotes: `None` unless its wire version is
/// current and its discriminant is known.
pub open spec fn decoded_type(h: EventHeader) -> Option<EventType> {
    if h.wire_version != WIRE_VERSION {
        None
    } else {
        type_of_wire(h.event_type)
    }
}

/// The encoded bytes of a header.
pub open spec fn header_bytes(h: EventHeader) -> Seq<u8> {
    u32_bytes(h.event_type) + u32_bytes(h.wire_version) + u64_bytes(h.timestamp_ns) + u32_bytes(
        h.pid,
    ) + u32_bytes(h.ppid) + u32_bytes(h.tgid) + u32_bytes(h.tid) + u32_bytes(h.uid) + u32_bytes(
        h.gid,
    ) + u32_bytes(h.euid) + h.comm@ + u32_bytes(h.tty_nr) + u64_bytes(h.execution_id) + u64_bytes(
        h.cgroup_id,
    )
}

/// Whether the header fields stored in `s` (at offset 0) are those of `h`.
pub open spec fn header_in(s: Seq<u8>, h: EventHeader) -> bool {
    &&& s.len() >= HEADER_SIZE
    &&& le_u32(s, 0) == h.event_type
    &&& le_u32(s, 4) == h.wire_version
    &&& le_u64(s, 8) == h.timestamp_ns
    &&& le_u32(s, 16) == h.pid
    &&& le_u32(s, 20) == h.ppid
    &&& le_u32(s, 24) == h.tgid
    &&& le_u32(s, 28) == h.tid
    &&& le_u32(s, 32) == h.uid
    &&& le_u32(s, 36) == h.gid
    &&& le_u32(s, 40) == h.euid
    &&& s.subrange(COMM_OFFSET as int, COMM_OFFSET + COMM_LEN) == h.comm@
    &&& le_u32(s, 60) == h.tty_nr
    &&& le_u64(s, 64) == h.execution_id
    &&& le_u64(s, 72) == h.cgroup_id
}

/// What [`EventHeader::try_from_bytes`] returns on `data`.
pub open spec fn header_parse_outcome(data: Seq<u8>) -> Option<ParseError> {
    if data.len() < HEADER_SIZE {
        Some(ParseError::BufferTooShort { need: HEADER_SIZE, got: data.len() as usize })
    } else if le_u32(data, 4) != WIRE_VERSION {
        Some(ParseError::InvalidWireVersion(le_u32(data, 4)))
    } else if type_of_wire(le_u32(data, 0)) is None {
        Some(ParseError::InvalidEventType(le_u32(data, 0)))
    } else {
        None
    }
}

/// Copies `data[off..off + 16]` into an array.
fn read_comm(data: &[u8], off: usize) -> (r: [u8; COMM_LEN])
    requires
        off + COMM_LEN <= data@.len(),
    ensures
        r@ == data@.subrange(off as int, off + COMM_LEN),
{
    let mut r = [0u8; COMM_LEN];
    let mut i: usize = 0;
    while i < COMM_LEN
        invariant
            i <= COMM_LEN,
            off + COMM_LEN <= data@.len(),
            off + COMM_LEN <= data.len(),
            r@.len() == COMM_LEN,
            forall|k: int| 0 <= k < i ==> r@[k] == data@[off + k],
        decreases COMM_LEN - i,
    {
        r[i] = data[off + i];
        i = i + 1;
    }
    assert(r@ =~= data@.subrange(off as int, off + COMM_LEN));
    r
}

impl EventHeader {
    /// Decode and validate the event type stored in the header.
    pub fn decoded_event_type(&self) -> (r: Option<EventType>)
        ensures
            r == decoded_type(*self),
    {
        if self.wire_version != WIRE_VERSION {
            return None;
        }
        EventType::from_wire(self.event_type)
    }

    /// Create a new event header stamped with the current wire version.
    pub fn new(
        event_type: EventType,
        timestamp_ns: u64,
        pid: u32,
        ppid: u32,
        tgid: u32,
        tid: u32,
        uid: u32,
        gid: u32,
        euid: u32,
        comm: [u8; COMM_LEN],
        tty_nr: u32,
        execution_id: u64,
        cgroup_id: u64,
    ) -> (h: Self)
        ensures
            h == (EventHeader {
                event_type: wire_of(event_type),
                wire_version: WIRE_VERSION,
                timestamp_ns,
                pid,
                ppid,
                tgid,
                tid,
                uid,
                gid,
                euid,
                comm,
                tty_nr,
                execution_id,
                cgroup_id,
            }),
            decoded_type(h) == Some(event_type),
    {
        EventHeader {
            event_type: event_type.as_wire(),
            wire_version: WIRE_VERSION,
            timestamp_ns,
            pid,
            ppid,
            tgid,
            tid,
            uid,
            gid,
            euid,
            comm,
            tty_nr,
            execution_id,
            cgroup_id,
        }
    }

    /// Reads the header fields at the start of `data` without validating them.
    pub fn read_fields(data: &[u8]) -> (h: Self)
        requires
            data@.len() >= HEADER_SIZE,
        ensures
            header_in(data@, h),
    {
        let _n = data.len();
        EventHeader {
            event_type: read_u32(data, 0),
            wire_version: read_u32(data, 4),
            timestamp_ns: read_u64(data, 8),
            pid: read_u32(data, 16),
            ppid: read_u32(data, 20),
            tgid: read_u32(data, 24),
            tid: read_u32(data, 28),
            uid: read_u32(data, 32),
            gid: read_u32(data, 36),
            euid: read_u32(data, 40),
            comm: read_comm(data, COMM_OFFSET),
            tty_nr: read_u32(data, 60),
            execution_id: read_u64(data, 64),
            cgroup_id: read_u64(data, 72),
        }
    }

    /// Decode a header from the start of a ring-buffer record, validating
    /// its length, wire version and event type.
    pub fn try_from_bytes(data: &[u8]) -> (r: Result<Self, ParseError>)
        ensures
            r matches Ok(h) ==> header_parse_outcome(data@) is None && header_in(data@, h)
                && decoded_type(h) is Some,
            r matches Err(e) ==> header_parse_outcome(data@) == Some(e),
    {
        if data.len() < HEADER_SIZE {
            return Err(ParseError::BufferTooShort { need: HEADER_SIZE, got: data.len() });
        }
        let header = Self::read_fields(data);
        if header.wire_version != WIRE_VERSION {
            return Err(ParseError::InvalidWireVersion(header.wire_version));
        }
        if EventType::from_wire(header.event_type).is_none() {
            return Err(ParseError::InvalidEventType(header.event_type));
        }
        Ok(header)
    }

    /// The encoded bytes of this header.
    pub fn to_bytes(&self) -> (r: Vec<u8>)
        ensures
            r@ == header_bytes(*self),
    {
        let mut out: Vec<u8> = Vec::new();
        self.write_to(&mut out);
        assert(out@ =~= header_bytes(*self));
        out
    }

    /// Appends the encoded bytes of this header.
    pub fn write_to(&self, out: &mut Vec<u8>)
        ensures
            final(out)@ == old(out)@ + header_bytes(*self),
    {
        write_u32(out, self.event_type);
        write_u32(out, self.wire_version);
        write_u64(out, self.timestamp_ns);
        write_u32(out, self.pid);
        write_u32(out, self.ppid);
        write_u32(out, self.tgid);
        write_u32(out, self.tid);
        write_u32(out, self.uid);
        write_u32(out, self.gid);
        write_u32(out, self.euid);
        write_bytes(out, &self.comm);
        write_u32(out, self.tty_nr);
        write_u64(out, self.execution_id);
        write_u64(out, self.cgroup_id);
        assert(final(out)@ =~= old(out)@ + header_bytes(*self));
    }
}

/// Exec event payload — captures execve filename, arguments, and result.
///
/// The four padding bytes between `argc` and `retval` are written as zero.
#[derive(Debug, Clone, Copy)]
pub struct ExecEvent {
    pub header: EventHeader,
    pub filename: [u8; MAX_FILENAME_LEN],
    pub argv: [[u8; MAX_ARG_LEN]; MAX_ARGV_COUNT],
    pub argc: u32,
    pub retval: i64,
}

/// The concatenated argument slots `argv[0..n]`.
pub open spec fn argv_bytes(argv: [[u8; MAX_ARG_LEN]; MAX_ARGV_COUNT], n: int) -> Seq<u8>
    decreases n,
{
    if n <= 0 {
        Seq::empty()
    } else {
        argv_bytes(argv, n - 1) + argv@[n - 1]@
    }
}

/// The encoded bytes of an exec event.
pub open spec fn exec_bytes(e: ExecEvent) -> Seq<u8> {
    header_bytes(e.header) + e.filename@ + argv_bytes(e.argv, MAX_ARGV_COUNT as int) + u32_bytes(
        e.argc,
    ) + u32_bytes(0) + u64_bytes(e.retval as u64)
}

impl ExecEvent {
    /// Create a zeroed exec event. Useful for test construction and
    /// scratch buffer initialization.
    pub fn zeroed(header: EventHeader) -> (e: Self)
        ensures
            e.header == header,
            e.filename@ == Seq::new(MAX_FILENAME_LEN as nat, |i: int| 0u8),
            forall|i: int|
                0 <= i < MAX_ARGV_COUNT ==> #[trigger] e.argv@[i]@ == Seq::new(
                    MAX_ARG_LEN as nat,
                    |j: int| 0u8,
                ),
            e.argc == 0,
            e.retval == 0,
    {
        let e = ExecEvent {
            header,
            filename: [0u8; MAX_FILENAME_LEN],
            argv: [[0u8; MAX_ARG_LEN]; MAX_ARGV_COUNT],
            argc: 0,
            retval: 0,
        };
        assert(e.filename@ =~= Seq::new(MAX_FILENAME_LEN as nat, |i: int| 0u8));
        assert forall|i: int| 0 <= i < MAX_ARGV_COUNT implies #[trigger] e.argv@[i]@ =~= Seq::new(
            MAX_ARG_LEN as nat,
            |j: int| 0u8,
        ) by {}
        e
    }

    /// The encoded bytes of this event.
    pub fn to_bytes(&self) -> (r: Vec<u8>)
        ensures
            r@ == exec_bytes(*self),
    {
        let mut out: Vec<u8> = Vec::new();
        self.header.write_to(&mut out);
        write_bytes(&mut out, &self.filename);
        let ghost before = out@;
        let mut i: usize = 0;
        while i < MAX_ARGV_COUNT
            invariant
                i <= MAX_ARGV_COUNT,
                out@ == before + argv_bytes(self.argv, i as int),
            decreases MAX_ARGV_COUNT - i,
        {
            write_bytes(&mut out, &self.argv[i]);
            assert(before + argv_bytes(self.argv, i + 1) =~= before + argv_bytes(self.argv, i as int)
                + self.argv@[i as int]@);
            i = i + 1;
        }
        write_u32(&mut out, self.argc);
        write_u32(&mut out, 0);
        write_u64(&mut out, self.retval as u64);
        assert(out@ =~= exec_bytes(*self));
        out
    }
}

/// I/O event payload — captures read/write data on stdin/stdout/stderr.
#[derive(Debug, Clone, Copy)]
pub struct IoEvent {
    pub header: EventHeader,
    pub fd: u32,
    pub data_len: u32,
    pub count: u64,
    pub data: [u8; MAX_DATA_LEN],
}

/// The encoded bytes of an I/O event.
pub open spec fn io_bytes(e: IoEvent) -> Seq<u8> {
    header_bytes(e.header) + u32_bytes(e.fd) + u32_bytes(e.data_len) + u64_bytes(e.count)
        + e.data@
}

impl IoEvent {
    /// Create a zeroed I/O event. Useful for test construction and
    /// scratch buffer initialization.
    pub fn zeroed(header: EventHeader) -> (e: Self)
        ensures
            e.header == header,
            e.fd == 0,
            e.data_len == 0,
            e.count == 0,
            e.data@ == Seq::new(MAX_DATA_LEN as nat, |i: int| 0u8),
    {
        let e = IoEvent { header, fd: 0, data_len: 0, count: 0, data: [0u8; MAX_DATA_LEN] };
        assert(e.data@ =~= Seq::new(MAX_DATA_LEN as nat, |i: int| 0u8));
        e
    }

    /// The encoded bytes of this event.
    pub fn to_bytes(&self) -> (r: Vec<u8>)
        ensures
            r@ == io_bytes(*self),
    {
        let mut out: Vec<u8> = Vec::new();
        self.header.write_to(&mut out);
        write_u32(&mut out, self.fd);
        write_u32(&mut out, self.data_len);
        write_u64(&mut out, self.count);
        write_bytes(&mut out, &self.data);
        assert(out@ =~= io_bytes(*self));
        out
    }
}

/// Exit event payload — captures process exit code.
///
/// The four padding bytes after `exit_code` are written as zero.
#[derive(Debug, Clone, Copy)]
pub struct ExitEvent {
    pub header: EventHeader,
    pub exit_code: i32,
}

/// The encoded bytes of an exit event.
pub open spec fn exit_bytes(e: ExitEvent) -> Seq<u8> {
    header_bytes(e.header) + u32_bytes(e.exit_code as u32) + u32_bytes(0)
}

impl ExitEvent {
    /// Create an exit event with padding zeroed.
    pub fn new(header: EventHeader, exit_code: i32) -> (e: Self)
        ensures
            e.header == header,
            e.exit_code == exit_code,
    {
        ExitEvent { header, exit_code }
    }

    /// The encoded bytes of this event.
    pub fn to_bytes(&self) -> (r: Vec<u8>)
        ensures
            r@ == exit_bytes(*self),
    {
        let mut out: Vec<u8> = Vec::new();
        self.header.write_to(&mut out);
        write_u32(&mut out, self.exit_code as u32);
        write_u32(&mut out, 0);
        assert(out@ =~= exit_bytes(*self));
        out
    }
}

/// A `u32` field whose bytes were written at `off` reads back as written.
pub proof fn lemma_u32_at(s: Seq<u8>, off: int, x: u32)
    requires
        0 <= off,
        off + 4 <= s.len(),
        s.subrange(off, off + 4) == u32_bytes(x),
    ensures
        le_u32(s, off) == x,
{
    lemma_u32_roundtrip(x);
    let w = s.subrange(off, off + 4);
    assert(s[off] == w[0]);
    assert(s[off + 1] == w[1]);
    assert(s[off + 2] == w[2]);
    assert(s[off + 3] == w[3]);
    lemma_le_u32_window(s, u32_bytes(x), off, 0);
}

/// A `u64` field whose bytes were written at `off` reads back as written.
pub proof fn lemma_u64_at(s: Seq<u8>, off: int, x: u64)
    requires
        0 <= off,
        off + 8 <= s.len(),
        s.subrange(off, off + 8) == u64_bytes(x),
    ensures
        le_u64(s, off) == x,
{
    lemma_u64_roundtrip(x);
    let w = s.subrange(off, off + 8);
    let b = u64_bytes(x);
    assert(s[off] == b[0]);
    assert(s[off + 1] == b[1]);
    assert(s[off + 2] == b[2]);
    assert(s[off + 3] == b[3]);
    assert(s[off + 4] == b[4]);
    assert(s[off + 5] == b[5]);
    assert(s[off + 6] == b[6]);
    assert(s[off + 7] == b[7]);
    lemma_le_u32_window(s, b, off, 0);
    lemma_le_u32_window(s, b, off + 4, 4);
}

/// A window of a window is a window.
pub proof fn lemma_window(s: Seq<u8>, f: Seq<u8>, base: int, i: int, j: int)
    requires
        0 <= base,
        base + f.len() <= s.len(),
        s.subrange(base, base + f.len()) == f,
        0 <= i <= j <= f.len(),
    ensures
        s.subrange(base + i, base + j) == f.subrange(i, j),
{
    assert(s.subrange(base + i, base + j) =~= f.subrange(i, j)) by {
        assert forall|k: int| 0 <= k < j - i implies s.subrange(base + i, base + j)[k] == f.subrange(
            i,
            j,
        )[k] by {
            assert(s.subrange(base, base + f.len())[i + k] == s[base + i + k]);
        }
    }
}

/// The bytes `header_bytes(h)[0..32]`, split to keep proofs small.
pub open spec fn header_front(h: EventHeader) -> Seq<u8> {
    u32_bytes(h.event_type) + u32_bytes(h.wire_version) + u64_bytes(h.timestamp_ns) + u32_bytes(
        h.pid,
    ) + u32_bytes(h.ppid) + u32_bytes(h.tgid) + u32_bytes(h.tid)
}

/// The bytes `header_bytes(h)[32..80]`.
pub open spec fn header_back(h: EventHeader) -> Seq<u8> {
    u32_bytes(h.uid) + u32_bytes(h.gid) + u32_bytes(h.euid) + h.comm@ + u32_bytes(h.tty_nr)
        + u64_bytes(h.execution_id) + u64_bytes(h.cgroup_id)
}

pub proof fn lemma_header_split(h: EventHeader)
    ensures
        header_bytes(h) == header_front(h) + header_back(h),
        header_front(h).len() == 32,
        header_back(h).len() == 48,
{
    assert(header_bytes(h) =~= header_front(h) + header_back(h));
}

proof fn lemma_front_fields(s: Seq<u8>, h: EventHeader)
    requires
        s.len() >= 32,
        s.subrange(0, 32) == header_front(h),
    ensures
        le_u32(s, 0) == h.event_type,
        le_u32(s, 4) == h.wire_version,
        le_u64(s, 8) == h.timestamp_ns,
        le_u32(s, 16) == h.pid,
        le_u32(s, 20) == h.ppid,
        le_u32(s, 24) == h.tgid,
        le_u32(s, 28) == h.tid,
{
    let f = header_front(h);
    assert(f.len() == 32);
    lemma_window(s, f, 0, 0, 4);
    assert(f.subrange(0, 4) =~= u32_bytes(h.event_type));
    lemma_u32_at(s, 0, h.event_type);
    lemma_window(s, f, 0, 4, 8);
    assert(f.subrange(4, 8) =~= u32_bytes(h.wire_version));
    lemma_u32_at(s, 4, h.wire_version);
    lemma_window(s, f, 0, 8, 16);
    assert(f.subrange(8, 16) =~= u64_bytes(h.timestamp_ns));
    lemma_u64_at(s, 8, h.timestamp_ns);
    lemma_window(s, f, 0, 16, 20);
    assert(f.subrange(16, 20) =~= u32_bytes(h.pid));
    lemma_u32_at(s, 16, h.pid);
    lemma_window(s, f, 0, 20, 24);
    assert(f.subrange(20, 24) =~= u32_bytes(h.ppid));
    lemma_u32_at(s, 20, h.ppid);
    lemma_window(s, f, 0, 24, 28);
    assert(f.subrange(24, 28) =~= u32_bytes(h.tgid));
    lemma_u32_at(s, 24, h.tgid);
    lemma_window(s, f, 0, 28, 32);
    assert(f.subrange(28, 32) =~= u32_bytes(h.tid));
    lemma_u32_at(s, 28, h.tid);
}

proof fn lemma_back_fields(s: Seq<u8>, h: EventHeader)
    requires
        s.len() >= 80,
        s.subrange(32, 80) == header_back(h),
    ensures
        le_u32(s, 32) == h.uid,
        le_u32(s, 36) == h.gid,
        le_u32(s, 40) == h.euid,
        s.subrange(44, 60) == h.comm@,
        le_u32(s, 60) == h.tty_nr,
        le_u64(s, 64) == h.execution_id,
        le_u64(s, 72) == h.cgroup_id,
{
    let g = header_back(h);
    assert(g.len() == 48);
    lemma_window(s, g, 32, 0, 4);
    assert(g.subrange(0, 4) =~= u32_bytes(h.uid));
    lemma_u32_at(s, 32, h.uid);
    lemma_window(s, g, 32, 4, 8);
    assert(g.subrange(4, 8) =~= u32_bytes(h.gid));
    lemma_u32_at(s, 36, h.gid);
    lemma_window(s, g, 32, 8, 12);
    assert(g.subrange(8, 12) =~= u32_bytes(h.euid));
    lemma_u32_at(s, 40, h.euid);
    lemma_window(s, g, 32, 12, 28);
    assert(g.subrange(12, 28) =~= h.comm@);
    lemma_window(s, g, 32, 28, 32);
    assert(g.subrange(28, 32) =~= u32_bytes(h.tty_nr));
    lemma_u32_at(s, 60, h.tty_nr);
    lemma_window(s, g, 32, 32, 40);
    assert(g.subrange(32, 40) =~= u64_bytes(h.execution_id));
    lemma_u64_at(s, 64, h.execution_id);
    lemma_window(s, g, 32, 40, 48);
    assert(g.subrange(40, 48) =~= u64_bytes(h.cgroup_id));
    lemma_u64_at(s, 72, h.cgroup_id);
}

/// The header fields read from any buffer that begins with the encoded bytes
/// of `h` are those of `h`.
pub proof fn lemma_header_prefix(s: Seq<u8>, h: EventHeader)
    requires
        s.len() >= HEADER_SIZE,
        s.subrange(0, HEADER_SIZE as int) == header_bytes(h),
    ensures
        header_in(s, h),
{
    lemma_header_split(h);
    let hb = header_bytes(h);
    lemma_window(s, hb, 0, 0, 32);
    lemma_window(s, hb, 0, 32, 80);
    assert(hb.subrange(0, 32) =~= header_front(h));
    assert(hb.subrange(32, 80) =~= header_back(h));
    lemma_front_fields(s, h);
    lemma_back_fields(s, h);
}

/// Reading the fields of an encoded header gives the header back.
pub proof fn law_header_roundtrip(h: EventHeader)
    ensures
        header_in(header_bytes(h), h),
{
    let s = header_bytes(h);
    assert(s.subrange(0, HEADER_SIZE as int) =~= s);
    lemma_header_prefix(s, h);
}

} // verus!
