use shspectr::common::event::{
    EventHeader, ExecEvent, ExitEvent, IoEvent, ARGC_OFFSET, ARGV_OFFSET, COMM_LEN, COMM_OFFSET,
    COUNT_OFFSET, DATA_LEN_OFFSET, DATA_OFFSET, EXEC_EVENT_SIZE, EXIT_CODE_OFFSET,
    EXIT_EVENT_SIZE, FD_OFFSET, FILENAME_OFFSET, HEADER_SIZE, IO_EVENT_SIZE, MAX_ARGV_COUNT,
    MAX_ARG_LEN, MAX_DATA_LEN, MAX_FILENAME_LEN, RETVAL_OFFSET, WIRE_VERSION,
};
use shspectr::common::event_type::EventType;

fn u32_at(b: &[u8], off: usize) -> u32 {
    u32::from_le_bytes([b[off], b[off + 1], b[off + 2], b[off + 3]])
}

fn u64_at(b: &[u8], off: usize) -> u64 {
    let mut a = [0u8; 8];
    a.copy_from_slice(&b[off..off + 8]);
    u64::from_le_bytes(a)
}

/// A header whose fields all hold different values.
fn distinct_header() -> EventHeader {
    let mut comm = [0u8; COMM_LEN];
    comm[0] = b'x';
    comm[15] = b'y';
    EventHeader::new(
        EventType::Write,
        0x0102_0304_0506_0708,
        11,
        12,
        13,
        14,
        15,
        16,
        17,
        comm,
        18,
        19,
        20,
    )
}

#[test]
fn event_event_header_offsets() {
    let h = distinct_header();
    let b = h.to_bytes();
    assert_eq!(u32_at(&b, 0), EventType::Write.as_wire(), "event_type");
    assert_eq!(u64_at(&b, 8), 0x0102_0304_0506_0708, "timestamp_ns");
    assert_eq!(u32_at(&b, 16), 11, "pid");
    assert_eq!(u32_at(&b, 20), 12, "ppid");
    assert_eq!(u32_at(&b, 24), 13, "tgid");
    assert_eq!(u32_at(&b, 28), 14, "tid");
    assert_eq!(u32_at(&b, 32), 15, "uid");
    assert_eq!(u32_at(&b, 36), 16, "gid");
    assert_eq!(u32_at(&b, 40), 17, "euid");
    assert_eq!(COMM_OFFSET, 44, "comm");
    assert_eq!(b[44], b'x', "comm");
    assert_eq!(b[59], b'y', "comm");
    assert_eq!(u32_at(&b, 60), 18, "tty_nr");
    assert_eq!(u64_at(&b, 64), 19, "execution_id");
    assert_eq!(u64_at(&b, 72), 20, "cgroup_id");
}

#[test]
fn event_event_header_size() {
    assert_eq!(HEADER_SIZE, 80, "EventHeader size");
    assert_eq!(distinct_header().to_bytes().len(), 80, "EventHeader size");
}

#[test]
fn event_exec_event_offsets() {
    let mut e = ExecEvent::zeroed(distinct_header());
    e.filename[0] = b'/';
    e.argv[0][0] = b'a';
    e.argc = 7;
    let b = e.to_bytes();
    assert_eq!(u32_at(&b, 16), 11, "header");
    assert_eq!(FILENAME_OFFSET, 80, "filename");
    assert_eq!(b[80], b'/', "filename");
    assert_eq!(ARGV_OFFSET, 80 + MAX_FILENAME_LEN, "argv");
    assert_eq!(b[80 + MAX_FILENAME_LEN], b'a', "argv");
    assert_eq!(
        ARGC_OFFSET,
        80 + MAX_FILENAME_LEN + MAX_ARGV_COUNT * MAX_ARG_LEN,
        "argc"
    );
    assert_eq!(u32_at(&b, ARGC_OFFSET), 7, "argc");
    assert_eq!(
        RETVAL_OFFSET,
        80 + MAX_FILENAME_LEN + MAX_ARGV_COUNT * MAX_ARG_LEN + 8,
        "retval"
    );
}

#[test]
fn event_io_event_size() {
    let e = IoEvent::zeroed(distinct_header());
    assert_eq!(IO_EVENT_SIZE, 96 + MAX_DATA_LEN, "IoEvent size");
    assert_eq!(e.to_bytes().len(), 96 + MAX_DATA_LEN, "IoEvent size");
}

#[test]
fn event_small_events_fit_bpf_stack() {
    let bpf_stack: usize = 512;
    let exit = ExitEvent::new(distinct_header(), 3);
    assert!(exit.to_bytes().len() <= bpf_stack, "ExitEvent exceeds BPF stack");
    assert!(
        distinct_header().to_bytes().len() <= bpf_stack,
        "EventHeader exceeds BPF stack"
    );
}

#[test]
fn event_header_validates_wire_version_and_type() {
    let mut header = EventHeader::new(
        EventType::Exec,
        0,
        1,
        0,
        1,
        1,
        1000,
        1000,
        1000,
        [0u8; COMM_LEN],
        0,
        7,
        9,
    );

    assert_eq!(header.decoded_event_type(), Some(EventType::Exec));

    header.wire_version = WIRE_VERSION + 1;
    assert_eq!(header.decoded_event_type(), None);

    header.wire_version = WIRE_VERSION;
    header.event_type = 99;
    assert_eq!(header.decoded_event_type(), None);
}

#[test]
fn exec_event_size() {
    let e = ExecEvent::zeroed(distinct_header());
    assert_eq!(
        e.to_bytes().len(),
        80 + MAX_FILENAME_LEN + MAX_ARGV_COUNT * MAX_ARG_LEN + 16,
    );
    assert_eq!(
        EXEC_EVENT_SIZE,
        80 + MAX_FILENAME_LEN + MAX_ARGV_COUNT * MAX_ARG_LEN + 16
    );
}

#[test]
fn exit_event_offsets() {
    let e = ExitEvent::new(distinct_header(), -5);
    let b = e.to_bytes();
    assert_eq!(EXIT_CODE_OFFSET, 80, "exit_code");
    assert_eq!(u32_at(&b, 80) as i32, -5, "exit_code");
    assert_eq!(b.len(), 88, "ExitEvent size");
    assert_eq!(EXIT_EVENT_SIZE, 88, "ExitEvent size");
}

#[test]
fn io_event_offsets() {
    let mut e = IoEvent::zeroed(distinct_header());
    e.fd = 2;
    e.data_len = 5;
    e.count = 9;
    e.data[0] = b'z';
    let b = e.to_bytes();
    assert_eq!(FD_OFFSET, 80, "fd");
    assert_eq!(u32_at(&b, 80), 2, "fd");
    assert_eq!(DATA_LEN_OFFSET, 84, "data_len");
    assert_eq!(u32_at(&b, 84), 5, "data_len");
    assert_eq!(COUNT_OFFSET, 88, "count");
    assert_eq!(u64_at(&b, 88), 9, "count");
    assert_eq!(DATA_OFFSET, 96, "data");
    assert_eq!(b[96], b'z', "data");
}

#[test]
fn exec_event_zeroed_fields() {
    let header = EventHeader::new(
        EventType::Exec,
        0,
        0,
        0,
        0,
        0,
        0,
        0,
        0,
        [0u8; COMM_LEN],
        0,
        0,
        0,
    );
    let evt = ExecEvent::zeroed(header);
    assert_eq!(evt.argc, 0);
    assert_eq!(evt.retval, 0);
    assert_eq!(evt.filename, [0u8; MAX_FILENAME_LEN]);
}

#[test]
fn io_event_zeroed_fields() {
    let header = EventHeader::new(
        EventType::Read,
        0,
        0,
        0,
        0,
        0,
        0,
        0,
        0,
        [0u8; COMM_LEN],
        0,
        0,
        0,
    );
    let evt = IoEvent::zeroed(header);
    assert_eq!(evt.fd, 0);
    assert_eq!(evt.data_len, 0);
    assert_eq!(evt.count, 0);
    assert_eq!(evt.data, [0u8; MAX_DATA_LEN]);
}

#[test]
fn header_roundtrips_through_its_bytes() {
    let h = distinct_header();
    let back = EventHeader::try_from_bytes(&h.to_bytes()).expect("valid header");
    assert_eq!(back.pid, 11);
    assert_eq!(back.execution_id, 19);
    assert_eq!(back.decoded_event_type(), Some(EventType::Write));
}

#[test]
fn header_errors_name_the_problem() {
    let short = EventHeader::try_from_bytes(&[0u8; 10]).unwrap_err();
    assert_eq!(short.message(), "buffer too short: need 80 bytes, got 10");
    let mut b = distinct_header().to_bytes();
    b[4] = 9;
    let version = EventHeader::try_from_bytes(&b).unwrap_err();
    assert_eq!(version.message(), "unsupported wire version 9 (expected 1)");
    let mut b = distinct_header().to_bytes();
    b[0] = 1;
    let kind = EventHeader::try_from_bytes(&b).unwrap_err();
    assert_eq!(kind.message(), "invalid event type discriminant 1");
}

#[test]
fn lib_event_header_offsets() {
    let b = distinct_header().to_bytes();
    assert_eq!(u32_at(&b, 0), EventType::Write.as_wire(), "event_type");
    assert_eq!(u64_at(&b, 8), 0x0102_0304_0506_0708, "timestamp_ns");
    assert_eq!(u32_at(&b, 16), 11, "pid");
    assert_eq!(u32_at(&b, 20), 12, "ppid");
    assert_eq!(u32_at(&b, 24), 13, "tgid");
    assert_eq!(u32_at(&b, 28), 14, "tid");
    assert_eq!(u32_at(&b, 32), 15, "uid");
    assert_eq!(u32_at(&b, 36), 16, "gid");
    assert_eq!(u32_at(&b, 40), 17, "euid");
    assert_eq!(&b[44..60], &distinct_header().comm[..], "comm");
    assert_eq!(u32_at(&b, 60), 18, "tty_nr");
    assert_eq!(u64_at(&b, 72), 20, "cgroup_id");
}

#[test]
fn lib_event_header_size() {
    assert_eq!(distinct_header().to_bytes().len(), 80, "EventHeader size");
}

#[test]
fn lib_exec_event_offsets() {
    let mut e = ExecEvent::zeroed(distinct_header());
    e.filename[0] = b'/';
    e.argv[0][0] = b'a';
    e.argc = 3;
    let b = e.to_bytes();
    assert_eq!(u32_at(&b, 16), 11, "header");
    assert_eq!(b[80], b'/', "filename");
    assert_eq!(b[80 + MAX_FILENAME_LEN], b'a', "argv");
    assert_eq!(
        u32_at(&b, 80 + MAX_FILENAME_LEN + MAX_ARGV_COUNT * MAX_ARG_LEN),
        3,
        "argc"
    );
}

#[test]
fn lib_io_event_size() {
    assert_eq!(
        IoEvent::zeroed(distinct_header()).to_bytes().len(),
        96 + MAX_DATA_LEN,
        "IoEvent size"
    );
}
