use shspectr::common::event::{EventHeader, ExecEvent, ExitEvent, IoEvent, MAX_DATA_LEN};
use shspectr::common::event_type::EventType;
use shspectr::recorder::event::{
    cstr_from_bytes, parse_exec_event, parse_exit_event, parse_header, parse_io_event,
};

#[test]
fn cstr_from_bytes_normal_string() {
    let buf = b"hello\0world";
    assert_eq!(cstr_from_bytes(buf), "hello");
}

#[test]
fn cstr_from_bytes_no_null() {
    let buf = b"hello";
    assert_eq!(cstr_from_bytes(buf), "hello");
}

#[test]
fn cstr_from_bytes_empty() {
    assert_eq!(cstr_from_bytes(b""), "");
}

#[test]
fn cstr_from_bytes_leading_null() {
    assert_eq!(cstr_from_bytes(b"\0abc"), "");
}

#[test]
fn cstr_from_bytes_invalid_utf8() {
    let buf = [0xff, 0xfe, 0x00];
    assert_eq!(cstr_from_bytes(&buf), "\u{FFFD}\u{FFFD}");
}

/// Build a minimal ExecEvent byte buffer for testing.
fn make_exec_event(filename: &str, argv: &[&str], retval: i64) -> Vec<u8> {
    let header = EventHeader::new(
        EventType::Exec,
        12345,
        100,
        1,
        100,
        100,
        1000,
        1000,
        1000,
        *b"test\0\0\0\0\0\0\0\0\0\0\0\0",
        7,
        777,
        42,
    );
    let mut event = ExecEvent::zeroed(header);
    event.retval = retval;
    event.argc = argv.len() as u32;

    let fname = filename.as_bytes();
    event.filename[..fname.len()].copy_from_slice(fname);

    for (i, arg) in argv.iter().enumerate() {
        let bytes = arg.as_bytes();
        event.argv[i][..bytes.len()].copy_from_slice(bytes);
    }

    event.to_bytes()
}

#[test]
fn parse_exec_event_roundtrip() {
    let data = make_exec_event("/usr/bin/ls", &["ls", "-la", "/tmp"], 0);
    let parsed = parse_exec_event(&data).expect("should parse");

    assert_eq!(parsed.filename, "/usr/bin/ls");
    assert_eq!(parsed.argv, vec!["ls", "-la", "/tmp"]);
    assert_eq!(parsed.retval, 0);
    assert_eq!(parsed.pid, 100);
    assert_eq!(parsed.ppid, 1);
    assert_eq!(parsed.uid, 1000);
    assert_eq!(parsed.gid, 1000);
    assert_eq!(parsed.euid, 1000);
    assert_eq!(parsed.comm, "test");
    assert_eq!(parsed.tty_nr, 7);
    assert_eq!(parsed.cgroup_id, 42);
    assert_eq!(parsed.execution_id, 777);
}

#[test]
fn parse_exec_event_failed_exec() {
    let data = make_exec_event("/usr/bin/nonexistent", &["nonexistent"], -2);
    let parsed = parse_exec_event(&data).expect("should parse");
    assert_eq!(parsed.retval, -2);
}

#[test]
fn parse_exec_event_too_short() {
    let data = vec![0u8; 10];
    assert!(parse_exec_event(&data).is_none());
}

#[test]
fn parse_header_too_short() {
    let data = vec![0u8; 10];
    assert!(parse_header(&data).is_none());
}

#[test]
fn parse_header_rejects_unknown_event_type() {
    let mut data = make_exec_event("/bin/true", &["true"], 0);
    data[0..4].copy_from_slice(&99u32.to_le_bytes());
    assert!(parse_header(&data).is_none());
    assert!(parse_exec_event(&data).is_none());
}

#[test]
fn parse_header_rejects_unknown_wire_version() {
    let mut data = make_exec_event("/bin/true", &["true"], 0);
    data[4..8].copy_from_slice(&99u32.to_le_bytes());
    assert!(parse_header(&data).is_none());
    assert!(parse_exec_event(&data).is_none());
}

#[test]
fn parse_exec_event_rejects_mismatched_header_type() {
    let mut data = make_exec_event("/bin/true", &["true"], 0);
    data[0..4].copy_from_slice(&EventType::Exit.as_wire().to_le_bytes());
    assert!(parse_exec_event(&data).is_none());
}

#[test]
fn parse_exec_event_no_args() {
    let data = make_exec_event("/bin/true", &[], 0);
    let parsed = parse_exec_event(&data).expect("should parse");
    assert!(parsed.argv.is_empty());
}

fn make_exit_event(exit_code: i32) -> Vec<u8> {
    let header = EventHeader::new(
        EventType::Exit,
        99999,
        200,
        1,
        200,
        200,
        1000,
        1000,
        0,
        *b"bash\0\0\0\0\0\0\0\0\0\0\0\0",
        7,
        888,
        42,
    );
    ExitEvent::new(header, exit_code).to_bytes()
}

#[test]
fn parse_exit_event_success() {
    let data = make_exit_event(0);
    let parsed = parse_exit_event(&data).expect("should parse");

    assert_eq!(parsed.pid, 200);
    assert_eq!(parsed.ppid, 1);
    assert_eq!(parsed.exit_code, 0);
    assert_eq!(parsed.comm, "bash");
    assert_eq!(parsed.tty_nr, 7);
    assert_eq!(parsed.cgroup_id, 42);
    assert_eq!(parsed.execution_id, 888);
}

#[test]
fn parse_exit_event_nonzero_code() {
    let data = make_exit_event(1);
    let parsed = parse_exit_event(&data).expect("should parse");
    assert_eq!(parsed.exit_code, 1);
}

#[test]
fn parse_exit_event_signal_death() {
    // Process killed by signal 9 → exit code 137 (128 + 9)
    let data = make_exit_event(137);
    let parsed = parse_exit_event(&data).expect("should parse");
    assert_eq!(parsed.exit_code, 137);
}

#[test]
fn parse_exit_event_too_short() {
    let data = vec![0u8; 10];
    assert!(parse_exit_event(&data).is_none());
}

fn make_io_event(fd: u32, payload: &[u8], count: u64) -> Vec<u8> {
    let header = EventHeader::new(
        if fd == 0 {
            EventType::Read
        } else {
            EventType::Write
        },
        55555,
        300,
        1,
        300,
        300,
        1000,
        1000,
        0,
        *b"cat\0\0\0\0\0\0\0\0\0\0\0\0\0",
        7,
        999,
        42,
    );
    let mut event = IoEvent {
        header,
        fd,
        data_len: payload.len() as u32,
        count,
        data: [0u8; MAX_DATA_LEN],
    };
    event.data[..payload.len()].copy_from_slice(payload);
    event.to_bytes()
}

#[test]
fn parse_io_event_write_stdout() {
    let data = make_io_event(1, b"hello world\n", 12);
    let parsed = parse_io_event(&data).expect("should parse");

    assert_eq!(parsed.pid, 300);
    assert_eq!(parsed.fd, 1);
    assert_eq!(parsed.data, b"hello world\n");
    assert_eq!(parsed.count, 12);
    assert_eq!(parsed.comm, "cat");
    assert_eq!(parsed.execution_id, 999);
}

#[test]
fn parse_io_event_read_stdin() {
    let data = make_io_event(0, b"input\n", 6);
    let parsed = parse_io_event(&data).expect("should parse");

    assert_eq!(parsed.fd, 0);
    assert_eq!(parsed.data, b"input\n");
    assert_eq!(parsed.count, 6);
}

#[test]
fn parse_io_event_empty_data() {
    let data = make_io_event(2, b"", 0);
    let parsed = parse_io_event(&data).expect("should parse");

    assert_eq!(parsed.fd, 2);
    assert!(parsed.data.is_empty());
}

#[test]
fn parse_io_event_too_short() {
    let data = vec![0u8; 10];
    assert!(parse_io_event(&data).is_none());
}

#[test]
fn parse_io_event_data_len_clamped_to_max() {
    let header = EventHeader::new(
        EventType::Write,
        0,
        100,
        1,
        100,
        100,
        1000,
        1000,
        0,
        *b"test\0\0\0\0\0\0\0\0\0\0\0\0",
        0,
        0,
        0,
    );
    let mut event = IoEvent::zeroed(header);
    event.data_len = (MAX_DATA_LEN as u32) + 500;
    event.fd = 1;
    event.data[0] = b'A';
    event.data[MAX_DATA_LEN - 1] = b'Z';

    let bytes = event.to_bytes();

    let parsed = parse_io_event(&bytes).expect("should parse");
    assert_eq!(
        parsed.data.len(),
        MAX_DATA_LEN,
        "data_len should be clamped to MAX_DATA_LEN"
    );
}

#[test]
fn parse_exec_event_keeps_at_most_twenty_arguments() {
    let mut data = make_exec_event("/bin/echo", &["echo"], 0);
    // Claim more arguments than the record has slots for.
    let argc_at = shspectr::common::event::ARGC_OFFSET;
    data[argc_at..argc_at + 4].copy_from_slice(&500u32.to_le_bytes());
    let parsed = parse_exec_event(&data).expect("should parse");
    assert_eq!(parsed.argv.len(), 20);
    assert_eq!(parsed.argv[0], "echo");
    assert_eq!(parsed.argv[1], "");
}
