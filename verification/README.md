# shspectr

A passive Linux session recorder and a read-only web UI over what it
records. eBPF tracepoints report every `execve`, exit, and terminal read and
write; the recorder groups them into sessions and stores them in SQLite; the
web UI lists, filters and expands them.

The logic is a Verus library whose functions carry contracts that Verus
proves; the program around it does the I/O.

## Layout

- `src/common/` — what the recorder and the reader share: the ring-buffer
  wire format (with its byte layout proved to round-trip), event types,
  session IDs, kernel offset indices, the filter keyword registry, SQL
  parameters and the schema.
- `src/recorder/` — decoding ring-buffer records, resolving kernel struct
  offsets from BTF, the session correlator, the event filters, the handler
  that decides what each record becomes, the statements of the SQLite sink,
  and the eBPF artifact path and capability checks.
- `src/web/` — the filter query language, the SQL it becomes (values only
  ever as bound parameters), paging and sorting, the views shown in the UI,
  UID names from a passwd table, the Datastar SSE payloads and the live-tail
  state.
- `src/text.rs`, `src/bytes.rs`, `src/utf8.rs` — text and little-endian byte
  helpers with their specifications.
- `app/` — the `shspectr` binary: `record` loads the eBPF programs and feeds
  ring-buffer records to the library; `web` serves the UI over a recorded
  database.
- `tests/` — tests of the library, including runs of its SQL against an
  in-memory SQLite database.

This library covers shspectr only: its wire format, its recorder and its
web UI. The oxilog record format (with its separate exec-result record) and
the extra fields of the oxilog web views (`command_display` and the raw
stdin/stdout text) are not part of it.

Laws that span several operations (session correlation, the filter
engine, the SQL builder, escaping, truncation, name resolution) are public
proof functions named `law_*` beside the functions they are about.
