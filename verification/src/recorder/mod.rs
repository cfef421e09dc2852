//! The recorder: decoding ring-buffer records, resolving kernel struct
//! offsets from BTF, correlating events into sessions and deciding what
//! reaches the output sink.

pub mod event;
pub mod filter;
pub mod session;
pub mod sqlite_sink;
pub mod btf;
pub mod handler;
pub mod ebpf;
