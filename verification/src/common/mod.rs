//! Types shared by the recorder and the web reader: the ring-buffer wire
//! contract, session identifiers, filter keyword metadata and the SQL schema.

pub mod event;
pub mod event_type;
pub mod filter;
pub mod offset_idx;
pub mod offsets;
pub mod schema;
pub mod session;
pub mod sql;
