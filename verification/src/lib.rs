//! Session recording library: wire formats of captured kernel events,
//! session correlation, event filters and the web presentation logic.

pub mod text;
pub mod bytes;
pub mod common;
pub mod utf8;
pub mod recorder;
pub mod web;
