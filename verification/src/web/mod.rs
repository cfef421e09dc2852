//! The web reader: the filter query language, SQL query construction,
//! pagination and the view models of the event pages.

pub mod filter;
pub mod listing;
pub mod users;
pub mod query;
pub mod event;
pub mod view;
pub mod navigation;
pub mod api;
pub mod repository;
pub mod fixtures;
