//! The read-only store the web reader queries.

use vstd::prelude::*;

use crate::web::event::{EventDetail, EventSummary};
use crate::web::filter::EventFilter;
use crate::web::listing::{ListRequest, Page};

verus! {

/// Why a repository could not answer.
#[derive(Debug, Clone)]
pub struct RepoError {
    /// What went wrong, for the log.
    pub message: String,
}

/// Read-only repository for querying events.
pub trait EventRepository: Send + Sync {
    /// Fetch a paginated, filtered, sorted list of event summaries.
    fn list(&self, req: &ListRequest, filter: &EventFilter) -> Result<Page<EventSummary>, RepoError>;

    /// Fetch full detail for a single event by ID, including related I/O.
    fn get_detail(&self, id: i64) -> Result<Option<EventDetail>, RepoError>;

    /// Fetch events with `id > after_id`, applying the given filter.
    /// Returns up to 100 events ordered by id ASC.
    fn list_since(&self, after_id: i64, filter: &EventFilter) -> Result<Vec<EventSummary>, RepoError>;

    /// Get the maximum event id in the database, or 0 if empty.
    fn max_event_id(&self) -> Result<i64, RepoError>;
}

} // verus!
