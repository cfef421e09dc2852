//! The decisions of the API endpoints: request parameters, Datastar SSE
//! payloads and the live-tail polling state.

use vstd::prelude::*;

use crate::text::{chars_of, dec, join, lines_of, owned, parse_i64, parse_i64_str, push_str, push_u64, split_lines, str_eq, views};
use crate::web::event::{EventDetail, EventSummary};
use crate::web::listing::{EventSortKey, ListRequest, SortDirection};
use crate::web::view::chunks_text;

verus! {

/// The page shown when none is asked for.
pub fn default_page() -> (r: u32)
    ensures
        r == 1,
{
    1
}

/// The page size used when none is asked for.
pub fn default_page_size() -> (r: u32)
    ensures
        r == 25,
{
    25
}

/// Query parameters for the event list endpoint.
#[derive(Debug, Clone)]
pub struct EventListParams {
    /// Page number (1-indexed). Defaults to 1.
    pub page: u32,
    /// Items per page. Defaults to 25.
    pub page_size: u32,
    /// Sort column. Defaults to "timestamp".
    pub sort: EventSortKey,
    /// Sort direction. Defaults to "desc".
    pub dir: SortDirection,
    /// Filter query string.
    pub q: String,
    /// If true, return only new rows for infinite scroll append.
    pub append: bool,
}

impl Default for EventListParams {
    fn default() -> (r: Self)
        ensures
            r.page == 1,
            r.page_size == 25,
            r.sort == EventSortKey::Timestamp,
            r.dir == SortDirection::Desc,
            r.q@ == Seq::<char>::empty(),
            !r.append,
    {
        EventListParams {
            page: default_page(),
            page_size: default_page_size(),
            sort: EventSortKey::Timestamp,
            dir: SortDirection::Desc,
            q: String::new(),
            append: false,
        }
    }
}

/// The page size actually used: at least 1, at most 100.
pub open spec fn clamp_page_size(n: u32) -> u32 {
    if n < 1 {
        1
    } else if n > 100 {
        100
    } else {
        n
    }
}

impl EventListParams {
    /// The list request these parameters ask for: the page is at least 1
    /// and the page size is kept between 1 and 100.
    pub fn list_request(&self) -> (r: ListRequest)
        ensures
            r.page == (if self.page < 1 {
                1
            } else {
                self.page
            }),
            r.page_size == clamp_page_size(self.page_size),
            r.sort == self.sort,
            r.direction == self.dir,
    {
        let page = if self.page < 1 {
            1
        } else {
            self.page
        };
        let page_size = if self.page_size < 1 {
            1
        } else if self.page_size > 100 {
            100
        } else {
            self.page_size
        };
        ListRequest { page, page_size, sort: self.sort, direction: self.dir }
    }
}

/// Datastar v1 SSE merge modes for `datastar-patch-elements`.
#[derive(Debug, Clone, Copy, PartialEq, Eq, Structural)]
pub enum SseMergeMode {
    /// Append elements inside the target.
    Append,
    /// Replace the target's inner HTML.
    Replace,
    /// Replace the target element itself (outerHTML).
    Outer,
    /// Prepend elements inside the target.
    Prepend,
}

/// The wire name of a merge mode.
pub open spec fn mode_name(m: SseMergeMode) -> Seq<char> {
    match m {
        SseMergeMode::Append => "append"@,
        SseMergeMode::Replace => "replace"@,
        SseMergeMode::Outer => "outer"@,
        SseMergeMode::Prepend => "prepend"@,
    }
}

impl SseMergeMode {
    /// The wire name of the mode.
    pub fn as_str(self) -> (r: &'static str)
        ensures
            r@ == mode_name(self),
    {
        match self {
            SseMergeMode::Append => "append",
            SseMergeMode::Replace => "replace",
            SseMergeMode::Outer => "outer",
            SseMergeMode::Prepend => "prepend",
        }
    }
}

/// Every line prefixed with `elements `.
pub open spec fn element_lines(lines: Seq<Seq<char>>) -> Seq<Seq<char>> {
    lines.map_values(|l: Seq<char>| "elements "@ + l)
}

/// The data of a `datastar-patch-elements` event: the selector, the mode,
/// then each line of the HTML prefixed with `elements `.
pub open spec fn patch_payload(html: Seq<char>, selector: Seq<char>, mode: SseMergeMode) -> Seq<char> {
    "selector "@ + selector + "\nmode "@ + mode_name(mode) + "\n"@ + join(
        element_lines(lines_of(html)),
        "\n"@,
    )
}

/// Format HTML as a Datastar v1 SSE `datastar-patch-elements` data payload.
pub fn sse_patch_elements(html: &str, selector: &str, mode: SseMergeMode) -> (r: String)
    ensures
        r@ == patch_payload(html@, selector@, mode),
{
    let lines = split_lines(html);
    let mut prefixed: Vec<String> = Vec::new();
    let mut i: usize = 0;
    while i < lines.len()
        invariant
            i <= lines@.len(),
            prefixed@.len() == i,
            forall|k: int| 0 <= k < i ==> (#[trigger] prefixed@[k])@ == "elements "@ + lines@[k]@,
        decreases lines.len() - i,
    {
        let mut l = owned("elements ");
        push_str(&mut l, lines[i].as_str());
        prefixed.push(l);
        i = i + 1;
    }
    assert(views(prefixed@) =~= element_lines(views(lines@)));
    let elements = crate::text::join_strings(&prefixed, "\n");
    let mut r = owned("selector ");
    push_str(&mut r, selector);
    push_str(&mut r, "\nmode ");
    push_str(&mut r, mode.as_str());
    push_str(&mut r, "\n");
    push_str(&mut r, elements.as_str());
    r
}

/// Datastar v1 sends this header on fragment requests.
pub const DATASTAR_REQUEST_HEADER: &'static str = "datastar-request";

/// Whether a request is a Datastar fragment request, given the value of its
/// `datastar-request` header (`None` when absent or not text): Datastar v1
/// sends `true` on all `@get` / `@post` requests, and those get an HTML
/// fragment instead of JSON or a full page.
pub fn is_datastar_request(header_value: Option<&str>) -> (r: bool)
    ensures
        r == (match header_value {
            Some(v) => v@ == "true"@,
            None => false,
        }),
{
    match header_value {
        Some(v) => str_eq(v, "true"),
        None => false,
    }
}

/// Query parameters for the live events endpoint.
#[derive(Debug, Clone)]
pub struct LiveEventsParams {
    /// Filter query string.
    pub q: String,
}

/// Which I/O stream to return in the raw endpoint.
#[derive(Debug, Clone, Copy, PartialEq, Eq, Structural)]
pub enum StreamKind {
    /// Standard input (fd 0).
    Stdin,
    /// Standard output/error (fd 1, 2).
    Stdout,
}

/// Query parameters for the raw IO endpoint.
#[derive(Debug, Clone)]
pub struct RawParams {
    /// Which stream to return.
    pub stream: Option<StreamKind>,
}

/// The raw text of the stream a request asks for (stdout when it names
/// none), as captured.
pub fn raw_stream_text(detail: &EventDetail, stream: Option<StreamKind>) -> (r: String)
    ensures
        r@ == (match stream {
            Some(StreamKind::Stdin) => chunks_text(detail.stdin_data@),
            _ => chunks_text(detail.stdout_data@),
        }),
{
    let chunks = match stream {
        Some(StreamKind::Stdin) => &detail.stdin_data,
        _ => &detail.stdout_data,
    };
    let mut r = String::new();
    let mut i: usize = 0;
    while i < chunks.len()
        invariant
            i <= chunks@.len(),
            r@ == chunks_text(chunks@.take(i as int)),
        decreases chunks.len() - i,
    {
        push_str(&mut r, chunks[i].data.as_str());
        assert(chunks@.take(i + 1).drop_last() =~= chunks@.take(i as int));
        i = i + 1;
    }
    assert(chunks@.take(chunks@.len() as int) =~= chunks@);
    r
}

/// The event ID a reconnecting client resumes after: the `Last-Event-ID`
/// header read as a number, else 0.
pub fn resume_id(last_event_id: Option<&str>) -> (r: i64)
    ensures
        r == (match last_event_id {
            Some(h) => match parse_i64(h@) {
                Some(n) => n,
                None => 0,
            },
            None => 0,
        }),
{
    match last_event_id {
        Some(h) => match parse_i64_str(&chars_of(h)) {
            Some(n) => n,
            None => 0,
        },
        None => 0,
    }
}

/// The polling state of a live event stream.
#[derive(Debug, Clone)]
pub struct LiveTail {
    /// The highest event ID sent so far.
    pub last_seen_id: i64,
    /// How many events the stream has sent.
    pub live_count: u64,
}

/// What a poll of the live stream sends.
#[derive(Debug, Clone, PartialEq, Eq, Structural)]
pub enum LiveStep {
    /// Nothing new: a keep-alive comment.
    Keepalive,
    /// New rows, sent under this event ID (the new high-water mark).
    Rows { event_id: i64 },
}

/// What one poll does: with no events the stream sends a keep-alive and
/// keeps its state; otherwise the high-water mark moves to the last event,
/// the count grows by the number of events, and the rows are sent under the
/// new mark.
pub open spec fn poll_step(before: LiveTail, batch: Seq<EventSummary>, after: LiveTail, r: LiveStep) -> bool {
    if batch.len() == 0 {
        r == LiveStep::Keepalive && after == before
    } else {
        &&& after.last_seen_id == batch.last().id
        &&& after.live_count == before.live_count + batch.len()
        &&& r == LiveStep::Rows { event_id: batch.last().id }
    }
}

impl LiveTail {
    /// The state of a new stream: it resumes after `resume` when that is
    /// positive, else after the newest stored event (0 when that cannot be
    /// read), so a first connect does not replay the history.
    pub fn start(resume: i64, max_event_id: Option<i64>) -> (r: Self)
        ensures
            r.last_seen_id == (if resume > 0 {
                resume
            } else {
                match max_event_id {
                    Some(m) => m,
                    None => 0,
                }
            }),
            r.live_count == 0,
    {
        let last_seen_id = if resume > 0 {
            resume
        } else {
            match max_event_id {
                Some(m) => m,
                None => 0,
            }
        };
        LiveTail { last_seen_id, live_count: 0 }
    }

    /// Takes the events a poll found (none when the poll failed): with no
    /// events the stream sends a keep-alive and keeps its state; otherwise
    /// the high-water mark moves to the last event and the count grows by
    /// the number of events.
    pub fn on_poll(&mut self, batch: &Vec<EventSummary>) -> (r: LiveStep)
        requires
            old(self).live_count + batch@.len() <= u64::MAX,
        ensures
            poll_step(*old(self), batch@, *final(self), r),
    {
        if batch.len() == 0 {
            return LiveStep::Keepalive;
        }
        self.last_seen_id = batch[batch.len() - 1].id;
        self.live_count = self.live_count + batch.len() as u64;
        LiveStep::Rows { event_id: self.last_seen_id }
    }

    /// The data of the `datastar-patch-signals` event that shows the count.
    pub fn signal_payload(&self) -> (r: String)
        ensures
            r@ == "signals {_liveCount: "@ + dec(self.live_count as nat) + "}"@,
    {
        let mut s = owned("signals {_liveCount: ");
        push_u64(&mut s, self.live_count);
        push_str(&mut s, "}");
        s
    }
}

/// The data of the event that prepends freshly rendered rows to the table.
pub fn live_rows_payload(fragments: &str) -> (r: String)
    ensures
        r@ == patch_payload(fragments@, "#event-rows"@, SseMergeMode::Prepend),
{
    sse_patch_elements(fragments, "#event-rows", SseMergeMode::Prepend)
}

/// The live stream never goes back: when a poll returns only events newer
/// than the high-water mark (as the live-tail statement selects them), the
/// mark never decreases and moves forward whenever rows are sent, and the
/// count of sent events never decreases.
pub proof fn law_live_tail_advances(before: LiveTail, batch: Seq<EventSummary>, after: LiveTail, r: LiveStep)
    requires
        poll_step(before, batch, after, r),
        forall|i: int| 0 <= i < batch.len() ==> #[trigger] batch[i].id > before.last_seen_id,
    ensures
        after.last_seen_id >= before.last_seen_id,
        after.live_count >= before.live_count,
        r is Rows ==> after.last_seen_id > before.last_seen_id,
{
    if batch.len() > 0 {
        assert(batch[batch.len() - 1].id > before.last_seen_id);
    }
}

} // verus!
