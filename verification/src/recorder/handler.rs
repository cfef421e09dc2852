//! What the recorder does with each ring-buffer record: decode it, assign
//! it to a session, apply the filters, and decide what the sink receives.
//!
//! The decision is made here; delivering it to the configured sink is left
//! to the caller.

use vstd::prelude::*;

use crate::bytes::{le_u32, le_u64};
use crate::common::event::{header_parse_outcome, EventHeader, ParseError, COMM_LEN, COMM_OFFSET};
use crate::common::event_type::{type_of_wire, EventType};
use crate::common::session::{valid_session_id, SessionId};
use crate::recorder::event::{
    cstr, exec_accepts, exec_parsed_from, exit_accepts, exit_parsed_from, io_accepts,
    io_parsed_from, parse_exec_event, parse_exit_event, parse_io_event, ParsedExecEvent,
    ParsedExitEvent, ParsedIoEvent,
};
use crate::recorder::filter::{passes_filter, passes_model, FilterConfig, FilterInput};
use crate::recorder::session::{
    ancestors, exec_step, exit_step, info_model, needs_fresh, law_sessions_stay_valid, sessions_valid, lookup_step, session_in_use, CorrelatorModel, EventInfo,
    InfoModel, SessionCorrelator,
};
use crate::text::views;

verus! {

/// Info needed by sinks when handling a new session.
#[derive(Debug, Clone)]
pub struct SessionInfo {
    pub session_id: SessionId,
    pub pid: u32,
    pub comm: String,
    pub uid: u32,
    pub euid: u32,
    pub tty_nr: u32,
    pub cgroup_id: u64,
}

/// Why a record is not delivered.
#[derive(Debug, Clone)]
pub enum SkipReason {
    /// The header is invalid or truncated.
    Malformed(ParseError),
    /// The record is shorter than its event type needs.
    TooShort(EventType),
    /// The filters reject the process.
    Filtered,
    /// The process needs a new session and the system gave no random bytes
    /// to name it.
    NoSessionId,
}

/// What the sink receives for one record.
#[derive(Debug, Clone)]
pub enum SinkAction {
    /// Nothing.
    Skip(SkipReason),
    /// An exec; the sink should ensure the session exists.
    Exec { session: SessionInfo, event: ParsedExecEvent },
    /// An exit, and whether it completed its session.
    Exit { session: SessionInfo, event: ParsedExitEvent, session_complete: bool },
    /// A read or write.
    Io { session: SessionInfo, event: ParsedIoEvent, event_type: EventType },
}

/// What a record's header says about its process.
pub open spec fn record_info(data: Seq<u8>) -> InfoModel {
    InfoModel {
        pid: le_u32(data, 16),
        ppid: le_u32(data, 20),
        tty_nr: le_u32(data, 60),
        comm: cstr(data.subrange(COMM_OFFSET as int, COMM_OFFSET + COMM_LEN)),
        execution_id: le_u64(data, 64),
    }
}

/// Whether `s` describes the session `sid` of the record's process.
pub open spec fn session_info_is(s: SessionInfo, sid: Seq<char>, data: Seq<u8>) -> bool {
    &&& s.session_id@ == sid
    &&& s.pid == le_u32(data, 16)
    &&& s.comm@ == cstr(data.subrange(COMM_OFFSET as int, COMM_OFFSET + COMM_LEN))
    &&& s.uid == le_u32(data, 32)
    &&& s.euid == le_u32(data, 40)
    &&& s.tty_nr == le_u32(data, 60)
    &&& s.cgroup_id == le_u64(data, 72)
}

/// Whether the filters reject the record's process, given the tracked
/// processes its ancestors are looked up in.
pub open spec fn filter_rejects(c: FilterConfig, data: Seq<u8>, procs: Map<u32, crate::recorder::session::ProcModel>) -> bool {
    let i = record_info(data);
    !passes_model(c, i.tty_nr, i.comm, ancestors(procs, i.pid, 32))
}

/// A record whose process needed a new session that could not be named: it
/// is skipped and nothing changes.
pub open spec fn no_session_step(m: CorrelatorModel, data: Seq<u8>, a: SinkAction, n: CorrelatorModel) -> bool {
    &&& a matches SinkAction::Skip(SkipReason::NoSessionId)
    &&& n == m
    &&& !m.procs.contains_key(record_info(data).pid)
    &&& needs_fresh(m, record_info(data))
}

/// Whether the action is the skip of a filtered record.
pub open spec fn is_filtered(a: SinkAction) -> bool {
    a matches SinkAction::Skip(SkipReason::Filtered)
}

/// The effect of an exec record: the process is recorded in its session;
/// the exec reaches the sink unless the filters reject it.
pub open spec fn exec_handled(m: CorrelatorModel, data: Seq<u8>, c: FilterConfig, a: SinkAction, n: CorrelatorModel) -> bool {
    if !exec_accepts(data) {
        a matches SinkAction::Skip(SkipReason::TooShort(EventType::Exec)) && n == m
    } else {
        no_session_step(m, data, a, n) || exists|sid: Seq<char>|
            #![trigger exec_step(m, record_info(data), sid, n)]
            {
                &&& exec_step(m, record_info(data), sid, n)
                &&& if filter_rejects(c, data, n.procs) {
                    is_filtered(a)
                } else {
                    a matches SinkAction::Exec { session, event } && session_info_is(session, sid, data)
                        && exec_parsed_from(event, data)
                }
            }
    }
}

/// The effect of an exit record: the process is looked up (and recorded if
/// it was not tracked), then forgotten; the exit reaches the sink unless
/// the filters reject it, with whether it ended a non-PTY session.
pub open spec fn exit_handled(m: CorrelatorModel, data: Seq<u8>, c: FilterConfig, a: SinkAction, n: CorrelatorModel) -> bool {
    if !exit_accepts(data) {
        a matches SinkAction::Skip(SkipReason::TooShort(EventType::Exit)) && n == m
    } else {
        let pid = record_info(data).pid;
        no_session_step(m, data, a, n) || exists|sid: Seq<char>, mid: CorrelatorModel|
            #![trigger lookup_step(m, record_info(data), sid, mid)]
            {
                &&& lookup_step(m, record_info(data), sid, mid)
                &&& exit_step(mid, pid, n)
                &&& if filter_rejects(c, data, mid.procs) {
                    is_filtered(a)
                } else {
                    a matches SinkAction::Exit { session, event, session_complete } && session_info_is(
                        session,
                        sid,
                        data,
                    ) && exit_parsed_from(event, data) && session_complete == (mid.procs[pid].tty_nr
                        == 0 && !session_in_use(n.procs, sid))
                }
            }
    }
}

/// The effect of a read or write record of type `t`: the process is looked
/// up (and recorded if it was not tracked); the I/O reaches the sink unless
/// the filters reject it.
pub open spec fn io_handled(
    m: CorrelatorModel,
    data: Seq<u8>,
    c: FilterConfig,
    t: EventType,
    a: SinkAction,
    n: CorrelatorModel,
) -> bool {
    if !io_accepts(data) {
        a matches SinkAction::Skip(SkipReason::TooShort(tt)) && tt == t && n == m
    } else {
        no_session_step(m, data, a, n) || exists|sid: Seq<char>|
            #![trigger lookup_step(m, record_info(data), sid, n)]
            {
                &&& lookup_step(m, record_info(data), sid, n)
                &&& if filter_rejects(c, data, n.procs) {
                    is_filtered(a)
                } else {
                    a matches SinkAction::Io { session, event, event_type } && session_info_is(
                        session,
                        sid,
                        data,
                    ) && io_parsed_from(event, data) && event_type == t
                }
            }
    }
}

/// The effect of any record: a record whose header is invalid is skipped
/// with the reason and changes nothing; otherwise its type decides.
pub open spec fn record_handled(m: CorrelatorModel, data: Seq<u8>, c: FilterConfig, a: SinkAction, n: CorrelatorModel) -> bool {
    match header_parse_outcome(data) {
        Some(e) => a matches SinkAction::Skip(SkipReason::Malformed(err)) && err == e && n == m,
        None => match type_of_wire(le_u32(data, 0)) {
            Some(EventType::Exec) => exec_handled(m, data, c, a, n),
            Some(EventType::Exit) => exit_handled(m, data, c, a, n),
            Some(t) => io_handled(m, data, c, t, a, n),
            None => false,
        },
    }
}

/// The session of a record's process as the sink sees it.
fn session_info(session_id: &SessionId, header: &EventHeader, comm: &String) -> (r: SessionInfo)
    ensures
        r.session_id@ == session_id@,
        r.pid == header.pid,
        r.comm@ == comm@,
        r.uid == header.uid,
        r.euid == header.euid,
        r.tty_nr == header.tty_nr,
        r.cgroup_id == header.cgroup_id,
{
    SessionInfo {
        session_id: session_id.duplicate(),
        pid: header.pid,
        comm: comm.clone(),
        uid: header.uid,
        euid: header.euid,
        tty_nr: header.tty_nr,
        cgroup_id: header.cgroup_id,
    }
}

/// Whether the filters pass the process of a record, looking its ancestors
/// up in the correlator.
fn filter_passes(correlator: &SessionCorrelator, config: &FilterConfig, pid: u32, tty_nr: u32, comm: &String) -> (r: bool)
    ensures
        r == passes_model(*config, tty_nr, comm@, ancestors(correlator@.procs, pid, 32)),
{
    if config.is_empty() {
        return true;
    }
    let ancestor_comms = correlator.ancestor_comms(pid);
    let fi = FilterInput { tty_nr, comm: comm.clone(), ancestor_comms };
    passes_filter(config, &fi)
}

/// Handles an exec record.
pub fn handle_exec_event(data: &[u8], correlator: &mut SessionCorrelator, config: &FilterConfig) -> (a: SinkAction)
    requires
        header_parse_outcome(data@) is None,
        type_of_wire(le_u32(data@, 0)) == Some(EventType::Exec),
    ensures
        exec_handled(old(correlator)@, data@, *config, a, final(correlator)@),
{
    let exec = match parse_exec_event(data) {
        Some(e) => e,
        None => {
            return SinkAction::Skip(SkipReason::TooShort(EventType::Exec));
        },
    };
    let header = EventHeader::read_fields(data);
    let info = EventInfo {
        pid: exec.pid,
        ppid: exec.ppid,
        tty_nr: exec.tty_nr,
        comm: exec.comm.clone(),
        execution_id: exec.execution_id,
    };
    assert(info_model(info) == record_info(data@));
    let session_id = match correlator.on_exec(&info) {
        Some(sid) => sid.duplicate(),
        None => {
            return SinkAction::Skip(SkipReason::NoSessionId);
        },
    };
    let ghost sid = session_id@;
    if !filter_passes(correlator, config, exec.pid, exec.tty_nr, &exec.comm) {
        return SinkAction::Skip(SkipReason::Filtered);
    }
    let session = session_info(&session_id, &header, &exec.comm);
    SinkAction::Exec { session, event: exec }
}

/// Handles an exit record.
pub fn handle_exit_event(data: &[u8], correlator: &mut SessionCorrelator, config: &FilterConfig) -> (a: SinkAction)
    requires
        header_parse_outcome(data@) is None,
        type_of_wire(le_u32(data@, 0)) == Some(EventType::Exit),
    ensures
        exit_handled(old(correlator)@, data@, *config, a, final(correlator)@),
{
    let exit = match parse_exit_event(data) {
        Some(e) => e,
        None => {
            return SinkAction::Skip(SkipReason::TooShort(EventType::Exit));
        },
    };
    let header = EventHeader::read_fields(data);
    let info = EventInfo {
        pid: exit.pid,
        ppid: exit.ppid,
        tty_nr: exit.tty_nr,
        comm: exit.comm.clone(),
        execution_id: exit.execution_id,
    };
    assert(info_model(info) == record_info(data@));
    let session_id = match correlator.session_for(&info) {
        Some(sid) => sid.duplicate(),
        None => {
            return SinkAction::Skip(SkipReason::NoSessionId);
        },
    };
    let ghost mid = correlator@;
    let ghost sid = session_id@;
    if !filter_passes(correlator, config, exit.pid, exit.tty_nr, &exit.comm) {
        let _ = correlator.on_exit(exit.pid);
        return SinkAction::Skip(SkipReason::Filtered);
    }
    let session_complete = match correlator.on_exit(exit.pid) {
        Some(done) => done.session_complete,
        None => false,
    };
    let session = session_info(&session_id, &header, &exit.comm);
    SinkAction::Exit { session, event: exit, session_complete }
}

/// Handles a read or write record.
pub fn handle_io_event(data: &[u8], correlator: &mut SessionCorrelator, config: &FilterConfig, event_type: EventType) -> (a: SinkAction)
    requires
        header_parse_outcome(data@) is None,
        type_of_wire(le_u32(data@, 0)) == Some(event_type),
        event_type == EventType::Read || event_type == EventType::Write,
    ensures
        io_handled(old(correlator)@, data@, *config, event_type, a, final(correlator)@),
{
    let io = match parse_io_event(data) {
        Some(e) => e,
        None => {
            return SinkAction::Skip(SkipReason::TooShort(event_type));
        },
    };
    let header = EventHeader::read_fields(data);
    let info = EventInfo {
        pid: io.pid,
        ppid: io.ppid,
        tty_nr: io.tty_nr,
        comm: io.comm.clone(),
        execution_id: io.execution_id,
    };
    assert(info_model(info) == record_info(data@));
    let session_id = match correlator.session_for(&info) {
        Some(sid) => sid.duplicate(),
        None => {
            return SinkAction::Skip(SkipReason::NoSessionId);
        },
    };
    let ghost sid = session_id@;
    if !filter_passes(correlator, config, io.pid, io.tty_nr, &io.comm) {
        return SinkAction::Skip(SkipReason::Filtered);
    }
    let session = session_info(&session_id, &header, &io.comm);
    SinkAction::Io { session, event: io, event_type }
}

/// Decides what to do with one ring-buffer record.
pub fn handle_event(data: &[u8], correlator: &mut SessionCorrelator, config: &FilterConfig) -> (a: SinkAction)
    ensures
        record_handled(old(correlator)@, data@, *config, a, final(correlator)@),
{
    let header = match EventHeader::try_from_bytes(data) {
        Ok(h) => h,
        Err(e) => {
            return SinkAction::Skip(SkipReason::Malformed(e));
        },
    };
    let event_type = match header.decoded_event_type() {
        Some(t) => t,
        None => {
            return SinkAction::Skip(SkipReason::Malformed(ParseError::InvalidEventType(header.event_type)));
        },
    };
    match event_type {
        EventType::Exec => handle_exec_event(data, correlator, config),
        EventType::Exit => handle_exit_event(data, correlator, config),
        EventType::Read => handle_io_event(data, correlator, config, EventType::Read),
        EventType::Write => handle_io_event(data, correlator, config, EventType::Write),
    }
}

/// With no filter active no record is held back by the filters.
pub proof fn law_no_filters_hold_nothing_back(
    m: CorrelatorModel,
    data: Seq<u8>,
    c: FilterConfig,
    a: SinkAction,
    n: CorrelatorModel,
)
    requires
        crate::recorder::filter::config_is_empty(c),
        record_handled(m, data, c, a, n),
    ensures
        !is_filtered(a),
{
    assert forall|procs: Map<u32, crate::recorder::session::ProcModel>| !filter_rejects(c, data, procs) by {}
}

/// An exit always forgets its process, whether or not the filters let it
/// through, and leaves the terminal sessions as the lookup left them.
pub proof fn law_exit_forgets_process(m: CorrelatorModel, data: Seq<u8>, c: FilterConfig, a: SinkAction, n: CorrelatorModel)
    requires
        exit_accepts(data),
        exit_handled(m, data, c, a, n),
    ensures
        !n.procs.contains_key(record_info(data).pid),
        forall|t: u32| m.ttys.contains_key(t) ==> n.ttys.contains_key(t) && n.ttys[t] == m.ttys[t],
{
    let (sid, mid) = choose|sid: Seq<char>, mid: CorrelatorModel|
        #![trigger lookup_step(m, record_info(data), sid, mid)]
        {
            &&& lookup_step(m, record_info(data), sid, mid)
            &&& exit_step(mid, record_info(data).pid, n)
            &&& if filter_rejects(c, data, mid.procs) {
                is_filtered(a)
            } else {
                a matches SinkAction::Exit { session, event, session_complete } && session_info_is(
                    session,
                    sid,
                    data,
                ) && exit_parsed_from(event, data) && session_complete == (mid.procs[record_info(
                    data,
                ).pid].tty_nr == 0 && !session_in_use(n.procs, sid))
            }
        };
}

/// A record whose header cannot be read changes no session state.
pub proof fn law_malformed_changes_nothing(m: CorrelatorModel, data: Seq<u8>, c: FilterConfig, a: SinkAction, n: CorrelatorModel)
    requires
        header_parse_outcome(data) is Some,
        record_handled(m, data, c, a, n),
    ensures
        n == m,
        !is_filtered(a),
{
}

/// The session a delivered event carries.
pub open spec fn delivered_session(a: SinkAction) -> Option<Seq<char>> {
    match a {
        SinkAction::Exec { session, .. } => Some(session.session_id@),
        SinkAction::Exit { session, .. } => Some(session.session_id@),
        SinkAction::Io { session, .. } => Some(session.session_id@),
        SinkAction::Skip(_) => None,
    }
}

/// Only well-formed session IDs reach the sink: when every session the
/// correlator holds is valid, handling any record keeps it so, and the
/// session of a delivered event is valid.
pub proof fn law_delivered_sessions_are_valid(
    m: CorrelatorModel,
    data: Seq<u8>,
    c: FilterConfig,
    a: SinkAction,
    n: CorrelatorModel,
)
    requires
        sessions_valid(m),
        record_handled(m, data, c, a, n),
    ensures
        sessions_valid(n),
        delivered_session(a) matches Some(sid) ==> valid_session_id(sid),
{
    let i = record_info(data);
    if header_parse_outcome(data) is None {
        match type_of_wire(le_u32(data, 0)) {
            Some(EventType::Exec) => {
                if exec_accepts(data) && !no_session_step(m, data, a, n) {
                    let sid = choose|sid: Seq<char>|
                        #![trigger exec_step(m, i, sid, n)]
                        {
                            &&& exec_step(m, i, sid, n)
                            &&& if filter_rejects(c, data, n.procs) {
                                is_filtered(a)
                            } else {
                                a matches SinkAction::Exec { session, event } && session_info_is(
                                    session,
                                    sid,
                                    data,
                                ) && exec_parsed_from(event, data)
                            }
                        };
                    law_sessions_stay_valid(m, i, sid, n, i.pid, CorrelatorModel { procs: n.procs.remove(i.pid), ttys: n.ttys });
                }
            },
            Some(EventType::Exit) => {
                if exit_accepts(data) && !no_session_step(m, data, a, n) {
                    let (sid, mid) = choose|sid: Seq<char>, mid: CorrelatorModel|
                        #![trigger lookup_step(m, i, sid, mid)]
                        {
                            &&& lookup_step(m, i, sid, mid)
                            &&& exit_step(mid, i.pid, n)
                            &&& if filter_rejects(c, data, mid.procs) {
                                is_filtered(a)
                            } else {
                                a matches SinkAction::Exit { session, event, session_complete }
                                    && session_info_is(session, sid, data) && exit_parsed_from(event, data)
                                    && session_complete == (mid.procs[i.pid].tty_nr == 0 && !session_in_use(n.procs, sid))
                            }
                        };
                    law_sessions_stay_valid(m, i, sid, mid, i.pid, n);
                }
            },
            Some(t) => {
                if io_accepts(data) && !no_session_step(m, data, a, n) {
                    let sid = choose|sid: Seq<char>|
                        #![trigger lookup_step(m, i, sid, n)]
                        {
                            &&& lookup_step(m, i, sid, n)
                            &&& if filter_rejects(c, data, n.procs) {
                                is_filtered(a)
                            } else {
                                a matches SinkAction::Io { session, event, event_type } && session_info_is(
                                    session,
                                    sid,
                                    data,
                                ) && io_parsed_from(event, data) && event_type == t
                            }
                        };
                    law_sessions_stay_valid(m, i, sid, n, i.pid, CorrelatorModel { procs: n.procs.remove(i.pid), ttys: n.ttys });
                }
            },
            None => {},
        }
    }
}

} // verus!
