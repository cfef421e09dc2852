//! Session correlation: groups events into logical sessions.
//!
//! The correlator maintains a `pid → session_id` mapping updated on every
//! execve and exit event. Session assignment follows this priority:
//!
//! 1. **PTY grouping** — processes sharing a `tty_nr` share a session.
//! 2. **Ancestor inheritance** — child processes inherit their parent's session.
//! 3. **Singleton fallback** — unknown processes get a new per-PID session.
//!
//! Session IDs have the form `ox_<8 alphanumeric chars>`, e.g. `ox_k7m3qx9p`.

use std::collections::HashMap;

use vstd::prelude::*;

use crate::common::session::{valid_session_id, SessionId};
use crate::text::{push_char, push_str, views};
use vstd::std_specs::iter::IteratorSpec;

verus! {

broadcast use vstd::std_specs::hash::group_hash_axioms;

/// Length of the random suffix in session IDs.
pub const SESSION_ID_SUFFIX_LEN: usize = 8;

/// Prefix for all session IDs.
pub const SESSION_ID_PREFIX: &'static str = "ox_";

/// Fills an 8-byte buffer from the operating system's random source
/// (`getrandom::fill`). Nothing is stated of the bytes: they are random.
/// `None` when the source reports an error (for instance under a seccomp
/// policy that blocks `getrandom(2)`).
#[verifier::external_body]
fn random_suffix_bytes() -> (r: Option<[u8; 8]>) {
    let mut buf = [0u8; 8];
    match getrandom::fill(&mut buf) {
        Ok(()) => Some(buf),
        Err(_) => None,
    }
}

/// The alphabet session suffixes are drawn from.
pub open spec fn charset_char(i: int) -> char {
    if i < 10 {
        (i + 48) as char
    } else {
        (i - 10 + 97) as char
    }
}

fn charset(i: u8) -> (c: char)
    requires
        i < 36,
    ensures
        c == charset_char(i as int),
        '0' <= c <= '9' || 'a' <= c <= 'z',
{
    if i < 10 {
        ((i + 48) as u8) as char
    } else {
        ((i - 10 + 97) as u8) as char
    }
}

/// The session ID made of eight random bytes: `ox_`, then each byte taken
/// modulo 36 as a digit or lower-case letter.
pub open spec fn id_from_bytes(buf: Seq<u8>) -> Seq<char> {
    "ox_"@ + Seq::new(8, |i: int| charset_char(buf[i] as int % 36))
}

/// Whether `s` is `ox_` followed by eight digits or lower-case letters, the
/// form of every session ID the recorder makes.
pub open spec fn fresh_session_id(s: Seq<char>) -> bool {
    &&& s.len() == 11
    &&& s.take(3) == "ox_"@
    &&& forall|k: int| 3 <= k < 11 ==> ('0' <= #[trigger] s[k] <= '9' || 'a' <= s[k] <= 'z')
}

/// The IDs the recorder makes are valid session IDs.
pub proof fn lemma_fresh_is_valid(s: Seq<char>)
    requires
        fresh_session_id(s),
    ensures
        valid_session_id(s),
{
    reveal_strlit("ox_");
    assert(s.take(3) =~= crate::common::session::session_prefix());
    assert(crate::text::starts_with(s, crate::common::session::session_prefix()));
}

/// The session ID made of the bytes `buf`.
pub fn session_id_from_bytes(buf: [u8; 8]) -> (r: SessionId)
    ensures
        r@ == id_from_bytes(buf@),
        fresh_session_id(r@),
{
    let mut s = String::new();
    push_str(&mut s, SESSION_ID_PREFIX);
    proof {
        reveal_strlit("ox_");
    }
    let mut i: usize = 0;
    while i < SESSION_ID_SUFFIX_LEN
        invariant
            i <= SESSION_ID_SUFFIX_LEN,
            s@.len() == 3 + i,
            s@.take(3) == "ox_"@,
            forall|k: int| 0 <= k < i ==> #[trigger] s@[3 + k] == charset_char(buf@[k] as int % 36),
        decreases SESSION_ID_SUFFIX_LEN - i,
    {
        let ghost before = s@;
        push_char(&mut s, charset(buf[i] % 36));
        assert(s@.take(3) =~= before.take(3));
        i = i + 1;
    }
    let ghost want = id_from_bytes(buf@);
    assert forall|k: int| 0 <= k < 11 implies #[trigger] s@[k] == want[k] by {
        if k < 3 {
            assert(s@.take(3)[k] == s@[k]);
        } else {
            assert(s@[3 + (k - 3)] == charset_char(buf@[k - 3] as int % 36));
        }
    }
    assert(s@ =~= want);
    SessionId::from_string(s)
}

/// Generate a session ID like `ox_k7m3qx9p` from fresh random bytes; `None`
/// when the operating system provides no random bytes.
pub fn generate_session_id() -> (r: Option<SessionId>)
    ensures
        r matches Some(id) ==> fresh_session_id(id@) && valid_session_id(id@),
{
    match random_suffix_bytes() {
        Some(buf) => {
            let id = session_id_from_bytes(buf);
            proof {
                lemma_fresh_is_valid(id@);
            }
            Some(id)
        },
        None => None,
    }
}

/// Information about a tracked process.
#[derive(Debug, Clone)]
pub struct ProcessInfo {
    pub session_id: SessionId,
    pub ppid: u32,
    pub tty_nr: u32,
    pub comm: String,
    pub execution_id: u64,
}

/// Per-TTY session entry used to keep session identity stable across
/// short gaps between observed child processes on the same terminal.
#[derive(Debug)]
struct TtySession {
    session_id: SessionId,
}

/// Result of removing a tracked process on exit.
#[derive(Debug, Clone, PartialEq, Eq)]
pub struct ExitInfo {
    pub session_id: SessionId,
    pub session_complete: bool,
}

/// Correlates events into logical sessions.
#[derive(Debug)]
pub struct SessionCorrelator {
    /// Maps pid → process info (including session_id).
    pid_map: HashMap<u32, ProcessInfo>,
    /// Maps tty_nr → session entry for PTY-based grouping.
    tty_sessions: HashMap<u32, TtySession>,
}

/// Minimal event info needed for session correlation.
#[derive(Debug, Clone)]
pub struct EventInfo {
    pub pid: u32,
    pub ppid: u32,
    pub tty_nr: u32,
    pub comm: String,
    pub execution_id: u64,
}

/// What an event tells the correlator about its process.
pub struct InfoModel {
    pub pid: u32,
    pub ppid: u32,
    pub tty_nr: u32,
    pub comm: Seq<char>,
    pub execution_id: u64,
}

/// The content of an `EventInfo`.
pub open spec fn info_model(i: EventInfo) -> InfoModel {
    InfoModel { pid: i.pid, ppid: i.ppid, tty_nr: i.tty_nr, comm: i.comm@, execution_id: i.execution_id }
}

/// What the correlator knows of a tracked process.
pub struct ProcModel {
    pub session: Seq<char>,
    pub ppid: u32,
    pub tty_nr: u32,
    pub comm: Seq<char>,
    pub execution_id: u64,
}

/// The content of a correlator: tracked processes and per-TTY sessions.
pub struct CorrelatorModel {
    pub procs: Map<u32, ProcModel>,
    pub ttys: Map<u32, Seq<char>>,
}

/// The model of a tracked process entry.
pub open spec fn proc_model(p: ProcessInfo) -> ProcModel {
    ProcModel {
        session: p.session_id@,
        ppid: p.ppid,
        tty_nr: p.tty_nr,
        comm: p.comm@,
        execution_id: p.execution_id,
    }
}

impl View for SessionCorrelator {
    type V = CorrelatorModel;

    closed spec fn view(&self) -> CorrelatorModel {
        CorrelatorModel {
            procs: self.pid_map@.map_values(|p: ProcessInfo| proc_model(p)),
            ttys: self.tty_sessions@.map_values(|t: TtySession| t.session_id@),
        }
    }
}

/// The entry recorded for the process of `i` in session `sid`.
pub open spec fn entry_for(i: InfoModel, sid: Seq<char>) -> ProcModel {
    ProcModel {
        session: sid,
        ppid: i.ppid,
        tty_nr: i.tty_nr,
        comm: i.comm,
        execution_id: i.execution_id,
    }
}

/// How the session of a process not yet tracked is chosen: the TTY's
/// session (made fresh for a TTY not seen before), else the parent's
/// session, else a fresh session. `ttys` is the TTY table afterwards.
pub open spec fn resolves(m: CorrelatorModel, i: InfoModel, sid: Seq<char>, ttys: Map<u32, Seq<char>>) -> bool {
    if i.tty_nr != 0 {
        if m.ttys.contains_key(i.tty_nr) {
            sid == m.ttys[i.tty_nr] && ttys == m.ttys
        } else {
            fresh_session_id(sid) && ttys == m.ttys.insert(i.tty_nr, sid)
        }
    } else if m.procs.contains_key(i.ppid) {
        sid == m.procs[i.ppid].session && ttys == m.ttys
    } else {
        fresh_session_id(sid) && ttys == m.ttys
    }
}

/// Whether an untracked process of `i` needs a new session: its terminal
/// has none yet, or, without a terminal, its parent is not tracked.
pub open spec fn needs_fresh(m: CorrelatorModel, i: InfoModel) -> bool {
    if i.tty_nr != 0 {
        !m.ttys.contains_key(i.tty_nr)
    } else {
        !m.procs.contains_key(i.ppid)
    }
}

/// The effect of an exec event: a tracked process keeps its session and
/// has its metadata refreshed; an untracked one is resolved and recorded.
pub open spec fn exec_step(m: CorrelatorModel, i: InfoModel, sid: Seq<char>, n: CorrelatorModel) -> bool {
    &&& n.procs == m.procs.insert(i.pid, entry_for(i, sid))
    &&& if m.procs.contains_key(i.pid) {
        sid == m.procs[i.pid].session && n.ttys == m.ttys
    } else {
        resolves(m, i, sid, n.ttys)
    }
}

/// The effect of an I/O or exit event's lookup: a tracked process is left as
/// it is; an untracked one is resolved and recorded.
pub open spec fn lookup_step(m: CorrelatorModel, i: InfoModel, sid: Seq<char>, n: CorrelatorModel) -> bool {
    if m.procs.contains_key(i.pid) {
        sid == m.procs[i.pid].session && n == m
    } else {
        &&& n.procs == m.procs.insert(i.pid, entry_for(i, sid))
        &&& resolves(m, i, sid, n.ttys)
    }
}

/// Whether some tracked process is in session `sid`.
pub open spec fn session_in_use(procs: Map<u32, ProcModel>, sid: Seq<char>) -> bool {
    exists|q: u32| procs.contains_key(q) && #[trigger] procs[q].session == sid
}

/// The comms of the known ancestors of `pid`, parent first, following at
/// most `fuel` parent links and stopping at a self-parented or unknown
/// process.
pub open spec fn ancestors(procs: Map<u32, ProcModel>, pid: u32, fuel: nat) -> Seq<Seq<char>>
    decreases fuel,
{
    if fuel == 0 || !procs.contains_key(pid) || procs[pid].ppid == pid || !procs.contains_key(
        procs[pid].ppid,
    ) {
        Seq::empty()
    } else {
        seq![procs[procs[pid].ppid].comm] + ancestors(procs, procs[pid].ppid, (fuel - 1) as nat)
    }
}

impl Default for SessionCorrelator {
    fn default() -> (r: Self)
        ensures
            r@.procs == Map::<u32, ProcModel>::empty(),
            r@.ttys == Map::<u32, Seq<char>>::empty(),
    {
        let r = SessionCorrelator { pid_map: HashMap::new(), tty_sessions: HashMap::new() };
        assert(r@.procs =~= Map::<u32, ProcModel>::empty());
        assert(r@.ttys =~= Map::<u32, Seq<char>>::empty());
        r
    }
}

impl SessionCorrelator {
    proof fn lemma_view_insert_proc(old: Map<u32, ProcessInfo>, pid: u32, p: ProcessInfo)
        ensures
            old.insert(pid, p).map_values(|q: ProcessInfo| proc_model(q)) == old.map_values(
                |q: ProcessInfo| proc_model(q),
            ).insert(pid, proc_model(p)),
    {
        assert(old.insert(pid, p).map_values(|q: ProcessInfo| proc_model(q)) =~= old.map_values(
            |q: ProcessInfo| proc_model(q),
        ).insert(pid, proc_model(p)));
    }

    /// Resolve which session an untracked process belongs to; `None` when a
    /// new session is needed and no random bytes are available, in which
    /// case nothing changes.
    fn resolve_session(&mut self, info: &EventInfo) -> (sid: Option<SessionId>)
        ensures
            final(self).pid_map@ == old(self).pid_map@,
            match sid {
                Some(s) => resolves(old(self)@, info_model(*info), s@, final(self)@.ttys),
                None => needs_fresh(old(self)@, info_model(*info)) && final(self).tty_sessions@
                    == old(self).tty_sessions@,
            },
    {
        if info.tty_nr != 0 {
            match self.tty_sessions.get(&info.tty_nr) {
                Some(tty) => {
                    return Some(tty.session_id.duplicate());
                },
                None => {},
            }
            let sid = match generate_session_id() {
                Some(sid) => sid,
                None => {
                    return None;
                },
            };
            let ghost old_ttys = self.tty_sessions@;
            self.tty_sessions.insert(info.tty_nr, TtySession { session_id: sid.duplicate() });
            assert(self.tty_sessions@.map_values(|t: TtySession| t.session_id@) =~= old_ttys.map_values(
                |t: TtySession| t.session_id@,
            ).insert(info.tty_nr, sid@));
            return Some(sid);
        }
        match self.pid_map.get(&info.ppid) {
            Some(parent) => {
                return Some(parent.session_id.duplicate());
            },
            None => {},
        }
        generate_session_id()
    }

    /// Record an execve event and return the assigned session ID.
    ///
    /// Session assignment priority:
    /// 1. If the process has a non-zero `tty_nr`, group by PTY.
    /// 2. If the parent PID is tracked, inherit the parent's session.
    /// 3. Otherwise, create a new singleton session.
    ///
    /// A process that is already tracked (re-exec) keeps its session but has
    /// its metadata refreshed. `None` when a new session is needed and the
    /// system gives no random bytes to name it; nothing changes then.
    pub fn on_exec(&mut self, info: &EventInfo) -> (sid: Option<&SessionId>)
        ensures
            match sid {
                Some(s) => exec_step(old(self)@, info_model(*info), s@, final(self)@),
                None => !old(self)@.procs.contains_key(info.pid) && needs_fresh(
                    old(self)@,
                    info_model(*info),
                ) && final(self)@ == old(self)@,
            },
    {
        let ghost m = self@;
        let sid = match self.pid_map.remove(&info.pid) {
            Some(existing) => existing.session_id,
            None => match self.resolve_session(info) {
                Some(s) => s,
                None => {
                    proof {
                        assert(self@.procs =~= m.procs);
                        assert(self@.ttys =~= m.ttys);
                    }
                    return None;
                },
            },
        };
        let ghost mid = self.pid_map@;
        let entry = ProcessInfo {
            session_id: sid,
            ppid: info.ppid,
            tty_nr: info.tty_nr,
            comm: info.comm.clone(),
            execution_id: info.execution_id,
        };
        self.pid_map.insert(info.pid, entry);
        proof {
            Self::lemma_view_insert_proc(mid, info.pid, entry);
            assert(self@.procs =~= m.procs.insert(info.pid, entry_for(info_model(*info), entry.session_id@)));
        }
        Some(self.pid_map.get(&info.pid).unwrap().session_id_ref())
    }

    /// Look up the session ID for a process, recording an untracked one.
    /// Used for I/O and exit events that should be correlated to an existing
    /// session if possible. `None` when the process needs a new session and
    /// no random bytes are available; nothing changes then.
    pub fn session_for(&mut self, info: &EventInfo) -> (sid: Option<&SessionId>)
        ensures
            match sid {
                Some(s) => lookup_step(old(self)@, info_model(*info), s@, final(self)@),
                None => !old(self)@.procs.contains_key(info.pid) && needs_fresh(
                    old(self)@,
                    info_model(*info),
                ) && final(self)@ == old(self)@,
            },
    {
        let ghost m = self@;
        if !self.pid_map.contains_key(&info.pid) {
            let session_id = match self.resolve_session(info) {
                Some(s) => s,
                None => {
                    proof {
                        assert(self@.procs =~= m.procs);
                        assert(self@.ttys =~= m.ttys);
                    }
                    return None;
                },
            };
            let ghost mid = self.pid_map@;
            let entry = ProcessInfo {
                session_id,
                ppid: info.ppid,
                tty_nr: info.tty_nr,
                comm: info.comm.clone(),
                execution_id: info.execution_id,
            };
            self.pid_map.insert(info.pid, entry);
            proof {
                Self::lemma_view_insert_proc(mid, info.pid, entry);
                assert(self@.procs =~= m.procs.insert(info.pid, entry_for(info_model(*info), entry.session_id@)));
            }
        }
        Some(self.pid_map.get(&info.pid).unwrap().session_id_ref())
    }

    /// Record a process exit. Returns session details if the process was
    /// tracked: its session, and whether that session is now complete (a
    /// non-PTY session whose last tracked process exited).
    pub fn on_exit(&mut self, pid: u32) -> (r: Option<ExitInfo>)
        ensures
            exit_step(old(self)@, pid, final(self)@),
            old(self)@.procs.contains_key(pid) <==> r is Some,
            r matches Some(e) ==> {
                &&& e.session_id@ == old(self)@.procs[pid].session
                &&& e.session_complete == (old(self)@.procs[pid].tty_nr == 0 && !session_in_use(
                    final(self)@.procs,
                    e.session_id@,
                ))
            },
    {
        let ghost m = self@;
        let info = match self.pid_map.remove(&pid) {
            Some(info) => info,
            None => {
                proof {
                    assert(m.procs.remove(pid) =~= m.procs);
                    assert(self@.procs =~= m.procs);
                    assert(self@.ttys =~= m.ttys);
                }
                return None;
            },
        };
        proof {
            assert(self@.procs =~= m.procs.remove(pid));
        }
        let in_use = self.any_in_session(&info.session_id);
        let session_complete = info.tty_nr == 0 && !in_use;
        Some(ExitInfo { session_id: info.session_id, session_complete })
    }

    /// Whether some tracked process belongs to session `sid`.
    fn any_in_session(&self, sid: &SessionId) -> (r: bool)
        ensures
            r == session_in_use(self@.procs, sid@),
    {
        let ghost all = IteratorSpec::remaining(&vstd::std_specs::hash::spec_hash_map_iter(&self.pid_map));
        for (_k, v) in it: self.pid_map.iter()
            invariant
                it.seq() == all,
                all == IteratorSpec::remaining(&vstd::std_specs::hash::spec_hash_map_iter(&self.pid_map)),
                forall|j: int| 0 <= j < it.index() ==> (#[trigger] all[j]).1.session_id@ != sid@,
        {
            if v.session_id.same_as(sid) {
                proof {
                    let j = it.index();
                    let q = *all[j].0;
                    assert(self.pid_map@.contains_key(q) && self.pid_map@[q] == *all[j].1);
                    assert(self@.procs.contains_key(q) && self@.procs[q].session == sid@);
                }
                return true;
            }
        }
        proof {
            assert forall|q: u32| #[trigger] self@.procs.contains_key(q) implies self@.procs[q].session
                != sid@ by {
                assert(self.pid_map@.contains_key(q));
                assert(all.contains((&q, &self.pid_map@[q])));
                let j = choose|j: int| 0 <= j < all.len() && all[j] == (&q, &self.pid_map@[q]);
                assert(all[j].1.session_id@ != sid@);
            }
        }
        false
    }

    /// Walk the ppid chain and return the comm of each known ancestor,
    /// parent first, up to 32 levels.
    pub fn ancestor_comms(&self, pid: u32) -> (r: Vec<String>)
        ensures
            views(r@) == ancestors(self@.procs, pid, 32),
    {
        let mut comms: Vec<String> = Vec::new();
        let mut current = pid;
        let mut steps: usize = 0;
        while steps < 32
            invariant_except_break
                steps <= 32,
                views(comms@) + ancestors(self@.procs, current, (32 - steps) as nat) == ancestors(
                    self@.procs,
                    pid,
                    32,
                ),
            ensures
                views(comms@) == ancestors(self@.procs, pid, 32),
            decreases 32 - steps,
        {
            let ghost procs = self@.procs;
            let ghost before = views(comms@);
            let info = match self.pid_map.get(&current) {
                Some(info) => info,
                None => {
                    assert(views(comms@) =~= views(comms@) + Seq::<Seq<char>>::empty());
                    break ;
                },
            };
            if info.ppid == current {
                assert(views(comms@) =~= views(comms@) + Seq::<Seq<char>>::empty());
                break ;
            }
            let next = info.ppid;
            match self.pid_map.get(&next) {
                Some(parent) => {
                    comms.push(parent.comm.clone());
                    proof {
                        assert(views(comms@) =~= before.push(procs[next].comm));
                        assert(ancestors(procs, current, (32 - steps) as nat) == seq![
                            procs[next].comm,
                        ] + ancestors(procs, next, (32 - steps - 1) as nat));
                        assert(before + ancestors(procs, current, (32 - steps) as nat) =~= views(
                            comms@,
                        ) + ancestors(procs, next, (32 - steps - 1) as nat));
                    }
                    current = next;
                },
                None => {
                    assert(views(comms@) =~= views(comms@) + Seq::<Seq<char>>::empty());
                    break ;
                },
            }
            steps = steps + 1;
        }
        proof {
            if steps == 32 {
                assert(views(comms@) =~= views(comms@) + Seq::<Seq<char>>::empty());
            }
        }
        comms
    }

    /// A correlator that tracks no process yet.
    pub fn new() -> (r: Self)
        ensures
            r@.procs == Map::<u32, ProcModel>::empty(),
            r@.ttys == Map::<u32, Seq<char>>::empty(),
    {
        Self::default()
    }

    /// Number of tracked processes (for testing/diagnostics).
    pub fn tracked_count(&self) -> (r: usize)
        ensures
            r == self@.procs.len(),
    {
        proof {
            assert(self@.procs.dom() =~= self.pid_map@.dom());
        }
        self.pid_map.len()
    }

    /// Number of active TTY session entries (for testing/diagnostics).
    pub fn tty_session_count(&self) -> (r: usize)
        ensures
            r == self@.ttys.len(),
    {
        proof {
            assert(self@.ttys.dom() =~= self.tty_sessions@.dom());
        }
        self.tty_sessions.len()
    }

    /// The entry of a tracked process (for testing/diagnostics).
    pub fn process(&self, pid: u32) -> (r: Option<&ProcessInfo>)
        ensures
            r is Some <==> self@.procs.contains_key(pid),
            r matches Some(p) ==> proc_model(*p) == self@.procs[pid],
    {
        self.pid_map.get(&pid)
    }
}

impl ProcessInfo {
    /// The session of this process.
    pub fn session_id_ref(&self) -> (r: &SessionId)
        ensures
            r@ == self.session_id@,
    {
        &self.session_id
    }
}

/// Processes on the same PTY share a session: after a first untracked
/// process on a terminal is recorded, a second untracked process on the same
/// terminal gets the same session.
pub proof fn law_pty_processes_share_session(
    m0: CorrelatorModel,
    a: InfoModel,
    s1: Seq<char>,
    m1: CorrelatorModel,
    b: InfoModel,
    s2: Seq<char>,
    m2: CorrelatorModel,
)
    requires
        exec_step(m0, a, s1, m1),
        exec_step(m1, b, s2, m2),
        !m0.procs.contains_key(a.pid),
        !m1.procs.contains_key(b.pid),
        a.tty_nr != 0,
        a.tty_nr == b.tty_nr,
    ensures
        s1 == s2,
{
}

/// A child with no PTY inherits the session of its tracked parent.
pub proof fn law_child_inherits_parent_session(
    m: CorrelatorModel,
    i: InfoModel,
    sid: Seq<char>,
    n: CorrelatorModel,
)
    requires
        exec_step(m, i, sid, n) || lookup_step(m, i, sid, n),
        !m.procs.contains_key(i.pid),
        i.tty_nr == 0,
        m.procs.contains_key(i.ppid),
    ensures
        sid == m.procs[i.ppid].session,
{
}

/// A re-exec keeps the session of the process.
pub proof fn law_reexec_keeps_session(m: CorrelatorModel, i: InfoModel, sid: Seq<char>, n: CorrelatorModel)
    requires
        exec_step(m, i, sid, n),
        m.procs.contains_key(i.pid),
    ensures
        sid == m.procs[i.pid].session,
        n.procs[i.pid].session == sid,
        n.ttys == m.ttys,
{
}

/// Every session the correlator hands out for an untracked process without
/// a known TTY session or parent is a fresh, well-formed identifier; TTY
/// sessions once created are kept.
pub proof fn law_new_sessions_are_valid(m: CorrelatorModel, i: InfoModel, sid: Seq<char>, n: CorrelatorModel)
    requires
        exec_step(m, i, sid, n) || lookup_step(m, i, sid, n),
        !m.procs.contains_key(i.pid),
        !(i.tty_nr != 0 && m.ttys.contains_key(i.tty_nr)),
        !(i.tty_nr == 0 && m.procs.contains_key(i.ppid)),
    ensures
        fresh_session_id(sid),
        valid_session_id(sid),
        forall|t: u32| m.ttys.contains_key(t) ==> n.ttys.contains_key(t) && n.ttys[t] == m.ttys[t],
{
    lemma_fresh_is_valid(sid);
}

/// The effect of an exit event: the process is forgotten, TTY sessions are
/// kept.
pub open spec fn exit_step(m: CorrelatorModel, pid: u32, n: CorrelatorModel) -> bool {
    n.procs == m.procs.remove(pid) && n.ttys == m.ttys
}

/// Whether every session the correlator holds is a well-formed identifier.
pub open spec fn sessions_valid(m: CorrelatorModel) -> bool {
    &&& forall|q: u32| m.procs.contains_key(q) ==> valid_session_id(#[trigger] m.procs[q].session)
    &&& forall|t: u32| m.ttys.contains_key(t) ==> valid_session_id(#[trigger] m.ttys[t])
}

/// The correlator only ever holds and hands out well-formed session IDs:
/// starting from the empty state, exec, I/O and exit events keep every
/// session valid, and the session an event is assigned is valid.
pub proof fn law_sessions_stay_valid(m: CorrelatorModel, i: InfoModel, sid: Seq<char>, n: CorrelatorModel, pid: u32, e: CorrelatorModel)
    requires
        sessions_valid(m),
        exec_step(m, i, sid, n) || lookup_step(m, i, sid, n),
        exit_step(n, pid, e),
    ensures
        valid_session_id(sid),
        sessions_valid(n),
        sessions_valid(e),
        sessions_valid(CorrelatorModel { procs: Map::empty(), ttys: Map::empty() }),
{
    if m.procs.contains_key(i.pid) {
        assert(valid_session_id(m.procs[i.pid].session));
    } else if i.tty_nr != 0 && m.ttys.contains_key(i.tty_nr) {
        assert(valid_session_id(m.ttys[i.tty_nr]));
    } else if i.tty_nr == 0 && m.procs.contains_key(i.ppid) {
        assert(valid_session_id(m.procs[i.ppid].session));
    }
    assert(valid_session_id(sid));
    assert forall|q: u32| n.procs.contains_key(q) implies valid_session_id(#[trigger] n.procs[q].session) by {
        if q != i.pid {
            assert(m.procs.contains_key(q));
        }
    }
    assert forall|t: u32| n.ttys.contains_key(t) implies valid_session_id(#[trigger] n.ttys[t]) by {
        if !m.ttys.contains_key(t) {
            assert(t == i.tty_nr);
        }
    }
    assert forall|q: u32| e.procs.contains_key(q) implies valid_session_id(#[trigger] e.procs[q].session) by {
        assert(n.procs.contains_key(q));
    }
}

/// A PTY session survives the gap between commands: when the last process
/// on a terminal exits and a new untracked process appears on the same
/// terminal, it gets the session of the first.
pub proof fn law_pty_session_survives_gap(
    m0: CorrelatorModel,
    a: InfoModel,
    s1: Seq<char>,
    m1: CorrelatorModel,
    m2: CorrelatorModel,
    b: InfoModel,
    s2: Seq<char>,
    m3: CorrelatorModel,
)
    requires
        exec_step(m0, a, s1, m1),
        !m0.procs.contains_key(a.pid),
        exit_step(m1, a.pid, m2),
        exec_step(m2, b, s2, m3) || lookup_step(m2, b, s2, m3),
        !m2.procs.contains_key(b.pid),
        a.tty_nr != 0,
        b.tty_nr == a.tty_nr,
    ensures
        s2 == s1,
{
}

/// Whether `n` follows `m` by one event: an exec, a lookup for I/O or an
/// exit, whatever the process.
pub open spec fn correlator_step(m: CorrelatorModel, n: CorrelatorModel) -> bool {
    ||| exists|i: InfoModel, sid: Seq<char>| #[trigger] exec_step(m, i, sid, n)
    ||| exists|i: InfoModel, sid: Seq<char>| #[trigger] lookup_step(m, i, sid, n)
    ||| exists|pid: u32| #[trigger] exit_step(m, pid, n)
}

/// Whether each model of `trace` follows the one before by one event.
pub open spec fn is_trace(trace: Seq<CorrelatorModel>) -> bool {
    forall|k: int| 0 <= k < trace.len() - 1 ==> correlator_step(#[trigger] trace[k], trace[k + 1])
}

/// A terminal's session is never replaced or dropped: along any sequence of
/// exec, I/O and exit events, every TTY session recorded at the start is
/// still recorded, unchanged, at the end, even after all processes on that
/// terminal have exited.
pub proof fn law_tty_sessions_persist(trace: Seq<CorrelatorModel>)
    requires
        trace.len() > 0,
        is_trace(trace),
    ensures
        forall|t: u32|
            trace[0].ttys.contains_key(t) ==> #[trigger] trace.last().ttys.contains_key(t)
                && trace.last().ttys[t] == trace[0].ttys[t],
    decreases trace.len(),
{
    if trace.len() > 1 {
        let init = trace.drop_last();
        assert forall|k: int| 0 <= k < init.len() - 1 implies correlator_step(#[trigger] init[k], init[k + 1]) by {
            assert(init[k] == trace[k] && init[k + 1] == trace[k + 1]);
        }
        law_tty_sessions_persist(init);
        let m = init.last();
        let n = trace.last();
        assert(correlator_step(trace[trace.len() - 2], trace[trace.len() - 1]));
        assert(m == trace[trace.len() - 2]);
        assert forall|t: u32| m.ttys.contains_key(t) implies n.ttys.contains_key(t) && n.ttys[t] == m.ttys[t] by {
            if exists|i: InfoModel, sid: Seq<char>| #[trigger] exec_step(m, i, sid, n) {
                let (i, sid) = choose|i: InfoModel, sid: Seq<char>| #[trigger] exec_step(m, i, sid, n);
                if !m.procs.contains_key(i.pid) && i.tty_nr != 0 && !m.ttys.contains_key(i.tty_nr) {
                    assert(t != i.tty_nr);
                }
            } else if exists|i: InfoModel, sid: Seq<char>| #[trigger] lookup_step(m, i, sid, n) {
                let (i, sid) = choose|i: InfoModel, sid: Seq<char>| #[trigger] lookup_step(m, i, sid, n);
                if !m.procs.contains_key(i.pid) && i.tty_nr != 0 && !m.ttys.contains_key(i.tty_nr) {
                    assert(t != i.tty_nr);
                }
            }
        }
    }
}

/// Once a terminal has a session, every later untracked process on that
/// terminal joins it, however many events came between (exits of every
/// process on the terminal included).
pub proof fn law_tty_session_for_later_calls(
    trace: Seq<CorrelatorModel>,
    i: InfoModel,
    sid: Seq<char>,
    n: CorrelatorModel,
)
    requires
        trace.len() > 0,
        is_trace(trace),
        i.tty_nr != 0,
        trace[0].ttys.contains_key(i.tty_nr),
        exec_step(trace.last(), i, sid, n) || lookup_step(trace.last(), i, sid, n),
        !trace.last().procs.contains_key(i.pid),
    ensures
        sid == trace[0].ttys[i.tty_nr],
        n.procs[i.pid].session == sid,
{
    law_tty_sessions_persist(trace);
    assert(trace.last().ttys.contains_key(i.tty_nr));
}

/// The first process seen on a terminal fixes that terminal's session for
/// good: when it has no session yet, the one it gets is fresh, and every
/// later untracked process on the terminal, after any events in between
/// (exits of every process on the terminal included), gets that same one.
pub proof fn law_first_tty_session_is_kept(
    m0: CorrelatorModel,
    a: InfoModel,
    s1: Seq<char>,
    trace: Seq<CorrelatorModel>,
    b: InfoModel,
    s2: Seq<char>,
    n: CorrelatorModel,
)
    requires
        trace.len() > 0,
        exec_step(m0, a, s1, trace[0]) || lookup_step(m0, a, s1, trace[0]),
        !m0.procs.contains_key(a.pid),
        a.tty_nr != 0,
        is_trace(trace),
        b.tty_nr == a.tty_nr,
        exec_step(trace.last(), b, s2, n) || lookup_step(trace.last(), b, s2, n),
        !trace.last().procs.contains_key(b.pid),
    ensures
        !m0.ttys.contains_key(a.tty_nr) ==> fresh_session_id(s1),
        s2 == s1,
{
    assert(trace[0].ttys.contains_key(a.tty_nr) && trace[0].ttys[a.tty_nr] == s1);
    law_tty_session_for_later_calls(trace, b, s2, n);
}

} // verus!
