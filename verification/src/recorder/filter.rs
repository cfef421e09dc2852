//! Filter engine: composable event filters with OR semantics.
//!
//! When no filters are active, all events pass. When one or more filters are
//! active, an event passes if it matches **any** active filter.

use vstd::prelude::*;

use crate::text::views;

verus! {

/// Configuration for the filter engine, derived from CLI flags.
#[derive(Debug, Clone)]
pub struct FilterConfig {
    /// Only pass events from processes attached to a PTY (tty_nr != 0).
    pub filter_pty: bool,
    /// Only pass events from descendants of these process names.
    pub filter_ancestors: Vec<String>,
}

impl Default for FilterConfig {
    fn default() -> (r: Self)
        ensures
            !r.filter_pty,
            r.filter_ancestors@.len() == 0,
    {
        FilterConfig { filter_pty: false, filter_ancestors: Vec::new() }
    }
}

/// Whether no filter is active.
pub open spec fn config_is_empty(c: FilterConfig) -> bool {
    !c.filter_pty && c.filter_ancestors@.len() == 0
}

impl FilterConfig {
    /// Returns true if no filters are active (pass-all mode).
    pub fn is_empty(&self) -> (r: bool)
        ensures
            r == config_is_empty(*self),
    {
        !self.filter_pty && self.filter_ancestors.len() == 0
    }
}

/// Information about an event needed for filtering decisions.
#[derive(Debug, Clone)]
pub struct FilterInput {
    pub tty_nr: u32,
    pub comm: String,
    /// The comm values of all known ancestors, from parent to root.
    /// Populated by walking the session correlator's pid map.
    pub ancestor_comms: Vec<String>,
}

/// Whether an event of a process with terminal `tty_nr`, command `comm` and
/// known ancestor commands `ancestors` passes the filters: all events when
/// none is active, otherwise those attached to a PTY (when that filter is
/// on) or whose own command or one of whose ancestors' commands is a
/// configured name.
pub open spec fn passes_model(c: FilterConfig, tty_nr: u32, comm: Seq<char>, ancestors: Seq<Seq<char>>) -> bool {
    let names = views(c.filter_ancestors@);
    ||| config_is_empty(c)
    ||| (c.filter_pty && tty_nr != 0)
    ||| exists|k: int| 0 <= k < ancestors.len() && names.contains(#[trigger] ancestors[k])
    ||| names.contains(comm)
}

/// Whether an event passes the filters.
pub open spec fn passes(c: FilterConfig, i: FilterInput) -> bool {
    passes_model(c, i.tty_nr, i.comm@, views(i.ancestor_comms@))
}

/// Whether `name` is among `names`.
fn contains_name(names: &Vec<String>, name: &String) -> (r: bool)
    ensures
        r == views(names@).contains(name@),
{
    let mut k: usize = 0;
    while k < names.len()
        invariant
            k <= names@.len(),
            forall|j: int| 0 <= j < k ==> views(names@)[j] != name@,
        decreases names.len() - k,
    {
        if names[k] == *name {
            assert(views(names@)[k as int] == name@);
            return true;
        }
        k = k + 1;
    }
    false
}

/// Evaluate whether an event should be emitted based on active filters.
///
/// Returns `true` if the event passes the filter (should be emitted).
pub fn passes_filter(config: &FilterConfig, input: &FilterInput) -> (r: bool)
    ensures
        r == passes(*config, *input),
{
    if config.is_empty() {
        return true;
    }
    if config.filter_pty && input.tty_nr != 0 {
        return true;
    }
    let ghost names = views(config.filter_ancestors@);
    let ghost ancestors = views(input.ancestor_comms@);
    if config.filter_ancestors.len() != 0 {
        let mut k: usize = 0;
        while k < input.ancestor_comms.len()
            invariant
                k <= input.ancestor_comms@.len(),
                names == views(config.filter_ancestors@),
                ancestors == views(input.ancestor_comms@),
                forall|j: int| 0 <= j < k ==> !names.contains(#[trigger] ancestors[j]),
            decreases input.ancestor_comms.len() - k,
        {
            if contains_name(&config.filter_ancestors, &input.ancestor_comms[k]) {
                assert(ancestors[k as int] == input.ancestor_comms@[k as int]@);
                return true;
            }
            k = k + 1;
        }
        if contains_name(&config.filter_ancestors, &input.comm) {
            return true;
        }
    }
    false
}

/// With no filter active every event passes.
pub proof fn law_empty_config_passes_all(c: FilterConfig, i: FilterInput)
    requires
        config_is_empty(c),
    ensures
        passes(c, i),
{
}

/// Filters compose with OR: an event on a PTY passes whenever the PTY filter
/// is on, whatever the ancestor filter says.
pub proof fn law_pty_filter_suffices(c: FilterConfig, i: FilterInput)
    requires
        c.filter_pty,
        i.tty_nr != 0,
    ensures
        passes(c, i),
{
}

/// Filters compose with OR: an event whose own comm is a configured name
/// passes whatever the PTY filter says.
pub proof fn law_own_comm_suffices(c: FilterConfig, i: FilterInput)
    requires
        views(c.filter_ancestors@).contains(i.comm@),
    ensures
        passes(c, i),
{
}

/// Filters compose with OR: an event with a configured name among its
/// known ancestors passes whatever the PTY filter says.
pub proof fn law_ancestor_match_suffices(c: FilterConfig, i: FilterInput, k: int)
    requires
        0 <= k < i.ancestor_comms@.len(),
        views(c.filter_ancestors@).contains(i.ancestor_comms@[k]@),
    ensures
        passes(c, i),
{
    assert(views(i.ancestor_comms@)[k] == i.ancestor_comms@[k]@);
}

/// With some filter active, an event that no active filter matches is held
/// back: it is not on a PTY (or the PTY filter is off), and neither its own
/// command nor any ancestor's is a configured name.
pub proof fn law_unmatched_events_are_held_back(c: FilterConfig, i: FilterInput)
    requires
        !config_is_empty(c),
        !(c.filter_pty && i.tty_nr != 0),
        !views(c.filter_ancestors@).contains(i.comm@),
        forall|k: int|
            0 <= k < i.ancestor_comms@.len() ==> !views(c.filter_ancestors@).contains(
                #[trigger] i.ancestor_comms@[k]@,
            ),
    ensures
        !passes(c, i),
{
    let names = views(c.filter_ancestors@);
    let anc = views(i.ancestor_comms@);
    assert forall|k: int| 0 <= k < anc.len() implies !names.contains(#[trigger] anc[k]) by {
        assert(anc[k] == i.ancestor_comms@[k]@);
    }
}

} // verus!
