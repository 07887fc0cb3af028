//! Server-sent weather events: their kinds and the per-client type filter.
use vstd::prelude::*;
use crate::text::{
    lemma_split_head, lemma_split_none, lemma_trim_plain, opt_string, owned, split_by, split_on,
    str_eq, trim_space, trim_str,
};

verus! {

/// The kinds of event streamed to clients.
#[derive(Clone, Copy, Debug, PartialEq, Eq, Structural)]
pub enum EventKind {
    /// A new model run has been detected.
    ModelRun,
    /// A new NWS alert has been issued.
    Alert,
    /// A new radar volume scan is available.
    Radar,
    /// Periodic keep-alive with connection stats.
    Heartbeat,
}

impl EventKind {
    /// The SSE event name of this kind.
    pub open spec fn name(self) -> Seq<char> {
        match self {
            EventKind::ModelRun => "model_run"@,
            EventKind::Alert => "alert"@,
            EventKind::Radar => "radar"@,
            EventKind::Heartbeat => "heartbeat"@,
        }
    }

    /// Returns the SSE event name for this kind.
    pub fn event_type(&self) -> (r: &'static str)
        ensures
            r@ == self.name(),
    {
        match self {
            EventKind::ModelRun => "model_run",
            EventKind::Alert => "alert",
            EventKind::Radar => "radar",
            EventKind::Heartbeat => "heartbeat",
        }
    }
}

/// Query parameters for the events endpoint.
#[derive(Debug)]
pub struct EventFilter {
    /// Comma-separated event types to receive: `model_run`, `alert`, `radar`,
    /// `heartbeat`, or `all`. Defaults to all types if omitted.
    pub types: Option<String>,
}

/// The type list used when a client names none.
pub open spec fn default_types() -> Seq<char> {
    "model_run,alert,radar,heartbeat"@
}

/// The event types a filter lets through: its comma-separated entries,
/// trimmed of white space.
pub open spec fn allowed(types: Option<Seq<char>>) -> Seq<Seq<char>> {
    let list = match types {
        Some(t) => t,
        None => default_types(),
    };
    split_on(list, ',').map_values(|p: Seq<char>| trim_space(p))
}

/// Whether an event named `etype` passes a filter allowing `allowed`: it
/// is listed, or "all" is.
pub open spec fn passes(allowed: Seq<Seq<char>>, etype: Seq<char>) -> bool {
    exists|i: int| 0 <= i < allowed.len() && (allowed[i] == etype || allowed[i] == "all"@)
}

impl EventFilter {
    /// The event types this filter lets through.
    pub fn allowed_types(&self) -> (r: Vec<String>)
        ensures
            r@.len() == allowed(opt_string(self.types)).len(),
            forall|i: int|
                0 <= i < r@.len() ==> (#[trigger] r@[i])@ == allowed(opt_string(self.types))[i],
    {
        let list: String = match &self.types {
            Some(t) => t.clone(),
            None => owned("model_run,alert,radar,heartbeat"),
        };
        let parts = split_by(list.as_str(), ',');
        let mut out: Vec<String> = Vec::new();
        let mut i: usize = 0;
        while i < parts.len()
            invariant
                i <= parts.len(),
                out@.len() == i,
                forall|j: int| 0 <= j < i ==> (#[trigger] out@[j])@ == trim_space(parts@[j]@),
            decreases parts.len() - i,
        {
            out.push(trim_str(parts[i].as_str()));
            i += 1;
        }
        out
    }
}

/// Whether an event named `etype` passes a filter allowing `allowed`.
pub fn event_allowed(allowed: &Vec<String>, etype: &str) -> (r: bool)
    ensures
        r == exists|i: int|
            0 <= i < allowed@.len() && ((#[trigger] allowed@[i])@ == etype@ || allowed@[i]@ == "all"@),
{
    let mut i: usize = 0;
    while i < allowed.len()
        invariant
            i <= allowed.len(),
            forall|j: int|
                0 <= j < i ==> !((#[trigger] allowed@[j])@ == etype@ || allowed@[j]@ == "all"@),
        decreases allowed.len() - i,
    {
        if str_eq(allowed[i].as_str(), etype) || str_eq(allowed[i].as_str(), "all") {
            return true;
        }
        i += 1;
    }
    false
}

} // verus!

verus! {

/// A client that names no event types receives every kind of event.
pub proof fn law_default_filter_passes_every_kind(k: EventKind)
    ensures
        passes(allowed(None), k.name()),
{
    reveal_strlit("model_run,alert,radar,heartbeat");
    reveal_strlit("model_run");
    reveal_strlit("alert");
    reveal_strlit("radar");
    reveal_strlit("heartbeat");
    let m = "model_run"@;
    let a = "alert"@;
    let r = "radar"@;
    let h = "heartbeat"@;
    assert(default_types() =~= m + seq![','] + (a + seq![','] + (r + seq![','] + h)));
    lemma_split_head(m, a + seq![','] + (r + seq![','] + h), ',');
    lemma_split_head(a, r + seq![','] + h, ',');
    lemma_split_head(r, h, ',');
    lemma_split_none(h, ',');
    let parts = split_on(default_types(), ',');
    assert(parts =~= seq![m, a, r, h]);
    lemma_trim_plain(m);
    lemma_trim_plain(a);
    lemma_trim_plain(r);
    lemma_trim_plain(h);
    let al = allowed(None);
    assert(al[0] == m && al[1] == a && al[2] == r && al[3] == h);
    match k {
        EventKind::ModelRun => assert(al[0] == k.name()),
        EventKind::Alert => assert(al[1] == k.name()),
        EventKind::Radar => assert(al[2] == k.name()),
        EventKind::Heartbeat => assert(al[3] == k.name()),
    }
}

} // verus!
