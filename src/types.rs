//! The event data model: source identities, levels, timestamps and raw events.

use vstd::prelude::*;

verus! {

/// A wall-clock instant: whole seconds and nanoseconds since the Unix epoch.
#[derive(Clone, Copy, Debug, PartialEq, Eq, Structural)]
pub struct Timestamp {
    pub secs: u64,
    pub nanos: u32,
}

impl Timestamp {
    pub open spec fn wf(&self) -> bool {
        self.nanos < 1_000_000_000
    }
}

/// Relies on `SystemTime::now` and `SystemTime::duration_since(UNIX_EPOCH)`:
/// the sub-second part of a `Duration` is below one second. A clock set
/// before the epoch reads as the epoch itself.
#[verifier::external_body]
pub(crate) fn now() -> (r: Timestamp)
    ensures
        r.wf(),
{
    match std::time::SystemTime::now().duration_since(std::time::UNIX_EPOCH) {
        Ok(d) => Timestamp { secs: d.as_secs(), nanos: d.subsec_nanos() },
        Err(_) => Timestamp { secs: 0, nanos: 0 },
    }
}

/// The identity of one source: its path, and the alias it is shown under.
#[derive(Clone, Debug, PartialEq, Eq, Hash)]
pub struct SourceId {
    pub port: String,
    pub alias: Option<String>,
}

/// The label of a source: its alias where it has one, else its path.
pub open spec fn label_of(port: Seq<char>, alias: Option<String>) -> Seq<char> {
    match alias {
        Some(a) => a@,
        None => port,
    }
}

impl SourceId {
    pub fn label(&self) -> (r: String)
        ensures
            r@ == label_of(self.port@, self.alias),
    {
        match &self.alias {
            Some(s) => s.clone(),
            None => self.port.clone(),
        }
    }

    /// A copy of this identity.
    pub fn duplicate(&self) -> (r: SourceId)
        ensures
            r == *self,
    {
        let alias = match &self.alias {
            Some(a) => Some(a.clone()),
            None => None,
        };
        SourceId { port: self.port.clone(), alias }
    }
}

#[derive(Clone, Copy, Debug, PartialEq, Eq, Structural)]
pub enum LogLevel {
    Trace,
    Debug,
    Info,
    Warn,
    Error,
}

/// An event as a source, or the pipeline itself, produces it.
#[derive(Clone, Debug)]
pub enum AppEvent {
    LogLine { source: SourceId, ts: Timestamp, raw: String },
    System { level: LogLevel, message: String },
}

impl AppEvent {
    /// A notice of level `level` whose text is `text`.
    pub open spec fn is_notice(&self, level: LogLevel, text: Seq<char>) -> bool {
        match self {
            AppEvent::System { level: l, message } => l == level && message@ == text,
            _ => false,
        }
    }

    /// A line of `source`, captured at `ts`, whose text is `text`.
    pub open spec fn is_line(&self, source: SourceId, ts: Timestamp, text: Seq<char>) -> bool {
        match self {
            AppEvent::LogLine { source: s, ts: t, raw } => s == source && t == ts && raw@ == text,
            _ => false,
        }
    }
}

} // verus!
