//! The decisions of a source reader: connect, read and frame, back off,
//! and stop on shutdown. The caller performs each action and reports back
//! what came of it.

use vstd::prelude::*;
use crate::framing::{framed_lines, remainder, Framer, MAX_ACC_BYTES};
use crate::port_spec::ResolvedPortSpec;
use crate::text::{decimal, decimal_string};
use crate::types::{label_of, AppEvent, LogLevel, SourceId, Timestamp};

verus! {

/// The kinds of read error that tell the reader apart.
#[derive(Clone, Copy, Debug, PartialEq, Eq, Structural)]
pub enum ReadErrorKind {
    TimedOut,
    WouldBlock,
    Interrupted,
    Other,
}

pub open spec fn transient(kind: ReadErrorKind) -> bool {
    kind == ReadErrorKind::TimedOut || kind == ReadErrorKind::WouldBlock || kind
        == ReadErrorKind::Interrupted
}

/// A read error that is retried on the same connection.
pub fn is_transient_read_error(kind: ReadErrorKind) -> (r: bool)
    ensures
        r == transient(kind),
{
    match kind {
        ReadErrorKind::TimedOut | ReadErrorKind::WouldBlock | ReadErrorKind::Interrupted => true,
        ReadErrorKind::Other => false,
    }
}

#[derive(Clone, Copy, Debug, PartialEq, Eq, Structural)]
pub enum ReaderPhase {
    Connecting,
    Connected,
    Backoff,
    Terminated,
}

/// What the caller does next: open the stream, read from it, wait the
/// reconnect delay, or stop.
#[derive(Clone, Copy, Debug, PartialEq, Eq, Structural)]
pub enum ReaderAction {
    Open,
    Read,
    Wait,
    Exit,
}

/// What came of an action, or what happened meanwhile.
#[derive(Clone, Debug)]
pub enum ReaderEvent {
    Opened,
    OpenFailed { cause: String },
    Data { bytes: Vec<u8>, at: Timestamp },
    EndOfStream,
    ReadFailed { kind: ReadErrorKind, cause: String },
    DelayElapsed,
    Shutdown,
    DownstreamClosed,
}

/// The events to deliver, in order, and the next action.
pub struct ReaderStep {
    pub events: Vec<AppEvent>,
    pub action: ReaderAction,
}

pub open spec fn action_of(p: ReaderPhase) -> ReaderAction {
    match p {
        ReaderPhase::Connecting => ReaderAction::Open,
        ReaderPhase::Connected => ReaderAction::Read,
        ReaderPhase::Backoff => ReaderAction::Wait,
        ReaderPhase::Terminated => ReaderAction::Exit,
    }
}

/// The phase after event `e` in phase `p`. Shutdown, or a downstream that is
/// gone, ends the reader from any phase; an ended reader stays so. An event
/// that does not belong to the phase changes nothing.
pub open spec fn next_phase(p: ReaderPhase, e: ReaderEvent) -> ReaderPhase {
    if p == ReaderPhase::Terminated || e is Shutdown || e is DownstreamClosed {
        ReaderPhase::Terminated
    } else if p == ReaderPhase::Connecting && e is Opened {
        ReaderPhase::Connected
    } else if p == ReaderPhase::Connecting && e is OpenFailed {
        ReaderPhase::Backoff
    } else if p == ReaderPhase::Connected && e is EndOfStream {
        ReaderPhase::Backoff
    } else if p == ReaderPhase::Connected && e is ReadFailed && !transient(e->ReadFailed_kind) {
        ReaderPhase::Backoff
    } else if p == ReaderPhase::Backoff && e is DelayElapsed {
        ReaderPhase::Connecting
    } else {
        p
    }
}

/// The phase after the events `es`, in order, from phase `p`.
pub open spec fn phase_after(p: ReaderPhase, es: Seq<ReaderEvent>) -> ReaderPhase
    decreases es.len(),
{
    if es.len() == 0 {
        p
    } else {
        next_phase(phase_after(p, es.drop_last()), es.last())
    }
}

/// Shutdown ends a reader from any phase, waiting or reading included, and
/// whatever follows, the reader stays ended: it opens no connection and
/// (by `step`) delivers no event.
pub proof fn lemma_shutdown_final(p: ReaderPhase, es: Seq<ReaderEvent>)
    ensures
        next_phase(p, ReaderEvent::Shutdown) == ReaderPhase::Terminated,
        phase_after(ReaderPhase::Terminated, es) == ReaderPhase::Terminated,
        action_of(phase_after(next_phase(p, ReaderEvent::Shutdown), es)) == ReaderAction::Exit,
    decreases es.len(),
{
    if es.len() > 0 {
        lemma_shutdown_final(p, es.drop_last());
    }
}

pub open spec fn connected_text(path: Seq<char>, baud: u32) -> Seq<char> {
    "connected: "@ + path + " @ "@ + decimal(baud as nat)
}

pub open spec fn open_failed_text(path: Seq<char>, baud: u32, cause: Seq<char>) -> Seq<char> {
    "serial open failed ("@ + path + " @ "@ + decimal(baud as nat) + "): "@ + cause
}

pub open spec fn overflow_text(label: Seq<char>) -> Seq<char> {
    "serial buffer overflow on "@ + label + " (>"@ + decimal(MAX_ACC_BYTES as nat)
        + " bytes): dropping partial line"@
}

pub open spec fn eof_text() -> Seq<char> {
    "serial EOF"@
}

pub open spec fn read_failed_text(cause: Seq<char>) -> Seq<char> {
    "serial read failed: "@ + cause
}

/// One source: its descriptor, its identity, its phase and its line buffer.
pub struct SourceReader {
    spec: ResolvedPortSpec,
    source: SourceId,
    phase: ReaderPhase,
    framer: Framer,
}

fn notice(level: LogLevel, message: String) -> (r: Vec<AppEvent>)
    ensures
        r@.len() == 1,
        r@[0].is_notice(level, message@),
{
    let mut v: Vec<AppEvent> = Vec::new();
    v.push(AppEvent::System { level, message });
    v
}

fn path_at_baud(prefix: &str, path: &String, baud: u32) -> (r: String)
    ensures
        r@ == prefix@ + path@ + " @ "@ + decimal(baud as nat),
{
    let mut s = String::from_str(prefix);
    s.append(path.as_str());
    s.append(" @ ");
    let d = decimal_string(baud as u64);
    s.append(d.as_str());
    s
}

impl SourceReader {
    pub closed spec fn phase_spec(&self) -> ReaderPhase {
        self.phase
    }

    pub closed spec fn buffer(&self) -> Seq<u8> {
        self.framer@
    }

    pub closed spec fn source_spec(&self) -> SourceId {
        self.source
    }

    pub closed spec fn descriptor(&self) -> ResolvedPortSpec {
        self.spec
    }

    pub closed spec fn wf(&self) -> bool {
        self.framer.wf()
    }

    /// A reader for `spec`, about to open it.
    pub fn new(spec: ResolvedPortSpec) -> (r: SourceReader)
        ensures
            r.wf(),
            r.phase_spec() == ReaderPhase::Connecting,
            r.descriptor() == spec,
            r.source_spec().port == spec.path,
            r.source_spec().alias == spec.alias,
            r.buffer() == Seq::<u8>::empty(),
    {
        let alias = match &spec.alias {
            Some(a) => Some(a.clone()),
            None => None,
        };
        let source = SourceId { port: spec.path.clone(), alias };
        SourceReader { spec, source, phase: ReaderPhase::Connecting, framer: Framer::new() }
    }

    pub fn phase(&self) -> (r: ReaderPhase)
        ensures
            r == self.phase_spec(),
    {
        self.phase
    }

    /// The action the caller performs next.
    pub fn action(&self) -> (r: ReaderAction)
        ensures
            r == action_of(self.phase_spec()),
    {
        match self.phase {
            ReaderPhase::Connecting => ReaderAction::Open,
            ReaderPhase::Connected => ReaderAction::Read,
            ReaderPhase::Backoff => ReaderAction::Wait,
            ReaderPhase::Terminated => ReaderAction::Exit,
        }
    }

    fn frame(&mut self, bytes: &Vec<u8>, at: Timestamp) -> (r: Vec<AppEvent>)
        requires
            old(self).wf(),
        ensures
            final(self).wf(),
            final(self).phase == old(self).phase,
            final(self).spec == old(self).spec,
            final(self).source == old(self).source,
            ({
                let joined = old(self).buffer() + bytes@;
                let lines = framed_lines(joined);
                let over = remainder(joined).len() > MAX_ACC_BYTES;
                &&& r@.len() == lines.len() + if over { 1int } else { 0int }
                &&& forall|i: int|
                    0 <= i < lines.len() ==> (#[trigger] r@[i]).is_line(
                        old(self).source,
                        at,
                        lines[i],
                    )
                &&& over ==> r@[lines.len() as int].is_notice(
                    LogLevel::Warn,
                    overflow_text(label_of(old(self).source.port@, old(self).source.alias)),
                )
                &&& over ==> final(self).buffer() == Seq::<u8>::empty()
                &&& !over ==> final(self).buffer() == remainder(joined)
            }),
    {
        let frames = self.framer.push(bytes.as_slice());
        let mut events: Vec<AppEvent> = Vec::new();
        let lines = frames.lines;
        let ghost texts = framed_lines(old(self).buffer() + bytes@);
        assert(lines@.len() == texts.len() && forall|i: int|
            0 <= i < texts.len() ==> lines@[i]@ == #[trigger] texts[i]) by {
            assert forall|i: int| 0 <= i < texts.len() implies lines@[i]@ == #[trigger] texts[i] by {
                assert(crate::framing::texts(lines@)[i] == lines@[i]@);
            }
        }
        let mut i: usize = 0;
        while i < lines.len()
            invariant
                i <= lines@.len(),
                lines@.len() == texts.len(),
                forall|j: int| 0 <= j < texts.len() ==> lines@[j]@ == #[trigger] texts[j],
                events@.len() == i,
                forall|j: int| 0 <= j < i ==> (#[trigger] events@[j]).is_line(self.source, at, texts[j]),
            decreases lines@.len() - i,
        {
            let source = self.source.duplicate();
            events.push(AppEvent::LogLine { source, ts: at, raw: lines[i].clone() });
            i = i + 1;
        }
        if frames.overflowed {
            let mut m = String::from_str("serial buffer overflow on ");
            let label = self.source.label();
            m.append(label.as_str());
            m.append(" (>");
            let d = decimal_string(MAX_ACC_BYTES as u64);
            m.append(d.as_str());
            m.append(" bytes): dropping partial line");
            events.push(AppEvent::System { level: LogLevel::Warn, message: m });
        }
        events
    }

    /// Takes in what came of the last action and decides the next one.
    pub fn step(&mut self, event: ReaderEvent) -> (r: ReaderStep)
        requires
            old(self).wf(),
        ensures
            final(self).wf(),
            final(self).phase_spec() == next_phase(old(self).phase_spec(), event),
            r.action == action_of(final(self).phase_spec()),
            final(self).descriptor() == old(self).descriptor(),
            final(self).source_spec() == old(self).source_spec(),
            ({
                let p = old(self).phase_spec();
                let path = old(self).descriptor().path@;
                let baud = old(self).descriptor().baud;
                let live = p != ReaderPhase::Terminated && !(event is Shutdown)
                    && !(event is DownstreamClosed);
                &&& !live ==> r.events@.len() == 0
                &&& live && p == ReaderPhase::Connecting && event is Opened ==> r.events@.len() == 1
                    && r.events@[0].is_notice(LogLevel::Info, connected_text(path, baud))
                    && final(self).buffer() == Seq::<u8>::empty()
                &&& live && p == ReaderPhase::Connecting && event is OpenFailed ==> r.events@.len()
                    == 1 && r.events@[0].is_notice(
                    LogLevel::Warn,
                    open_failed_text(path, baud, event->OpenFailed_cause@),
                )
                &&& live && p == ReaderPhase::Connected && event is Data ==> ({
                    let joined = old(self).buffer() + event->Data_bytes@;
                    let src = old(self).source_spec();
                    let lines = framed_lines(joined);
                    let over = remainder(joined).len() > MAX_ACC_BYTES;
                    &&& r.events@.len() == lines.len() + if over { 1int } else { 0int }
                    &&& forall|i: int|
                        0 <= i < lines.len() ==> (#[trigger] r.events@[i]).is_line(
                            src,
                            event->Data_at,
                            lines[i],
                        )
                    &&& over ==> r.events@[lines.len() as int].is_notice(
                        LogLevel::Warn,
                        overflow_text(label_of(src.port@, src.alias)),
                    )
                    &&& over ==> final(self).buffer() == Seq::<u8>::empty()
                    &&& !over ==> final(self).buffer() == remainder(joined)
                })
                &&& live && p == ReaderPhase::Connected && event is EndOfStream ==> r.events@.len()
                    == 1 && r.events@[0].is_notice(LogLevel::Warn, eof_text())
                &&& live && p == ReaderPhase::Connected && event is ReadFailed ==> if transient(
                    event->ReadFailed_kind,
                ) {
                    r.events@.len() == 0
                } else {
                    r.events@.len() == 1 && r.events@[0].is_notice(
                        LogLevel::Error,
                        read_failed_text(event->ReadFailed_cause@),
                    )
                }
                &&& !(live && p == ReaderPhase::Connected && event is Data) && !(live && p
                    == ReaderPhase::Connecting && event is Opened) ==> final(self).buffer()
                    == old(self).buffer()
                &&& live && next_phase(p, event) == p && !(p == ReaderPhase::Connected
                    && event is Data) ==> r.events@.len() == 0
            }),
    {
        if self.phase == ReaderPhase::Terminated {
            return ReaderStep { events: Vec::new(), action: ReaderAction::Exit };
        }
        let events = match event {
            ReaderEvent::Shutdown | ReaderEvent::DownstreamClosed => {
                self.phase = ReaderPhase::Terminated;
                Vec::new()
            },
            ReaderEvent::Opened => {
                if self.phase == ReaderPhase::Connecting {
                    self.phase = ReaderPhase::Connected;
                    self.framer = Framer::new();
                    let m = path_at_baud("connected: ", &self.spec.path, self.spec.baud);
                    notice(LogLevel::Info, m)
                } else {
                    Vec::new()
                }
            },
            ReaderEvent::OpenFailed { cause } => {
                if self.phase == ReaderPhase::Connecting {
                    self.phase = ReaderPhase::Backoff;
                    let mut m = path_at_baud("serial open failed (", &self.spec.path, self.spec.baud);
                    m.append("): ");
                    m.append(cause.as_str());
                    notice(LogLevel::Warn, m)
                } else {
                    Vec::new()
                }
            },
            ReaderEvent::Data { bytes, at } => {
                if self.phase == ReaderPhase::Connected {
                    self.frame(&bytes, at)
                } else {
                    Vec::new()
                }
            },
            ReaderEvent::EndOfStream => {
                if self.phase == ReaderPhase::Connected {
                    self.phase = ReaderPhase::Backoff;
                    notice(LogLevel::Warn, String::from_str("serial EOF"))
                } else {
                    Vec::new()
                }
            },
            ReaderEvent::ReadFailed { kind, cause } => {
                if self.phase == ReaderPhase::Connected && !is_transient_read_error(kind) {
                    self.phase = ReaderPhase::Backoff;
                    let mut m = String::from_str("serial read failed: ");
                    m.append(cause.as_str());
                    notice(LogLevel::Error, m)
                } else {
                    Vec::new()
                }
            },
            ReaderEvent::DelayElapsed => {
                if self.phase == ReaderPhase::Backoff {
                    self.phase = ReaderPhase::Connecting;
                }
                Vec::new()
            },
        };
        let action = self.action();
        ReaderStep { events, action }
    }
}

} // verus!
