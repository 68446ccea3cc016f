//! The processing engine: the required/exclude filter, and publishing to the
//! fan-out queue without ever waiting, counting what a full queue refused.

use vstd::prelude::*;
use crate::processing::{processed, LogProcessor, ProcessedEvent};
use crate::text::{contains, decimal, decimal_string, has_substring, trim, trim_ws};
use crate::types::{now, AppEvent, LogLevel, Timestamp};
use tokio::sync::mpsc::Sender;

verus! {

#[verifier::external_type_specification]
#[verifier::external_body]
#[verifier::reject_recursive_types(T)]
pub struct ExSender<T>(Sender<T>);

/// What became of one attempt to hand an item to a bounded queue.
#[derive(Clone, Copy, Debug, PartialEq, Eq, Structural)]
pub enum SendOutcome {
    Sent,
    Full,
    Closed,
}

/// Relies on tokio's `Sender::is_closed`: whether the receiving half is gone.
/// Other tasks decide it, so nothing is stated of it.
#[verifier::external_body]
pub(crate) fn queue_closed<T>(tx: &Sender<T>) -> bool {
    tx.is_closed()
}

/// Relies on tokio's `Sender::try_send`: one attempt that never waits, which
/// reports a full queue or a closed one. Other tasks decide which, so
/// nothing is stated of it.
#[verifier::external_body]
pub(crate) fn offer<T>(tx: &Sender<T>, item: T) -> SendOutcome {
    match tx.try_send(item) {
        Ok(()) => SendOutcome::Sent,
        Err(tokio::sync::mpsc::error::TrySendError::Full(_)) => SendOutcome::Full,
        Err(tokio::sync::mpsc::error::TrySendError::Closed(_)) => SendOutcome::Closed,
    }
}

/// A field of a filter: trimmed, and absent where that leaves nothing.
pub open spec fn filter_field(s: Seq<char>) -> Option<Seq<char>> {
    if trim_ws(s).len() == 0 {
        None
    } else {
        Some(trim_ws(s))
    }
}

/// The strings kept of `ex`: each trimmed, empty ones dropped.
pub open spec fn kept_fields(ex: Seq<Seq<char>>) -> Seq<Seq<char>>
    decreases ex.len(),
{
    if ex.len() == 0 {
        seq![]
    } else {
        let head = kept_fields(ex.drop_last());
        match filter_field(ex.last()) {
            Some(t) => head.push(t),
            None => head,
        }
    }
}

/// A line of text `t` passes: it holds the required string, if there is one,
/// and none of the exclude strings.
pub open spec fn admits(required: Option<Seq<char>>, exclude: Seq<Seq<char>>, t: Seq<char>) -> bool {
    &&& match required {
        Some(q) => has_substring(t, q),
        None => true,
    }
    &&& forall|k: int| 0 <= k < exclude.len() ==> !has_substring(t, #[trigger] exclude[k])
}

/// The views of a sequence of strings.
pub open spec fn views(v: Seq<String>) -> Seq<Seq<char>> {
    v.map_values(|s: String| s@)
}

/// The required/exclude filter on line text.
#[derive(Clone, Debug, Default)]
pub struct LineFilter {
    required: Option<String>,
    exclude: Vec<String>,
}

impl LineFilter {
    pub closed spec fn required_text(&self) -> Option<Seq<char>> {
        match self.required {
            Some(s) => Some(s@),
            None => None,
        }
    }

    pub closed spec fn exclude_texts(&self) -> Seq<Seq<char>> {
        views(self.exclude@)
    }

    /// Builds a filter; every string is trimmed and empty ones are dropped.
    pub fn new(required: Option<String>, exclude: Vec<String>) -> (r: LineFilter)
        ensures
            r.required_text() == match required {
                Some(s) => filter_field(s@),
                None => None,
            },
            r.exclude_texts() == kept_fields(views(exclude@)),
    {
        let inc = match required {
            Some(s) => {
                let t = trim(s.as_str());
                if t.as_str().is_empty() {
                    None
                } else {
                    Some(t)
                }
            },
            None => None,
        };
        let mut kept: Vec<String> = Vec::new();
        let mut i: usize = 0;
        while i < exclude.len()
            invariant
                i <= exclude@.len(),
                views(kept@) == kept_fields(views(exclude@).subrange(0, i as int)),
            decreases exclude@.len() - i,
        {
            let ghost before = kept@;
            let t = trim(exclude[i].as_str());
            proof {
                let pre = views(exclude@).subrange(0, i + 1);
                assert(pre.drop_last() =~= views(exclude@).subrange(0, i as int));
                assert(pre.last() == exclude@[i as int]@);
            }
            if !t.as_str().is_empty() {
                kept.push(t);
                assert(views(kept@) =~= views(before).push(t@));
            } else {
                assert(views(kept@) =~= views(before));
            }
            i = i + 1;
        }
        assert(views(exclude@).subrange(0, i as int) =~= views(exclude@));
        LineFilter { required: inc, exclude: kept }
    }

    /// Whether a line with text `raw` passes.
    pub fn allows(&self, raw: &str) -> (r: bool)
        ensures
            r == admits(self.required_text(), self.exclude_texts(), raw@),
    {
        match &self.required {
            Some(inc) => {
                if !contains(raw, inc.as_str()) {
                    return false;
                }
            },
            None => {},
        }
        let mut k: usize = 0;
        while k < self.exclude.len()
            invariant
                k <= self.exclude@.len(),
                forall|j: int| 0 <= j < k ==> !has_substring(raw@, #[trigger] self.exclude_texts()[j]),
            decreases self.exclude@.len() - k,
        {
            if contains(raw, self.exclude[k].as_str()) {
                assert(self.exclude_texts()[k as int] == self.exclude@[k as int]@);
                return false;
            }
            assert(self.exclude_texts()[k as int] == self.exclude@[k as int]@);
            k = k + 1;
        }
        true
    }
}

/// An event passes the filter: every notice does; a line where its text is admitted.
pub open spec fn forwards(f: LineFilter, e: AppEvent) -> bool {
    match e {
        AppEvent::LogLine { raw, .. } => admits(f.required_text(), f.exclude_texts(), raw@),
        AppEvent::System { .. } => true,
    }
}

/// The text of the warning that `n` events were dropped.
pub open spec fn drop_warning_text(n: nat) -> Seq<char> {
    "dropped "@ + decimal(n) + " processed events (sink backpressure)"@
}

/// `e` is the notice, stamped `at`, that `n` processed events were dropped.
pub open spec fn is_drop_warning(e: ProcessedEvent, n: u64, at: Timestamp) -> bool {
    e matches ProcessedEvent::System { ts, level, message } && ts == at && level == LogLevel::Warn
        && message@ == drop_warning_text(n as nat)
}

/// The notice that `n` processed events were dropped, stamped `at`.
pub fn drop_warning(n: u64, at: Timestamp) -> (r: ProcessedEvent)
    ensures
        is_drop_warning(r, n, at),
{
    let mut m = String::from_str("dropped ");
    let d = decimal_string(n);
    m.append(d.as_str());
    m.append(" processed events (sink backpressure)");
    ProcessedEvent::System { ts: at, level: LogLevel::Warn, message: m }
}

/// What one publish cycle met: whether the queue was closed at the start,
/// and the outcome of the warning and of the event, where they were offered.
#[derive(Clone, Copy, Debug, PartialEq, Eq, Structural)]
pub struct PublishReport {
    pub closed: bool,
    pub warning: Option<SendOutcome>,
    /// The drop count that the warning stated, where one was offered.
    pub reported: Option<u64>,
    pub event: Option<SendOutcome>,
}

/// The attempts that a cycle starting with `d` pending drops makes: none on
/// a closed queue; the warning first, stating `d`, where drops are pending;
/// then the event, unless the warning found the queue closed.
pub open spec fn report_fits(d: u64, r: PublishReport) -> bool {
    if r.closed {
        r.warning is None && r.reported is None && r.event is None
    } else {
        &&& (r.warning is Some <==> d > 0)
        &&& (r.warning is Some ==> r.reported == Some(d))
        &&& (r.warning is None ==> r.reported is None)
        &&& (r.event is Some <==> r.warning != Some(SendOutcome::Closed))
    }
}

/// The drop count after the warning: reset where it went out or the queue is gone.
pub open spec fn after_warning(d: u64, w: Option<SendOutcome>) -> u64 {
    match w {
        Some(SendOutcome::Sent) => 0,
        Some(SendOutcome::Closed) => 0,
        _ => d,
    }
}

/// The drop count after the event: one more where the queue was full, reset
/// where it is gone.
pub open spec fn after_event(d: u64, e: Option<SendOutcome>) -> u64 {
    match e {
        Some(SendOutcome::Full) => if d < u64::MAX {
            (d + 1) as u64
        } else {
            d
        },
        Some(SendOutcome::Closed) => 0,
        _ => d,
    }
}

/// The drop count after a publish cycle that started with `d`.
pub open spec fn after_publish(d: u64, r: PublishReport) -> u64 {
    if r.closed {
        0
    } else {
        after_event(after_warning(d, r.warning), r.event)
    }
}

/// A cycle in which every attempt found the queue full.
pub open spec fn all_full(r: PublishReport) -> bool {
    &&& !r.closed
    &&& (r.warning is None || r.warning == Some(SendOutcome::Full))
    &&& r.event == Some(SendOutcome::Full)
}

/// The drop count after the cycles `rs`, starting from `d`.
pub open spec fn after_cycles(d: u64, rs: Seq<PublishReport>) -> u64
    decreases rs.len(),
{
    if rs.len() == 0 {
        d
    } else {
        after_publish(after_cycles(d, rs.drop_last()), rs.last())
    }
}

/// Starting with no drops, `n` cycles that each found the queue full leave
/// the count at `n`.
pub proof fn lemma_full_cycles_counted(rs: Seq<PublishReport>)
    requires
        rs.len() < u64::MAX,
        forall|k: int| 0 <= k < rs.len() ==> all_full(#[trigger] rs[k]),
    ensures
        after_cycles(0, rs) == rs.len(),
    decreases rs.len(),
{
    if rs.len() > 0 {
        assert forall|k: int| 0 <= k < rs.drop_last().len() implies all_full(
            #[trigger] rs.drop_last()[k],
        ) by {
            assert(rs.drop_last()[k] == rs[k]);
        }
        lemma_full_cycles_counted(rs.drop_last());
        assert(all_full(rs[rs.len() - 1]));
    }
}

/// With `n > 0` drops pending and the queue open, a cycle first offers the
/// warning; the count is reset only where the warning is taken (then the
/// event alone counts), and stays at least `n` where the queue is still full.
pub proof fn lemma_warning_before_reset(n: u64, r: PublishReport)
    requires
        n > 0,
        report_fits(n, r),
        !r.closed,
        r.warning != Some(SendOutcome::Closed),
        r.event != Some(SendOutcome::Closed),
    ensures
        r.warning is Some,
        r.reported == Some(n),
        r.warning == Some(SendOutcome::Sent) ==> after_publish(n, r) == if r.event == Some(
            SendOutcome::Full,
        ) {
            1u64
        } else {
            0u64
        },
        r.warning == Some(SendOutcome::Full) ==> after_publish(n, r) >= n,
        after_publish(n, r) == 0 ==> r.warning == Some(SendOutcome::Sent),
{
}

/// Notices pass any filter.
pub proof fn lemma_notices_pass(f: LineFilter, level: LogLevel, message: String)
    ensures
        forwards(f, AppEvent::System { level, message }),
{
}

/// The items a publish cycle offers, in this order: the drop warning, where
/// drops are pending, then the event.
pub struct Outgoing {
    pub warning: Option<ProcessedEvent>,
    pub event: ProcessedEvent,
}

/// Filters, converts and publishes events; owns the drop counter.
pub struct Engine {
    processor: LogProcessor,
    out: Sender<ProcessedEvent>,
    dropped: u64,
    filter: LineFilter,
}

impl Engine {
    pub closed spec fn dropped_count(&self) -> u64 {
        self.dropped
    }

    pub closed spec fn filter_spec(&self) -> LineFilter {
        self.filter
    }

    /// An engine that publishes to `out`, with an empty filter and no drops.
    pub fn new(processor: LogProcessor, out: Sender<ProcessedEvent>) -> (r: Engine)
        ensures
            r.dropped_count() == 0,
            r.filter_spec().required_text() is None,
            r.filter_spec().exclude_texts().len() == 0,
    {
        let filter = LineFilter::new(None, Vec::new());
        proof {
            assert(views(Seq::<String>::empty()) =~= Seq::<Seq<char>>::empty());
        }
        Engine { processor, out, dropped: 0, filter }
    }

    pub fn with_filter(self, filter: LineFilter) -> (r: Engine)
        ensures
            r.filter_spec() == filter,
            r.dropped_count() == self.dropped_count(),
    {
        Engine { filter, ..self }
    }

    /// The pending drop count.
    pub fn dropped(&self) -> (r: u64)
        ensures
            r == self.dropped_count(),
    {
        self.dropped
    }

    /// The event to publish for `event`, stamped `at` where it is a notice;
    /// `None` where the filter drops it.
    pub fn forward_at(&self, event: AppEvent, at: Timestamp) -> (r: Option<ProcessedEvent>)
        ensures
            forwards(self.filter_spec(), event) ==> r == Some(processed(event, at)),
            !forwards(self.filter_spec(), event) ==> r is None,
    {
        let pass = match &event {
            AppEvent::LogLine { raw, .. } => self.filter.allows(raw.as_str()),
            AppEvent::System { .. } => true,
        };
        if pass {
            Some(self.processor.process_at(event, at))
        } else {
            None
        }
    }

    /// `forward_at` at the current time.
    pub fn forward(&self, event: AppEvent) -> (r: Option<ProcessedEvent>)
        ensures
            forwards(self.filter_spec(), event) ==> exists|at: Timestamp|
                at.wf() && r == Some(processed(event, at)),
            !forwards(self.filter_spec(), event) ==> r is None,
    {
        let at = now();
        self.forward_at(event, at)
    }

    /// What a publish cycle of `event` at time `at` offers: a warning stating
    /// the pending drops first, where there are any, then the event itself.
    pub fn outgoing(&self, event: ProcessedEvent, at: Timestamp) -> (r: Outgoing)
        ensures
            r.event == event,
            self.dropped_count() == 0 ==> r.warning is None,
            self.dropped_count() > 0 ==> (r.warning matches Some(w) && is_drop_warning(
                w,
                self.dropped_count(),
                at,
            )),
    {
        let warning = if self.dropped > 0 {
            Some(drop_warning(self.dropped, at))
        } else {
            None
        };
        Outgoing { warning, event }
    }

    /// Offers the items of `outgoing` to the queue in order, without waiting.
    /// Pending drops are first reported by a warning; the count is reset
    /// only where that warning is taken, and grows by one where the event
    /// finds the queue full. A closed queue resets the count.
    pub fn publish(&mut self, event: ProcessedEvent) -> (r: PublishReport)
        ensures
            report_fits(old(self).dropped_count(), r),
            final(self).dropped_count() == after_publish(old(self).dropped_count(), r),
            final(self).filter_spec() == old(self).filter_spec(),
    {
        if queue_closed(&self.out) {
            self.dropped = 0;
            return PublishReport { closed: true, warning: None, reported: None, event: None };
        }
        let mut warning: Option<SendOutcome> = None;
        let mut reported: Option<u64> = None;
        let items = self.outgoing(event, now());
        if let Some(warn) = items.warning {
            reported = Some(self.dropped);
            let w = offer(&self.out, warn);
            warning = Some(w);
            match w {
                SendOutcome::Sent => {
                    self.dropped = 0;
                },
                SendOutcome::Full => {},
                SendOutcome::Closed => {
                    self.dropped = 0;
                    return PublishReport { closed: false, warning, reported, event: None };
                },
            }
        }
        let e = offer(&self.out, items.event);
        match e {
            SendOutcome::Sent => {},
            SendOutcome::Full => {
                self.dropped = if self.dropped < u64::MAX {
                    self.dropped + 1
                } else {
                    self.dropped
                };
            },
            SendOutcome::Closed => {
                self.dropped = 0;
            },
        }
        PublishReport { closed: false, warning, reported, event: Some(e) }
    }
}

} // verus!
