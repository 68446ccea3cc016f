//! Conversion of raw events into processed, display-ready events.

use vstd::prelude::*;
use crate::error::AppError;
use crate::types::{now, AppEvent, LogLevel, SourceId, Timestamp};

verus! {

/// An event ready for the consumers. A line keeps the time it was captured
/// at; a notice gets the time it was processed at.
#[derive(Clone, Debug, PartialEq, Eq)]
pub enum ProcessedEvent {
    Line { ts: Timestamp, source: SourceId, raw: String },
    System { ts: Timestamp, level: LogLevel, message: String },
}

/// What processing `e` at time `at` gives.
pub open spec fn processed(e: AppEvent, at: Timestamp) -> ProcessedEvent {
    match e {
        AppEvent::LogLine { source, ts, raw } => ProcessedEvent::Line { ts, source, raw },
        AppEvent::System { level, message } => ProcessedEvent::System { ts: at, level, message },
    }
}

#[derive(Clone, Debug, Default)]
pub struct LogProcessor;

impl LogProcessor {
    pub fn new() -> (r: LogProcessor) {
        LogProcessor
    }

    /// Converts `event`, stamping a notice with `at`.
    pub fn process_at(&self, event: AppEvent, at: Timestamp) -> (r: ProcessedEvent)
        ensures
            r == processed(event, at),
    {
        match event {
            AppEvent::LogLine { source, ts, raw } => ProcessedEvent::Line { ts, source, raw },
            AppEvent::System { level, message } => ProcessedEvent::System { ts: at, level, message },
        }
    }

    /// Converts `event`, stamping a notice with the current time. Never fails.
    pub fn process(&self, event: AppEvent) -> (r: Result<ProcessedEvent, AppError>)
        ensures
            r matches Ok(p) && exists|at: Timestamp| at.wf() && p == processed(event, at),
    {
        let at = now();
        Ok(self.process_at(event, at))
    }
}

} // verus!
