use octolog::engine::{drop_warning, LineFilter};
use octolog::processing::{LogProcessor, ProcessedEvent};
use octolog::{AppEvent, Engine, LogLevel, PublishReport, SendOutcome, SourceId, Timestamp};
use tokio::sync::mpsc;

fn source(port: &str) -> SourceId {
    SourceId { port: port.to_string(), alias: None }
}

fn line(raw: &str) -> AppEvent {
    AppEvent::LogLine { source: source("A"), ts: Timestamp { secs: 5, nanos: 0 }, raw: raw.to_string() }
}

fn notice(msg: &str) -> ProcessedEvent {
    ProcessedEvent::System { ts: Timestamp { secs: 1, nanos: 0 }, level: LogLevel::Info, message: msg.to_string() }
}

#[test]
fn filter_trims_and_drops_empty_strings() {
    let f = LineFilter::new(Some("  AT+ ".to_string()), vec![" ".to_string(), " OK".to_string()]);
    assert!(f.allows("AT+CSQ"));
    assert!(!f.allows("ATI"));
    assert!(!f.allows("AT+ OK"));
    let blank = LineFilter::new(Some("   ".to_string()), vec![]);
    assert!(blank.allows("anything"));
}

#[test]
fn filter_exclude_list() {
    let f = LineFilter::new(None, vec!["DEBUG".to_string(), "heartbeat".to_string()]);
    assert!(f.allows("INFO start"));
    assert!(!f.allows("DEBUG tick"));
    assert!(!f.allows("a heartbeat"));
}

#[test]
fn exclude_scenario_forwards_two_lines() {
    let (tx, _rx) = mpsc::channel(4);
    let engine = Engine::new(LogProcessor::new(), tx).with_filter(LineFilter::new(None, vec!["DEBUG".to_string()]));
    let at = Timestamp { secs: 9, nanos: 0 };
    let out: Vec<ProcessedEvent> = ["INFO start", "DEBUG tick", "INFO done"]
        .iter()
        .filter_map(|r| engine.forward_at(line(r), at))
        .collect();
    assert_eq!(out.len(), 2);
    let raws: Vec<String> = out
        .iter()
        .map(|e| match e {
            ProcessedEvent::Line { raw, .. } => raw.clone(),
            _ => panic!("not a line"),
        })
        .collect();
    assert_eq!(raws, vec!["INFO start".to_string(), "INFO done".to_string()]);
}

#[test]
fn notices_bypass_filter() {
    let (tx, _rx) = mpsc::channel(4);
    let engine = Engine::new(LogProcessor::new(), tx)
        .with_filter(LineFilter::new(Some("never".to_string()), vec!["serial".to_string()]));
    let at = Timestamp { secs: 7, nanos: 3 };
    let e = AppEvent::System { level: LogLevel::Warn, message: "serial EOF".to_string() };
    assert_eq!(
        engine.forward_at(e, at),
        Some(ProcessedEvent::System { ts: at, level: LogLevel::Warn, message: "serial EOF".to_string() })
    );
    assert_eq!(engine.forward_at(line("serial data"), at), None);
}

#[test]
fn line_keeps_capture_time() {
    let p = LogProcessor::new();
    let out = p.process_at(line("x"), Timestamp { secs: 100, nanos: 0 });
    assert_eq!(out, ProcessedEvent::Line { ts: Timestamp { secs: 5, nanos: 0 }, source: source("A"), raw: "x".to_string() });
    assert!(p.process(line("y")).is_ok());
}

#[test]
fn drop_warning_text() {
    let w = drop_warning(42, Timestamp { secs: 0, nanos: 0 });
    assert_eq!(
        w,
        ProcessedEvent::System {
            ts: Timestamp { secs: 0, nanos: 0 },
            level: LogLevel::Warn,
            message: "dropped 42 processed events (sink backpressure)".to_string()
        }
    );
}

#[test]
fn backpressure_counts_then_reports() {
    let (tx, mut rx) = mpsc::channel(1);
    let mut engine = Engine::new(LogProcessor::new(), tx);
    let r = engine.publish(notice("a"));
    assert_eq!(r, PublishReport { closed: false, warning: None, reported: None, event: Some(SendOutcome::Sent) });
    assert_eq!(engine.dropped(), 0);
    let r = engine.publish(notice("b"));
    assert_eq!(r.event, Some(SendOutcome::Full));
    assert_eq!(engine.dropped(), 1);
    let r = engine.publish(notice("c"));
    assert_eq!(r.warning, Some(SendOutcome::Full));
    assert_eq!(r.event, Some(SendOutcome::Full));
    assert_eq!(engine.dropped(), 2);
    assert_eq!(rx.try_recv().unwrap(), notice("a"));
    let r = engine.publish(notice("d"));
    assert_eq!(r.warning, Some(SendOutcome::Sent));
    assert_eq!(r.reported, Some(2));
    assert_eq!(r.event, Some(SendOutcome::Full));
    assert_eq!(engine.dropped(), 1);
    match rx.try_recv().unwrap() {
        ProcessedEvent::System { level, message, .. } => {
            assert_eq!(level, LogLevel::Warn);
            assert_eq!(message, "dropped 2 processed events (sink backpressure)");
        }
        other => panic!("unexpected {:?}", other),
    }
}

#[test]
fn closed_queue_resets_count() {
    let (tx, rx) = mpsc::channel(1);
    let mut engine = Engine::new(LogProcessor::new(), tx);
    engine.publish(notice("a"));
    engine.publish(notice("b"));
    assert_eq!(engine.dropped(), 1);
    drop(rx);
    let r = engine.publish(notice("c"));
    assert!(r.closed);
    assert_eq!(engine.dropped(), 0);
}
