use octolog::reader::is_transient_read_error;
use octolog::{
    AppEvent, LogLevel, ReadErrorKind, ReaderAction, ReaderEvent, ReaderPhase, ResolvedPortSpec,
    SourceId, SourceReader, Timestamp,
};

fn reader(path: &str, baud: u32, alias: Option<&str>) -> SourceReader {
    SourceReader::new(ResolvedPortSpec { path: path.to_string(), baud, alias: alias.map(|a| a.to_string()) })
}

fn notice_of(e: &AppEvent) -> (LogLevel, String) {
    match e {
        AppEvent::System { level, message } => (*level, message.clone()),
        other => panic!("not a notice: {:?}", other),
    }
}

#[test]
fn end_to_end_two_lines_from_one_source() {
    let mut r = reader("A", 9600, None);
    assert_eq!(r.action(), ReaderAction::Open);
    let step = r.step(ReaderEvent::Opened);
    assert_eq!(step.action, ReaderAction::Read);
    assert_eq!(notice_of(&step.events[0]), (LogLevel::Info, "connected: A @ 9600".to_string()));
    let at = Timestamp { secs: 12, nanos: 0 };
    let step = r.step(ReaderEvent::Data { bytes: b"hello\r\nworld\n".to_vec(), at });
    assert_eq!(step.action, ReaderAction::Read);
    assert_eq!(step.events.len(), 2);
    let raws: Vec<(String, String)> = step
        .events
        .iter()
        .map(|e| match e {
            AppEvent::LogLine { source, raw, ts } => {
                assert_eq!(*ts, at);
                (source.label(), raw.clone())
            }
            other => panic!("not a line: {:?}", other),
        })
        .collect();
    assert_eq!(raws, vec![("A".to_string(), "hello".to_string()), ("A".to_string(), "world".to_string())]);
}

#[test]
fn open_failure_backs_off_then_retries() {
    let mut r = reader("/dev/x", 115200, None);
    let step = r.step(ReaderEvent::OpenFailed { cause: "No such file".to_string() });
    assert_eq!(step.action, ReaderAction::Wait);
    assert_eq!(
        notice_of(&step.events[0]),
        (LogLevel::Warn, "serial open failed (/dev/x @ 115200): No such file".to_string())
    );
    let step = r.step(ReaderEvent::DelayElapsed);
    assert!(step.events.is_empty());
    assert_eq!(step.action, ReaderAction::Open);
}

#[test]
fn transient_errors_keep_reading() {
    let mut r = reader("A", 1, None);
    r.step(ReaderEvent::Opened);
    for kind in [ReadErrorKind::TimedOut, ReadErrorKind::WouldBlock, ReadErrorKind::Interrupted] {
        let step = r.step(ReaderEvent::ReadFailed { kind, cause: "t".to_string() });
        assert!(step.events.is_empty());
        assert_eq!(step.action, ReaderAction::Read);
    }
    let step = r.step(ReaderEvent::ReadFailed { kind: ReadErrorKind::Other, cause: "broken pipe".to_string() });
    assert_eq!(notice_of(&step.events[0]), (LogLevel::Error, "serial read failed: broken pipe".to_string()));
    assert_eq!(step.action, ReaderAction::Wait);
}

#[test]
fn transient_classification() {
    assert!(is_transient_read_error(ReadErrorKind::TimedOut));
    assert!(is_transient_read_error(ReadErrorKind::WouldBlock));
    assert!(is_transient_read_error(ReadErrorKind::Interrupted));
    assert!(!is_transient_read_error(ReadErrorKind::Other));
}

#[test]
fn end_of_stream_warns_and_waits() {
    let mut r = reader("A", 1, None);
    r.step(ReaderEvent::Opened);
    let step = r.step(ReaderEvent::EndOfStream);
    assert_eq!(notice_of(&step.events[0]), (LogLevel::Warn, "serial EOF".to_string()));
    assert_eq!(r.phase(), ReaderPhase::Backoff);
}

#[test]
fn overflow_warns_once_with_label() {
    let mut r = reader("/dev/ttyUSB0", 1, Some("Sensor"));
    r.step(ReaderEvent::Opened);
    let at = Timestamp { secs: 0, nanos: 0 };
    let step = r.step(ReaderEvent::Data { bytes: vec![b'x'; 65536], at });
    assert!(step.events.is_empty());
    let step = r.step(ReaderEvent::Data { bytes: vec![b'x'; 10], at });
    assert_eq!(step.events.len(), 1);
    assert_eq!(
        notice_of(&step.events[0]),
        (LogLevel::Warn, "serial buffer overflow on Sensor (>65536 bytes): dropping partial line".to_string())
    );
    let step = r.step(ReaderEvent::Data { bytes: b"fresh\n".to_vec(), at });
    assert_eq!(step.events.len(), 1);
}

#[test]
fn overflow_warning_follows_completed_lines() {
    let mut r = reader("A", 1, None);
    r.step(ReaderEvent::Opened);
    let at = Timestamp { secs: 0, nanos: 0 };
    let mut bytes = b"done\n".to_vec();
    bytes.extend_from_slice(&vec![b'x'; 65537]);
    let step = r.step(ReaderEvent::Data { bytes, at });
    assert_eq!(step.events.len(), 2);
    match &step.events[0] {
        AppEvent::LogLine { raw, .. } => assert_eq!(raw, "done"),
        other => panic!("not a line: {:?}", other),
    }
    assert_eq!(notice_of(&step.events[1]).0, LogLevel::Warn);
}

#[test]
fn transient_error_keeps_partial_line() {
    let mut r = reader("A", 1, None);
    r.step(ReaderEvent::Opened);
    let at = Timestamp { secs: 0, nanos: 0 };
    r.step(ReaderEvent::Data { bytes: b"hal".to_vec(), at });
    r.step(ReaderEvent::ReadFailed { kind: ReadErrorKind::TimedOut, cause: "t".to_string() });
    let step = r.step(ReaderEvent::Data { bytes: b"f\n".to_vec(), at });
    match &step.events[0] {
        AppEvent::LogLine { raw, .. } => assert_eq!(raw, "half"),
        other => panic!("not a line: {:?}", other),
    }
}

#[test]
fn shutdown_while_waiting_or_reading_exits() {
    let mut waiting = reader("A", 1, None);
    waiting.step(ReaderEvent::OpenFailed { cause: "x".to_string() });
    let step = waiting.step(ReaderEvent::Shutdown);
    assert!(step.events.is_empty());
    assert_eq!(step.action, ReaderAction::Exit);
    let step = waiting.step(ReaderEvent::DelayElapsed);
    assert_eq!(step.action, ReaderAction::Exit);

    let mut reading = reader("A", 1, None);
    reading.step(ReaderEvent::Opened);
    reading.step(ReaderEvent::Shutdown);
    let at = Timestamp { secs: 0, nanos: 0 };
    let step = reading.step(ReaderEvent::Data { bytes: b"late\n".to_vec(), at });
    assert!(step.events.is_empty());
    assert_eq!(step.action, ReaderAction::Exit);
    assert_eq!(reading.phase(), ReaderPhase::Terminated);
}

#[test]
fn closed_downstream_stops_reader() {
    let mut r = reader("A", 1, None);
    r.step(ReaderEvent::Opened);
    let step = r.step(ReaderEvent::DownstreamClosed);
    assert_eq!(step.action, ReaderAction::Exit);
}

#[test]
fn label_prefers_alias() {
    let a = SourceId { port: "/dev/a".to_string(), alias: Some("Alias".to_string()) };
    assert_eq!(a.label(), "Alias");
    let b = SourceId { port: "/dev/b".to_string(), alias: None };
    assert_eq!(b.label(), "/dev/b");
    assert_eq!(a.duplicate(), a);
}
