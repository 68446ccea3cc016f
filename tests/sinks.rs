use octolog::processing::ProcessedEvent;
use octolog::scan::{is_system_port, select_ports, starts_with, HostOs};
use octolog::sinks::{
    apply_highlights, color_from_hash, fan_out, fmt_level, fmt_level_colored, fmt_source, fmt_ts,
    render_file_line,
};
use octolog::text::decimal_string;
use octolog::{AppError, LogLevel, SendOutcome, SourceId, StdoutSink, Timestamp};
use std::sync::Arc;
use tokio::sync::mpsc;

fn ev(n: u64) -> ProcessedEvent {
    ProcessedEvent::System { ts: Timestamp { secs: n, nanos: 0 }, level: LogLevel::Info, message: n.to_string() }
}

#[test]
fn fan_out_isolates_a_full_consumer() {
    let (full_tx, _full_rx) = mpsc::channel::<Arc<ProcessedEvent>>(1);
    let (free_tx, mut free_rx) = mpsc::channel::<Arc<ProcessedEvent>>(64);
    let sinks = vec![full_tx, free_tx];
    let first = fan_out(&sinks, ev(0));
    assert_eq!(first, vec![SendOutcome::Sent, SendOutcome::Sent]);
    for n in 1..20u64 {
        let r = fan_out(&sinks, ev(n));
        assert_eq!(r, vec![SendOutcome::Full, SendOutcome::Sent]);
    }
    for n in 0..20u64 {
        assert_eq!(*free_rx.try_recv().unwrap(), ev(n));
    }
}

#[test]
fn fan_out_to_closed_consumer() {
    let (tx, rx) = mpsc::channel::<Arc<ProcessedEvent>>(1);
    drop(rx);
    assert_eq!(fan_out(&vec![tx], ev(1)), vec![SendOutcome::Closed]);
}

#[test]
fn level_tags() {
    assert_eq!(fmt_level(LogLevel::Trace), "TRC");
    assert_eq!(fmt_level(LogLevel::Debug), "DBG");
    assert_eq!(fmt_level(LogLevel::Info), "INF");
    assert_eq!(fmt_level(LogLevel::Warn), "WRN");
    assert_eq!(fmt_level(LogLevel::Error), "ERR");
    assert_eq!(fmt_level_colored(LogLevel::Info), "\x1b[32mINF\x1b[39m");
    assert_eq!(fmt_level_colored(LogLevel::Trace), "\x1b[90mTRC\x1b[39m");
}

#[test]
fn source_tag() {
    let s = SourceId { port: "/dev/ttyUSB0".to_string(), alias: Some("GPS".to_string()) };
    assert_eq!(fmt_source(&s), "[GPS]");
}

#[test]
fn timestamps_render_in_utc_with_millis() {
    assert_eq!(fmt_ts(Timestamp { secs: 0, nanos: 0 }), "1970-01-01T00:00:00.000Z");
    assert_eq!(fmt_ts(Timestamp { secs: 1_700_000_000, nanos: 123_456_789 }), "2023-11-14T22:13:20.123Z");
}

#[test]
fn file_lines() {
    let line = ProcessedEvent::Line {
        ts: Timestamp { secs: 0, nanos: 5_000_000 },
        source: SourceId { port: "A".to_string(), alias: None },
        raw: "hello".to_string(),
    };
    assert_eq!(render_file_line(&line), "[1970-01-01T00:00:00.005Z] [A] \u{2502} hello");
    let sys = ProcessedEvent::System { ts: Timestamp { secs: 60, nanos: 0 }, level: LogLevel::Warn, message: "serial EOF".to_string() };
    assert_eq!(render_file_line(&sys), "[1970-01-01T00:01:00.000Z] [SYS] WRN \u{25b8} serial EOF");
}

#[test]
fn color_from_hash_values() {
    assert_eq!(color_from_hash(0), (144, 224, 104));
    assert_eq!(color_from_hash(0x00_20_C8_0A), (74, 103, 96));
    assert_eq!(color_from_hash(0xFF_FF_FF), (143, 223, 103));
}

#[test]
fn highlights_replace_each_pattern() {
    let pats = vec![("ERR".to_string(), "<E>".to_string()), (String::new(), "x".to_string()), ("WARN".to_string(), "<W>".to_string())];
    assert_eq!(apply_highlights("ERR WARN ERRR", &pats), "<E> <W> <E>R");
    assert_eq!(apply_highlights("plain", &vec![]), "plain");
}

#[test]
fn with_highlights_styles_trimmed_patterns() {
    let sink = StdoutSink::new().with_highlights(vec![" ERROR ".to_string(), "  ".to_string()]);
    let ev = ProcessedEvent::System { ts: Timestamp { secs: 0, nanos: 0 }, level: LogLevel::Error, message: "m".to_string() };
    let (text, to_err) = sink.render(&ev);
    assert!(to_err);
    assert_eq!(text, "[\x1b[2m1970-01-01T00:00:00.000Z\x1b[0m] \x1b[1m\x1b[35m[SYS]\x1b[39m\x1b[0m \x1b[31mERR\x1b[39m \u{25b8} m");
    let line = ProcessedEvent::Line {
        ts: Timestamp { secs: 0, nanos: 0 },
        source: SourceId { port: "A".to_string(), alias: None },
        raw: "an ERROR here".to_string(),
    };
    let (text, to_err) = sink.render(&line);
    assert!(!to_err);
    assert!(text.ends_with(" \u{2502} an \x1b[1m\x1b[33mERROR\x1b[39m\x1b[0m here"));
}

#[test]
fn decimal_rendering() {
    assert_eq!(decimal_string(0), "0");
    assert_eq!(decimal_string(9600), "9600");
    assert_eq!(decimal_string(u64::MAX), "18446744073709551615");
}

#[test]
fn system_ports() {
    assert!(is_system_port("/dev/ttyUSB0", HostOs::Linux));
    assert!(is_system_port("/dev/ttyACM12", HostOs::Linux));
    assert!(!is_system_port("/dev/ttyS0", HostOs::Linux));
    assert!(is_system_port("/dev/cu.usbmodem1101", HostOs::MacOs));
    assert!(is_system_port("/dev/tty.JLink", HostOs::MacOs));
    assert!(!is_system_port("/dev/cu.Bluetooth", HostOs::MacOs));
    assert!(!is_system_port("/tmp/cu.usbserial", HostOs::MacOs));
    assert!(is_system_port("com7", HostOs::Windows));
    assert!(!is_system_port("COM7x", HostOs::Windows));
    assert!(is_system_port("anything", HostOs::Other));
}

#[test]
fn select_ports_filters_and_sorts() {
    let names = vec!["/dev/ttyUSB1".to_string(), "/dev/ttyS0".to_string(), "/dev/ttyACM0".to_string()];
    assert_eq!(
        select_ports(names.clone(), None, HostOs::Linux).unwrap(),
        vec!["/dev/ttyACM0".to_string(), "/dev/ttyUSB1".to_string()]
    );
    assert_eq!(select_ports(names.clone(), Some("S0$".to_string()), HostOs::Linux).unwrap(), vec!["/dev/ttyS0".to_string()]);
    assert!(matches!(select_ports(names, Some("(".to_string()), HostOs::Linux), Err(AppError::Scan(_))));
}

#[test]
fn prefix_test() {
    assert!(starts_with("/dev/tty.x", "/dev/tty."));
    assert!(!starts_with("/dev", "/dev/tty."));
    assert!(starts_with("abc", ""));
}

#[test]
fn timestamps_far_out_still_render() {
    assert_eq!(fmt_ts(Timestamp { secs: 253_402_300_799, nanos: 999_000_000 }), "9999-12-31T23:59:59.999Z");
}
