use octolog::config::{CliArgs, Config};
use octolog::{AppError, PortSpec, PortSpecParseError};

fn spec(path: &str, baud: Option<u32>, alias: Option<&str>) -> PortSpec {
    PortSpec { path: path.to_string(), baud, alias: alias.map(|a| a.to_string()) }
}

#[test]
fn parse_path_only() {
    assert_eq!(PortSpec::parse("  /dev/ttyUSB0 "), Ok(spec("/dev/ttyUSB0", None, None)));
}

#[test]
fn parse_path_and_baud() {
    assert_eq!(PortSpec::parse("/dev/ttyACM0:115200"), Ok(spec("/dev/ttyACM0", Some(115200), None)));
}

#[test]
fn parse_path_and_alias() {
    assert_eq!(PortSpec::parse("/dev/ttyACM1:TFM"), Ok(spec("/dev/ttyACM1", None, Some("TFM"))));
}

#[test]
fn parse_path_baud_alias() {
    assert_eq!(
        PortSpec::parse("/dev/ttyACM0 : 9600 : Sensor"),
        Ok(spec("/dev/ttyACM0", Some(9600), Some("Sensor")))
    );
}

#[test]
fn parse_alias_keeps_later_colons() {
    assert_eq!(PortSpec::parse("COM3:57600:a:b"), Ok(spec("COM3", Some(57600), Some("a:b"))));
}

#[test]
fn parse_empty_second_field_then_alias() {
    assert_eq!(PortSpec::parse("COM1::Board"), Ok(spec("COM1", None, Some("Board"))));
}

#[test]
fn parse_baud_with_plus_sign() {
    assert_eq!(PortSpec::parse("A:+42"), Ok(spec("A", Some(42), None)));
}

#[test]
fn parse_too_large_baud_is_alias() {
    assert_eq!(PortSpec::parse("A:4294967296"), Ok(spec("A", None, Some("4294967296"))));
}

#[test]
fn parse_empty_spec() {
    assert_eq!(PortSpec::parse("   "), Err(PortSpecParseError::EmptySpec));
}

#[test]
fn parse_missing_path() {
    assert_eq!(PortSpec::parse(" :9600"), Err(PortSpecParseError::MissingPath));
}

#[test]
fn parse_invalid_baud() {
    assert_eq!(
        PortSpec::parse("A:fast:Name"),
        Err(PortSpecParseError::InvalidBaud { value: "fast".to_string() })
    );
    assert_eq!(
        PortSpecParseError::InvalidBaud { value: "fast".to_string() }.message(),
        "invalid baudrate 'fast'"
    );
}

#[test]
fn from_str_parses() {
    let p: PortSpec = "B:19200".parse().unwrap();
    assert_eq!(p, spec("B", Some(19200), None));
}

#[test]
fn resolve_uses_fallback_only_when_missing() {
    let r = spec("A", None, Some("x")).resolve(115200);
    assert_eq!(r.baud, 115200);
    assert_eq!(r.alias, Some("x".to_string()));
    let r = spec("A", Some(9600), None).resolve(115200);
    assert_eq!(r.baud, 9600);
    assert_eq!(r.path, "A");
}

fn args(list: bool, ports: &[&str]) -> CliArgs {
    CliArgs {
        list,
        port: ports.iter().map(|p| p.to_string()).collect(),
        baud: 115200,
        output: None,
        highlight: vec![],
        filter: None,
        exclude: vec!["DEBUG".to_string()],
    }
}

#[test]
fn config_needs_a_port_without_list() {
    let e = Config::try_from(args(false, &[])).unwrap_err();
    assert_eq!(e, AppError::Config("no ports specified (use -p/--port or --list)".to_string()));
    assert_eq!(e.message(), "config error: no ports specified (use -p/--port or --list)");
}

#[test]
fn config_list_without_ports() {
    let c = Config::try_from(args(true, &[])).unwrap();
    assert!(c.list);
    assert!(c.ports.is_empty());
    assert_eq!(c.runtime.event_bus_capacity, 1024);
}

#[test]
fn config_resolves_ports() {
    let c = Config::try_from(args(false, &["A:9600:One", "B"])).unwrap();
    assert_eq!(c.ports.len(), 2);
    assert_eq!(c.ports[0].path, "A");
    assert_eq!(c.ports[0].baud, 9600);
    assert_eq!(c.ports[0].alias, Some("One".to_string()));
    assert_eq!(c.ports[1].baud, 115200);
    assert_eq!(c.exclude, vec!["DEBUG".to_string()]);
}

#[test]
fn config_reports_first_bad_port() {
    let e = Config::try_from(args(false, &["A", ":1", "B:x:y"])).unwrap_err();
    assert_eq!(e, AppError::PortInvalidFormat("missing port path".to_string()));
    assert_eq!(e.message(), "invalid port format: missing port path");
}

#[test]
fn error_messages() {
    assert_eq!(AppError::NoPortsFound.message(), "no ports specified");
    assert_eq!(AppError::Runtime("x".to_string()).message(), "runtime error: x");
    assert_eq!(AppError::Scan("y".to_string()).message(), "scan error: y");
}
