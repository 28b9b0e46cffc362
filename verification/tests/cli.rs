use cros_typec_selector::cli::{Command, parse_args, take_flag, take_value, usage};
use cros_typec_selector::error::Error;

fn args(list: &[&str]) -> Vec<String> {
    list.iter().map(|a| a.to_string()).collect()
}

#[test]
fn no_arguments_or_help_print_usage() {
    assert!(matches!(parse_args(Vec::new()), Ok(Command::Help)));
    assert!(matches!(parse_args(args(&["inspect", "--help"])), Ok(Command::Help)));
    assert!(matches!(parse_args(args(&["-h"])), Ok(Command::Help)));
    assert!(usage().starts_with("usage:"));
}

#[test]
fn inspect_defaults_to_the_typec_class() {
    match parse_args(args(&["inspect", "port1"])) {
        Ok(Command::Inspect { port, sysfs }) => {
            assert_eq!(port.as_deref(), Some("port1"));
            assert_eq!(sysfs, "/sys/class/typec");
        }
        other => panic!("unexpected {other:?}"),
    }
}

#[test]
fn options_may_stand_anywhere() {
    match parse_args(args(&["decide", "--discovery-expired", "port0", "--sysfs", "/tmp/x"])) {
        Ok(Command::Decide { port, sysfs, discovery_expired }) => {
            assert_eq!(port.as_deref(), Some("port0"));
            assert_eq!(sysfs, "/tmp/x");
            assert!(discovery_expired);
        }
        other => panic!("unexpected {other:?}"),
    }
}

#[test]
fn reconcile_is_a_dry_run_unless_live() {
    assert!(matches!(
        parse_args(args(&["reconcile"])),
        Ok(Command::Reconcile { port: None, live: false, .. })
    ));
    assert!(matches!(
        parse_args(args(&["reconcile", "--live"])),
        Ok(Command::Reconcile { port: None, live: true, .. })
    ));
}

#[test]
fn daemon_requires_live() {
    match parse_args(args(&["daemon"])) {
        Err(Error::Unsupported(message)) => assert!(message.starts_with("daemon requires explicit --live")),
        other => panic!("unexpected {other:?}"),
    }
    assert!(matches!(parse_args(args(&["daemon", "--live"])), Ok(Command::Daemon { .. })));
}

#[test]
fn unknown_commands_and_extra_arguments_are_refused() {
    match parse_args(args(&["explode"])) {
        Err(Error::Unsupported(message)) => assert_eq!(message, usage()),
        other => panic!("unexpected {other:?}"),
    }
    assert!(matches!(parse_args(args(&["inspect", "port0", "port1"])), Err(Error::Unsupported(_))));
    assert!(matches!(parse_args(args(&["inspect", "--verbose"])), Err(Error::Unsupported(_))));
    assert!(matches!(parse_args(args(&["inspect", "--sysfs"])), Ok(Command::Inspect { .. })));
}

#[test]
fn flags_and_values_are_taken_once() {
    let mut a = args(&["x", "--live", "y", "--live"]);
    assert!(take_flag(&mut a, "--live"));
    assert_eq!(a, args(&["x", "y", "--live"]));
    assert!(!take_flag(&mut a, "--dry"));
    assert_eq!(a, args(&["x", "y", "--live"]));

    let mut b = args(&["--sysfs", "/root", "port0"]);
    assert_eq!(take_value(&mut b, "--sysfs"), Some("/root".to_string()));
    assert_eq!(b, args(&["port0"]));
    let mut c = args(&["port0", "--sysfs"]);
    assert_eq!(take_value(&mut c, "--sysfs"), None);
    assert_eq!(c, args(&["port0"]));
}
