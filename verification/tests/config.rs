use probe_zmq::probe::config::Cli;
use probe_zmq::probe::config::ConfigError;
use probe_zmq::probe::config::ProbeConfig;
use probe_zmq::probe::config::Probes;
use probe_zmq::probe::event::Config;
use std::time::Duration;

fn entry(name: &str, filter: Option<&str>) -> ProbeConfig {
    ProbeConfig {
        name: name.to_string(),
        filter: filter.map(String::from),
        address: String::from("tcp://127.0.0.1:5556"),
    }
}

#[test]
fn valid_configuration_passes() {
    let probes = Probes {
        probes: vec![entry("a", Some("x+")), entry("b", None), entry("c", Some(""))],
    };
    assert!(probes.validate().is_ok());
    assert!(Probes { probes: vec![] }.validate().is_ok());
}

#[test]
fn pattern_that_does_not_compile_is_refused() {
    let probes = Probes {
        probes: vec![entry("a", Some("x+")), entry("bad", Some("foo(bar")), entry("c", None)],
    };
    match probes.validate() {
        Err(ConfigError::InvalidRegex { probe_name, source }) => {
            assert_eq!(probe_name, "bad");
            assert!(matches!(source, regex::Error::Syntax(_)));
        }
        other => panic!("unexpected {other:?}"),
    }
}

#[test]
fn single_definition_reports_its_pattern() {
    assert!(entry("a", None).validate().is_ok());
    assert!(entry("a", Some("[0-9]{3}")).validate().is_ok());
    match entry("a", Some("[0-9")).validate() {
        Err(ConfigError::InvalidRegex { probe_name, .. }) => assert_eq!(probe_name, "a"),
        other => panic!("unexpected {other:?}"),
    }
}

#[test]
fn repeated_name_is_refused() {
    let probes = Probes {
        probes: vec![entry("a", None), entry("b", None), entry("a", Some("x"))],
    };
    match probes.validate() {
        Err(ConfigError::DuplicateProbeName { name }) => assert_eq!(name, "a"),
        other => panic!("unexpected {other:?}"),
    }
}

#[test]
fn first_fault_in_order_is_reported() {
    // the repeated name comes before the broken pattern
    let probes = Probes {
        probes: vec![entry("a", None), entry("a", None), entry("c", Some("("))],
    };
    assert!(matches!(probes.validate(), Err(ConfigError::DuplicateProbeName { .. })));
    // the broken pattern comes before the repeated name
    let probes = Probes {
        probes: vec![entry("a", None), entry("c", Some("(")), entry("a", None)],
    };
    assert!(matches!(probes.validate(), Err(ConfigError::InvalidRegex { .. })));
    // on one entry the pattern is checked before the name
    let probes = Probes {
        probes: vec![entry("a", None), entry("a", Some("("))],
    };
    assert!(matches!(probes.validate(), Err(ConfigError::InvalidRegex { .. })));
}

#[test]
fn clone_of_a_definition_is_equal() {
    let a = entry("a", Some("x"));
    let b = a.clone();
    assert_eq!(b.name, "a");
    assert_eq!(b.filter.as_deref(), Some("x"));
    assert_eq!(b.address, "tcp://127.0.0.1:5556");
    let c = entry("c", None).clone();
    assert_eq!(c.filter, None);
}

#[test]
fn default_tick_rate() {
    let config = Config::default();
    assert_eq!(config.tick_rate, Duration::from_millis(250));
}

#[test]
fn default_command_line() {
    let cli = Cli::default();
    assert_eq!(cli.tick_rate, 1000);
    assert_eq!(cli.config, "probe.toml");
}

#[test]
fn verdict_reports_a_refusal_under_the_name() {
    let probe = entry("p", Some("ignored"));
    assert!(probe.verdict(regex::Regex::new("a+")).is_ok());
    let refusal = regex::Regex::new("a{").unwrap_err();
    match probe.verdict(Err(refusal.clone())) {
        Err(ConfigError::InvalidRegex { probe_name, source }) => {
            assert_eq!(probe_name, "p");
            assert_eq!(source, refusal);
        }
        other => panic!("unexpected {other:?}"),
    }
}

#[test]
fn definition_without_pattern_is_valid() {
    assert!(entry("a", None).validate().is_ok());
    let probes = Probes { probes: vec![entry("a", None), entry("b", None)] };
    assert!(probes.validate().is_ok());
}
