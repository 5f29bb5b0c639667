//! The configuration.

use rustc_hash::FxHashMap;
use shepherdr::config::{
    config_path, deserialize_size, Config, ConfigError, ConfigFile, LogConfig, LogSection,
    RestartConfig, Service, ServiceEntry, StopConfig,
};
use shepherdr::logging::{DEFAULT_MAX_BYTES, DEFAULT_MAX_GENERATIONS};
use shepherdr::time::Duration;

/// An entry that sets only the required fields.
fn entry(name: &str, command: &[&str]) -> ServiceEntry {
    ServiceEntry {
        name: name.to_owned(),
        command: command.iter().map(|&arg| arg.to_owned()).collect(),
        login_shell: None,
        env: None,
        cwd: None,
        enabled: None,
    }
}

/// A file with these services, and with this `[log]` section.
fn file(
    services: Vec<ServiceEntry>,
    max_size: Option<&str>,
    max_generations: Option<u32>,
) -> ConfigFile {
    ConfigFile {
        services,
        log: LogSection {
            max_size: max_size.map(|size| size.to_owned()),
            max_generations,
        },
    }
}

fn config(services: Vec<Service>, log: LogConfig) -> Config {
    Config {
        services,
        log,
        restart: RestartConfig::default(),
        stop: StopConfig::default(),
    }
}

#[test]
fn positive_parse_applies_defaults() {
    // Given a service that sets only the required fields
    let input = file(vec![entry("herdr", &["herdr", "server"])], None, None);

    // When it is parsed
    let result = Config::parse(input);

    // Then the optional fields take their default values
    let expected = config(
        vec![Service {
            name: "herdr".to_owned(),
            command: vec!["herdr".to_owned(), "server".to_owned()],
            login_shell: false,
            env: FxHashMap::default(),
            cwd: None,
            enabled: true,
        }],
        LogConfig::default(),
    );
    assert_eq!(result.ok(), Some(expected));
}

#[test]
fn positive_parse_reads_all_fields() {
    // Given a service that sets every field
    let input = file(
        vec![ServiceEntry {
            name: "example-daemon".to_owned(),
            command: vec![
                "/opt/homebrew/bin/example-daemon".to_owned(),
                "--verbose".to_owned(),
            ],
            login_shell: Some(true),
            env: Some(FxHashMap::from_iter([(
                "RUST_LOG".to_owned(),
                "info".to_owned(),
            )])),
            cwd: Some("/Users/cffnpwr/work".to_owned()),
            enabled: Some(false),
        }],
        None,
        None,
    );

    // When it is parsed
    let result = Config::parse(input);

    // Then every field is read exactly as written
    let expected = config(
        vec![Service {
            name: "example-daemon".to_owned(),
            command: vec![
                "/opt/homebrew/bin/example-daemon".to_owned(),
                "--verbose".to_owned(),
            ],
            login_shell: true,
            env: FxHashMap::from_iter([("RUST_LOG".to_owned(), "info".to_owned())]),
            cwd: Some("/Users/cffnpwr/work".to_owned()),
            enabled: false,
        }],
        LogConfig::default(),
    );
    assert_eq!(result.ok(), Some(expected));
}

#[test]
fn positive_parse_accepts_empty_input() {
    // Given empty input
    let input = file(vec![], None, None);

    // When it is parsed
    let result = Config::parse(input);

    // Then the config has no services and the log section takes its defaults
    assert_eq!(result.ok(), Some(config(vec![], LogConfig::default())));
}

#[test]
fn negative_parse_rejects_duplicate_name() {
    // Given two services sharing the same name
    let input = file(vec![entry("dup", &["a"]), entry("dup", &["b"])], None, None);

    // When it is parsed
    let result = Config::parse(input);

    // Then it fails with the duplicated name
    assert!(matches!(result, Err(ConfigError::DuplicateName(name)) if name == "dup"));
}

#[test]
fn negative_parse_rejects_empty_command() {
    // Given a service whose command is empty
    let input = file(vec![entry("empty", &[])], None, None);

    // When it is parsed
    let result = Config::parse(input);

    // Then it fails with the offending service name
    assert!(matches!(result, Err(ConfigError::EmptyCommand(name)) if name == "empty"));
}

#[test]
fn positive_parse_applies_log_defaults_when_the_section_is_omitted() {
    // Given input with no [log] section at all
    let input = file(vec![], None, None);

    // When it is parsed
    let result = Config::parse(input).expect("parse should succeed");

    // Then the resolved limits fall back to the implementation defaults
    assert_eq!(result.log.max_size, DEFAULT_MAX_BYTES);
    assert_eq!(result.log.max_generations, DEFAULT_MAX_GENERATIONS);
}

#[test]
fn positive_parse_reads_the_log_section() {
    // Given a [log] section that sets every field
    let input = file(vec![], Some("20MiB"), Some(3));

    // When it is parsed
    let result = Config::parse(input);

    // Then max_size is parsed into bytes and max_generations is read as written
    let expected = config(
        vec![],
        LogConfig {
            max_size: 20 * 1024 * 1024,
            max_generations: 3,
        },
    );
    assert_eq!(result.ok(), Some(expected));
}

#[test]
fn positive_parse_defaults_an_omitted_log_field_individually() {
    // Given a [log] section that only sets max_generations
    let input = file(vec![], None, Some(2));

    // When it is parsed
    let result = Config::parse(input).expect("parse should succeed");

    // Then max_size still falls back to the default while max_generations is as written
    assert_eq!(result.log.max_size, DEFAULT_MAX_BYTES);
    assert_eq!(result.log.max_generations, 2);
}

#[test]
fn positive_parse_distinguishes_binary_and_decimal_log_max_size_units() {
    // Given two [log] sections differing only in KiB (binary) vs KB (decimal)
    let binary = Config::parse(file(vec![], Some("10KiB"), None)).expect("parse should succeed");
    let decimal = Config::parse(file(vec![], Some("10KB"), None)).expect("parse should succeed");

    // When resolved to bytes
    // Then KiB uses the 1024-based factor and KB uses the 1000-based factor
    assert_eq!(binary.log.max_size, 10 * 1024);
    assert_eq!(decimal.log.max_size, 10_000);
}

#[test]
fn positive_parse_log_max_size_unit_is_case_insensitive() {
    // Given the same value spelled with different unit casing
    let lower = Config::parse(file(vec![], Some("10mib"), None)).expect("parse should succeed");
    let mixed = Config::parse(file(vec![], Some("10MiB"), None)).expect("parse should succeed");

    // Then both resolve to the same byte count
    assert_eq!(lower.log.max_size, mixed.log.max_size);
    assert_eq!(lower.log.max_size, 10 * 1024 * 1024);
}

#[test]
fn negative_parse_rejects_an_unrecognized_log_max_size_unit() {
    // Given a max_size using a unit that does not exist
    let input = file(vec![], Some("10XB"), None);

    // When it is parsed
    let result = Config::parse(input);

    // Then it fails while parsing, since the unit string cannot be deserialized
    assert!(matches!(result, Err(ConfigError::Parse(_))));
}

#[test]
fn negative_parse_rejects_a_negative_log_max_size() {
    // Given a max_size with a negative sign, which is not accepted
    let input = file(vec![], Some("-10MiB"), None);

    // When it is parsed
    let result = Config::parse(input);

    // Then it fails while parsing
    assert!(matches!(result, Err(ConfigError::Parse(_))));
}

#[test]
fn negative_parse_rejects_a_zero_log_max_size() {
    // Given a max_size of zero, which deserializes fine but is semantically invalid
    let input = file(vec![], Some("0MiB"), None);

    // When it is parsed
    let result = Config::parse(input);

    // Then validation rejects the resolved zero byte count
    assert!(matches!(result, Err(ConfigError::LogMaxSizeNotPositive)));
}

#[test]
fn negative_parse_rejects_a_zero_log_max_generations() {
    // Given a max_generations of zero
    let input = file(vec![], None, Some(0));

    // When it is parsed
    let result = Config::parse(input);

    // Then it fails
    assert!(matches!(
        result,
        Err(ConfigError::LogMaxGenerationsTooSmall)
    ));
}

#[test]
fn the_log_section_is_checked_before_the_services() {
    let entries = vec![entry("empty", &[])];
    assert_eq!(
        Config::parse(file(entries.clone(), Some("0"), Some(0))),
        Err(ConfigError::LogMaxSizeNotPositive)
    );
    assert_eq!(
        Config::parse(file(entries, Some("1"), Some(0))),
        Err(ConfigError::LogMaxGenerationsTooSmall)
    );
}

#[test]
fn the_first_faulty_service_is_reported() {
    let log = LogConfig::default();
    assert_eq!(
        Config::build(
            vec![
                entry("a", &["x"]),
                entry("a", &["y"]),
                entry("b", &[]),
            ],
            log,
        ),
        Err(ConfigError::DuplicateName("a".to_owned()))
    );
    assert_eq!(
        Config::build(vec![entry("a", &["x"]), entry("a", &[])], log),
        Err(ConfigError::EmptyCommand("a".to_owned()))
    );
}

#[test]
fn sizes_may_have_a_fraction() {
    assert_eq!(deserialize_size("1.5KiB"), Ok(1536));
    assert_eq!(deserialize_size("42"), Ok(42));
    assert!(deserialize_size("").is_err());
}

#[test]
fn whole_sizes_are_a_number_of_units() {
    let sizes = [
        ("7", 7),
        ("7b", 7),
        ("7K", 7_000),
        ("7kB", 7_000),
        ("7m", 7_000_000),
        ("7GB", 7_000_000_000),
        ("7t", 7_000_000_000_000),
        ("7Pb", 7_000_000_000_000_000),
        ("7E", 7_000_000_000_000_000_000),
        ("7ki", 7 << 10),
        ("7MIB", 7 << 20),
        ("7Gi", 7 << 30),
        ("7TiB", 7 << 40),
        ("7pib", 7 << 50),
        ("7EiB", 7 << 60),
        ("20EB", u64::MAX),
        ("9007199254740993B", 9_007_199_254_740_993),
    ];
    for (raw, size) in sizes {
        assert_eq!(deserialize_size(raw), Ok(size));
    }
}

#[test]
fn the_config_file_is_looked_for_under_xdg_config_home_or_home() {
    assert_eq!(
        config_path(Some(b"/xdg".to_vec()), Some(b"/home/me".to_vec())),
        Ok(b"/xdg/shepherdr/config.toml".to_vec())
    );
    for ignored in [None, Some(b"".to_vec()), Some(b"relative".to_vec())] {
        assert_eq!(
            config_path(ignored, Some(b"/home/me/".to_vec())),
            Ok(b"/home/me/.config/shepherdr/config.toml".to_vec())
        );
    }
    assert_eq!(
        config_path(Some(b"relative".to_vec()), None),
        Err(ConfigError::HomeDirNotFound)
    );
    assert_eq!(
        config_path(Some(b"/".to_vec()), None),
        Ok(b"/shepherdr/config.toml".to_vec())
    );
}

#[test]
fn the_defaults_are_those_of_a_fresh_installation() {
    assert_eq!(
        LogConfig::default(),
        LogConfig {
            max_size: 10 * 1024 * 1024,
            max_generations: 5,
        }
    );
    assert_eq!(StopConfig::default().grace_period, Duration::from_secs(10));
    assert_eq!(RestartConfig::default().backoff_multiplier, 2);
}

#[test]
fn config_errors_read_as_sentences() {
    let messages = [
        (
            ConfigError::HomeDirNotFound,
            "failed to resolve the home directory",
        ),
        (
            ConfigError::Read {
                path: b"/etc/config.toml".to_vec(),
                reason: "denied".to_owned(),
            },
            "failed to read the configuration file: /etc/config.toml",
        ),
        (
            ConfigError::Parse("bad unit".to_owned()),
            "failed to parse the configuration file",
        ),
        (
            ConfigError::DuplicateName("dup".to_owned()),
            "duplicate service name: dup",
        ),
        (
            ConfigError::EmptyCommand("svc".to_owned()),
            "command of service \"svc\" is empty",
        ),
        (
            ConfigError::LogMaxSizeNotPositive,
            "log max_size must be positive",
        ),
        (
            ConfigError::LogMaxGenerationsTooSmall,
            "log max_generations must be at least 1",
        ),
    ];
    for (error, message) in messages {
        assert_eq!(error.message(), message);
    }
}
