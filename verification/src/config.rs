//! The configuration: what it holds, its defaults, and when it is valid.

use bytesize::ByteSize;
use rustc_hash::FxHashMap;
use vstd::prelude::*;
use vstd::utf8::encode_utf8;

use crate::logging::{DEFAULT_MAX_BYTES, DEFAULT_MAX_GENERATIONS};
use crate::names::{entries, insert_text, members, new_set, new_table};
use crate::paths::{absolute, is_absolute, join, joined};
use crate::stop::DEFAULT_GRACE_PERIOD;
use crate::text::{decimal, readable, text_of};
use crate::time::{Duration, NANOS_PER_SEC};

verus! {

/// The whole configuration file.
#[derive(Clone, Debug, PartialEq, Eq)]
pub struct Config {
    /// The list of service definitions.
    pub services: Vec<Service>,
    /// The `[log]` section, which overrides the log rotation limits.
    pub log: LogConfig,
    /// The restart policy that every service follows.
    pub restart: RestartConfig,
    /// How a service is stopped.
    pub stop: StopConfig,
}

/// A single `[[services]]` entry.
#[derive(Clone, Debug, PartialEq, Eq)]
pub struct Service {
    /// Service name. Unique across all entries. Used for the log file name and UI display.
    pub name: String,
    /// The argv to execute. Not evaluated by a shell.
    pub command: Vec<String>,
    /// When `true`, launch through a login shell.
    pub login_shell: bool,
    /// Extra environment variables layered on top of the app process environment.
    pub env: FxHashMap<String, String>,
    /// Working directory. Inherits the app process's when unset.
    pub cwd: Option<String>,
    /// When `false`, keep the definition but stop auto-starting it.
    pub enabled: bool,
}

/// What a configuration file says: its tables and keys, with `None` for those left out.
#[derive(Clone, Debug, PartialEq, Eq)]
pub struct ConfigFile {
    /// The `[[services]]` entries.
    pub services: Vec<ServiceEntry>,
    /// The `[log]` section.
    pub log: LogSection,
}

/// A `[[services]]` entry of a configuration file.
#[derive(Clone, Debug, PartialEq, Eq)]
pub struct ServiceEntry {
    /// See [`Service::name`].
    pub name: String,
    /// See [`Service::command`].
    pub command: Vec<String>,
    /// See [`Service::login_shell`].
    pub login_shell: Option<bool>,
    /// See [`Service::env`].
    pub env: Option<FxHashMap<String, String>>,
    /// See [`Service::cwd`].
    pub cwd: Option<String>,
    /// See [`Service::enabled`].
    pub enabled: Option<bool>,
}

/// The `[log]` section of a configuration file.
#[derive(Clone, Debug, PartialEq, Eq)]
pub struct LogSection {
    /// The size cap, as a unit string such as `"10MiB"`.
    pub max_size: Option<String>,
    /// See [`LogConfig::max_generations`].
    pub max_generations: Option<u32>,
}

impl Service {
    /// Whether this is what `entry` says, with the default in place of everything that it leaves
    /// out.
    pub open spec fn resolves(self, entry: ServiceEntry) -> bool {
        &&& self.name == entry.name
        &&& self.command == entry.command
        &&& self.login_shell == match entry.login_shell {
            Some(login_shell) => login_shell,
            None => false,
        }
        &&& match entry.env {
            Some(env) => self.env == env,
            None => entries(self.env) == Map::<Seq<char>, String>::empty(),
        }
        &&& self.cwd == entry.cwd
        &&& self.enabled == match entry.enabled {
            Some(enabled) => enabled,
            None => DEFAULT_ENABLED,
        }
    }

    /// Takes an entry from the file. What was left out takes its default: no login shell, no extra
    /// environment, the app's own working directory, and enabled.
    fn from_entry(entry: ServiceEntry) -> (service: Self)
        ensures
            service.resolves(entry),
    {
        let login_shell = match entry.login_shell {
            Some(login_shell) => login_shell,
            None => false,
        };
        let env = match entry.env {
            Some(env) => env,
            None => new_table(),
        };
        let enabled = match entry.enabled {
            Some(enabled) => enabled,
            None => DEFAULT_ENABLED,
        };
        Service {
            name: entry.name,
            command: entry.command,
            login_shell,
            env,
            cwd: entry.cwd,
            enabled,
        }
    }
}

/// The value that a service's `enabled` takes when the file leaves it out.
pub const DEFAULT_ENABLED: bool = true;

/// The `[log]` section. Semantic constraints (a positive `max_size`, a `max_generations` of at
/// least 1) are checked in [`Config::validate`], not here.
#[derive(Clone, Copy, Debug, PartialEq, Eq, Structural)]
pub struct LogConfig {
    /// Per-generation size cap in bytes. Defaults to [`DEFAULT_MAX_BYTES`].
    pub max_size: u64,
    /// Number of generations kept, including the current file. Defaults to
    /// [`DEFAULT_MAX_GENERATIONS`].
    pub max_generations: u32,
}

impl LogConfig {
    /// Whether every field has its default.
    pub open spec fn is_default(self) -> bool {
        self.max_size == DEFAULT_MAX_BYTES && self.max_generations == DEFAULT_MAX_GENERATIONS
    }

    /// Whether this is what `section` says, with the default in place of a field that it leaves
    /// out.
    pub open spec fn resolves(self, section: LogSection) -> bool {
        &&& match section.max_size {
            Some(raw) => stands_for(raw@, Ok(self.max_size)),
            None => self.max_size == DEFAULT_MAX_BYTES,
        }
        &&& self.max_generations == match section.max_generations {
            Some(count) => count,
            None => DEFAULT_MAX_GENERATIONS,
        }
    }

    /// Takes the section from the file. A field that was left out takes its default.
    ///
    /// # Errors
    ///
    /// Returns the reason when the size is not one that [`deserialize_size`] accepts.
    pub fn from_section(section: &LogSection) -> (result: Result<Self, String>)
        ensures
            match result {
                Ok(log) => log.resolves(*section),
                Err(reason) => {
                    &&& section.max_size is Some
                    &&& stands_for(section.max_size->0@, Err(reason@))
                },
            },
    {
        let max_size: u64 = match &section.max_size {
            Some(raw) => match deserialize_size(raw.as_str()) {
                Ok(size) => size,
                Err(reason) => {
                    return Err(reason);
                },
            },
            None => DEFAULT_MAX_BYTES,
        };
        let max_generations: u32 = match section.max_generations {
            Some(count) => count,
            None => DEFAULT_MAX_GENERATIONS,
        };
        Ok(LogConfig { max_size, max_generations })
    }
}

impl Default for LogConfig {
    fn default() -> (log: Self)
        ensures
            log.is_default(),
    {
        LogConfig { max_size: DEFAULT_MAX_BYTES, max_generations: DEFAULT_MAX_GENERATIONS }
    }
}

/// Seconds before the first restart of a service that exited.
pub const DEFAULT_INITIAL_BACKOFF_SECS: u64 = 1;

/// Seconds that the delay before a restart never exceeds.
pub const DEFAULT_MAX_BACKOFF_SECS: u64 = 60;

/// The factor by which the delay grows from one restart to the next.
pub const DEFAULT_BACKOFF_MULTIPLIER: u32 = 2;

/// Seconds that a service runs before its run counts as stable.
pub const DEFAULT_STABLE_UPTIME_SECS: u64 = 60;

/// Seconds below which a run counts as a failure.
pub const DEFAULT_FAILURE_UPTIME_THRESHOLD_SECS: u64 = 10;

/// Failures in a row after which a service is not restarted any more.
pub const DEFAULT_MAX_CONSECUTIVE_FAILURES: u32 = 5;

/// The restart policy: when a service that exited comes back, and when it is given up. The
/// configuration file has no key for it, so every service follows the default, whose numbers are
/// this library's own choice: one second that doubles up to a minute, and five runs in a row of
/// less than ten seconds.
#[derive(Clone, Copy, Debug, PartialEq, Eq, Structural)]
pub struct RestartConfig {
    /// The delay before the first restart, and before the one after a stable run.
    pub initial_backoff: Duration,
    /// The delay that growth never exceeds.
    pub max_backoff: Duration,
    /// The factor by which the delay grows after a run that was not stable.
    pub backoff_multiplier: u32,
    /// A run at least this long is stable.
    pub stable_uptime: Duration,
    /// A run shorter than this counts as a failure.
    pub failure_uptime_threshold: Duration,
    /// The number of failures in a row that ends the restarts.
    pub max_consecutive_failures: u32,
}

impl RestartConfig {
    /// Whether every field has its default.
    pub open spec fn is_default(self) -> bool {
        &&& self.initial_backoff@ == DEFAULT_INITIAL_BACKOFF_SECS * NANOS_PER_SEC
        &&& self.max_backoff@ == DEFAULT_MAX_BACKOFF_SECS * NANOS_PER_SEC
        &&& self.backoff_multiplier == DEFAULT_BACKOFF_MULTIPLIER
        &&& self.stable_uptime@ == DEFAULT_STABLE_UPTIME_SECS * NANOS_PER_SEC
        &&& self.failure_uptime_threshold@ == DEFAULT_FAILURE_UPTIME_THRESHOLD_SECS * NANOS_PER_SEC
        &&& self.max_consecutive_failures == DEFAULT_MAX_CONSECUTIVE_FAILURES
    }
}

impl Default for RestartConfig {
    fn default() -> (restart: Self)
        ensures
            restart.is_default(),
    {
        RestartConfig {
            initial_backoff: Duration::from_secs(DEFAULT_INITIAL_BACKOFF_SECS),
            max_backoff: Duration::from_secs(DEFAULT_MAX_BACKOFF_SECS),
            backoff_multiplier: DEFAULT_BACKOFF_MULTIPLIER,
            stable_uptime: Duration::from_secs(DEFAULT_STABLE_UPTIME_SECS),
            failure_uptime_threshold: Duration::from_secs(DEFAULT_FAILURE_UPTIME_THRESHOLD_SECS),
            max_consecutive_failures: DEFAULT_MAX_CONSECUTIVE_FAILURES,
        }
    }
}

/// How a service is stopped.
#[derive(Clone, Copy, Debug, PartialEq, Eq, Structural)]
pub struct StopConfig {
    /// How long a process has to exit once it was asked to, before it is killed.
    pub grace_period: Duration,
}

impl StopConfig {
    /// Whether every field has its default.
    pub open spec fn is_default(self) -> bool {
        self.grace_period@ == DEFAULT_GRACE_PERIOD * NANOS_PER_SEC
    }
}

impl Default for StopConfig {
    fn default() -> (stop: Self)
        ensures
            stop.is_default(),
    {
        StopConfig { grace_period: Duration::from_secs(DEFAULT_GRACE_PERIOD) }
    }
}

/// A letter of a unit, in lower case.
pub open spec fn lower(letter: char) -> char {
    if letter == 'B' {
        'b'
    } else if letter == 'E' {
        'e'
    } else if letter == 'G' {
        'g'
    } else if letter == 'I' {
        'i'
    } else if letter == 'K' {
        'k'
    } else if letter == 'M' {
        'm'
    } else if letter == 'P' {
        'p'
    } else if letter == 'T' {
        't'
    } else {
        letter
    }
}

/// How many bytes a unit stands for: a factor of 1000 for each step of a decimal unit, one of 1024
/// for each step of a binary one, and one byte where there is no unit.
pub open spec fn unit_factor(unit: Seq<char>) -> Option<nat> {
    let unit = unit.map_values(|letter: char| lower(letter));
    if unit == ""@ || unit == "b"@ {
        Some(1)
    } else if unit == "k"@ || unit == "kb"@ {
        Some(1_000)
    } else if unit == "m"@ || unit == "mb"@ {
        Some(1_000_000)
    } else if unit == "g"@ || unit == "gb"@ {
        Some(1_000_000_000)
    } else if unit == "t"@ || unit == "tb"@ {
        Some(1_000_000_000_000)
    } else if unit == "p"@ || unit == "pb"@ {
        Some(1_000_000_000_000_000)
    } else if unit == "e"@ || unit == "eb"@ {
        Some(1_000_000_000_000_000_000)
    } else if unit == "ki"@ || unit == "kib"@ {
        Some(1_024)
    } else if unit == "mi"@ || unit == "mib"@ {
        Some(1_048_576)
    } else if unit == "gi"@ || unit == "gib"@ {
        Some(1_073_741_824)
    } else if unit == "ti"@ || unit == "tib"@ {
        Some(1_099_511_627_776)
    } else if unit == "pi"@ || unit == "pib"@ {
        Some(1_125_899_906_842_624)
    } else if unit == "ei"@ || unit == "eib"@ {
        Some(1_152_921_504_606_846_976)
    } else {
        None
    }
}

/// The size that a whole number of units makes: the largest that there is, where it is more.
pub open spec fn whole_size(count: u64, unit: Seq<char>) -> u64 {
    let size = count * unit_factor(unit)->0;
    if size <= u64::MAX {
        size as u64
    } else {
        u64::MAX
    }
}

/// What `bytesize` reads a unit string as: a number of bytes, or the reason why it is none.
pub uninterp spec fn parsed_size(raw: Seq<char>) -> Result<u64, Seq<char>>;

/// Whether `size` is what the unit string `raw` stands for. A whole number with a unit right
/// behind it, or with none, stands for that many times the unit.
pub open spec fn stands_for(raw: Seq<char>, size: Result<u64, Seq<char>>) -> bool {
    &&& size == parsed_size(raw)
    &&& forall|count: u64, unit: Seq<char>|
        raw == #[trigger] (decimal(count as nat) + unit) && unit_factor(unit) is Some ==> size
            == Ok::<u64, Seq<char>>(whole_size(count, unit))
}

/// `<ByteSize as FromStr>::from_str`, followed by `ByteSize::as_u64`: the number of bytes that
/// `raw` stands for, or the reason why it stands for none. A whole number with a unit right behind
/// it, or with none, stands for that many times the unit, up to the largest size; what any other
/// text stands for is left to the name.
#[verifier::external_body]
fn parse_size(raw: &str) -> (size: Result<u64, String>)
    ensures
        match size {
            Ok(bytes) => parsed_size(raw@) == Ok::<u64, Seq<char>>(bytes),
            Err(reason) => parsed_size(raw@) == Err::<u64, Seq<char>>(reason@),
        },
        (forall|count: u64, unit: Seq<char>|
            raw@ == #[trigger] (decimal(count as nat) + unit) && unit_factor(unit) is Some ==> size
                == Ok::<u64, String>(whole_size(count, unit))),
{
    raw.parse::<ByteSize>().map(|size| size.as_u64())
}

/// The number of bytes that a unit string such as `"10MiB"` or `"10MB"` stands for.
///
/// Binary units (`KiB`, `MiB`, `GiB`, factors of 1024) differ from decimal units (`KB`, `MB`,
/// `GB`, factors of 1000). Units match whatever their case, and the value may have a fraction.
///
/// # Errors
///
/// Returns the reason when `raw` is no such string.
pub fn deserialize_size(raw: &str) -> (size: Result<u64, String>)
    ensures
        match size {
            Ok(bytes) => stands_for(raw@, Ok(bytes)),
            Err(reason) => stands_for(raw@, Err(reason@)),
        },
{
    parse_size(raw)
}

/// Units match whatever their case.
pub proof fn law_case_of_a_unit_does_not_matter(unit: Seq<char>, other: Seq<char>)
    requires
        unit.len() == other.len(),
        forall|i: int| 0 <= i < unit.len() ==> lower(#[trigger] unit[i]) == lower(other[i]),
    ensures
        unit_factor(unit) == unit_factor(other),
{
    assert(unit.map_values(|letter: char| lower(letter)) =~= other.map_values(
        |letter: char| lower(letter),
    ));
}

/// Errors raised while loading or parsing the configuration.
#[derive(Clone, Debug, PartialEq, Eq)]
pub enum ConfigError {
    /// The home directory could not be resolved.
    HomeDirNotFound,
    /// The configuration file could not be read.
    Read {
        /// The path that was being read.
        path: Vec<u8>,
        /// The underlying error, in words.
        reason: String,
    },
    /// The configuration file could not be parsed, for the reason given.
    Parse(String),
    /// A service name is duplicated.
    DuplicateName(String),
    /// A `command` is empty.
    EmptyCommand(String),
    /// The `[log]` section's `max_size` is not a positive number of bytes.
    LogMaxSizeNotPositive,
    /// The `[log]` section's `max_generations` is not at least 1.
    LogMaxGenerationsTooSmall,
}

impl ConfigError {
    /// The text of [`ConfigError::message`].
    pub open spec fn text(self) -> Seq<char> {
        match self {
            ConfigError::HomeDirNotFound => "failed to resolve the home directory"@,
            ConfigError::Read { path, reason: _ } => "failed to read the configuration file: "@
                + readable(path@),
            ConfigError::Parse(_) => "failed to parse the configuration file"@,
            ConfigError::DuplicateName(name) => "duplicate service name: "@ + name@,
            ConfigError::EmptyCommand(name) => "command of service \""@ + name@ + "\" is empty"@,
            ConfigError::LogMaxSizeNotPositive => "log max_size must be positive"@,
            ConfigError::LogMaxGenerationsTooSmall => "log max_generations must be at least 1"@,
        }
    }

    /// The error in words, without its cause.
    #[must_use]
    pub fn message(&self) -> (message: String)
        ensures
            message@ == self.text(),
    {
        match self {
            ConfigError::HomeDirNotFound => "failed to resolve the home directory".to_owned(),
            ConfigError::Read { path, reason: _ } => {
                "failed to read the configuration file: ".to_owned().concat(
                    text_of(path.as_slice()).as_str(),
                )
            },
            ConfigError::Parse(_) => "failed to parse the configuration file".to_owned(),
            ConfigError::DuplicateName(name) => {
                "duplicate service name: ".to_owned().concat(name.as_str())
            },
            ConfigError::EmptyCommand(name) => {
                "command of service \"".to_owned().concat(name.as_str()).concat("\" is empty")
            },
            ConfigError::LogMaxSizeNotPositive => "log max_size must be positive".to_owned(),
            ConfigError::LogMaxGenerationsTooSmall => {
                "log max_generations must be at least 1".to_owned()
            },
        }
    }
}

/// Whether an earlier service has the name of the one at `i`.
pub open spec fn repeats_a_name(services: Seq<Service>, i: int) -> bool {
    exists|j: int| 0 <= j < i && #[trigger] services[j].name@ == services[i].name@
}

/// Whether the service at `i` keeps the list from being valid.
pub open spec fn faulty(services: Seq<Service>, i: int) -> bool {
    services[i].command@.len() == 0 || repeats_a_name(services, i)
}

/// Whether the service at `i` is the first that keeps the list from being valid.
pub open spec fn first_faulty(services: Seq<Service>, i: int) -> bool {
    &&& 0 <= i < services.len()
    &&& faulty(services, i)
    &&& forall|j: int| 0 <= j < i ==> !#[trigger] faulty(services, j)
}

impl Config {
    /// Whether the limits of the `[log]` section are usable.
    pub open spec fn valid_log(self) -> bool {
        self.log.max_size > 0 && self.log.max_generations > 0
    }

    /// Whether the configuration can be used: usable log limits, a command for every service, and
    /// no name twice.
    pub open spec fn valid(self) -> bool {
        &&& self.valid_log()
        &&& forall|i: int|
            0 <= i < self.services@.len() ==> (#[trigger] self.services@[i]).command@.len() > 0
        &&& forall|i: int, j: int|
            0 <= i < j < self.services@.len() ==> (#[trigger] self.services@[i]).name@ != (
            #[trigger] self.services@[j]).name@
    }

    /// Whether the configuration cannot be used, and `error` says what is wrong with it.
    pub open spec fn rejected_with(self, error: ConfigError) -> bool {
        match error {
            ConfigError::LogMaxSizeNotPositive => self.log.max_size == 0,
            ConfigError::LogMaxGenerationsTooSmall => {
                self.log.max_size > 0 && self.log.max_generations == 0
            },
            ConfigError::EmptyCommand(name) => self.valid_log() && exists|i: int|
                {
                    &&& #[trigger] first_faulty(self.services@, i)
                    &&& self.services@[i].command@.len() == 0
                    &&& self.services@[i].name@ == name@
                },
            ConfigError::DuplicateName(name) => self.valid_log() && exists|i: int|
                {
                    &&& #[trigger] first_faulty(self.services@, i)
                    &&& self.services@[i].command@.len() > 0
                    &&& self.services@[i].name@ == name@
                },
            _ => false,
        }
    }

    /// Whether this has the services of `entries`, with the default in place of everything that
    /// they leave out, the log limits `log`, and defaults for the rest.
    pub open spec fn built_from(self, entries: Seq<ServiceEntry>, log: LogConfig) -> bool {
        &&& self.services@.len() == entries.len()
        &&& forall|i: int|
            0 <= i < self.services@.len() ==> (#[trigger] self.services@[i]).resolves(entries[i])
        &&& self.log == log
        &&& self.restart.is_default()
        &&& self.stop.is_default()
    }

    /// Turns what the file says into a configuration, and validates it.
    ///
    /// # Errors
    ///
    /// Returns an error when `max_size` is no unit string, when a `name` is duplicated, when a
    /// `command` is empty, or when the `[log]` section's `max_size` is not positive or
    /// `max_generations` is not at least 1.
    pub fn parse(file: ConfigFile) -> (result: Result<Self, ConfigError>)
        ensures
            match result {
                Ok(config) => {
                    &&& config.log.resolves(file.log)
                    &&& config.built_from(file.services@, config.log)
                    &&& config.valid()
                },
                Err(ConfigError::Parse(reason)) => {
                    &&& file.log.max_size is Some
                    &&& stands_for(file.log.max_size->0@, Err(reason@))
                },
                Err(error) => exists|config: Config|
                    {
                        &&& #[trigger] config.built_from(file.services@, config.log)
                        &&& config.log.resolves(file.log)
                        &&& config.rejected_with(error)
                    },
            },
    {
        match LogConfig::from_section(&file.log) {
            Ok(log) => Config::build(file.services, log),
            Err(reason) => Err(ConfigError::Parse(reason)),
        }
    }

    /// Builds the configuration of these services and log limits, and validates it.
    ///
    /// # Errors
    ///
    /// See [`Config::validate`].
    pub fn build(entries: Vec<ServiceEntry>, log: LogConfig) -> (result: Result<Self, ConfigError>)
        ensures
            match result {
                Ok(config) => config.built_from(entries@, log) && config.valid(),
                Err(error) => exists|config: Config| #[trigger]
                    config.built_from(entries@, log) && config.rejected_with(error),
            },
    {
        let ghost all = entries@;
        let mut entries = entries;
        let mut services: Vec<Service> = Vec::new();
        while entries.len() > 0
            invariant
                services@.len() + entries@.len() == all.len(),
                entries@ == all.skip(services@.len() as int),
                forall|i: int|
                    0 <= i < services@.len() ==> (#[trigger] services@[i]).resolves(all[i]),
            decreases entries.len(),
        {
            let ghost before = entries@;
            let entry = entries.remove(0);
            services.push(Service::from_entry(entry));
            proof {
                assert(before[0] == all[services@.len() - 1]);
                assert(entries@ =~= all.skip(services@.len() as int));
            }
        }
        let config = Config {
            services,
            log,
            restart: RestartConfig::default(),
            stop: StopConfig::default(),
        };
        assert(config.built_from(all, log));
        match config.validate() {
            Ok(()) => Ok(config),
            Err(error) => Err(error),
        }
    }

    /// Checks the `[log]` section, that each `command` is non-empty, and that no name occurs
    /// twice.
    ///
    /// # Errors
    ///
    /// Returns an error when `max_size` is not positive, else when `max_generations` is not at
    /// least 1, else for the first service in the list that has an empty command or, with a
    /// command, a name that an earlier service has.
    pub fn validate(&self) -> (result: Result<(), ConfigError>)
        ensures
            match result {
                Ok(_) => self.valid(),
                Err(error) => self.rejected_with(error),
            },
    {
        if self.log.max_size == 0 {
            return Err(ConfigError::LogMaxSizeNotPositive);
        }
        if self.log.max_generations == 0 {
            return Err(ConfigError::LogMaxGenerationsTooSmall);
        }
        let mut seen = new_set();
        let mut i: usize = 0;
        while i < self.services.len()
            invariant
                i <= self.services.len(),
                self.valid_log(),
                forall|name: Seq<char>| #[trigger]
                    members(seen).contains(name) <==> exists|j: int|
                        0 <= j < i && #[trigger] self.services@[j].name@ == name,
                forall|j: int| 0 <= j < i ==> !#[trigger] faulty(self.services@, j),
            decreases self.services.len() - i,
        {
            let service = &self.services[i];
            if service.command.len() == 0 {
                assert(first_faulty(self.services@, i as int));
                return Err(ConfigError::EmptyCommand(service.name.clone()));
            }
            let ghost before = members(seen);
            if !insert_text(&mut seen, service.name.as_str()) {
                assert(repeats_a_name(self.services@, i as int));
                assert(first_faulty(self.services@, i as int));
                return Err(ConfigError::DuplicateName(service.name.clone()));
            }
            proof {
                assert forall|name: Seq<char>| #[trigger]
                    members(seen).contains(name) <==> exists|j: int|
                        0 <= j < i + 1 && #[trigger] self.services@[j].name@ == name by {
                    if members(seen).contains(name) && name != service.name@ {
                        assert(before.contains(name));
                    }
                    if name == service.name@ {
                        assert(self.services@[i as int].name@ == name);
                    } else if exists|j: int|
                        0 <= j < i + 1 && #[trigger] self.services@[j].name@ == name {
                        assert(before.contains(name));
                    }
                }
            }
            i = i + 1;
        }
        assert forall|a: int, b: int| 0 <= a < b < self.services@.len() implies (
        #[trigger] self.services@[a]).name@ != (#[trigger] self.services@[b]).name@ by {
            assert(!faulty(self.services@, b));
        }
        assert forall|a: int| 0 <= a < self.services@.len() implies (
        #[trigger] self.services@[a]).command@.len() > 0 by {
            assert(!faulty(self.services@, a));
        }
        Ok(())
    }
}

/// A configuration is valid or rejected, never both, and never for two different reasons.
pub proof fn law_rejection_is_unambiguous(config: Config, error: ConfigError, other: ConfigError)
    requires
        config.rejected_with(error),
    ensures
        !config.valid(),
        config.rejected_with(other) ==> error.text() == other.text(),
{
    if let ConfigError::EmptyCommand(_) | ConfigError::DuplicateName(_) = error {
        let i = choose|i: int| #[trigger] first_faulty(config.services@, i);
        assert(faulty(config.services@, i));
        if config.services@[i].command@.len() > 0 {
            let j = choose|j: int|
                0 <= j < i && #[trigger] config.services@[j].name@ == config.services@[i].name@;
            assert(config.services@[j].name@ == config.services@[i].name@);
        }
        assert forall|k: int| #[trigger] first_faulty(config.services@, k) implies k == i by {
            if k < i {
                assert(faulty(config.services@, k));
            } else if i < k {
                assert(faulty(config.services@, i));
            }
        }
    }
}

/// Where the configuration file is looked for, given the value of `XDG_CONFIG_HOME` and the home
/// directory.
pub open spec fn config_file(xdg_config_home: Option<Seq<u8>>, home: Option<Seq<u8>>) -> Option<
    Seq<u8>,
> {
    let directory = match (xdg_config_home, home) {
        (Some(value), _) if absolute(value) => Some(value),
        (_, Some(home)) => Some(joined(home, encode_utf8(".config"@))),
        _ => None,
    };
    match directory {
        Some(directory) => Some(
            joined(joined(directory, encode_utf8("shepherdr"@)), encode_utf8("config.toml"@)),
        ),
        None => None,
    }
}

/// Resolves the default configuration file path from the value of `XDG_CONFIG_HOME` and the home
/// directory, each `None` when it is not set.
///
/// Uses `$XDG_CONFIG_HOME/shepherdr/config.toml` when `XDG_CONFIG_HOME` is set to an absolute
/// path, otherwise falls back to `~/.config/shepherdr/config.toml`. A relative or empty
/// `XDG_CONFIG_HOME` is ignored.
///
/// # Errors
///
/// Returns [`ConfigError::HomeDirNotFound`] when the fallback is needed and there is no home.
pub fn config_path(xdg_config_home: Option<Vec<u8>>, home: Option<Vec<u8>>) -> (path: Result<
    Vec<u8>,
    ConfigError,
>)
    ensures
        ({
            let xdg = match xdg_config_home {
                Some(value) => Some(value@),
                None => None,
            };
            let home = match home {
                Some(value) => Some(value@),
                None => None,
            };
            match path {
                Ok(path) => config_file(xdg, home) == Some(path@),
                Err(error) => config_file(xdg, home) is None && error
                    == ConfigError::HomeDirNotFound,
            }
        }),
{
    let mut config_home: Option<Vec<u8>> = None;
    if let Some(value) = xdg_config_home {
        if is_absolute(value.as_slice()) {
            config_home = Some(value);
        }
    }
    let config_home: Vec<u8> = match config_home {
        Some(value) => value,
        None => match home {
            Some(home) => join(home.as_slice(), ".config".as_bytes()),
            None => {
                return Err(ConfigError::HomeDirNotFound);
            },
        },
    };
    let directory = join(config_home.as_slice(), "shepherdr".as_bytes());
    Ok(join(directory.as_slice(), "config.toml".as_bytes()))
}

/// A configuration is valid exactly when its log limits are positive, every service has something
/// to run, whether it is enabled or not, and no two services, wherever they stand, share a name.
pub proof fn law_valid_means_usable(config: Config)
    ensures
        config.valid() <==> {
            &&& config.log.max_size >= 1
            &&& config.log.max_generations >= 1
            &&& forall|i: int|
                0 <= i < config.services@.len() ==> (#[trigger] config.services@[i]).command@.len()
                    >= 1
            &&& forall|i: int, j: int|
                0 <= i < config.services@.len() && 0 <= j < config.services@.len() && i != j ==> (
                #[trigger] config.services@[i]).name@ != (#[trigger] config.services@[j]).name@
        },
{
    if config.valid() {
        assert forall|i: int, j: int|
            0 <= i < config.services@.len() && 0 <= j < config.services@.len() && i != j implies (
        #[trigger] config.services@[i]).name@ != (#[trigger] config.services@[j]).name@ by {
            if j < i {
                assert(config.services@[j].name@ != config.services@[i].name@);
            }
        }
    }
}

/// A rejection names what is wrong: with an empty command, a service of that name has none; with a
/// duplicate name, two services have it, and the later one has a command.
pub proof fn law_rejection_names_the_fault(config: Config, error: ConfigError)
    requires
        config.rejected_with(error),
    ensures
        match error {
            ConfigError::EmptyCommand(name) => exists|i: int|
                0 <= i < config.services@.len() && (#[trigger] config.services@[i]).name@ == name@
                    && config.services@[i].command@.len() == 0,
            ConfigError::DuplicateName(name) => exists|i: int, j: int|
                0 <= i < j < config.services@.len() && (#[trigger] config.services@[i]).name@
                    == name@ && (#[trigger] config.services@[j]).name@ == name@
                    && config.services@[j].command@.len() > 0,
            ConfigError::LogMaxSizeNotPositive => config.log.max_size == 0,
            ConfigError::LogMaxGenerationsTooSmall => config.log.max_generations == 0,
            _ => false,
        },
{
    match error {
        ConfigError::EmptyCommand(name) => {
            let i = choose|i: int|
                {
                    &&& #[trigger] first_faulty(config.services@, i)
                    &&& config.services@[i].command@.len() == 0
                    &&& config.services@[i].name@ == name@
                };
            assert(config.services@[i].name@ == name@);
        },
        ConfigError::DuplicateName(name) => {
            let j = choose|i: int|
                {
                    &&& #[trigger] first_faulty(config.services@, i)
                    &&& config.services@[i].command@.len() > 0
                    &&& config.services@[i].name@ == name@
                };
            let i = choose|i: int|
                0 <= i < j && #[trigger] config.services@[i].name@ == config.services@[j].name@;
            assert(config.services@[i].name@ == name@ && config.services@[j].name@ == name@);
        },
        _ => {},
    }
}

/// What the file says of a service is taken as it stands, each key by itself, and a key that is
/// left out is the same as one that spells its default out.
pub proof fn law_keys_are_taken_as_they_stand(service: Service, entry: ServiceEntry)
    ensures
        service.resolves(entry) ==> {
            &&& service.name == entry.name
            &&& service.command == entry.command
            &&& service.cwd == entry.cwd
            &&& entry.enabled is Some ==> service.enabled == entry.enabled->0
            &&& entry.login_shell is Some ==> service.login_shell == entry.login_shell->0
            &&& entry.env is Some ==> service.env == entry.env->0
        },
        entry.enabled is None ==> (service.resolves(entry) <==> service.resolves(
            (ServiceEntry { enabled: Some(true), ..entry }),
        )),
        entry.login_shell is None ==> (service.resolves(entry) <==> service.resolves(
            (ServiceEntry { login_shell: Some(false), ..entry }),
        )),
        entry.env is None && service.resolves(entry) ==> entries(service.env).dom()
            =~= Set::<Seq<char>>::empty(),
{
}

/// The limits of the log are taken likewise: a number of generations as it stands, a whole number
/// of units as that many bytes, and what is left out as its default.
pub proof fn law_log_limits_are_taken_as_they_stand(
    log: LogConfig,
    section: LogSection,
    count: u64,
    unit: Seq<char>,
)
    requires
        log.resolves(section),
    ensures
        section.max_generations is Some ==> log.max_generations == section.max_generations->0,
        section.max_generations is None ==> log.max_generations == 5,
        section.max_size is None ==> log.max_size == 10_485_760,
        section.max_size is Some && section.max_size->0@ == decimal(count as nat) + unit
            && unit_factor(unit) is Some && count * unit_factor(unit)->0 <= u64::MAX
            ==> log.max_size == count * unit_factor(unit)->0,
{
}

} // verus!
