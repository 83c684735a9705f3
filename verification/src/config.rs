//! The configuration the core runs with, and how it comes about: the settings that the
//! command line and the loaded sources give, and the defaults that fill what they leave
//! absent.

use vstd::prelude::*;
use vstd::string::*;
use crate::backoff::BackoffPolicy;
use crate::path::{chars_of, tail_equals};

verus! {

/// Quiet period, in milliseconds, when none is configured.
pub const DEFAULT_SETTLE_DELAY_MS: u64 = 2000;

/// Queue capacity when none is configured.
pub const DEFAULT_QUEUE_CAPACITY: usize = 64;

/// Number of workers when none is configured.
pub const DEFAULT_WORKER_COUNT: usize = 2;

/// Retries after the first attempt when none is configured.
pub const DEFAULT_MAX_RETRIES: u32 = 3;

/// Base delay before a retry, in milliseconds, when none is configured.
pub const DEFAULT_RETRY_BACKOFF_MS: u64 = 1000;

/// The configuration the core consumes; read-only for its lifetime.
#[derive(Debug)]
pub struct Config {
    /// Root of the tree that is observed.
    pub watch_dir: String,
    /// Root that receives the output; never matched by the watch.
    pub output_dir: String,
    /// Milliseconds a path must stay quiet before it is handed on.
    pub settle_delay: u64,
    /// Jobs the queue holds before producers wait.
    pub queue_capacity: usize,
    /// Jobs that may run at the same time.
    pub worker_count: usize,
    /// Retries granted after a transient failure.
    pub max_retries: u32,
    /// Base delay before a retry, in milliseconds.
    pub retry_backoff: u64,
    /// How that delay grows.
    pub backoff_policy: BackoffPolicy,
    /// Affects observability only.
    pub debug: bool,
    /// Affects observability only.
    pub verbose: bool,
}

/// Mathematical content of a [`Config`].
pub struct ConfigView {
    pub watch_dir: Seq<char>,
    pub output_dir: Seq<char>,
    pub settle_delay: u64,
    pub queue_capacity: usize,
    pub worker_count: usize,
    pub max_retries: u32,
    pub retry_backoff: u64,
    pub backoff_policy: BackoffPolicy,
    pub debug: bool,
    pub verbose: bool,
}

impl View for Config {
    type V = ConfigView;

    open spec fn view(&self) -> ConfigView {
        ConfigView {
            watch_dir: self.watch_dir@,
            output_dir: self.output_dir@,
            settle_delay: self.settle_delay,
            queue_capacity: self.queue_capacity,
            worker_count: self.worker_count,
            max_retries: self.max_retries,
            retry_backoff: self.retry_backoff,
            backoff_policy: self.backoff_policy,
            debug: self.debug,
            verbose: self.verbose,
        }
    }
}

/// Why a configuration cannot be run with.
#[derive(Clone, Copy, Debug, PartialEq, Eq, Structural)]
pub enum ConfigError {
    EmptyWatchDir,
    EmptyOutputDir,
    ZeroQueueCapacity,
    ZeroWorkerCount,
}

impl ConfigView {
    /// A configuration is usable when both directories are named and the queue and the
    /// pool each have room for at least one job.
    pub open spec fn valid(self) -> bool {
        &&& self.watch_dir.len() > 0
        &&& self.output_dir.len() > 0
        &&& self.queue_capacity >= 1
        &&& self.worker_count >= 1
    }

    /// The first defect of the configuration, in the order of the variants of
    /// [`ConfigError`], or `Ok` when it is valid.
    pub open spec fn check(self) -> Result<(), ConfigError> {
        if self.watch_dir.len() == 0 {
            Err(ConfigError::EmptyWatchDir)
        } else if self.output_dir.len() == 0 {
            Err(ConfigError::EmptyOutputDir)
        } else if self.queue_capacity == 0 {
            Err(ConfigError::ZeroQueueCapacity)
        } else if self.worker_count == 0 {
            Err(ConfigError::ZeroWorkerCount)
        } else {
            Ok(())
        }
    }
}

/// What the command line may set.
#[derive(Debug)]
pub struct CliOptions {
    pub debug: Option<bool>,
    pub verbose: bool,
    /// Name of the settings file.
    pub config: Option<String>,
    pub watch_dir: Option<String>,
    pub output_dir: Option<String>,
}

/// Mathematical content of [`CliOptions`].
pub struct CliOptionsView {
    pub debug: Option<bool>,
    pub verbose: bool,
    pub config: Option<Seq<char>>,
    pub watch_dir: Option<Seq<char>>,
    pub output_dir: Option<Seq<char>>,
}

/// The view of an optional string.
pub open spec fn opt_view(s: Option<String>) -> Option<Seq<char>> {
    match s {
        Some(x) => Some(x@),
        None => None,
    }
}

impl View for CliOptions {
    type V = CliOptionsView;

    open spec fn view(&self) -> CliOptionsView {
        CliOptionsView {
            debug: self.debug,
            verbose: self.verbose,
            config: opt_view(self.config),
            watch_dir: opt_view(self.watch_dir),
            output_dir: opt_view(self.output_dir),
        }
    }
}

/// What the settings file and the environment may set; `None` where they are silent.
#[derive(Clone, Copy, Debug)]
pub struct LoadedSettings {
    pub settle_delay: Option<u64>,
    pub queue_capacity: Option<usize>,
    pub worker_count: Option<usize>,
    pub max_retries: Option<u32>,
    pub retry_backoff: Option<u64>,
    pub backoff_policy: Option<BackoffPolicy>,
}

/// The backoff policy that a settings file names: `fixed` or `exponential`.
pub open spec fn policy_named(name: Seq<char>) -> Option<BackoffPolicy> {
    if name == "fixed"@ {
        Some(BackoffPolicy::Fixed)
    } else if name == "exponential"@ {
        Some(BackoffPolicy::Exponential)
    } else {
        None
    }
}

/// The backoff policy called `name`, if there is one of that name.
pub fn policy_from_name(name: &str) -> (r: Option<BackoffPolicy>)
    ensures
        r == policy_named(name@),
{
    let n = chars_of(name);
    assert(n@.skip(0) =~= n@);
    if tail_equals(&n, 0, &chars_of("fixed")) {
        Some(BackoffPolicy::Fixed)
    } else if tail_equals(&n, 0, &chars_of("exponential")) {
        Some(BackoffPolicy::Exponential)
    } else {
        None
    }
}

/// `value` if there is one, else `default`.
pub open spec fn or_default<T>(value: Option<T>, default: T) -> T {
    match value {
        Some(v) => v,
        None => default,
    }
}

/// Name of the settings file: the one given on the command line, else `config`.
pub open spec fn settings_name(cli: CliOptionsView) -> Seq<char> {
    or_default(cli.config, "config"@)
}

/// What the command line, the settings file and the environment say together. The two
/// flags and the two directories are settled; every limit is as it was loaded, and
/// absent where nothing was loaded.
#[derive(Debug)]
pub struct Settings {
    pub watch_dir: String,
    pub output_dir: String,
    pub debug: bool,
    pub verbose: bool,
    pub settle_delay: Option<u64>,
    pub queue_capacity: Option<usize>,
    pub worker_count: Option<usize>,
    pub max_retries: Option<u32>,
    pub retry_backoff: Option<u64>,
    pub backoff_policy: Option<BackoffPolicy>,
}

/// Mathematical content of [`Settings`].
pub struct SettingsView {
    pub watch_dir: Seq<char>,
    pub output_dir: Seq<char>,
    pub debug: bool,
    pub verbose: bool,
    pub settle_delay: Option<u64>,
    pub queue_capacity: Option<usize>,
    pub worker_count: Option<usize>,
    pub max_retries: Option<u32>,
    pub retry_backoff: Option<u64>,
    pub backoff_policy: Option<BackoffPolicy>,
}

impl View for Settings {
    type V = SettingsView;

    open spec fn view(&self) -> SettingsView {
        SettingsView {
            watch_dir: self.watch_dir@,
            output_dir: self.output_dir@,
            debug: self.debug,
            verbose: self.verbose,
            settle_delay: self.settle_delay,
            queue_capacity: self.queue_capacity,
            worker_count: self.worker_count,
            max_retries: self.max_retries,
            retry_backoff: self.retry_backoff,
            backoff_policy: self.backoff_policy,
        }
    }
}

/// The settings that result from the command line and from what was loaded. The two
/// flags and the two directories are the command line's alone: where it is silent,
/// debugging is off, the current directory is watched and the output goes to
/// `output`, whatever was loaded. On every other setting the command line has no say:
/// it is what was loaded, and absent where nothing was.
pub open spec fn resolved(cli: CliOptionsView, loaded: LoadedSettings) -> SettingsView {
    SettingsView {
        watch_dir: or_default(cli.watch_dir, "."@),
        output_dir: or_default(cli.output_dir, "output"@),
        debug: or_default(cli.debug, false),
        verbose: cli.verbose,
        settle_delay: loaded.settle_delay,
        queue_capacity: loaded.queue_capacity,
        worker_count: loaded.worker_count,
        max_retries: loaded.max_retries,
        retry_backoff: loaded.retry_backoff,
        backoff_policy: loaded.backoff_policy,
    }
}

/// The configuration the pipeline runs with under the given settings: every limit
/// that the settings leave absent takes its default, and the backoff is fixed unless
/// the settings say otherwise.
pub open spec fn completed(s: SettingsView) -> ConfigView {
    ConfigView {
        watch_dir: s.watch_dir,
        output_dir: s.output_dir,
        settle_delay: or_default(s.settle_delay, DEFAULT_SETTLE_DELAY_MS),
        queue_capacity: or_default(s.queue_capacity, DEFAULT_QUEUE_CAPACITY),
        worker_count: or_default(s.worker_count, DEFAULT_WORKER_COUNT),
        max_retries: or_default(s.max_retries, DEFAULT_MAX_RETRIES),
        retry_backoff: or_default(s.retry_backoff, DEFAULT_RETRY_BACKOFF_MS),
        backoff_policy: or_default(s.backoff_policy, BackoffPolicy::Fixed),
        debug: s.debug,
        verbose: s.verbose,
    }
}

/// A copy of `value` if there is one, else `default` as a string.
fn string_or(value: &Option<String>, default: &str) -> (s: String)
    ensures
        s@ == or_default(opt_view(*value), default@),
{
    match value {
        Some(v) => v.clone(),
        None => String::from_str(default),
    }
}

/// Name of the settings file to load.
pub fn config_file_name(cli: &CliOptions) -> (name: String)
    ensures
        name@ == settings_name(cli@),
{
    string_or(&cli.config, "config")
}

/// Puts the settings together from the command line and from what was loaded.
pub fn resolve(cli: &CliOptions, loaded: &LoadedSettings) -> (s: Settings)
    ensures
        s@ == resolved(cli@, *loaded),
{
    Settings {
        watch_dir: string_or(&cli.watch_dir, "."),
        output_dir: string_or(&cli.output_dir, "output"),
        debug: match cli.debug {
            Some(v) => v,
            None => false,
        },
        verbose: cli.verbose,
        settle_delay: loaded.settle_delay,
        queue_capacity: loaded.queue_capacity,
        worker_count: loaded.worker_count,
        max_retries: loaded.max_retries,
        retry_backoff: loaded.retry_backoff,
        backoff_policy: loaded.backoff_policy,
    }
}

impl Settings {
    /// The configuration the pipeline runs with under these settings: what they give,
    /// and the default wherever they give nothing.
    pub fn with_defaults(&self) -> (c: Config)
        ensures
            c@ == completed(self@),
    {
        Config {
            watch_dir: self.watch_dir.clone(),
            output_dir: self.output_dir.clone(),
            settle_delay: match self.settle_delay {
                Some(v) => v,
                None => DEFAULT_SETTLE_DELAY_MS,
            },
            queue_capacity: match self.queue_capacity {
                Some(v) => v,
                None => DEFAULT_QUEUE_CAPACITY,
            },
            worker_count: match self.worker_count {
                Some(v) => v,
                None => DEFAULT_WORKER_COUNT,
            },
            max_retries: match self.max_retries {
                Some(v) => v,
                None => DEFAULT_MAX_RETRIES,
            },
            retry_backoff: match self.retry_backoff {
                Some(v) => v,
                None => DEFAULT_RETRY_BACKOFF_MS,
            },
            backoff_policy: match self.backoff_policy {
                Some(v) => v,
                None => BackoffPolicy::Fixed,
            },
            debug: self.debug,
            verbose: self.verbose,
        }
    }
}

impl Config {
    /// Says whether the configuration can be run with, and if not, what is wrong first.
    pub fn validate(&self) -> (r: Result<(), ConfigError>)
        ensures
            r == self@.check(),
            r is Ok <==> self@.valid(),
    {
        if self.watch_dir.as_str().is_empty() {
            Err(ConfigError::EmptyWatchDir)
        } else if self.output_dir.as_str().is_empty() {
            Err(ConfigError::EmptyOutputDir)
        } else if self.queue_capacity == 0 {
            Err(ConfigError::ZeroQueueCapacity)
        } else if self.worker_count == 0 {
            Err(ConfigError::ZeroWorkerCount)
        } else {
            Ok(())
        }
    }

    /// A copy of this configuration.
    pub fn duplicate(&self) -> (c: Config)
        ensures
            c@ == self@,
    {
        Config {
            watch_dir: self.watch_dir.clone(),
            output_dir: self.output_dir.clone(),
            settle_delay: self.settle_delay,
            queue_capacity: self.queue_capacity,
            worker_count: self.worker_count,
            max_retries: self.max_retries,
            retry_backoff: self.retry_backoff,
            backoff_policy: self.backoff_policy,
            debug: self.debug,
            verbose: self.verbose,
        }
    }
}

} // verus!
