use opus_daemon::backoff::{backoff, deadline, has_elapsed, BackoffPolicy};
use opus_daemon::config::{
    config_file_name, policy_from_name, resolve, CliOptions, Config, ConfigError, LoadedSettings, DEFAULT_MAX_RETRIES,
    DEFAULT_QUEUE_CAPACITY, DEFAULT_RETRY_BACKOFF_MS, DEFAULT_SETTLE_DELAY_MS, DEFAULT_WORKER_COUNT,
};

fn silent_cli() -> CliOptions {
    CliOptions { debug: None, verbose: false, config: None, watch_dir: None, output_dir: None }
}

fn silent_settings() -> LoadedSettings {
    LoadedSettings {
        settle_delay: None,
        queue_capacity: None,
        worker_count: None,
        max_retries: None,
        retry_backoff: None,
        backoff_policy: None,
    }
}

#[test]
fn nothing_given_nothing_invented() {
    let s = resolve(&silent_cli(), &silent_settings());
    assert_eq!(s.watch_dir, ".");
    assert_eq!(s.output_dir, "output");
    assert_eq!(s.debug, false);
    assert_eq!(s.verbose, false);
    assert_eq!(s.settle_delay, None);
    assert_eq!(s.queue_capacity, None);
    assert_eq!(s.worker_count, None);
    assert_eq!(s.max_retries, None);
    assert_eq!(s.retry_backoff, None);
    assert_eq!(s.backoff_policy, None);
}

#[test]
fn defaults_when_nothing_is_given() {
    let c = resolve(&silent_cli(), &silent_settings()).with_defaults();
    assert_eq!(c.watch_dir, ".");
    assert_eq!(c.output_dir, "output");
    assert_eq!(c.debug, false);
    assert_eq!(c.verbose, false);
    assert_eq!(c.settle_delay, 2000);
    assert_eq!(c.settle_delay, DEFAULT_SETTLE_DELAY_MS);
    assert_eq!(c.queue_capacity, DEFAULT_QUEUE_CAPACITY);
    assert_eq!(c.worker_count, DEFAULT_WORKER_COUNT);
    assert_eq!(c.max_retries, DEFAULT_MAX_RETRIES);
    assert_eq!(c.retry_backoff, DEFAULT_RETRY_BACKOFF_MS);
    assert_eq!(c.backoff_policy, BackoffPolicy::Fixed);
    assert_eq!(c.validate(), Ok(()));
}

#[test]
fn command_line_sets_flags_and_directories() {
    let cli = CliOptions {
        debug: Some(true),
        verbose: true,
        config: Some("daemon.toml".to_string()),
        watch_dir: Some("/music/in".to_string()),
        output_dir: Some("/music/out".to_string()),
    };
    let c = resolve(&cli, &silent_settings());
    assert_eq!(c.watch_dir, "/music/in");
    assert_eq!(c.output_dir, "/music/out");
    assert!(c.debug);
    assert!(c.verbose);
    assert_eq!(config_file_name(&cli), "daemon.toml");
}

#[test]
fn debug_can_be_switched_off_explicitly() {
    let mut cli = silent_cli();
    cli.debug = Some(false);
    assert!(!resolve(&cli, &silent_settings()).debug);
}

#[test]
fn settings_file_name_defaults_to_config() {
    assert_eq!(config_file_name(&silent_cli()), "config");
}

#[test]
fn loaded_settings_set_the_limits() {
    let loaded = LoadedSettings {
        settle_delay: Some(500),
        queue_capacity: Some(2),
        worker_count: Some(8),
        max_retries: Some(0),
        retry_backoff: Some(250),
        backoff_policy: Some(BackoffPolicy::Exponential),
    };
    let s = resolve(&silent_cli(), &loaded);
    assert_eq!(s.settle_delay, Some(500));
    assert_eq!(s.queue_capacity, Some(2));
    assert_eq!(s.worker_count, Some(8));
    assert_eq!(s.max_retries, Some(0));
    assert_eq!(s.retry_backoff, Some(250));
    assert_eq!(s.backoff_policy, Some(BackoffPolicy::Exponential));
    let c = s.with_defaults();
    assert_eq!(c.settle_delay, 500);
    assert_eq!(c.queue_capacity, 2);
    assert_eq!(c.worker_count, 8);
    assert_eq!(c.max_retries, 0);
    assert_eq!(c.retry_backoff, 250);
    assert_eq!(c.backoff_policy, BackoffPolicy::Exponential);
    assert_eq!(c.watch_dir, ".");
    assert_eq!(c.output_dir, "output");
}

fn valid() -> Config {
    resolve(&silent_cli(), &silent_settings()).with_defaults()
}

#[test]
fn empty_watch_dir_is_refused() {
    let mut c = valid();
    c.watch_dir = String::new();
    assert_eq!(c.validate(), Err(ConfigError::EmptyWatchDir));
}

#[test]
fn empty_output_dir_is_refused() {
    let mut c = valid();
    c.output_dir = String::new();
    assert_eq!(c.validate(), Err(ConfigError::EmptyOutputDir));
}

#[test]
fn zero_queue_capacity_is_refused() {
    let mut c = valid();
    c.queue_capacity = 0;
    assert_eq!(c.validate(), Err(ConfigError::ZeroQueueCapacity));
}

#[test]
fn zero_worker_count_is_refused() {
    let mut c = valid();
    c.worker_count = 0;
    assert_eq!(c.validate(), Err(ConfigError::ZeroWorkerCount));
}

#[test]
fn first_defect_is_reported() {
    let mut c = valid();
    c.watch_dir = String::new();
    c.output_dir = String::new();
    c.queue_capacity = 0;
    c.worker_count = 0;
    assert_eq!(c.validate(), Err(ConfigError::EmptyWatchDir));
    c.watch_dir = "in".to_string();
    assert_eq!(c.validate(), Err(ConfigError::EmptyOutputDir));
    c.output_dir = "out".to_string();
    assert_eq!(c.validate(), Err(ConfigError::ZeroQueueCapacity));
    c.queue_capacity = 1;
    assert_eq!(c.validate(), Err(ConfigError::ZeroWorkerCount));
    c.worker_count = 1;
    assert_eq!(c.validate(), Ok(()));
}

#[test]
fn zero_delays_and_zero_retries_are_valid() {
    let mut c = valid();
    c.settle_delay = 0;
    c.retry_backoff = 0;
    c.max_retries = 0;
    assert_eq!(c.validate(), Ok(()));
}

#[test]
fn duplicate_keeps_every_field() {
    let mut c = valid();
    c.watch_dir = "/a".to_string();
    c.output_dir = "/b".to_string();
    c.settle_delay = 1;
    c.queue_capacity = 2;
    c.worker_count = 3;
    c.max_retries = 4;
    c.retry_backoff = 5;
    c.backoff_policy = BackoffPolicy::Exponential;
    c.debug = true;
    c.verbose = true;
    let d = c.duplicate();
    assert_eq!(d.watch_dir, "/a");
    assert_eq!(d.output_dir, "/b");
    assert_eq!(d.settle_delay, 1);
    assert_eq!(d.queue_capacity, 2);
    assert_eq!(d.worker_count, 3);
    assert_eq!(d.max_retries, 4);
    assert_eq!(d.retry_backoff, 5);
    assert_eq!(d.backoff_policy, BackoffPolicy::Exponential);
    assert!(d.debug);
    assert!(d.verbose);
}

#[test]
fn fixed_backoff_is_the_base_delay() {
    assert_eq!(backoff(BackoffPolicy::Fixed, 250, 1), 250);
    assert_eq!(backoff(BackoffPolicy::Fixed, 250, 2), 250);
    assert_eq!(backoff(BackoffPolicy::Fixed, 250, 40), 250);
    assert_eq!(backoff(BackoffPolicy::Fixed, 0, 3), 0);
    assert_eq!(backoff(BackoffPolicy::Fixed, u64::MAX, 3), u64::MAX);
}

#[test]
fn exponential_backoff_doubles_with_each_retry() {
    assert_eq!(backoff(BackoffPolicy::Exponential, 100, 0), 100);
    assert_eq!(backoff(BackoffPolicy::Exponential, 100, 1), 100);
    assert_eq!(backoff(BackoffPolicy::Exponential, 100, 2), 200);
    assert_eq!(backoff(BackoffPolicy::Exponential, 100, 3), 400);
    assert_eq!(backoff(BackoffPolicy::Exponential, 100, 4), 800);
    assert_eq!(backoff(BackoffPolicy::Exponential, 3, 11), 3072);
    assert_eq!(backoff(BackoffPolicy::Exponential, 0, 7), 0);
}

#[test]
fn exponential_backoff_saturates() {
    assert_eq!(backoff(BackoffPolicy::Exponential, 1, 64), 1u64 << 63);
    assert_eq!(backoff(BackoffPolicy::Exponential, 1, 65), u64::MAX);
    assert_eq!(backoff(BackoffPolicy::Exponential, 1, u32::MAX), u64::MAX);
    assert_eq!(backoff(BackoffPolicy::Exponential, u64::MAX, 2), u64::MAX);
    assert_eq!(backoff(BackoffPolicy::Exponential, u64::MAX / 2, 2), u64::MAX - 1);
    assert_eq!(backoff(BackoffPolicy::Exponential, u64::MAX / 2 + 1, 2), u64::MAX);
    assert_eq!(backoff(BackoffPolicy::Exponential, 1000, 200), u64::MAX);
}

#[test]
fn deadline_adds_and_saturates() {
    assert_eq!(deadline(900, 500), 1400);
    assert_eq!(deadline(0, 0), 0);
    assert_eq!(deadline(u64::MAX - 1, 1), u64::MAX);
    assert_eq!(deadline(u64::MAX, 1), u64::MAX);
    assert_eq!(deadline(u64::MAX - 5, 100), u64::MAX);
}

#[test]
fn elapsed_needs_the_whole_delay() {
    assert!(has_elapsed(900, 500, 1400));
    assert!(has_elapsed(900, 500, 1401));
    assert!(!has_elapsed(900, 500, 1399));
    assert!(!has_elapsed(900, 500, 0));
    assert!(has_elapsed(900, 0, 900));
    assert!(!has_elapsed(900, 0, 899));
    // a delay that reaches past the end of time never runs out
    assert!(!has_elapsed(u64::MAX, 1, u64::MAX));
    assert!(has_elapsed(u64::MAX - 1, 1, u64::MAX));
}

#[test]
fn backoff_policies_by_name() {
    assert_eq!(policy_from_name("fixed"), Some(BackoffPolicy::Fixed));
    assert_eq!(policy_from_name("exponential"), Some(BackoffPolicy::Exponential));
    assert_eq!(policy_from_name("Fixed"), None);
    assert_eq!(policy_from_name("fixed "), None);
    assert_eq!(policy_from_name("fix"), None);
    assert_eq!(policy_from_name(""), None);
    assert_eq!(policy_from_name("linear"), None);
}

#[test]
fn defaults_fill_only_what_is_absent() {
    let mut loaded = silent_settings();
    loaded.queue_capacity = Some(7);
    loaded.retry_backoff = Some(0);
    let mut cli = silent_cli();
    cli.verbose = true;
    cli.output_dir = Some("/out".to_string());
    let s = resolve(&cli, &loaded);
    assert_eq!(s.queue_capacity, Some(7));
    assert_eq!(s.settle_delay, None);
    let c = s.with_defaults();
    assert_eq!(c.queue_capacity, 7);
    assert_eq!(c.retry_backoff, 0);
    assert_eq!(c.settle_delay, DEFAULT_SETTLE_DELAY_MS);
    assert_eq!(c.worker_count, DEFAULT_WORKER_COUNT);
    assert_eq!(c.max_retries, DEFAULT_MAX_RETRIES);
    assert_eq!(c.backoff_policy, BackoffPolicy::Fixed);
    assert_eq!(c.output_dir, "/out");
    assert_eq!(c.watch_dir, ".");
    assert!(c.verbose);
    assert!(!c.debug);
}
