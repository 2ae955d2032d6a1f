//! The layering of settings: defaults, then the configuration file, then the
//! environment. Reading the file and the environment happens outside the
//! library; the rules by which the layers combine are here.

use crate::common::text::str_eq;
use crate::config::settings::{
    opt_text, CaptureConfig, CaptureConfigView, LoggingConfig, LoggingConfigView, Settings,
    SettingsView, StorageConfig, StorageConfigView,
};
use vstd::prelude::*;
use vstd::string::*;

verus! {

/// The first of two optional values that is present.
pub open spec fn first_present<T>(a: Option<T>, b: Option<T>) -> Option<T> {
    if a is Some {
        a
    } else {
        b
    }
}

/// A limit of the overriding layer where it sets one (non-zero), else the
/// base layer's.
pub open spec fn limit_override(base: u64, over: u64) -> u64 {
    if over > 0 {
        over
    } else {
        base
    }
}

/// Capture settings of `over` laid over `base`: names, filter and limits
/// where `over` sets them, the other values from `over`.
pub open spec fn merged_capture(base: CaptureConfigView, over: CaptureConfigView) -> CaptureConfigView {
    CaptureConfigView {
        interface: first_present(over.interface, base.interface),
        filter: first_present(over.filter, base.filter),
        promiscuous: over.promiscuous,
        count: limit_override(base.count, over.count),
        duration: limit_override(base.duration, over.duration),
        buffer_size: over.buffer_size,
        sampling_threshold: over.sampling_threshold,
    }
}

/// Storage settings of `over` laid over `base`.
pub open spec fn merged_storage(base: StorageConfigView, over: StorageConfigView) -> StorageConfigView {
    StorageConfigView {
        db_path: first_present(over.db_path, base.db_path),
        pcap_dir: first_present(over.pcap_dir, base.pcap_dir),
        retention_days: over.retention_days,
        batch_size: over.batch_size,
        batch_interval_ms: over.batch_interval_ms,
    }
}

/// Logging settings of `over` laid over `base`: a level other than the
/// default `info` wins, JSON output is on where either layer turns it on.
pub open spec fn merged_logging(base: LoggingConfigView, over: LoggingConfigView) -> LoggingConfigView {
    LoggingConfigView {
        level: if over.level != "info"@ {
            over.level
        } else {
            base.level
        },
        log_dir: first_present(over.log_dir, base.log_dir),
        max_log_size_mb: over.max_log_size_mb,
        max_log_files: over.max_log_files,
        json_format: over.json_format || base.json_format,
    }
}

/// All settings of `over` laid over `base`.
pub open spec fn merged_settings(base: SettingsView, over: SettingsView) -> SettingsView {
    SettingsView {
        capture: merged_capture(base.capture, over.capture),
        storage: merged_storage(base.storage, over.storage),
        logging: merged_logging(base.logging, over.logging),
    }
}

fn first_present_string(a: Option<String>, b: Option<String>) -> (r: Option<String>)
    ensures
        opt_text(r) == first_present(opt_text(a), opt_text(b)),
{
    match a {
        Some(s) => Some(s),
        None => b,
    }
}

/// Lays the capture settings `override_cfg` over `base`.
pub fn merge_capture(base: CaptureConfig, override_cfg: CaptureConfig) -> (r: CaptureConfig)
    ensures
        r@ == merged_capture(base@, override_cfg@),
{
    CaptureConfig {
        interface: first_present_string(override_cfg.interface, base.interface),
        filter: first_present_string(override_cfg.filter, base.filter),
        promiscuous: override_cfg.promiscuous,
        count: if override_cfg.count > 0 {
            override_cfg.count
        } else {
            base.count
        },
        duration: if override_cfg.duration > 0 {
            override_cfg.duration
        } else {
            base.duration
        },
        buffer_size: override_cfg.buffer_size,
        sampling_threshold: override_cfg.sampling_threshold,
    }
}

/// Lays the storage settings `override_cfg` over `base`.
pub fn merge_storage(base: StorageConfig, override_cfg: StorageConfig) -> (r: StorageConfig)
    ensures
        r@ == merged_storage(base@, override_cfg@),
{
    StorageConfig {
        db_path: first_present_string(override_cfg.db_path, base.db_path),
        pcap_dir: first_present_string(override_cfg.pcap_dir, base.pcap_dir),
        retention_days: override_cfg.retention_days,
        batch_size: override_cfg.batch_size,
        batch_interval_ms: override_cfg.batch_interval_ms,
    }
}

/// Lays the logging settings `override_cfg` over `base`.
pub fn merge_logging(base: LoggingConfig, override_cfg: LoggingConfig) -> (r: LoggingConfig)
    ensures
        r@ == merged_logging(base@, override_cfg@),
{
    let keep_base_level = str_eq(override_cfg.level.as_str(), "info");
    LoggingConfig {
        level: if !keep_base_level {
            override_cfg.level
        } else {
            base.level
        },
        log_dir: first_present_string(override_cfg.log_dir, base.log_dir),
        max_log_size_mb: override_cfg.max_log_size_mb,
        max_log_files: override_cfg.max_log_files,
        json_format: override_cfg.json_format || base.json_format,
    }
}

/// Lays the settings `override_settings` over `base`.
pub fn merge_settings(base: Settings, override_settings: Settings) -> (r: Settings)
    ensures
        r@ == merged_settings(base@, override_settings@),
{
    Settings {
        capture: merge_capture(base.capture, override_settings.capture),
        storage: merge_storage(base.storage, override_settings.storage),
        logging: merge_logging(base.logging, override_settings.logging),
    }
}

/// The values that the environment sets: `RUSTSNIFFER_LOG_LEVEL`,
/// `RUSTSNIFFER_INTERFACE`, `RUSTSNIFFER_FILTER`, `RUSTSNIFFER_DB_PATH`,
/// `RUSTSNIFFER_PCAP_DIR` and `RUSTSNIFFER_LOG_DIR`.
#[derive(Debug, Clone, Default)]
pub struct EnvOverrides {
    pub log_level: Option<String>,
    pub interface: Option<String>,
    pub filter: Option<String>,
    pub db_path: Option<String>,
    pub pcap_dir: Option<String>,
    pub log_dir: Option<String>,
}

/// The settings after the environment's values replace theirs.
pub open spec fn with_env(s: SettingsView, env: EnvOverrides) -> SettingsView {
    SettingsView {
        capture: CaptureConfigView {
            interface: first_present(opt_text(env.interface), s.capture.interface),
            filter: first_present(opt_text(env.filter), s.capture.filter),
            ..s.capture
        },
        storage: StorageConfigView {
            db_path: first_present(opt_text(env.db_path), s.storage.db_path),
            pcap_dir: first_present(opt_text(env.pcap_dir), s.storage.pcap_dir),
            ..s.storage
        },
        logging: LoggingConfigView {
            level: match env.log_level {
                Some(l) => l@,
                None => s.logging.level,
            },
            log_dir: first_present(opt_text(env.log_dir), s.logging.log_dir),
            ..s.logging
        },
    }
}

/// Applies the environment's values over `settings`.
pub fn apply_env_overrides(settings: Settings, env: EnvOverrides) -> (r: Settings)
    ensures
        r@ == with_env(settings@, env),
{
    let mut settings = settings;
    if let Some(level) = env.log_level {
        settings.logging.level = level;
    }
    if let Some(interface) = env.interface {
        settings.capture.interface = Some(interface);
    }
    if let Some(filter) = env.filter {
        settings.capture.filter = Some(filter);
    }
    if let Some(db_path) = env.db_path {
        settings.storage.db_path = Some(db_path);
    }
    if let Some(pcap_dir) = env.pcap_dir {
        settings.storage.pcap_dir = Some(pcap_dir);
    }
    if let Some(log_dir) = env.log_dir {
        settings.logging.log_dir = Some(log_dir);
    }
    settings
}

/// Laying settings over themselves changes nothing.
pub proof fn lemma_merge_idempotent(s: SettingsView)
    ensures
        merged_settings(s, s) == s,
{
}

/// What the file sets wins over what it lays over: names, filters, paths and
/// non-zero limits present in `over` are the merged values.
pub proof fn lemma_merge_override_wins(base: SettingsView, over: SettingsView)
    ensures
        over.capture.interface is Some ==> merged_settings(base, over).capture.interface
            == over.capture.interface,
        over.capture.filter is Some ==> merged_settings(base, over).capture.filter
            == over.capture.filter,
        over.storage.db_path is Some ==> merged_settings(base, over).storage.db_path
            == over.storage.db_path,
        over.storage.pcap_dir is Some ==> merged_settings(base, over).storage.pcap_dir
            == over.storage.pcap_dir,
        over.logging.log_dir is Some ==> merged_settings(base, over).logging.log_dir
            == over.logging.log_dir,
        over.capture.count > 0 ==> merged_settings(base, over).capture.count == over.capture.count,
        over.capture.duration > 0 ==> merged_settings(base, over).capture.duration
            == over.capture.duration,
        over.capture.interface is None ==> merged_settings(base, over).capture.interface
            == base.capture.interface,
{
}

/// The environment has the last word: every value it sets is the value in
/// the result, and an environment that sets nothing changes nothing.
pub proof fn lemma_env_wins(s: SettingsView, env: EnvOverrides)
    ensures
        env.interface is Some ==> with_env(s, env).capture.interface == opt_text(env.interface),
        env.filter is Some ==> with_env(s, env).capture.filter == opt_text(env.filter),
        env.db_path is Some ==> with_env(s, env).storage.db_path == opt_text(env.db_path),
        env.pcap_dir is Some ==> with_env(s, env).storage.pcap_dir == opt_text(env.pcap_dir),
        env.log_dir is Some ==> with_env(s, env).logging.log_dir == opt_text(env.log_dir),
        env.log_level is Some ==> with_env(s, env).logging.level == env.log_level.unwrap()@,
        (env.interface is None && env.filter is None && env.db_path is None && env.pcap_dir is None
            && env.log_dir is None && env.log_level is None) ==> with_env(s, env) == s,
{
}

} // verus!
