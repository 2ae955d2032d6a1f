//! The settings and their defaults.

use vstd::prelude::*;
use vstd::string::*;

verus! {

/// The text value of an optional string.
pub open spec fn opt_text(o: Option<String>) -> Option<Seq<char>> {
    match o {
        Some(s) => Some(s@),
        None => None,
    }
}

/// Capture settings.
#[derive(Debug, Clone)]
pub struct CaptureConfig {
    /// Default interface (`None`: pick the first usable one).
    pub interface: Option<String>,
    /// Default BPF filter.
    pub filter: Option<String>,
    /// Promiscuous mode.
    pub promiscuous: bool,
    /// Maximum packets (0: no limit).
    pub count: u64,
    /// Maximum duration in seconds (0: no limit).
    pub duration: u64,
    /// Capture buffer size in bytes.
    pub buffer_size: usize,
    /// Packets per second above which sampling starts.
    pub sampling_threshold: u64,
}

/// Storage settings.
#[derive(Debug, Clone)]
pub struct StorageConfig {
    /// Database path (default `~/.rustsniffer/metadata.db`).
    pub db_path: Option<String>,
    /// PCAPNG directory (default `~/.rustsniffer/pcap/`).
    pub pcap_dir: Option<String>,
    /// Days that data is kept.
    pub retention_days: u32,
    /// Batch insert size.
    pub batch_size: usize,
    /// Batch insert interval in ms.
    pub batch_interval_ms: u64,
}

/// Logging settings.
#[derive(Debug, Clone)]
pub struct LoggingConfig {
    /// Level: trace, debug, info, warn or error.
    pub level: String,
    /// Log directory (default `~/.rustsniffer/logs/`).
    pub log_dir: Option<String>,
    /// Largest log file in MB.
    pub max_log_size_mb: u64,
    /// Log files kept.
    pub max_log_files: u32,
    /// JSON output.
    pub json_format: bool,
}

/// All settings.
#[derive(Debug, Clone)]
pub struct Settings {
    /// Capture settings.
    pub capture: CaptureConfig,
    /// Storage settings.
    pub storage: StorageConfig,
    /// Logging settings.
    pub logging: LoggingConfig,
}

/// The content of [`CaptureConfig`].
pub struct CaptureConfigView {
    pub interface: Option<Seq<char>>,
    pub filter: Option<Seq<char>>,
    pub promiscuous: bool,
    pub count: u64,
    pub duration: u64,
    pub buffer_size: usize,
    pub sampling_threshold: u64,
}

/// The content of [`StorageConfig`].
pub struct StorageConfigView {
    pub db_path: Option<Seq<char>>,
    pub pcap_dir: Option<Seq<char>>,
    pub retention_days: u32,
    pub batch_size: usize,
    pub batch_interval_ms: u64,
}

/// The content of [`LoggingConfig`].
pub struct LoggingConfigView {
    pub level: Seq<char>,
    pub log_dir: Option<Seq<char>>,
    pub max_log_size_mb: u64,
    pub max_log_files: u32,
    pub json_format: bool,
}

/// The content of [`Settings`].
pub struct SettingsView {
    pub capture: CaptureConfigView,
    pub storage: StorageConfigView,
    pub logging: LoggingConfigView,
}

impl View for CaptureConfig {
    type V = CaptureConfigView;

    open spec fn view(&self) -> CaptureConfigView {
        CaptureConfigView {
            interface: opt_text(self.interface),
            filter: opt_text(self.filter),
            promiscuous: self.promiscuous,
            count: self.count,
            duration: self.duration,
            buffer_size: self.buffer_size,
            sampling_threshold: self.sampling_threshold,
        }
    }
}

impl View for StorageConfig {
    type V = StorageConfigView;

    open spec fn view(&self) -> StorageConfigView {
        StorageConfigView {
            db_path: opt_text(self.db_path),
            pcap_dir: opt_text(self.pcap_dir),
            retention_days: self.retention_days,
            batch_size: self.batch_size,
            batch_interval_ms: self.batch_interval_ms,
        }
    }
}

impl View for LoggingConfig {
    type V = LoggingConfigView;

    open spec fn view(&self) -> LoggingConfigView {
        LoggingConfigView {
            level: self.level@,
            log_dir: opt_text(self.log_dir),
            max_log_size_mb: self.max_log_size_mb,
            max_log_files: self.max_log_files,
            json_format: self.json_format,
        }
    }
}

impl View for Settings {
    type V = SettingsView;

    open spec fn view(&self) -> SettingsView {
        SettingsView { capture: self.capture@, storage: self.storage@, logging: self.logging@ }
    }
}

/// Default capture settings: any interface, no filter, promiscuous, no
/// limits, 2 MiB buffer, sampling above 100 000 packets per second.
pub open spec fn default_capture() -> CaptureConfigView {
    CaptureConfigView {
        interface: None,
        filter: None,
        promiscuous: true,
        count: 0,
        duration: 0,
        buffer_size: 2097152usize,
        sampling_threshold: 100_000,
    }
}

/// Default storage settings: default paths, 30 days kept, batches of 1000
/// every 100 ms.
pub open spec fn default_storage() -> StorageConfigView {
    StorageConfigView {
        db_path: None,
        pcap_dir: None,
        retention_days: 30,
        batch_size: 1000usize,
        batch_interval_ms: 100,
    }
}

/// Default logging settings: level info, default directory, 100 MB files,
/// five kept, plain text.
pub open spec fn default_logging() -> LoggingConfigView {
    LoggingConfigView {
        level: "info"@,
        log_dir: None,
        max_log_size_mb: 100,
        max_log_files: 5,
        json_format: false,
    }
}

/// Default promiscuous mode.
pub fn default_true() -> (b: bool)
    ensures
        b,
{
    true
}

/// Default capture buffer size: 2 MiB.
pub fn default_buffer_size() -> (n: usize)
    ensures
        n == 2 * 1024 * 1024,
{
    2 * 1024 * 1024
}

/// Default sampling threshold: 100 000 packets per second.
pub fn default_sampling_threshold() -> (n: u64)
    ensures
        n == 100_000,
{
    100_000
}

/// Default retention: 30 days.
pub fn default_retention_days() -> (n: u32)
    ensures
        n == 30,
{
    30
}

/// Default batch size: 1000.
pub fn default_batch_size() -> (n: usize)
    ensures
        n == 1000,
{
    1000
}

/// Default batch interval: 100 ms.
pub fn default_batch_interval_ms() -> (n: u64)
    ensures
        n == 100,
{
    100
}

/// Default log level: `info`.
pub fn default_log_level() -> (s: String)
    ensures
        s@ == "info"@,
{
    String::from_str("info")
}

/// Default largest log file: 100 MB.
pub fn default_max_log_size_mb() -> (n: u64)
    ensures
        n == 100,
{
    100
}

/// Default number of log files kept: 5.
pub fn default_max_log_files() -> (n: u32)
    ensures
        n == 5,
{
    5
}

impl Default for CaptureConfig {
    fn default() -> (c: Self)
        ensures
            c@ == default_capture(),
    {
        CaptureConfig {
            interface: None,
            filter: None,
            promiscuous: default_true(),
            count: 0,
            duration: 0,
            buffer_size: default_buffer_size(),
            sampling_threshold: default_sampling_threshold(),
        }
    }
}

impl Default for StorageConfig {
    fn default() -> (c: Self)
        ensures
            c@ == default_storage(),
    {
        StorageConfig {
            db_path: None,
            pcap_dir: None,
            retention_days: default_retention_days(),
            batch_size: default_batch_size(),
            batch_interval_ms: default_batch_interval_ms(),
        }
    }
}

impl Default for LoggingConfig {
    fn default() -> (c: Self)
        ensures
            c@ == default_logging(),
    {
        LoggingConfig {
            level: default_log_level(),
            log_dir: None,
            max_log_size_mb: default_max_log_size_mb(),
            max_log_files: default_max_log_files(),
            json_format: false,
        }
    }
}

impl Default for Settings {
    fn default() -> (s: Self)
        ensures
            s@ == (SettingsView {
                capture: default_capture(),
                storage: default_storage(),
                logging: default_logging(),
            }),
    {
        Settings {
            capture: CaptureConfig::default(),
            storage: StorageConfig::default(),
            logging: LoggingConfig::default(),
        }
    }
}

} // verus!
