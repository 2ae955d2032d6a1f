use rustsniffer::cli::args::{resolve_command, CliAction, Cli, Commands};
use rustsniffer::common::error::SnifferError;
use rustsniffer::common::utils::{
    get_config_path, get_data_dir, get_db_path, get_log_dir, get_pcap_dir, path_with_npcap,
    required_dirs, DataPath,
};
use rustsniffer::config::loader::{
    apply_env_overrides, merge_capture, merge_logging, merge_settings, merge_storage, EnvOverrides,
};
use rustsniffer::config::settings::{
    default_batch_interval_ms, default_batch_size, default_buffer_size, default_log_level,
    default_max_log_files, default_max_log_size_mb, default_retention_days,
    default_sampling_threshold, default_true, CaptureConfig, LoggingConfig, Settings,
    StorageConfig,
};
use rustsniffer::logging::setup::{match_level, parse_level, LogLevel};

fn parts(p: &DataPath) -> Vec<&str> {
    p.parts.iter().map(|s| s.as_str()).collect()
}

#[test]
fn default_values() {
    assert!(default_true());
    assert_eq!(default_buffer_size(), 2 * 1024 * 1024);
    assert_eq!(default_sampling_threshold(), 100_000);
    assert_eq!(default_retention_days(), 30);
    assert_eq!(default_batch_size(), 1000);
    assert_eq!(default_batch_interval_ms(), 100);
    assert_eq!(default_log_level(), "info");
    assert_eq!(default_max_log_size_mb(), 100);
    assert_eq!(default_max_log_files(), 5);
    let s = Settings::default();
    assert_eq!(s.capture.interface, None);
    assert!(s.capture.promiscuous);
    assert_eq!(s.capture.count, 0);
    assert_eq!(s.storage.retention_days, 30);
    assert_eq!(s.logging.level, "info");
    assert!(!s.logging.json_format);
}

#[test]
fn merge_capture_prefers_override() {
    let base = CaptureConfig {
        interface: Some("eth0".to_string()),
        filter: Some("tcp".to_string()),
        count: 10,
        duration: 20,
        ..CaptureConfig::default()
    };
    let over = CaptureConfig {
        interface: None,
        filter: Some("udp".to_string()),
        promiscuous: false,
        count: 0,
        duration: 5,
        buffer_size: 4096,
        sampling_threshold: 7,
    };
    let m = merge_capture(base, over);
    assert_eq!(m.interface.as_deref(), Some("eth0"));
    assert_eq!(m.filter.as_deref(), Some("udp"));
    assert!(!m.promiscuous);
    assert_eq!(m.count, 10);
    assert_eq!(m.duration, 5);
    assert_eq!(m.buffer_size, 4096);
    assert_eq!(m.sampling_threshold, 7);
}

#[test]
fn merge_storage_and_logging() {
    let base = StorageConfig { db_path: Some("a.db".to_string()), ..StorageConfig::default() };
    let over = StorageConfig { pcap_dir: Some("/p".to_string()), retention_days: 3, ..StorageConfig::default() };
    let m = merge_storage(base, over);
    assert_eq!(m.db_path.as_deref(), Some("a.db"));
    assert_eq!(m.pcap_dir.as_deref(), Some("/p"));
    assert_eq!(m.retention_days, 3);

    let base = LoggingConfig { level: "debug".to_string(), json_format: true, ..LoggingConfig::default() };
    let over = LoggingConfig::default();
    let m = merge_logging(base, over);
    assert_eq!(m.level, "debug");
    assert!(m.json_format);

    let base = LoggingConfig { level: "debug".to_string(), ..LoggingConfig::default() };
    let over = LoggingConfig { level: "warn".to_string(), ..LoggingConfig::default() };
    assert_eq!(merge_logging(base, over).level, "warn");
}

#[test]
fn merge_settings_is_idempotent_on_defaults() {
    let m = merge_settings(Settings::default(), Settings::default());
    let d = Settings::default();
    assert_eq!(m.capture.buffer_size, d.capture.buffer_size);
    assert_eq!(m.storage.batch_size, d.storage.batch_size);
    assert_eq!(m.logging.level, d.logging.level);
}

#[test]
fn environment_overrides_win() {
    let mut s = Settings::default();
    s.capture.interface = Some("eth0".to_string());
    s.storage.db_path = Some("file.db".to_string());
    let env = EnvOverrides {
        log_level: Some("trace".to_string()),
        interface: Some("wlan0".to_string()),
        filter: None,
        db_path: None,
        pcap_dir: Some("/data/pcap".to_string()),
        log_dir: Some("/data/logs".to_string()),
    };
    let r = apply_env_overrides(s, env);
    assert_eq!(r.logging.level, "trace");
    assert_eq!(r.capture.interface.as_deref(), Some("wlan0"));
    assert_eq!(r.capture.filter, None);
    assert_eq!(r.storage.db_path.as_deref(), Some("file.db"));
    assert_eq!(r.storage.pcap_dir.as_deref(), Some("/data/pcap"));
    assert_eq!(r.logging.log_dir.as_deref(), Some("/data/logs"));
    let unchanged = apply_env_overrides(Settings::default(), EnvOverrides::default());
    assert_eq!(unchanged.logging.level, "info");
}

#[test]
fn command_line_wins_over_configuration() {
    let config = CaptureConfig {
        interface: Some("eth0".to_string()),
        filter: Some("tcp".to_string()),
        promiscuous: true,
        count: 100,
        duration: 60,
        ..CaptureConfig::default()
    };
    let cli = Cli {
        command: Some(Commands::Capture { interface: Some("wlan0".to_string()), filter: None }),
        interface: Some("ignored".to_string()),
        filter: Some("ignored".to_string()),
        promiscuous: false,
        count: 5,
        duration: 0,
    };
    match resolve_command(cli, config.clone()) {
        CliAction::Capture(req) => {
            assert_eq!(req.interface.as_deref(), Some("wlan0"));
            assert_eq!(req.filter.as_deref(), Some("tcp"));
            assert!(req.promiscuous);
            assert_eq!(req.count, 5);
            assert_eq!(req.duration, 60);
        }
        CliAction::ListInterfaces => panic!("expected a capture"),
    }
    let cli = Cli {
        command: None,
        interface: None,
        filter: Some("port 53".to_string()),
        promiscuous: false,
        count: 0,
        duration: 0,
    };
    match resolve_command(cli, config.clone()) {
        CliAction::Capture(req) => {
            assert_eq!(req.interface.as_deref(), Some("eth0"));
            assert_eq!(req.filter.as_deref(), Some("port 53"));
            assert_eq!(req.count, 100);
        }
        CliAction::ListInterfaces => panic!("expected a capture"),
    }
    let cli = Cli {
        command: Some(Commands::ListInterfaces),
        interface: None,
        filter: None,
        promiscuous: false,
        count: 0,
        duration: 0,
    };
    assert!(matches!(resolve_command(cli, config), CliAction::ListInterfaces));
}

#[test]
fn log_levels() {
    assert_eq!(parse_level("trace"), Ok(LogLevel::Trace));
    assert_eq!(parse_level("DEBUG"), Ok(LogLevel::Debug));
    assert_eq!(parse_level("Info"), Ok(LogLevel::Info));
    assert_eq!(parse_level("warn"), Ok(LogLevel::Warn));
    assert_eq!(parse_level("WARNING"), Ok(LogLevel::Warn));
    assert_eq!(parse_level("error"), Ok(LogLevel::Error));
    assert_eq!(match_level("Info"), None);
    assert_eq!(match_level("info"), Some(LogLevel::Info));
    let err = parse_level("verbose").unwrap_err();
    assert_eq!(
        err,
        SnifferError::ConfigError("无效的日志级别: verbose，有效值为: trace, debug, info, warn, error".to_string())
    );
    assert_eq!(
        err.to_string(),
        "配置错误: 无效的日志级别: verbose，有效值为: trace, debug, info, warn, error"
    );
}

#[test]
fn data_locations() {
    let d = get_data_dir(Some("/home/u")).unwrap();
    assert_eq!(d.home, "/home/u");
    assert_eq!(parts(&d), vec![".rustsniffer"]);
    assert_eq!(parts(&get_pcap_dir(Some("/home/u")).unwrap()), vec![".rustsniffer", "pcap"]);
    assert_eq!(parts(&get_log_dir(Some("/home/u")).unwrap()), vec![".rustsniffer", "logs"]);
    assert_eq!(parts(&get_config_path(Some("/h")).unwrap()), vec![".rustsniffer", "config.toml"]);
    assert_eq!(parts(&get_db_path(Some("/h")).unwrap()), vec![".rustsniffer", "metadata.db"]);
    assert_eq!(get_db_path(None), Err(SnifferError::ConfigError("无法获取用户主目录".to_string())));
    let dirs = required_dirs(Some("/h")).unwrap();
    assert_eq!(dirs.len(), 3);
    assert_eq!(parts(&dirs[0]), vec![".rustsniffer"]);
    assert_eq!(parts(&dirs[1]), vec![".rustsniffer", "pcap"]);
    assert_eq!(parts(&dirs[2]), vec![".rustsniffer", "logs"]);
    assert!(required_dirs(None).is_err());
}

#[test]
fn npcap_directory_is_prepended_once() {
    let dir = r"C:\Windows\System32\Npcap";
    assert_eq!(
        path_with_npcap(dir, r"C:\Windows;C:\Tools"),
        Some(r"C:\Windows\System32\Npcap;C:\Windows;C:\Tools".to_string())
    );
    assert_eq!(path_with_npcap(dir, r"c:\windows\system32\npcap;C:\Tools"), None);
    assert_eq!(path_with_npcap(dir, ""), Some(r"C:\Windows\System32\Npcap;".to_string()));
}

#[test]
fn npcap_update_twice_changes_nothing() {
    let dir = r"C:\Windows\System32\Npcap";
    let first = path_with_npcap(dir, r"C:\Tools").unwrap();
    assert_eq!(path_with_npcap(dir, &first), None);
    assert_eq!(path_with_npcap(dir, r"C:\WINDOWS\SYSTEM32\NPCAP;C:\Tools"), None);
}
