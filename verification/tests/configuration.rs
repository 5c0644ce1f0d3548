//! Configurations: their defaults, their faults, and what rclone is handed for them.

use cloudfolder::config::{
    default_attr_timeout, default_buffer_size, default_cache_max_age, default_cache_max_size,
    default_cache_min_free_space, default_cache_mode, default_cache_poll_interval,
    default_dir_cache_time, default_dir_perms, default_file_perms, default_rc_addr,
    default_read_ahead, default_transfers, default_volume_name, default_write_back,
    ChangeFeedConfig, Config, ConfigError, HealthConfig, LoggingConfig, MountConfig,
};
use cloudfolder::rclone::{
    forget_arguments, mount_arguments, rc_arguments, remote_check_arguments,
};
use cloudfolder::setup::{
    forget_failure, remote_check_failure, verify_dependencies, verify_feed_dependencies,
    verify_remote_dependencies, FoundFiles, SetupError,
};
use cloudfolder::sockaddr::parse_socket_address;
use std::time::Duration;

fn text_or(table: &toml::Table, key: &str, other: String) -> String {
    match table.get(key).and_then(|value| value.as_str()) {
        Some(text) => text.to_string(),
        None => other,
    }
}

fn read_config(text: &str) -> Config {
    let document: toml::Table = toml::from_str(text).unwrap();
    let mount = document.get("mount").unwrap().as_table().unwrap();
    Config {
        mount: MountConfig {
            rclone_exe: text_or(mount, "rclone_exe", String::new()),
            rclone_config: text_or(mount, "rclone_config", String::new()),
            remote: text_or(mount, "remote", String::new()),
            mount_point: text_or(mount, "mount_point", String::new()),
            cache_dir: text_or(mount, "cache_dir", String::new()),
            volume_name: text_or(mount, "volume_name", default_volume_name()),
            vfs_cache_mode: text_or(mount, "vfs_cache_mode", default_cache_mode()),
            vfs_cache_max_size: text_or(mount, "vfs_cache_max_size", default_cache_max_size()),
            vfs_cache_max_age: text_or(mount, "vfs_cache_max_age", default_cache_max_age()),
            vfs_cache_min_free_space: text_or(
                mount,
                "vfs_cache_min_free_space",
                default_cache_min_free_space(),
            ),
            vfs_write_back: text_or(mount, "vfs_write_back", default_write_back()),
            dir_cache_time: text_or(mount, "dir_cache_time", default_dir_cache_time()),
            attr_timeout: text_or(mount, "attr_timeout", default_attr_timeout()),
            buffer_size: text_or(mount, "buffer_size", default_buffer_size()),
            vfs_read_ahead: text_or(mount, "vfs_read_ahead", default_read_ahead()),
            vfs_cache_poll_interval: text_or(
                mount,
                "vfs_cache_poll_interval",
                default_cache_poll_interval(),
            ),
            transfers: match mount.get("transfers").and_then(|value| value.as_integer()) {
                Some(number) => number as u32,
                None => default_transfers(),
            },
            file_perms: text_or(mount, "file_perms", default_file_perms()),
            dir_perms: text_or(mount, "dir_perms", default_dir_perms()),
            windows_file_security: text_or(mount, "windows_file_security", String::new()),
            read_only: false,
            rc_addr: text_or(mount, "rc_addr", default_rc_addr()),
        },
        change_feed: ChangeFeedConfig::default(),
        health: HealthConfig::default(),
        logging: LoggingConfig::default(),
    }
}

fn example() -> Config {
    read_config(
        r#"
[mount]
rclone_exe = "C:\\rclone.exe"
rclone_config = "C:\\rclone.conf"
remote = "x:/"
mount_point = "C:\\CloudFolder\\Example"
cache_dir = "C:\\.CloudFolderCache\\Example"
"#,
    )
}

fn feed_example() -> Config {
    let mut config = example();
    config.change_feed.enabled = true;
    config.change_feed.ssh_config = r"C:\ssh\config".to_string();
    config.change_feed.ssh_target = "lab".to_string();
    config.change_feed.remote_root = "/data".to_string();
    config
}

#[test]
fn defaults_are_sane() {
    let health = HealthConfig::default();
    assert!(health.probe_timeout_secs < health.startup_timeout_secs);
    assert!(health.backoff_initial_secs <= health.backoff_max_secs);
    assert!(health.failure_threshold >= 1);
    let feed = ChangeFeedConfig::default();
    assert!(feed.debounce_ms > 0);
    assert!(feed.reserve_watches < feed.max_watches);
    assert!(feed.max_watches >= 1024);
}

#[test]
fn rc_must_be_loopback() {
    let text = r#"
[mount]
rclone_exe = "C:\\rclone.exe"
rclone_config = "C:\\rclone.conf"
remote = "x:/"
mount_point = "C:\\CloudFolder\\Example"
cache_dir = "C:\\.CloudFolderCache\\Example"
rc_addr = "0.0.0.0:5577"
"#;
    let cfg = read_config(text);
    assert!(cfg.validate().is_err());
    assert_eq!(cfg.validate(), Err(ConfigError::RcAddressNotLoopback));
}

#[test]
fn developer_mount_options_validate() {
    let text = r#"
[mount]
rclone_exe = "C:\\rclone.exe"
rclone_config = "C:\\rclone.conf"
remote = "x:/"
mount_point = "C:\\CloudFolder\\Example"
cache_dir = "C:\\.CloudFolderCache\\Example"
vfs_cache_mode = "writes"
vfs_cache_poll_interval = "2s"
transfers = 8
file_perms = "0777"
dir_perms = "0777"
"#;
    let cfg = read_config(text);
    assert!(cfg.validate().is_ok());
}

#[test]
fn probe_interval_is_in_seconds() {
    let mut config = example();
    assert_eq!(config.probe_interval(), Duration::from_secs(10));
    config.health.probe_interval_secs = 45;
    assert_eq!(config.probe_interval(), Duration::from_secs(45));
}

#[test]
fn each_fault_of_a_mount_is_named() {
    let mut config = example();
    config.mount.remote = "  ".to_string();
    assert_eq!(config.validate(), Err(ConfigError::RemoteInvalid));
    config.mount.remote = "server".to_string();
    assert_eq!(config.validate(), Err(ConfigError::RemoteInvalid));
    assert_eq!(
        ConfigError::RemoteInvalid.message(),
        "mount.remote must be a valid rclone remote such as remote:/data"
    );

    let mut config = example();
    config.mount.mount_point = r"CloudFolder\Example".to_string();
    assert_eq!(config.validate(), Err(ConfigError::MountPointRelative));
    config.mount.mount_point = "C:Example".to_string();
    assert_eq!(config.validate(), Err(ConfigError::MountPointRelative));

    let mut config = example();
    config.mount.cache_dir = r"\cache".to_string();
    assert_eq!(config.validate(), Err(ConfigError::CacheDirRelative));

    let mut config = example();
    config.health.probe_timeout_secs = 0;
    assert_eq!(config.validate(), Err(ConfigError::ProbeTimingZero));

    let mut config = example();
    config.health.failure_threshold = 0;
    assert_eq!(config.validate(), Err(ConfigError::FailureThresholdZero));

    let mut config = example();
    config.health.backoff_initial_secs = 61;
    assert_eq!(config.validate(), Err(ConfigError::BackoffInvalid));

    let mut config = example();
    config.mount.rc_addr = "localhost:5577".to_string();
    assert_eq!(config.validate(), Err(ConfigError::RcAddressInvalid));

    let mut config = example();
    config.mount.cache_dir = r"c:\CloudFolder/Example\".to_string();
    assert_eq!(config.validate(), Err(ConfigError::CacheDirIsMountPoint));

    let mut config = example();
    config.mount.transfers = 0;
    assert_eq!(config.validate(), Err(ConfigError::TransfersZero));

    let mut config = example();
    config.mount.file_perms = "0888".to_string();
    assert_eq!(config.validate(), Err(ConfigError::FilePermsInvalid));

    let mut config = example();
    config.mount.dir_perms = "rwx".to_string();
    assert_eq!(config.validate(), Err(ConfigError::DirPermsInvalid));

    let mut config = example();
    config.mount.windows_file_security = "D:P\n(A;;FA;;;SY)".to_string();
    assert_eq!(config.validate(), Err(ConfigError::FileSecurityBroken));
}

#[test]
fn each_fault_of_a_change_feed_is_named() {
    assert_eq!(feed_example().validate(), Ok(()));

    let mut config = feed_example();
    config.change_feed.ssh_exe = "ssh.exe".to_string();
    assert_eq!(config.validate(), Err(ConfigError::FeedSshExeRelative));
    config.change_feed.enabled = false;
    assert_eq!(config.validate(), Ok(()));

    let mut config = feed_example();
    config.change_feed.ssh_config = String::new();
    assert_eq!(config.validate(), Err(ConfigError::FeedSshConfigRelative));

    let mut config = feed_example();
    config.change_feed.ssh_target = "\t".to_string();
    assert_eq!(config.validate(), Err(ConfigError::FeedTargetMissing));

    let mut config = feed_example();
    config.change_feed.remote_root = "data".to_string();
    assert_eq!(config.validate(), Err(ConfigError::FeedRootRelative));

    let mut config = feed_example();
    config.change_feed.debounce_ms = 24;
    assert_eq!(config.validate(), Err(ConfigError::FeedDebounceOutOfRange));
    config.change_feed.debounce_ms = 5000;
    assert_eq!(config.validate(), Ok(()));

    let mut config = feed_example();
    config.change_feed.max_watches = 4096;
    assert_eq!(config.validate(), Err(ConfigError::FeedWatchBudgetInvalid));
}

#[test]
fn socket_addresses_are_read_as_the_standard_says() {
    let v4 = parse_socket_address("127.0.0.1:5577").unwrap();
    assert_eq!(v4.port, 5577);
    assert!(v4.is_loopback());
    assert!(parse_socket_address("127.255.3.4:1").unwrap().is_loopback());
    assert!(!parse_socket_address("128.0.0.1:1").unwrap().is_loopback());
    assert!(parse_socket_address("[::1]:80").unwrap().is_loopback());
    assert!(!parse_socket_address("[::]:80").unwrap().is_loopback());
    for text in [
        "", "127.0.0.1", "127.0.0.1:", "127.0.0.01:80", "256.0.0.1:80", "127.0.0.1:65536",
        "::1:80", "[::1]", "[:::1]:80", "localhost:80", " 127.0.0.1:80",
    ] {
        assert!(parse_socket_address(text).is_none(), "{text}");
    }
    for (text, port) in [
        ("0.0.0.0:0", 0),
        ("1.2.3.4:65535", 65535),
        ("[2001:db8::1]:443", 443),
        ("[::ffff:1.2.3.4]:9", 9),
        ("[1:2:3:4:5:6:7:8]:1", 1),
        ("[fe80::1%7]:22", 22),
    ] {
        let address = parse_socket_address(text).unwrap();
        assert_eq!(address.port, port, "{text}");
        assert!(!address.is_loopback(), "{text}");
    }
}

#[test]
fn mount_arguments_name_the_mount_and_its_own_files() {
    let mut config = example();
    config.mount.read_only = true;
    config.mount.windows_file_security = "D:P".to_string();
    config.logging.keep_files = 0;
    let arguments = mount_arguments(&config);
    assert_eq!(arguments[0], "mount");
    assert_eq!(arguments[1], "x:/");
    assert_eq!(arguments[2], r"C:\CloudFolder\Example");
    let after = |flag: &str| {
        let at = arguments.iter().position(|argument| argument == flag).unwrap();
        arguments[at + 1].clone()
    };
    assert_eq!(after("--config"), r"C:\rclone.conf");
    assert_eq!(after("--cache-dir"), r"C:\.CloudFolderCache\Example");
    assert_eq!(after("--rc-addr"), "127.0.0.1:5577");
    assert_eq!(after("--log-file-max-size"), "20971520");
    assert_eq!(after("--log-file-max-backups"), "1");
    assert_eq!(after("-o"), "FileSecurity=D:P");
    assert_eq!(arguments.last().unwrap(), "--read-only");
    let plain = mount_arguments(&example());
    assert_eq!(plain.last().unwrap(), "--no-console");
    assert_eq!(plain.len() + 3, arguments.len());
}

#[test]
fn control_arguments_name_the_endpoint() {
    let config = example();
    assert_eq!(
        rc_arguments(&config, "core/pid"),
        vec!["rc", "--url", "http://127.0.0.1:5577/", "core/pid"]
    );
    assert_eq!(
        forget_arguments(&config, "a/b.txt", ""),
        vec!["rc", "--url", "http://127.0.0.1:5577/", "vfs/forget", "file=a/b.txt"]
    );
    assert_eq!(
        forget_arguments(&config, "a/b.txt", "a"),
        vec!["rc", "--url", "http://127.0.0.1:5577/", "vfs/forget", "file=a/b.txt", "dir=a"]
    );
    assert_eq!(
        remote_check_arguments(&config),
        vec![
            "lsf", "x:/", "--config", r"C:\rclone.conf", "--max-depth", "1", "--contimeout", "10s",
            "--timeout", "20s", "--low-level-retries", "1", "--retries", "1",
        ]
    );
    assert_eq!(
        remote_check_failure(" no route\r\n"),
        "rclone connectivity check failed: no route"
    );
    assert_eq!(forget_failure("x\n"), "vfs/forget failed: x");
}

#[test]
fn missing_files_are_named_in_order() {
    let config = example();
    let all = FoundFiles { rclone_exe: true, rclone_config: true, winfsp: true };
    assert_eq!(verify_dependencies(&config, all), Ok(()));
    let none = FoundFiles { rclone_exe: false, rclone_config: false, winfsp: false };
    assert_eq!(verify_dependencies(&config, none), Err(SetupError::RcloneMissing));
    assert_eq!(
        SetupError::RcloneMissing.message(&config),
        r"rclone executable not found: C:\rclone.exe"
    );
    let no_config = FoundFiles { rclone_config: false, ..all };
    assert_eq!(verify_dependencies(&config, no_config), Err(SetupError::RcloneConfigMissing));
    let no_winfsp = FoundFiles { winfsp: false, ..all };
    assert_eq!(verify_dependencies(&config, no_winfsp), Err(SetupError::WinFspMissing));
    assert_eq!(verify_remote_dependencies(&config, no_winfsp), Ok(()));
    assert_eq!(
        SetupError::WinFspMissing.message(&config),
        r"WinFsp x64 runtime not found: C:\Program Files (x86)\WinFsp\bin\winfsp-x64.dll"
    );
    let mut broken = example();
    broken.mount.transfers = 0;
    assert_eq!(
        verify_dependencies(&broken, none),
        Err(SetupError::Config(ConfigError::TransfersZero))
    );

    assert_eq!(verify_feed_dependencies(&config, false, false), Ok(false));
    let feed = feed_example();
    assert_eq!(verify_feed_dependencies(&feed, true, true), Ok(true));
    assert_eq!(verify_feed_dependencies(&feed, false, true), Err(SetupError::FeedSshMissing));
    assert_eq!(verify_feed_dependencies(&feed, true, false), Err(SetupError::FeedSshConfigMissing));
}
