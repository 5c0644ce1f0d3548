//! The configuration of one mount: its sections, their defaults, and what makes a
//! configuration valid.

use crate::clock::nanos_in;
use crate::sockaddr::{is_loopback, parse_socket_address, socket_address};
use crate::text::{
    all_digits, begins_with, blank, chars_of, contains_char, digit_value, digits_value, is_blank,
    number, starts_with,
};
use crate::winpath::{is_absolute, path_is_absolute, paths_equal, same_path};
use std::time::Duration;
use vstd::prelude::*;

verus! {

/// The configuration of one mount.
#[derive(Clone, Debug)]
pub struct Config {
    pub mount: MountConfig,
    pub change_feed: ChangeFeedConfig,
    pub health: HealthConfig,
    pub logging: LoggingConfig,
}

/// How changes made on the server reach the local view.
#[derive(Clone, Debug)]
pub struct ChangeFeedConfig {
    pub enabled: bool,
    pub ssh_exe: String,
    pub ssh_config: String,
    pub ssh_target: String,
    pub remote_root: String,
    pub debounce_ms: u64,
    pub max_watches: u64,
    pub reserve_watches: u64,
}

/// What is mounted, where, and how rclone caches it.
#[derive(Clone, Debug)]
pub struct MountConfig {
    pub rclone_exe: String,
    pub rclone_config: String,
    pub remote: String,
    pub mount_point: String,
    pub cache_dir: String,
    pub volume_name: String,
    pub vfs_cache_mode: String,
    pub vfs_cache_max_size: String,
    pub vfs_cache_max_age: String,
    pub vfs_cache_min_free_space: String,
    pub vfs_write_back: String,
    pub dir_cache_time: String,
    pub attr_timeout: String,
    pub buffer_size: String,
    pub vfs_read_ahead: String,
    pub vfs_cache_poll_interval: String,
    pub transfers: u32,
    pub file_perms: String,
    pub dir_perms: String,
    pub windows_file_security: String,
    pub read_only: bool,
    pub rc_addr: String,
}

/// When a mount counts as healthy, and how it is brought back when it is not.
#[derive(Clone, Copy, Debug, PartialEq, Eq, Structural)]
pub struct HealthConfig {
    pub probe_interval_secs: u64,
    pub probe_timeout_secs: u64,
    pub startup_timeout_secs: u64,
    pub failure_threshold: u32,
    pub backoff_initial_secs: u64,
    pub backoff_max_secs: u64,
    pub stable_reset_secs: u64,
    pub graceful_stop_secs: u64,
}

/// Where logs go and how much of them is kept.
#[derive(Clone, Debug)]
pub struct LoggingConfig {
    pub service_log: String,
    pub rclone_log: String,
    pub max_bytes: u64,
    pub keep_files: usize,
}

/// Why a configuration is refused.
#[derive(Clone, Copy, Debug, PartialEq, Eq, Structural)]
pub enum ConfigError {
    /// `mount.remote must be a valid rclone remote such as remote:/data`
    RemoteInvalid,
    /// `mount.mount_point must be absolute`
    MountPointRelative,
    /// `mount.cache_dir must be absolute`
    CacheDirRelative,
    /// `health probe interval/timeout must be > 0`
    ProbeTimingZero,
    /// `health.failure_threshold must be > 0`
    FailureThresholdZero,
    /// `health backoff values are invalid`
    BackoffInvalid,
    /// `mount.rc_addr must be an IP:port socket address`
    RcAddressInvalid,
    /// `mount.rc_addr must use a loopback address because RC is configured without authentication`
    RcAddressNotLoopback,
    /// `mount.mount_point and mount.cache_dir must be different paths`
    CacheDirIsMountPoint,
    /// `mount.transfers must be > 0`
    TransfersZero,
    /// `mount.file_perms must be an octal mode such as 0666 or 0777`
    FilePermsInvalid,
    /// `mount.dir_perms must be an octal mode such as 0666 or 0777`
    DirPermsInvalid,
    /// `mount.windows_file_security cannot contain line breaks`
    FileSecurityBroken,
    /// `change_feed.ssh_exe must be absolute when change feed is enabled`
    FeedSshExeRelative,
    /// `change_feed.ssh_config must be absolute when change feed is enabled`
    FeedSshConfigRelative,
    /// `change_feed.ssh_target is required when change feed is enabled`
    FeedTargetMissing,
    /// `change_feed.remote_root must be an absolute Linux path`
    FeedRootRelative,
    /// `change_feed.debounce_ms must be between 25 and 5000`
    FeedDebounceOutOfRange,
    /// `change_feed watch budget is invalid`
    FeedWatchBudgetInvalid,
}

impl ConfigError {
    /// The sentence that says what is wrong.
    pub open spec fn spec_message(self) -> Seq<char> {
        match self {
            ConfigError::RemoteInvalid => "mount.remote must be a valid rclone remote such as remote:/data"@,
            ConfigError::MountPointRelative => "mount.mount_point must be absolute"@,
            ConfigError::CacheDirRelative => "mount.cache_dir must be absolute"@,
            ConfigError::ProbeTimingZero => "health probe interval/timeout must be > 0"@,
            ConfigError::FailureThresholdZero => "health.failure_threshold must be > 0"@,
            ConfigError::BackoffInvalid => "health backoff values are invalid"@,
            ConfigError::RcAddressInvalid => "mount.rc_addr must be an IP:port socket address"@,
            ConfigError::RcAddressNotLoopback => "mount.rc_addr must use a loopback address because RC is configured without authentication"@,
            ConfigError::CacheDirIsMountPoint => "mount.mount_point and mount.cache_dir must be different paths"@,
            ConfigError::TransfersZero => "mount.transfers must be > 0"@,
            ConfigError::FilePermsInvalid => "mount.file_perms must be an octal mode such as 0666 or 0777"@,
            ConfigError::DirPermsInvalid => "mount.dir_perms must be an octal mode such as 0666 or 0777"@,
            ConfigError::FileSecurityBroken => "mount.windows_file_security cannot contain line breaks"@,
            ConfigError::FeedSshExeRelative => "change_feed.ssh_exe must be absolute when change feed is enabled"@,
            ConfigError::FeedSshConfigRelative => "change_feed.ssh_config must be absolute when change feed is enabled"@,
            ConfigError::FeedTargetMissing => "change_feed.ssh_target is required when change feed is enabled"@,
            ConfigError::FeedRootRelative => "change_feed.remote_root must be an absolute Linux path"@,
            ConfigError::FeedDebounceOutOfRange => "change_feed.debounce_ms must be between 25 and 5000"@,
            ConfigError::FeedWatchBudgetInvalid => "change_feed watch budget is invalid"@,
        }
    }

    /// The sentence that says what is wrong.
    pub fn message(self) -> (text: &'static str)
        ensures
            text@ == self.spec_message(),
    {
        match self {
            ConfigError::RemoteInvalid => "mount.remote must be a valid rclone remote such as remote:/data",
            ConfigError::MountPointRelative => "mount.mount_point must be absolute",
            ConfigError::CacheDirRelative => "mount.cache_dir must be absolute",
            ConfigError::ProbeTimingZero => "health probe interval/timeout must be > 0",
            ConfigError::FailureThresholdZero => "health.failure_threshold must be > 0",
            ConfigError::BackoffInvalid => "health backoff values are invalid",
            ConfigError::RcAddressInvalid => "mount.rc_addr must be an IP:port socket address",
            ConfigError::RcAddressNotLoopback => "mount.rc_addr must use a loopback address because RC is configured without authentication",
            ConfigError::CacheDirIsMountPoint => "mount.mount_point and mount.cache_dir must be different paths",
            ConfigError::TransfersZero => "mount.transfers must be > 0",
            ConfigError::FilePermsInvalid => "mount.file_perms must be an octal mode such as 0666 or 0777",
            ConfigError::DirPermsInvalid => "mount.dir_perms must be an octal mode such as 0666 or 0777",
            ConfigError::FileSecurityBroken => "mount.windows_file_security cannot contain line breaks",
            ConfigError::FeedSshExeRelative => "change_feed.ssh_exe must be absolute when change feed is enabled",
            ConfigError::FeedSshConfigRelative => "change_feed.ssh_config must be absolute when change feed is enabled",
            ConfigError::FeedTargetMissing => "change_feed.ssh_target is required when change feed is enabled",
            ConfigError::FeedRootRelative => "change_feed.remote_root must be an absolute Linux path",
            ConfigError::FeedDebounceOutOfRange => "change_feed.debounce_ms must be between 25 and 5000",
            ConfigError::FeedWatchBudgetInvalid => "change_feed watch budget is invalid",
        }
    }
}

/// Whether a text is a file mode: `0` and three more octal digits.
pub open spec fn is_octal_mode(text: Seq<char>) -> bool {
    &&& text.len() == 4
    &&& text[0] == '0'
    &&& forall|i: int| 0 <= i < 4 ==> '0' <= #[trigger] text[i] <= '7'
}

/// Whether a text names an rclone remote.
pub open spec fn is_remote(text: Seq<char>) -> bool {
    !is_blank(text) && text.contains(':')
}

impl MountConfig {
    /// Whether rclone is told to listen on this machine alone.
    pub open spec fn listens_on_loopback(&self) -> bool {
        socket_address(self.rc_addr@) matches Some(socket) && is_loopback(socket.host)
    }
}

impl ChangeFeedConfig {
    /// What is wrong with an enabled change feed.
    pub open spec fn fault(&self) -> Option<ConfigError> {
        if !is_absolute(self.ssh_exe@) {
            Some(ConfigError::FeedSshExeRelative)
        } else if !is_absolute(self.ssh_config@) {
            Some(ConfigError::FeedSshConfigRelative)
        } else if is_blank(self.ssh_target@) {
            Some(ConfigError::FeedTargetMissing)
        } else if !starts_with(self.remote_root@, seq!['/']) {
            Some(ConfigError::FeedRootRelative)
        } else if !(25 <= self.debounce_ms <= 5000) {
            Some(ConfigError::FeedDebounceOutOfRange)
        } else if self.max_watches < 1024 || self.reserve_watches >= self.max_watches {
            Some(ConfigError::FeedWatchBudgetInvalid)
        } else {
            None
        }
    }
}

impl Config {
    /// The first thing that is wrong with a configuration.
    pub open spec fn fault(&self) -> Option<ConfigError> {
        if !is_remote(self.mount.remote@) {
            Some(ConfigError::RemoteInvalid)
        } else if !is_absolute(self.mount.mount_point@) {
            Some(ConfigError::MountPointRelative)
        } else if !is_absolute(self.mount.cache_dir@) {
            Some(ConfigError::CacheDirRelative)
        } else if self.health.probe_interval_secs == 0 || self.health.probe_timeout_secs == 0 {
            Some(ConfigError::ProbeTimingZero)
        } else if self.health.failure_threshold == 0 {
            Some(ConfigError::FailureThresholdZero)
        } else if !(0 < self.health.backoff_initial_secs <= self.health.backoff_max_secs) {
            Some(ConfigError::BackoffInvalid)
        } else if socket_address(self.mount.rc_addr@) is None {
            Some(ConfigError::RcAddressInvalid)
        } else if !self.mount.listens_on_loopback() {
            Some(ConfigError::RcAddressNotLoopback)
        } else if same_path(self.mount.mount_point@, self.mount.cache_dir@) {
            Some(ConfigError::CacheDirIsMountPoint)
        } else if self.mount.transfers == 0 {
            Some(ConfigError::TransfersZero)
        } else if !is_octal_mode(self.mount.file_perms@) {
            Some(ConfigError::FilePermsInvalid)
        } else if !is_octal_mode(self.mount.dir_perms@) {
            Some(ConfigError::DirPermsInvalid)
        } else if self.mount.windows_file_security@.contains('\r')
            || self.mount.windows_file_security@.contains('\n') {
            Some(ConfigError::FileSecurityBroken)
        } else if self.change_feed.enabled {
            self.change_feed.fault()
        } else {
            None
        }
    }

    /// Refuses a configuration with the first thing that is wrong with it.
    pub fn validate(&self) -> (checked: Result<(), ConfigError>)
        ensures
            match checked {
                Ok(()) => self.fault() is None,
                Err(error) => self.fault() == Some(error),
            },
    {
        if blank(self.mount.remote.as_str()) || !contains_char(self.mount.remote.as_str(), ':') {
            return Err(ConfigError::RemoteInvalid);
        }
        if !path_is_absolute(self.mount.mount_point.as_str()) {
            return Err(ConfigError::MountPointRelative);
        }
        if !path_is_absolute(self.mount.cache_dir.as_str()) {
            return Err(ConfigError::CacheDirRelative);
        }
        if self.health.probe_interval_secs == 0 || self.health.probe_timeout_secs == 0 {
            return Err(ConfigError::ProbeTimingZero);
        }
        if self.health.failure_threshold == 0 {
            return Err(ConfigError::FailureThresholdZero);
        }
        if self.health.backoff_initial_secs == 0 || self.health.backoff_initial_secs
            > self.health.backoff_max_secs {
            return Err(ConfigError::BackoffInvalid);
        }
        match parse_socket_address(self.mount.rc_addr.as_str()) {
            Some(socket) => {
                if !socket.is_loopback() {
                    return Err(ConfigError::RcAddressNotLoopback);
                }
            },
            None => {
                return Err(ConfigError::RcAddressInvalid);
            },
        }
        if paths_equal(self.mount.mount_point.as_str(), self.mount.cache_dir.as_str()) {
            return Err(ConfigError::CacheDirIsMountPoint);
        }
        if self.mount.transfers == 0 {
            return Err(ConfigError::TransfersZero);
        }
        if !octal_mode(self.mount.file_perms.as_str()) {
            return Err(ConfigError::FilePermsInvalid);
        }
        if !octal_mode(self.mount.dir_perms.as_str()) {
            return Err(ConfigError::DirPermsInvalid);
        }
        if contains_char(self.mount.windows_file_security.as_str(), '\r') || contains_char(
            self.mount.windows_file_security.as_str(),
            '\n',
        ) {
            return Err(ConfigError::FileSecurityBroken);
        }
        if self.change_feed.enabled {
            return self.change_feed.validate();
        }
        Ok(())
    }

    /// How long to wait between two health probes.
    pub fn probe_interval(&self) -> (interval: Duration)
        ensures
            nanos_in(interval) == self.health.probe_interval_secs * 1_000_000_000,
    {
        Duration::from_secs(self.health.probe_interval_secs)
    }
}

impl ChangeFeedConfig {
    /// Refuses an enabled change feed with the first thing that is wrong with it.
    fn validate(&self) -> (checked: Result<(), ConfigError>)
        ensures
            match checked {
                Ok(()) => self.fault() is None,
                Err(error) => self.fault() == Some(error),
            },
    {
        if !path_is_absolute(self.ssh_exe.as_str()) {
            return Err(ConfigError::FeedSshExeRelative);
        }
        if !path_is_absolute(self.ssh_config.as_str()) {
            return Err(ConfigError::FeedSshConfigRelative);
        }
        if blank(self.ssh_target.as_str()) {
            return Err(ConfigError::FeedTargetMissing);
        }
        proof {
            reveal_strlit("/");
            assert("/"@ =~= seq!['/']);
        }
        if !begins_with(self.remote_root.as_str(), "/") {
            return Err(ConfigError::FeedRootRelative);
        }
        if self.debounce_ms < 25 || self.debounce_ms > 5000 {
            return Err(ConfigError::FeedDebounceOutOfRange);
        }
        if self.max_watches < 1024 || self.reserve_watches >= self.max_watches {
            return Err(ConfigError::FeedWatchBudgetInvalid);
        }
        Ok(())
    }
}

/// Whether a string is a file mode.
fn octal_mode(text: &str) -> (yes: bool)
    ensures
        yes == is_octal_mode(text@),
{
    let chars = chars_of(text);
    chars.len() == 4 && chars[0] == '0' && '0' <= chars[1] && chars[1] <= '7' && '0' <= chars[2]
        && chars[2] <= '7' && '0' <= chars[3] && chars[3] <= '7'
}

impl Default for ChangeFeedConfig {
    fn default() -> (config: Self)
        ensures
            !config.enabled,
            config.ssh_exe@ == r"C:\Windows\System32\OpenSSH\ssh.exe"@,
            config.ssh_config@ == Seq::<char>::empty(),
            config.ssh_target@ == Seq::<char>::empty(),
            config.remote_root@ == Seq::<char>::empty(),
            config.debounce_ms == 150,
            config.max_watches == 60_000,
            config.reserve_watches == 4_096,
    {
        ChangeFeedConfig {
            enabled: false,
            ssh_exe: default_ssh_exe(),
            ssh_config: String::new(),
            ssh_target: String::new(),
            remote_root: String::new(),
            debounce_ms: default_change_feed_debounce_ms(),
            max_watches: default_change_feed_max_watches(),
            reserve_watches: default_change_feed_reserve_watches(),
        }
    }
}

impl Default for HealthConfig {
    fn default() -> (config: Self)
        ensures
            config.probe_interval_secs == 10,
            config.probe_timeout_secs == 5,
            config.startup_timeout_secs == 60,
            config.failure_threshold == 3,
            config.backoff_initial_secs == 1,
            config.backoff_max_secs == 60,
            config.stable_reset_secs == 180,
            config.graceful_stop_secs == 15,
    {
        HealthConfig {
            probe_interval_secs: default_probe_interval_secs(),
            probe_timeout_secs: default_probe_timeout_secs(),
            startup_timeout_secs: default_startup_timeout_secs(),
            failure_threshold: default_failure_threshold(),
            backoff_initial_secs: default_backoff_initial_secs(),
            backoff_max_secs: default_backoff_max_secs(),
            stable_reset_secs: default_stable_reset_secs(),
            graceful_stop_secs: default_graceful_stop_secs(),
        }
    }
}

impl Default for LoggingConfig {
    fn default() -> (config: Self)
        ensures
            config.service_log@ == r"C:\ProgramData\CloudFolder\logs\service.log"@,
            config.rclone_log@ == r"C:\ProgramData\CloudFolder\logs\rclone.log"@,
            config.max_bytes == 20_971_520,
            config.keep_files == 5,
    {
        LoggingConfig {
            service_log: default_service_log(),
            rclone_log: default_rclone_log(),
            max_bytes: default_log_max_bytes(),
            keep_files: default_keep_files(),
        }
    }
}

/// The volume name used where a configuration gives none.
pub fn default_volume_name() -> (value: String)
    ensures
        value@ == "CloudFolder"@,
{
    "CloudFolder".to_string()
}

/// The cache mode used where a configuration gives none.
pub fn default_cache_mode() -> (value: String)
    ensures
        value@ == "full"@,
{
    "full".to_string()
}

/// The cache max size used where a configuration gives none.
pub fn default_cache_max_size() -> (value: String)
    ensures
        value@ == "32Gi"@,
{
    "32Gi".to_string()
}

/// The cache max age used where a configuration gives none.
pub fn default_cache_max_age() -> (value: String)
    ensures
        value@ == "168h"@,
{
    "168h".to_string()
}

/// The cache min free space used where a configuration gives none.
pub fn default_cache_min_free_space() -> (value: String)
    ensures
        value@ == "16Gi"@,
{
    "16Gi".to_string()
}

/// The write back used where a configuration gives none.
pub fn default_write_back() -> (value: String)
    ensures
        value@ == "5s"@,
{
    "5s".to_string()
}

/// The dir cache time used where a configuration gives none.
pub fn default_dir_cache_time() -> (value: String)
    ensures
        value@ == "30s"@,
{
    "30s".to_string()
}

/// The attr timeout used where a configuration gives none.
pub fn default_attr_timeout() -> (value: String)
    ensures
        value@ == "1s"@,
{
    "1s".to_string()
}

/// The buffer size used where a configuration gives none.
pub fn default_buffer_size() -> (value: String)
    ensures
        value@ == "16Mi"@,
{
    "16Mi".to_string()
}

/// The read ahead used where a configuration gives none.
pub fn default_read_ahead() -> (value: String)
    ensures
        value@ == "64Mi"@,
{
    "64Mi".to_string()
}

/// The cache poll interval used where a configuration gives none.
pub fn default_cache_poll_interval() -> (value: String)
    ensures
        value@ == "30s"@,
{
    "30s".to_string()
}

/// The transfers used where a configuration gives none.
pub fn default_transfers() -> (value: u32)
    ensures
        value == 4,
{
    4
}

/// The file perms used where a configuration gives none.
pub fn default_file_perms() -> (value: String)
    ensures
        value@ == "0666"@,
{
    "0666".to_string()
}

/// The dir perms used where a configuration gives none.
pub fn default_dir_perms() -> (value: String)
    ensures
        value@ == "0777"@,
{
    "0777".to_string()
}

/// The rc addr used where a configuration gives none.
pub fn default_rc_addr() -> (value: String)
    ensures
        value@ == "127.0.0.1:5577"@,
{
    "127.0.0.1:5577".to_string()
}

/// The ssh exe used where a configuration gives none.
pub fn default_ssh_exe() -> (value: String)
    ensures
        value@ == r"C:\Windows\System32\OpenSSH\ssh.exe"@,
{
    r"C:\Windows\System32\OpenSSH\ssh.exe".to_string()
}

/// The change feed debounce ms used where a configuration gives none.
pub fn default_change_feed_debounce_ms() -> (value: u64)
    ensures
        value == 150,
{
    150
}

/// The change feed max watches used where a configuration gives none.
pub fn default_change_feed_max_watches() -> (value: u64)
    ensures
        value == 60_000,
{
    60_000
}

/// The change feed reserve watches used where a configuration gives none.
pub fn default_change_feed_reserve_watches() -> (value: u64)
    ensures
        value == 4_096,
{
    4_096
}

/// The probe interval secs used where a configuration gives none.
pub fn default_probe_interval_secs() -> (value: u64)
    ensures
        value == 10,
{
    10
}

/// The probe timeout secs used where a configuration gives none.
pub fn default_probe_timeout_secs() -> (value: u64)
    ensures
        value == 5,
{
    5
}

/// The startup timeout secs used where a configuration gives none.
pub fn default_startup_timeout_secs() -> (value: u64)
    ensures
        value == 60,
{
    60
}

/// The failure threshold used where a configuration gives none.
pub fn default_failure_threshold() -> (value: u32)
    ensures
        value == 3,
{
    3
}

/// The backoff initial secs used where a configuration gives none.
pub fn default_backoff_initial_secs() -> (value: u64)
    ensures
        value == 1,
{
    1
}

/// The backoff max secs used where a configuration gives none.
pub fn default_backoff_max_secs() -> (value: u64)
    ensures
        value == 60,
{
    60
}

/// The stable reset secs used where a configuration gives none.
pub fn default_stable_reset_secs() -> (value: u64)
    ensures
        value == 180,
{
    180
}

/// The graceful stop secs used where a configuration gives none.
pub fn default_graceful_stop_secs() -> (value: u64)
    ensures
        value == 15,
{
    15
}

/// The service log used where a configuration gives none.
pub fn default_service_log() -> (value: String)
    ensures
        value@ == r"C:\ProgramData\CloudFolder\logs\service.log"@,
{
    r"C:\ProgramData\CloudFolder\logs\service.log".to_string()
}

/// The rclone log used where a configuration gives none.
pub fn default_rclone_log() -> (value: String)
    ensures
        value@ == r"C:\ProgramData\CloudFolder\logs\rclone.log"@,
{
    r"C:\ProgramData\CloudFolder\logs\rclone.log".to_string()
}

/// The log max bytes used where a configuration gives none.
pub fn default_log_max_bytes() -> (value: u64)
    ensures
        value == 20_971_520,
{
    20_971_520
}

/// The keep files used where a configuration gives none.
pub fn default_keep_files() -> (value: usize)
    ensures
        value == 5,
{
    5
}

/// A configuration that passes validation lets rclone be controlled from this machine
/// alone, keeps cache and mount apart, gives every waiting time and threshold a positive
/// value, and starts the backoff between one second and its bound.
pub proof fn law_valid_configuration(config: Config)
    requires
        config.fault() is None,
    ensures
        config.mount.listens_on_loopback(),
        is_absolute(config.mount.mount_point@),
        is_absolute(config.mount.cache_dir@),
        !same_path(config.mount.mount_point@, config.mount.cache_dir@),
        config.health.probe_interval_secs > 0,
        config.health.probe_timeout_secs > 0,
        config.health.failure_threshold > 0,
        1 <= config.health.backoff_initial_secs <= config.health.backoff_max_secs,
        config.change_feed.enabled ==> config.change_feed.reserve_watches
            < config.change_feed.max_watches,
{
}

/// Whether a change feed that is switched on can be run as it is configured.
pub open spec fn feed_is_usable(feed: ChangeFeedConfig) -> bool {
    &&& is_absolute(feed.ssh_exe@)
    &&& is_absolute(feed.ssh_config@)
    &&& !is_blank(feed.ssh_target@)
    &&& feed.remote_root@.len() > 0 && feed.remote_root@[0] == '/'
    &&& 25 <= feed.debounce_ms <= 5000
    &&& 1024 <= feed.max_watches
    &&& feed.reserve_watches < feed.max_watches
}

/// Whether a text is four octal digits of which the first is zero.
pub open spec fn reads_as_mode(text: Seq<char>) -> bool {
    text.len() == 4 && text[0] == '0' && number(text, 8, 0x1FF) is Some
}

proof fn lemma_octal_mode(text: Seq<char>)
    ensures
        is_octal_mode(text) == reads_as_mode(text),
{
    if text.len() == 4 && text[0] == '0' {
        reveal_with_fuel(digits_value, 5);
        if is_octal_mode(text) {
            assert forall|i: int| 0 <= i < text.len() implies digit_value(#[trigger] text[i], 8)
                is Some by {}
            let a = text.drop_last();
            let b = a.drop_last();
            let c = b.drop_last();
            assert(c.drop_last() =~= Seq::empty());
            assert(text.last() == text[3] && a.last() == text[2] && b.last() == text[1]
                && c.last() == text[0]);
        } else if all_digits(text, 8) {
            assert forall|i: int| 0 <= i < 4 implies '0' <= #[trigger] text[i] <= '7' by {
                assert(digit_value(text[i], 8) is Some);
            }
        }
    }
}

/// A configuration is accepted exactly where everything that a mount rests on holds, and what
/// concerns the change feed is asked for only where it is switched on.
pub proof fn law_accepted_configuration(config: Config)
    ensures
        config.fault() is None <==> ({
            &&& !is_blank(config.mount.remote@) && config.mount.remote@.contains(':')
            &&& is_absolute(config.mount.mount_point@)
            &&& is_absolute(config.mount.cache_dir@)
            &&& !same_path(config.mount.mount_point@, config.mount.cache_dir@)
            &&& config.health.probe_interval_secs > 0
            &&& config.health.probe_timeout_secs > 0
            &&& config.health.failure_threshold > 0
            &&& 0 < config.health.backoff_initial_secs <= config.health.backoff_max_secs
            &&& socket_address(config.mount.rc_addr@) is Some
            &&& is_loopback(socket_address(config.mount.rc_addr@)->0.host)
            &&& config.mount.transfers > 0
            &&& reads_as_mode(config.mount.file_perms@)
            &&& reads_as_mode(config.mount.dir_perms@)
            &&& !config.mount.windows_file_security@.contains('\r')
            &&& !config.mount.windows_file_security@.contains('\n')
            &&& config.change_feed.enabled ==> feed_is_usable(config.change_feed)
        }),
{
    lemma_octal_mode(config.mount.file_perms@);
    lemma_octal_mode(config.mount.dir_perms@);
    lemma_begins_with_slash(config.change_feed.remote_root@);
}

proof fn lemma_begins_with_slash(text: Seq<char>)
    ensures
        starts_with(text, seq!['/']) == (text.len() > 0 && text[0] == '/'),
{
    if text.len() > 0 {
        assert(text.subrange(0, 1)[0] == text[0]);
        if text[0] == '/' {
            assert(text.subrange(0, 1) =~= seq!['/']);
        } else {
            assert(seq!['/'][0] == '/');
        }
    }
}

/// A configuration is refused for something that is wrong with it, and what is wrong with the
/// change feed is told only where nothing else is.
pub proof fn law_refusal_names_a_fault(config: Config, error: ConfigError)
    requires
        config.fault() == Some(error),
    ensures
        match error {
            ConfigError::RemoteInvalid => is_blank(config.mount.remote@)
                || !config.mount.remote@.contains(':'),
            ConfigError::MountPointRelative => !is_absolute(config.mount.mount_point@),
            ConfigError::CacheDirRelative => !is_absolute(config.mount.cache_dir@),
            ConfigError::ProbeTimingZero => config.health.probe_interval_secs == 0
                || config.health.probe_timeout_secs == 0,
            ConfigError::FailureThresholdZero => config.health.failure_threshold == 0,
            ConfigError::BackoffInvalid => config.health.backoff_initial_secs == 0
                || config.health.backoff_initial_secs > config.health.backoff_max_secs,
            ConfigError::RcAddressInvalid => socket_address(config.mount.rc_addr@) is None,
            ConfigError::RcAddressNotLoopback => socket_address(config.mount.rc_addr@) is Some
                && !is_loopback(socket_address(config.mount.rc_addr@)->0.host),
            ConfigError::CacheDirIsMountPoint => same_path(
                config.mount.mount_point@,
                config.mount.cache_dir@,
            ),
            ConfigError::TransfersZero => config.mount.transfers == 0,
            ConfigError::FilePermsInvalid => !reads_as_mode(config.mount.file_perms@),
            ConfigError::DirPermsInvalid => !reads_as_mode(config.mount.dir_perms@),
            ConfigError::FileSecurityBroken => config.mount.windows_file_security@.contains('\r')
                || config.mount.windows_file_security@.contains('\n'),
            ConfigError::FeedSshExeRelative => !is_absolute(config.change_feed.ssh_exe@),
            ConfigError::FeedSshConfigRelative => !is_absolute(config.change_feed.ssh_config@),
            ConfigError::FeedTargetMissing => is_blank(config.change_feed.ssh_target@),
            ConfigError::FeedRootRelative => config.change_feed.remote_root@.len() == 0
                || config.change_feed.remote_root@[0] != '/',
            ConfigError::FeedDebounceOutOfRange => config.change_feed.debounce_ms < 25
                || config.change_feed.debounce_ms > 5000,
            ConfigError::FeedWatchBudgetInvalid => config.change_feed.max_watches < 1024
                || config.change_feed.reserve_watches >= config.change_feed.max_watches,
        },
        error is FeedSshExeRelative || error is FeedSshConfigRelative || error is FeedTargetMissing
            || error is FeedRootRelative || error is FeedDebounceOutOfRange || error
            is FeedWatchBudgetInvalid ==> config.change_feed.enabled && (Config {
            change_feed: ChangeFeedConfig { enabled: false, ..config.change_feed },
            ..config
        }).fault() is None,
{
    lemma_octal_mode(config.mount.file_perms@);
    lemma_octal_mode(config.mount.dir_perms@);
    lemma_begins_with_slash(config.change_feed.remote_root@);
}

} // verus!
