//! What has to be in place before a mount can run.

use crate::config::{Config, ConfigError};
use crate::text::{trim, trimmed};
use vstd::prelude::*;

verus! {

/// The WinFsp runtime that rclone mounts with.
pub const WINFSP_RUNTIME: &'static str = r"C:\Program Files (x86)\WinFsp\bin\winfsp-x64.dll";

/// Why a mount cannot run.
#[derive(Clone, Copy, Debug, PartialEq, Eq, Structural)]
pub enum SetupError {
    Config(ConfigError),
    RcloneMissing,
    RcloneConfigMissing,
    WinFspMissing,
    FeedSshMissing,
    FeedSshConfigMissing,
}

impl SetupError {
    /// What is said of a mount that cannot run.
    pub open spec fn spec_message(self, config: Config) -> Seq<char> {
        match self {
            SetupError::Config(error) => error.spec_message(),
            SetupError::RcloneMissing => "rclone executable not found: "@
                + config.mount.rclone_exe@,
            SetupError::RcloneConfigMissing => "rclone config not found: "@
                + config.mount.rclone_config@,
            SetupError::WinFspMissing => "WinFsp x64 runtime not found: "@ + WINFSP_RUNTIME@,
            SetupError::FeedSshMissing => "change-feed ssh executable not found: "@
                + config.change_feed.ssh_exe@,
            SetupError::FeedSshConfigMissing => "change-feed SSH config not found: "@
                + config.change_feed.ssh_config@,
        }
    }

    /// What is said of a mount that cannot run.
    pub fn message(self, config: &Config) -> (text: String)
        ensures
            text@ == self.spec_message(*config),
    {
        match self {
            SetupError::Config(error) => error.message().to_string(),
            SetupError::RcloneMissing => {
                let mut text = "rclone executable not found: ".to_string();
                text.append(config.mount.rclone_exe.as_str());
                text
            },
            SetupError::RcloneConfigMissing => {
                let mut text = "rclone config not found: ".to_string();
                text.append(config.mount.rclone_config.as_str());
                text
            },
            SetupError::WinFspMissing => {
                let mut text = "WinFsp x64 runtime not found: ".to_string();
                text.append(WINFSP_RUNTIME);
                text
            },
            SetupError::FeedSshMissing => {
                let mut text = "change-feed ssh executable not found: ".to_string();
                text.append(config.change_feed.ssh_exe.as_str());
                text
            },
            SetupError::FeedSshConfigMissing => {
                let mut text = "change-feed SSH config not found: ".to_string();
                text.append(config.change_feed.ssh_config.as_str());
                text
            },
        }
    }
}

/// Which of the files that a mount needs are there.
#[derive(Clone, Copy, Debug, PartialEq, Eq, Structural)]
pub struct FoundFiles {
    pub rclone_exe: bool,
    pub rclone_config: bool,
    pub winfsp: bool,
}

/// What keeps rclone from reaching the remote: a fault of the configuration before a
/// missing file.
pub open spec fn remote_obstacle(config: Config, found: FoundFiles) -> Option<SetupError> {
    match config.fault() {
        Some(error) => Some(SetupError::Config(error)),
        None => if !found.rclone_exe {
            Some(SetupError::RcloneMissing)
        } else if !found.rclone_config {
            Some(SetupError::RcloneConfigMissing)
        } else {
            None
        },
    }
}

/// What keeps a mount from running.
pub open spec fn mount_obstacle(config: Config, found: FoundFiles) -> Option<SetupError> {
    match remote_obstacle(config, found) {
        Some(error) => Some(error),
        None => if !found.winfsp {
            Some(SetupError::WinFspMissing)
        } else {
            None
        },
    }
}

/// Checks that rclone can be run to reach the remote.
pub fn verify_remote_dependencies(config: &Config, found: FoundFiles) -> (checked: Result<
    (),
    SetupError,
>)
    ensures
        match checked {
            Ok(()) => remote_obstacle(*config, found) is None,
            Err(error) => remote_obstacle(*config, found) == Some(error),
        },
{
    match config.validate() {
        Err(error) => Err(SetupError::Config(error)),
        Ok(()) => if !found.rclone_exe {
            Err(SetupError::RcloneMissing)
        } else if !found.rclone_config {
            Err(SetupError::RcloneConfigMissing)
        } else {
            Ok(())
        },
    }
}

/// Checks that a mount can be run.
pub fn verify_dependencies(config: &Config, found: FoundFiles) -> (checked: Result<(), SetupError>)
    ensures
        match checked {
            Ok(()) => mount_obstacle(*config, found) is None,
            Err(error) => mount_obstacle(*config, found) == Some(error),
        },
{
    match verify_remote_dependencies(config, found) {
        Err(error) => Err(error),
        Ok(()) => if !found.winfsp {
            Err(SetupError::WinFspMissing)
        } else {
            Ok(())
        },
    }
}

/// Whether a change feed is to be run, or what keeps it from running. One that is switched off
/// is not to be run, and needs no files.
pub open spec fn feed_readiness(config: Config, ssh_exe: bool, ssh_config: bool) -> Result<
    bool,
    SetupError,
> {
    match config.fault() {
        Some(error) => Err(SetupError::Config(error)),
        None => if !config.change_feed.enabled {
            Ok(false)
        } else if !ssh_exe {
            Err(SetupError::FeedSshMissing)
        } else if !ssh_config {
            Err(SetupError::FeedSshConfigMissing)
        } else {
            Ok(true)
        },
    }
}

/// Checks that a change feed can be run. One that is switched off is not to be run, and
/// needs no files.
pub fn verify_feed_dependencies(config: &Config, ssh_exe: bool, ssh_config: bool) -> (checked:
    Result<bool, SetupError>)
    ensures
        checked == feed_readiness(*config, ssh_exe, ssh_config),
{
    match config.validate() {
        Err(error) => Err(SetupError::Config(error)),
        Ok(()) => if !config.change_feed.enabled {
            Ok(false)
        } else if !ssh_exe {
            Err(SetupError::FeedSshMissing)
        } else if !ssh_config {
            Err(SetupError::FeedSshConfigMissing)
        } else {
            Ok(true)
        },
    }
}

/// What is said of a connectivity check that failed with this on standard error.
pub fn remote_check_failure(stderr: &str) -> (text: String)
    ensures
        text@ == "rclone connectivity check failed: "@ + trim(stderr@),
{
    let mut text = "rclone connectivity check failed: ".to_string();
    text.append(trimmed(stderr).as_str());
    text
}

/// What is said of an invalidation that failed with this on standard error.
pub fn forget_failure(stderr: &str) -> (text: String)
    ensures
        text@ == "vfs/forget failed: "@ + trim(stderr@),
{
    let mut text = "vfs/forget failed: ".to_string();
    text.append(trimmed(stderr).as_str());
    text
}

/// A mount is run only with a configuration that is accepted and with all that it needs in
/// place, and then it is. What concerns WinFsp alone does not keep the remote from being
/// reached. A fault of the configuration is told before a missing file.
pub proof fn law_nothing_runs_without_its_files(config: Config, found: FoundFiles)
    ensures
        mount_obstacle(config, found) is None <==> config.fault() is None && found.rclone_exe
            && found.rclone_config && found.winfsp,
        remote_obstacle(config, found) is None <==> config.fault() is None && found.rclone_exe
            && found.rclone_config,
        config.fault() matches Some(error) ==> mount_obstacle(config, found) == Some(
            SetupError::Config(error),
        ),
        match mount_obstacle(config, found) {
            Some(SetupError::Config(error)) => config.fault() == Some(error),
            Some(SetupError::RcloneMissing) => !found.rclone_exe,
            Some(SetupError::RcloneConfigMissing) => found.rclone_exe && !found.rclone_config,
            Some(SetupError::WinFspMissing) => found.rclone_exe && found.rclone_config
                && !found.winfsp,
            Some(_) => false,
            None => true,
        },
        remote_obstacle(config, found) is Some ==> mount_obstacle(config, found)
            == remote_obstacle(config, found),
{
}

/// A change feed is run exactly where the configuration is accepted, the feed is switched on and
/// its files are there. One that is switched off is passed over whatever files there are.
pub proof fn law_feed_runs_only_with_its_files(config: Config, ssh_exe: bool, ssh_config: bool)
    ensures
        feed_readiness(config, ssh_exe, ssh_config) == Ok::<bool, SetupError>(true)
            <==> config.fault() is None && config.change_feed.enabled && ssh_exe && ssh_config,
        feed_readiness(config, ssh_exe, ssh_config) == Ok::<bool, SetupError>(false)
            <==> config.fault() is None && !config.change_feed.enabled,
        feed_readiness(config, ssh_exe, ssh_config) == Err::<bool, SetupError>(
            SetupError::FeedSshMissing,
        ) <==> config.fault() is None && config.change_feed.enabled && !ssh_exe,
        feed_readiness(config, ssh_exe, ssh_config) == Err::<bool, SetupError>(
            SetupError::FeedSshConfigMissing,
        ) <==> config.fault() is None && config.change_feed.enabled && ssh_exe && !ssh_config,
{
}

/// What is missing is named by the path at which it was looked for.
pub proof fn law_missing_file_is_named(error: SetupError, config: Config)
    requires
        !(error is Config),
    ensures
        ({
            let path = match error {
                SetupError::RcloneMissing => config.mount.rclone_exe@,
                SetupError::RcloneConfigMissing => config.mount.rclone_config@,
                SetupError::WinFspMissing => WINFSP_RUNTIME@,
                SetupError::FeedSshMissing => config.change_feed.ssh_exe@,
                _ => config.change_feed.ssh_config@,
            };
            let message = error.spec_message(config);
            path.is_suffix_of(message) && message.len() > path.len()
        }),
{
    reveal_strlit("rclone executable not found: ");
    reveal_strlit("rclone config not found: ");
    reveal_strlit("WinFsp x64 runtime not found: ");
    reveal_strlit("change-feed ssh executable not found: ");
    reveal_strlit("change-feed SSH config not found: ");
    let message = error.spec_message(config);
    let path = match error {
        SetupError::RcloneMissing => config.mount.rclone_exe@,
        SetupError::RcloneConfigMissing => config.mount.rclone_config@,
        SetupError::WinFspMissing => WINFSP_RUNTIME@,
        SetupError::FeedSshMissing => config.change_feed.ssh_exe@,
        _ => config.change_feed.ssh_config@,
    };
    assert(message.subrange(message.len() - path.len(), message.len() as int) =~= path);
}

} // verus!
