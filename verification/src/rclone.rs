//! The argument lists that `rclone` is started with.

use crate::config::{Config, MountConfig};
use crate::text::{blank, decimal, decimal_text, is_blank, views};
use vstd::prelude::*;

verus! {

/// Appends one argument.
pub fn push_argument(arguments: &mut Vec<String>, text: &str)
    ensures
        views(final(arguments)@) == views(old(arguments)@).push(text@),
{
    arguments.push(text.to_string());
    assert(views(arguments@) =~= views(old(arguments)@).push(text@));
}

/// Whether a flag is followed by a value somewhere in a list of arguments.
pub open spec fn passes(arguments: Seq<Seq<char>>, flag: Seq<char>, value: Seq<char>) -> bool {
    exists|i: int|
        0 <= i < arguments.len() - 1 && #[trigger] arguments[i] == flag && arguments[i + 1] == value
}

/// How many old logs rclone keeps: at least one.
pub open spec fn kept_backups(keep_files: usize) -> nat {
    if keep_files < 1 {
        1
    } else {
        keep_files as nat
    }
}

/// What `rclone mount` is always told.
pub open spec fn common_mount_arguments(config: Config) -> Seq<Seq<char>> {
    seq![
        "mount"@,
        config.mount.remote@,
        config.mount.mount_point@,
        "--config"@,
        config.mount.rclone_config@,
        "--volname"@,
        config.mount.volume_name@,
        "--cache-dir"@,
        config.mount.cache_dir@,
        "--vfs-cache-mode"@,
        config.mount.vfs_cache_mode@,
        "--vfs-cache-max-size"@,
        config.mount.vfs_cache_max_size@,
        "--vfs-cache-max-age"@,
        config.mount.vfs_cache_max_age@,
        "--vfs-cache-min-free-space"@,
        config.mount.vfs_cache_min_free_space@,
        "--vfs-write-back"@,
        config.mount.vfs_write_back@,
        "--dir-cache-time"@,
        config.mount.dir_cache_time@,
        "--attr-timeout"@,
        config.mount.attr_timeout@,
        "--buffer-size"@,
        config.mount.buffer_size@,
        "--vfs-read-ahead"@,
        config.mount.vfs_read_ahead@,
        "--vfs-cache-poll-interval"@,
        config.mount.vfs_cache_poll_interval@,
        "--transfers"@,
        decimal(config.mount.transfers as nat),
        "--file-perms"@,
        config.mount.file_perms@,
        "--dir-perms"@,
        config.mount.dir_perms@,
        "--contimeout"@,
        "10s"@,
        "--timeout"@,
        "30s"@,
        "--low-level-retries"@,
        "3"@,
        "--rc"@,
        "--rc-addr"@,
        config.mount.rc_addr@,
        "--rc-no-auth"@,
        "--log-level"@,
        "NOTICE"@,
        "--log-file"@,
        config.logging.rclone_log@,
        "--log-file-max-size"@,
        decimal(config.logging.max_bytes as nat),
        "--log-file-max-backups"@,
        decimal(kept_backups(config.logging.keep_files)),
        "--log-file-compress"@,
        "--log-format"@,
        "date,time,microseconds,pid"@,
        "--no-console"@,
    ]
}

/// What `rclone mount` is told of the owner of the mounted files, where that is set.
pub open spec fn security_arguments(config: Config) -> Seq<Seq<char>> {
    if is_blank(config.mount.windows_file_security@) {
        Seq::empty()
    } else {
        seq!["-o"@, "FileSecurity="@ + config.mount.windows_file_security@]
    }
}

/// What `rclone` is told to start a mount.
pub open spec fn mount_argument_texts(config: Config) -> Seq<Seq<char>> {
    common_mount_arguments(config) + security_arguments(config) + if config.mount.read_only {
        seq!["--read-only"@]
    } else {
        Seq::empty()
    }
}

/// What `rclone` is told to start a mount.
#[verifier::rlimit(40)]
pub fn mount_arguments(config: &Config) -> (arguments: Vec<String>)
    ensures
        views(arguments@) == mount_argument_texts(*config),
{
    let mut arguments: Vec<String> = Vec::new();
    assert(views(arguments@) =~= Seq::empty());
    push_argument(&mut arguments, "mount");
    push_argument(&mut arguments, config.mount.remote.as_str());
    push_argument(&mut arguments, config.mount.mount_point.as_str());
    push_argument(&mut arguments, "--config");
    push_argument(&mut arguments, config.mount.rclone_config.as_str());
    push_argument(&mut arguments, "--volname");
    push_argument(&mut arguments, config.mount.volume_name.as_str());
    push_argument(&mut arguments, "--cache-dir");
    push_argument(&mut arguments, config.mount.cache_dir.as_str());
    push_argument(&mut arguments, "--vfs-cache-mode");
    push_argument(&mut arguments, config.mount.vfs_cache_mode.as_str());
    push_argument(&mut arguments, "--vfs-cache-max-size");
    push_argument(&mut arguments, config.mount.vfs_cache_max_size.as_str());
    push_argument(&mut arguments, "--vfs-cache-max-age");
    push_argument(&mut arguments, config.mount.vfs_cache_max_age.as_str());
    push_argument(&mut arguments, "--vfs-cache-min-free-space");
    push_argument(&mut arguments, config.mount.vfs_cache_min_free_space.as_str());
    push_argument(&mut arguments, "--vfs-write-back");
    push_argument(&mut arguments, config.mount.vfs_write_back.as_str());
    push_argument(&mut arguments, "--dir-cache-time");
    push_argument(&mut arguments, config.mount.dir_cache_time.as_str());
    push_argument(&mut arguments, "--attr-timeout");
    push_argument(&mut arguments, config.mount.attr_timeout.as_str());
    push_argument(&mut arguments, "--buffer-size");
    push_argument(&mut arguments, config.mount.buffer_size.as_str());
    push_argument(&mut arguments, "--vfs-read-ahead");
    push_argument(&mut arguments, config.mount.vfs_read_ahead.as_str());
    push_argument(&mut arguments, "--vfs-cache-poll-interval");
    push_argument(&mut arguments, config.mount.vfs_cache_poll_interval.as_str());
    push_argument(&mut arguments, "--transfers");
    push_argument(&mut arguments, decimal_text(config.mount.transfers as u64).as_str());
    push_argument(&mut arguments, "--file-perms");
    push_argument(&mut arguments, config.mount.file_perms.as_str());
    push_argument(&mut arguments, "--dir-perms");
    push_argument(&mut arguments, config.mount.dir_perms.as_str());
    push_argument(&mut arguments, "--contimeout");
    push_argument(&mut arguments, "10s");
    push_argument(&mut arguments, "--timeout");
    push_argument(&mut arguments, "30s");
    push_argument(&mut arguments, "--low-level-retries");
    push_argument(&mut arguments, "3");
    push_argument(&mut arguments, "--rc");
    push_argument(&mut arguments, "--rc-addr");
    push_argument(&mut arguments, config.mount.rc_addr.as_str());
    push_argument(&mut arguments, "--rc-no-auth");
    push_argument(&mut arguments, "--log-level");
    push_argument(&mut arguments, "NOTICE");
    push_argument(&mut arguments, "--log-file");
    push_argument(&mut arguments, config.logging.rclone_log.as_str());
    push_argument(&mut arguments, "--log-file-max-size");
    push_argument(&mut arguments, decimal_text(config.logging.max_bytes).as_str());
    push_argument(&mut arguments, "--log-file-max-backups");
    let backups: usize = if config.logging.keep_files < 1 {
        1
    } else {
        config.logging.keep_files
    };
    push_argument(&mut arguments, decimal_text(backups as u64).as_str());
    push_argument(&mut arguments, "--log-file-compress");
    push_argument(&mut arguments, "--log-format");
    push_argument(&mut arguments, "date,time,microseconds,pid");
    push_argument(&mut arguments, "--no-console");
    assert(views(arguments@) == common_mount_arguments(*config));
    let ghost common = views(arguments@);
    if !blank(config.mount.windows_file_security.as_str()) {
        push_argument(&mut arguments, "-o");
        let mut security = "FileSecurity=".to_string();
        security.append(config.mount.windows_file_security.as_str());
        push_argument(&mut arguments, security.as_str());
    }
    assert(views(arguments@) =~= common + security_arguments(*config));
    if config.mount.read_only {
        push_argument(&mut arguments, "--read-only");
    }
    assert(views(arguments@) =~= mount_argument_texts(*config));
    arguments
}

/// What `rclone` is told to look at the remote once, without retrying for long.
pub open spec fn remote_check_argument_texts(config: Config) -> Seq<Seq<char>> {
    seq![
        "lsf"@,
        config.mount.remote@,
        "--config"@,
        config.mount.rclone_config@,
        "--max-depth"@,
        "1"@,
        "--contimeout"@,
        "10s"@,
        "--timeout"@,
        "20s"@,
        "--low-level-retries"@,
        "1"@,
        "--retries"@,
        "1"@,
    ]
}

/// What `rclone` is told to look at the remote once.
pub fn remote_check_arguments(config: &Config) -> (arguments: Vec<String>)
    ensures
        views(arguments@) == remote_check_argument_texts(*config),
{
    let mut arguments: Vec<String> = Vec::new();
    assert(views(arguments@) =~= Seq::empty());
    push_argument(&mut arguments, "lsf");
    push_argument(&mut arguments, config.mount.remote.as_str());
    push_argument(&mut arguments, "--config");
    push_argument(&mut arguments, config.mount.rclone_config.as_str());
    push_argument(&mut arguments, "--max-depth");
    push_argument(&mut arguments, "1");
    push_argument(&mut arguments, "--contimeout");
    push_argument(&mut arguments, "10s");
    push_argument(&mut arguments, "--timeout");
    push_argument(&mut arguments, "20s");
    push_argument(&mut arguments, "--low-level-retries");
    push_argument(&mut arguments, "1");
    push_argument(&mut arguments, "--retries");
    push_argument(&mut arguments, "1");
    arguments
}

/// What `rclone` is told to call a method of a running mount.
pub open spec fn rc_argument_texts(config: Config, method: Seq<char>) -> Seq<Seq<char>> {
    seq!["rc"@, "--url"@, "http://"@ + config.mount.rc_addr@ + "/"@, method]
}

/// What `rclone` is told to call a method of a running mount.
pub fn rc_arguments(config: &Config, method: &str) -> (arguments: Vec<String>)
    ensures
        views(arguments@) == rc_argument_texts(*config, method@),
{
    let mut arguments: Vec<String> = Vec::new();
    assert(views(arguments@) =~= Seq::empty());
    push_argument(&mut arguments, "rc");
    push_argument(&mut arguments, "--url");
    let mut url = "http://".to_string();
    url.append(config.mount.rc_addr.as_str());
    url.append("/");
    push_argument(&mut arguments, url.as_str());
    push_argument(&mut arguments, method);
    arguments
}

/// What `rclone` is told to forget of its directory cache: a file, a directory, or both.
pub open spec fn forget_argument_texts(config: Config, file: Seq<char>, dir: Seq<char>) -> Seq<
    Seq<char>,
> {
    rc_argument_texts(config, "vfs/forget"@) + if file.len() > 0 {
        seq!["file="@ + file]
    } else {
        Seq::empty()
    } + if dir.len() > 0 {
        seq!["dir="@ + dir]
    } else {
        Seq::empty()
    }
}

/// What `rclone` is told to forget of its directory cache.
pub fn forget_arguments(config: &Config, file: &str, dir: &str) -> (arguments: Vec<String>)
    ensures
        views(arguments@) == forget_argument_texts(*config, file@, dir@),
{
    let mut arguments = rc_arguments(config, "vfs/forget");
    if !file.is_empty() {
        let mut text = "file=".to_string();
        text.append(file);
        push_argument(&mut arguments, text.as_str());
    }
    if !dir.is_empty() {
        let mut text = "dir=".to_string();
        text.append(dir);
        push_argument(&mut arguments, text.as_str());
    }
    assert(views(arguments@) =~= forget_argument_texts(*config, file@, dir@));
    arguments
}

/// Every mount runs with the control address, the cache and the log of its own
/// configuration.
pub proof fn law_mount_keeps_to_its_own(config: Config)
    ensures
        passes(mount_argument_texts(config), "--rc-addr"@, config.mount.rc_addr@),
        passes(mount_argument_texts(config), "--cache-dir"@, config.mount.cache_dir@),
        passes(mount_argument_texts(config), "--log-file"@, config.logging.rclone_log@),
{
    let common = common_mount_arguments(config);
    let all = mount_argument_texts(config);
    assert(all.take(common.len() as int) =~= common);
    assert(all[42] == common[42] && all[43] == common[43]);
    assert(all[7] == common[7] && all[8] == common[8]);
    assert(all[47] == common[47] && all[48] == common[48]);
}

/// The configuration of a mount that shows its files with other rights.
pub open spec fn with_access(config: Config, security: String, read_only: bool) -> Config {
    Config {
        mount: MountConfig { windows_file_security: security, read_only, ..config.mount },
        ..config
    }
}

/// A mount runs as it is configured: it brings the configured remote to the configured mount
/// point, and every option that the configuration sets is handed over with its own value.
pub proof fn law_mount_runs_as_configured(config: Config)
    ensures
        ({
            let all = mount_argument_texts(config);
            &&& all.len() >= 3
            &&& all[0] == "mount"@ && all[1] == config.mount.remote@ && all[2]
                == config.mount.mount_point@
            &&& passes(all, "--config"@, config.mount.rclone_config@)
            &&& passes(all, "--volname"@, config.mount.volume_name@)
            &&& passes(all, "--vfs-cache-mode"@, config.mount.vfs_cache_mode@)
            &&& passes(all, "--vfs-cache-max-size"@, config.mount.vfs_cache_max_size@)
            &&& passes(all, "--vfs-cache-max-age"@, config.mount.vfs_cache_max_age@)
            &&& passes(all, "--vfs-cache-min-free-space"@, config.mount.vfs_cache_min_free_space@)
            &&& passes(all, "--vfs-write-back"@, config.mount.vfs_write_back@)
            &&& passes(all, "--dir-cache-time"@, config.mount.dir_cache_time@)
            &&& passes(all, "--attr-timeout"@, config.mount.attr_timeout@)
            &&& passes(all, "--buffer-size"@, config.mount.buffer_size@)
            &&& passes(all, "--vfs-read-ahead"@, config.mount.vfs_read_ahead@)
            &&& passes(all, "--vfs-cache-poll-interval"@, config.mount.vfs_cache_poll_interval@)
            &&& passes(all, "--transfers"@, decimal(config.mount.transfers as nat))
            &&& passes(all, "--file-perms"@, config.mount.file_perms@)
            &&& passes(all, "--dir-perms"@, config.mount.dir_perms@)
            &&& passes(all, "--contimeout"@, "10s"@)
            &&& passes(all, "--timeout"@, "30s"@)
            &&& passes(all, "--low-level-retries"@, "3"@)
            &&& passes(all, "--log-level"@, "NOTICE"@)
            &&& passes(all, "--log-file-max-size"@, decimal(config.logging.max_bytes as nat))
            &&& passes(
                all,
                "--log-file-max-backups"@,
                if config.logging.keep_files == 0 {
                    decimal(1)
                } else {
                    decimal(config.logging.keep_files as nat)
                },
            )
            &&& passes(all, "--log-format"@, "date,time,microseconds,pid"@)
            &&& all.contains("--rc"@) && all.contains("--rc-no-auth"@) && all.contains(
                "--log-file-compress"@,
            ) && all.contains("--no-console"@)
        }),
{
    let common = common_mount_arguments(config);
    let all = mount_argument_texts(config);
    assert(all.take(common.len() as int) =~= common);
    assert forall|i: int| 0 <= i < common.len() implies #[trigger] all[i] == common[i] by {}
    assert(all[3] == "--config"@ && all[4] == config.mount.rclone_config@);
    assert(all[5] == "--volname"@ && all[6] == config.mount.volume_name@);
    assert(all[9] == "--vfs-cache-mode"@ && all[10] == config.mount.vfs_cache_mode@);
    assert(all[11] == "--vfs-cache-max-size"@ && all[12] == config.mount.vfs_cache_max_size@);
    assert(all[13] == "--vfs-cache-max-age"@ && all[14] == config.mount.vfs_cache_max_age@);
    assert(all[15] == "--vfs-cache-min-free-space"@ && all[16]
        == config.mount.vfs_cache_min_free_space@);
    assert(all[17] == "--vfs-write-back"@ && all[18] == config.mount.vfs_write_back@);
    assert(all[19] == "--dir-cache-time"@ && all[20] == config.mount.dir_cache_time@);
    assert(all[21] == "--attr-timeout"@ && all[22] == config.mount.attr_timeout@);
    assert(all[23] == "--buffer-size"@ && all[24] == config.mount.buffer_size@);
    assert(all[25] == "--vfs-read-ahead"@ && all[26] == config.mount.vfs_read_ahead@);
    assert(all[27] == "--vfs-cache-poll-interval"@ && all[28]
        == config.mount.vfs_cache_poll_interval@);
    assert(all[29] == "--transfers"@ && all[30] == decimal(config.mount.transfers as nat));
    assert(all[31] == "--file-perms"@ && all[32] == config.mount.file_perms@);
    assert(all[33] == "--dir-perms"@ && all[34] == config.mount.dir_perms@);
    assert(all[35] == "--contimeout"@ && all[36] == "10s"@);
    assert(all[37] == "--timeout"@ && all[38] == "30s"@);
    assert(all[39] == "--low-level-retries"@ && all[40] == "3"@);
    assert(all[41] == "--rc"@ && all[44] == "--rc-no-auth"@);
    assert(all[45] == "--log-level"@ && all[46] == "NOTICE"@);
    assert(all[49] == "--log-file-max-size"@ && all[50] == decimal(
        config.logging.max_bytes as nat,
    ));
    assert(all[51] == "--log-file-max-backups"@ && all[52] == decimal(
        kept_backups(config.logging.keep_files),
    ));
    assert(all[53] == "--log-file-compress"@);
    assert(all[54] == "--log-format"@ && all[55] == "date,time,microseconds,pid"@);
    assert(all[56] == "--no-console"@);
}

/// What the owner of files and the right to write change is only what is said of them: a
/// mount that is read-only is told so behind everything else, and one whose files belong to
/// someone is told to whom, where that is not blank.
pub proof fn law_access_is_told(config: Config, security: String, nobody: String)
    requires
        is_blank(nobody@),
    ensures
        ({
            let plain = mount_argument_texts(with_access(config, nobody, false));
            let owned = mount_argument_texts(with_access(config, security, false));
            &&& mount_argument_texts(with_access(config, nobody, true)) == plain.push(
                "--read-only"@,
            )
            &&& mount_argument_texts(with_access(config, security, true)) == owned.push(
                "--read-only"@,
            )
            &&& is_blank(security@) ==> owned == plain
            &&& !is_blank(security@) ==> owned == plain.push("-o"@).push(
                "FileSecurity="@ + security@,
            )
        }),
{
    let plain = mount_argument_texts(with_access(config, nobody, false));
    let owned = mount_argument_texts(with_access(config, security, false));
    assert(common_mount_arguments(with_access(config, nobody, true)) =~= common_mount_arguments(
        with_access(config, nobody, false),
    ));
    assert(common_mount_arguments(with_access(config, security, true)) =~= common_mount_arguments(
        with_access(config, nobody, false),
    ));
    assert(common_mount_arguments(with_access(config, security, false)) =~= common_mount_arguments(
        with_access(config, nobody, false),
    ));
    assert(mount_argument_texts(with_access(config, nobody, true)) =~= plain.push("--read-only"@));
    assert(mount_argument_texts(with_access(config, security, true)) =~= owned.push(
        "--read-only"@,
    ));
    if is_blank(security@) {
        assert(owned =~= plain);
    } else {
        assert(owned =~= plain.push("-o"@).push("FileSecurity="@ + security@));
    }
}

/// A mount is told to forget at its own control address, and to forget just the file and the
/// directory that are named; where neither is, everything.
pub proof fn law_only_what_is_named_is_forgotten(config: Config, file: Seq<char>, dir: Seq<char>)
    ensures
        ({
            let all = seq!["rc"@, "--url"@, "http://"@ + config.mount.rc_addr@ + "/"@, "vfs/forget"@];
            let none = Seq::<char>::empty();
            &&& forget_argument_texts(config, none, none) == all
            &&& file.len() > 0 ==> forget_argument_texts(config, file, none) == all.push(
                "file="@ + file,
            )
            &&& dir.len() > 0 ==> forget_argument_texts(config, file, dir)
                == forget_argument_texts(config, file, none).push("dir="@ + dir)
        }),
{
    let all = seq!["rc"@, "--url"@, "http://"@ + config.mount.rc_addr@ + "/"@, "vfs/forget"@];
    let none = Seq::<char>::empty();
    assert(forget_argument_texts(config, none, none) =~= all);
    if file.len() > 0 {
        assert(forget_argument_texts(config, file, none) =~= all.push("file="@ + file));
    }
    if dir.len() > 0 {
        assert(forget_argument_texts(config, file, dir) =~= forget_argument_texts(
            config,
            file,
            none,
        ).push("dir="@ + dir));
    }
}

/// The remote of a mount is looked at with the configuration of that mount, one level deep,
/// and without trying for long.
pub proof fn law_remote_is_looked_at_once(config: Config)
    ensures
        ({
            let all = remote_check_argument_texts(config);
            &&& all.len() >= 2 && all[0] == "lsf"@ && all[1] == config.mount.remote@
            &&& passes(all, "--config"@, config.mount.rclone_config@)
            &&& passes(all, "--max-depth"@, "1"@)
            &&& passes(all, "--retries"@, "1"@)
            &&& passes(all, "--low-level-retries"@, "1"@)
            &&& passes(all, "--contimeout"@, "10s"@)
            &&& passes(all, "--timeout"@, "20s"@)
        }),
{
    let all = remote_check_argument_texts(config);
    assert(all[2] == "--config"@ && all[4] == "--max-depth"@ && all[6] == "--contimeout"@ && all[8]
        == "--timeout"@ && all[10] == "--low-level-retries"@ && all[12] == "--retries"@);
}

/// A running mount is asked where it listens, for the method that is meant.
pub proof fn law_running_mount_is_asked(config: Config, method: Seq<char>)
    ensures
        ({
            let arguments = rc_argument_texts(config, method);
            &&& arguments.len() == 4
            &&& arguments[0] == "rc"@
            &&& arguments[1] == "--url"@
            &&& arguments[2] == "http://"@ + config.mount.rc_addr@ + "/"@
            &&& arguments[3] == method
        }),
{
}

} // verus!
