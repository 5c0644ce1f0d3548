//! The change feed: the helper, its command, and its lines.

use cloudfolder::change_feed::{
    connected_entry, debounce_text, decide_feed, disconnected_entry, feed_arguments,
    forget_failed_entry, handle_feed_line, remote_change_feed_script, FeedAction, FeedFields,
};
use cloudfolder::config::{
    ChangeFeedConfig, Config, HealthConfig, LoggingConfig, MountConfig,
};
use cloudfolder::rclone::forget_arguments;
use cloudfolder::shell::quote_posix;

fn nothing_said() -> FeedFields {
    FeedFields {
        ready_dirs: None,
        scanned_dirs: None,
        project_roots: None,
        watch_failures: None,
        watch_limit: None,
        degraded: None,
        overflow: None,
        file: None,
        dir: None,
    }
}

fn config() -> Config {
    let empty = String::new;
    Config {
        mount: MountConfig {
            rclone_exe: empty(),
            rclone_config: empty(),
            remote: empty(),
            mount_point: empty(),
            cache_dir: empty(),
            volume_name: empty(),
            vfs_cache_mode: empty(),
            vfs_cache_max_size: empty(),
            vfs_cache_max_age: empty(),
            vfs_cache_min_free_space: empty(),
            vfs_write_back: empty(),
            dir_cache_time: empty(),
            attr_timeout: empty(),
            buffer_size: empty(),
            vfs_read_ahead: empty(),
            vfs_cache_poll_interval: empty(),
            transfers: 1,
            file_perms: empty(),
            dir_perms: empty(),
            windows_file_security: empty(),
            read_only: false,
            rc_addr: empty(),
        },
        change_feed: ChangeFeedConfig {
            enabled: true,
            ssh_config: r"C:\ssh\config".to_string(),
            ssh_target: "lab".to_string(),
            remote_root: "/home/it's".to_string(),
            ..ChangeFeedConfig::default()
        },
        health: HealthConfig::default(),
        logging: LoggingConfig::default(),
    }
}

#[test]
fn change_feed_event_loop_is_event_driven_and_bulk_coalesces() {
    let script = remote_change_feed_script(150, 60_000, 4_096);
    let event_loop = script
        .split("while True:")
        .nth(1)
        .expect("change-feed helper must have an event loop");
    assert!(event_loop.contains("select.select"));
    assert!(!event_loop.contains("os.walk("));
    assert!(event_loop.contains("if len(pending)<=512"));
    assert!(event_loop.contains("bulk_events"));
    assert!(script.contains("kernel_limit//4"));
    assert!(script.contains("watch_exhausted"));
}

#[test]
fn the_helper_carries_its_limits() {
    let script = remote_change_feed_script(150, 60_000, 4_096);
    assert!(script.starts_with("import ctypes,ctypes.util,json,os,select,struct,sys,time\n"));
    assert!(script.contains("    kernel_limit=60000\n"));
    assert!(script.contains("limit=max(1024,min(60000,max(1024,kernel_limit//4)))\n"));
    assert!(script.contains("reserve=min(4096,max(0,limit//4))\n"));
    assert!(script.contains("wd_to_path={}\n"));
    assert!(script.contains("select.select([fd],[],[],0.15)\n"));
    assert!(script.contains("time.monotonic()-last>=0.15:\n"));
    assert!(script.contains("print(json.dumps({'overflow':True}),flush=True); continue\n"));
    assert!(script.ends_with("        pending.clear()\n"));
}

#[test]
fn the_helper_keeps_structure_and_contents_apart() {
    let script = remote_change_feed_script(150, 60_000, 4_096);
    assert!(script.contains("CONTENT=0x00000002|0x00000004|0x00000008\n"));
    let structure = script.split("STRUCTURE=").nth(1).unwrap().lines().next().unwrap();
    for bit in ["0x00000040", "0x00000080", "0x00000100", "0x00000200", "0x00000400", "0x00000800"] {
        assert!(structure.split('|').any(|part| part == bit), "{bit}");
    }
    assert!(script.contains("if mask & STRUCTURE: pending[('',parent)]=1\n"));
    assert!(script.contains("elif mask & CONTENT: pending[(rel,'')]=1\n"));
    assert!(script.contains("if new_dir: pending[('',rel)]=1\n"));
    assert!(!script.contains("pending[(rel,parent)]"));
    let (action, _) = handle_feed_line("{\"file\": \"a/b.txt\", \"dir\": \"\"}\n");
    assert_eq!(action, FeedAction::Forget { file: "a/b.txt".to_string(), dir: String::new() });
    assert_eq!(
        forget_arguments(&config(), "a/b.txt", "").last().map(String::as_str),
        Some("file=a/b.txt")
    );
    assert_eq!(forget_arguments(&config(), "", "a").last().map(String::as_str), Some("dir=a"));
}

#[test]
fn debounce_times_are_written_in_seconds() {
    for (millis, text) in [
        (0, "0.025"),
        (25, "0.025"),
        (100, "0.1"),
        (150, "0.15"),
        (999, "0.999"),
        (1000, "1"),
        (1005, "1.005"),
        (2500, "2.5"),
        (5000, "5"),
        (u64::MAX, "5"),
    ] {
        assert_eq!(debounce_text(millis), text);
        let seconds = (millis as f64 / 1000.0).clamp(0.025, 5.0);
        assert_eq!(format!("{seconds}"), text);
    }
}

#[test]
fn ssh_runs_the_helper_in_batch_mode() {
    let config = config();
    let arguments = feed_arguments(&config);
    let script = remote_change_feed_script(150, 60_000, 4_096);
    let command = format!("exec python3 -u -c {} '/home/it'\\''s'", quote_posix(&script));
    assert_eq!(
        arguments,
        vec![
            "-F".to_string(),
            r"C:\ssh\config".to_string(),
            "-o".to_string(),
            "BatchMode=yes".to_string(),
            "-o".to_string(),
            "ServerAliveInterval=15".to_string(),
            "-o".to_string(),
            "ServerAliveCountMax=3".to_string(),
            "lab".to_string(),
            command,
        ]
    );
    assert_eq!(
        connected_entry(&config, 12).message,
        "change feed connected target=lab root=/home/it's pid=12"
    );
    assert_eq!(
        disconnected_entry("exit code: 255", "lost\n").message,
        "change feed disconnected (exit code: 255); lost"
    );
}

#[test]
fn a_line_of_readiness_is_logged() {
    let line = "{\"ready_dirs\": 12, \"scanned_dirs\": 40, \"project_roots\": 2, \"watch_limit\": 1024, \"watch_failures\": 1, \"degraded\": true}\r\n";
    let (action, entry) = handle_feed_line(line);
    assert_eq!(action, FeedAction::Nothing);
    assert_eq!(
        entry.unwrap().message,
        "change feed ready; watched_dirs=12 scanned_dirs=40 project_roots=2 watch_limit=1024 watch_failures=1 degraded=true"
    );
    let (_, entry) = handle_feed_line("{\"ready_dirs\":0}");
    assert_eq!(
        entry.unwrap().message,
        "change feed ready; watched_dirs=0 scanned_dirs=0 project_roots=0 watch_limit=0 watch_failures=0 degraded=false"
    );
}

#[test]
fn an_overflow_forgets_everything() {
    let (action, entry) = handle_feed_line("{\"overflow\":true,\"file\":\"a\"}\n");
    assert_eq!(action, FeedAction::ForgetAll);
    assert_eq!(
        entry.unwrap().message,
        "change feed queue overflow; invalidating the full VFS directory cache"
    );
    let (action, entry) = handle_feed_line("{\"overflow\":1}\n");
    assert_eq!(action, FeedAction::Nothing);
    assert!(entry.is_none());
}

#[test]
fn a_change_forgets_what_it_names() {
    let (action, entry) = handle_feed_line("{\"file\":\"src/中.rs\",\"dir\":\"src\"}\n");
    assert_eq!(
        action,
        FeedAction::Forget { file: "src/中.rs".to_string(), dir: "src".to_string() }
    );
    assert!(entry.is_none());
    let (action, _) = handle_feed_line("{\"file\":\"\",\"dir\":\"src\"}");
    assert_eq!(action, FeedAction::Forget { file: String::new(), dir: "src".to_string() });
    for line in ["", "not json", "[]", "{}", "{\"file\":\"\",\"dir\":\"\"}", "{\"file\":3}", "null"] {
        assert_eq!(handle_feed_line(line).0, FeedAction::Nothing, "{line}");
    }
    assert_eq!(
        forget_failed_entry("a", "b").message,
        "targeted VFS invalidation failed for file='a' dir='b'"
    );
}

#[test]
fn fields_decide_in_order() {
    let fields = FeedFields {
        ready_dirs: Some(3),
        overflow: Some(true),
        file: Some("x".to_string()),
        ..nothing_said()
    };
    assert_eq!(decide_feed(&fields).0, FeedAction::Nothing);
    let fields = FeedFields { overflow: Some(true), file: Some("x".to_string()), ..nothing_said() };
    assert_eq!(decide_feed(&fields).0, FeedAction::ForgetAll);
    let fields = FeedFields { overflow: Some(false), file: Some("x".to_string()), ..nothing_said() };
    assert_eq!(
        decide_feed(&fields).0,
        FeedAction::Forget { file: "x".to_string(), dir: String::new() }
    );
    assert_eq!(decide_feed(&nothing_said()), (FeedAction::Nothing, None));
}
