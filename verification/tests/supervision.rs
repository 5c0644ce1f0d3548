//! The supervisor: waits, phases, and what is never done.

use cloudfolder::cleanup::{
    detach_arguments, has_reparse_attribute, CleanupError, CleanupEvent, CleanupPhase,
};
use cloudfolder::config::{
    ChangeFeedConfig, Config, HealthConfig, LoggingConfig, MountConfig,
};
use cloudfolder::logger::{LogEntry, LogLevel};
use cloudfolder::service::{
    answer_control, fatal_entry, feed_worker_arguments, parse_service_command, probe_arguments,
    started_entry, Control, ServiceCommand, ServiceError, ServicePhase,
};
use cloudfolder::supervisor::{
    backoff_with_jitter, next_backoff, with_jitter, RunEvent, RunPhase, RunState,
};
use cloudfolder::watch::{
    endpoint_pid, parse_rc_pid, poll_process, stop_change_feed, PollStep, Polled, ReadyEvent,
    ReadyPhase, StopEvent, StopPhase, Watch, WatchEvent, WatchPhase,
};

fn config() -> Config {
    Config {
        mount: MountConfig {
            rclone_exe: r"C:\rclone.exe".to_string(),
            rclone_config: r"C:\rclone.conf".to_string(),
            remote: "lab:/data".to_string(),
            mount_point: r"C:\CloudFolder\lab".to_string(),
            cache_dir: r"C:\cache".to_string(),
            volume_name: String::new(),
            vfs_cache_mode: String::new(),
            vfs_cache_max_size: String::new(),
            vfs_cache_max_age: String::new(),
            vfs_cache_min_free_space: String::new(),
            vfs_write_back: String::new(),
            dir_cache_time: String::new(),
            attr_timeout: String::new(),
            buffer_size: String::new(),
            vfs_read_ahead: String::new(),
            vfs_cache_poll_interval: String::new(),
            transfers: 4,
            file_perms: String::new(),
            dir_perms: String::new(),
            windows_file_security: String::new(),
            read_only: false,
            rc_addr: "127.0.0.1:5577".to_string(),
        },
        change_feed: ChangeFeedConfig::default(),
        health: HealthConfig::default(),
        logging: LoggingConfig::default(),
    }
}

fn message(entry: &Option<LogEntry>) -> &str {
    entry.as_ref().unwrap().message.as_str()
}

#[test]
fn jitter_is_bounded() {
    let value = backoff_with_jitter(10);
    assert!((10..=13).contains(&value));
}

#[test]
fn jitter_takes_quarters_of_a_second() {
    assert_eq!(with_jitter(10, 0), 10);
    assert_eq!(with_jitter(10, 249), 10);
    assert_eq!(with_jitter(10, 250), 11);
    assert_eq!(with_jitter(10, 999), 13);
    assert_eq!(with_jitter(0, 0), 1);
    assert_eq!(with_jitter(u64::MAX, 999), u64::MAX);
}

#[test]
fn waits_double_up_to_the_limit() {
    let mut waits = vec![1];
    for _ in 0..8 {
        let last = *waits.last().unwrap();
        waits.push(next_backoff(last, 60));
    }
    assert_eq!(waits, vec![1, 2, 4, 8, 16, 32, 60, 60, 60]);
    assert_eq!(next_backoff(u64::MAX, u64::MAX), u64::MAX);
}

#[test]
fn a_mount_that_does_not_start_is_tried_again_later() {
    let config = config();
    let state = RunState::new(&config.health);
    let (state, entry) = state.advance(&config, true, &RunEvent::StopRequested(false));
    assert_eq!(state.phase, RunPhase::CleanUp);
    assert!(entry.is_none());
    let (state, entry) = state.advance(&config, true, &RunEvent::CleanedUp(true));
    assert_eq!(state.phase, RunPhase::Start);
    assert_eq!(
        message(&entry),
        r"starting rclone mount remote=lab:/data mount_point=C:\CloudFolder\lab"
    );
    let (state, entry) = state.advance(&config, true, &RunEvent::StartFailed("no exe".to_string()));
    assert_eq!(state.phase, RunPhase::Sleep { base: 1 });
    assert_eq!(state.backoff, 2);
    assert_eq!(entry.unwrap().level, LogLevel::Error);
    let (state, _) = state.advance(&config, true, &RunEvent::Done);
    assert_eq!(state.phase, RunPhase::CheckStop);
    let (state, entry) = state.advance(&config, true, &RunEvent::StopRequested(true));
    assert_eq!(state.phase, RunPhase::Stopped);
    assert_eq!(message(&entry), "service supervisor stopped");
}

#[test]
fn a_mount_that_ends_is_stopped_and_cleaned_up_before_the_next() {
    let mut config = config();
    config.change_feed.enabled = true;
    let state = RunState { phase: RunPhase::Start, backoff: 8 };
    let (state, _) = state.advance(&config, true, &RunEvent::Started(42));
    assert_eq!(state.phase, RunPhase::AwaitReady { pid: 42 });
    let (state, entry) = state.advance(&config, true, &RunEvent::Ready(true));
    assert_eq!(state.phase, RunPhase::StartFeed { pid: 42 });
    assert_eq!(message(&entry), "mount ready pid=42");
    let (state, entry) = state.advance(&config, true, &RunEvent::FeedFailed("no ssh".to_string()));
    assert_eq!(state.phase, RunPhase::Supervise { pid: 42 });
    assert_eq!(message(&entry), "change feed did not start: no ssh");
    let ended = RunEvent::Ended { reason: "rclone exited with 1".to_string(), stable_for: 7 };
    let (state, entry) = state.advance(&config, true, &ended);
    assert_eq!(
        message(&entry),
        "mount ended/recycled pid=42: rclone exited with 1; stable_for=7s"
    );
    assert_eq!(state.phase, RunPhase::StopFeed { stable_for: 7 });
    let (state, _) = state.advance(&config, true, &RunEvent::Done);
    assert_eq!(state.phase, RunPhase::StopMount { stable_for: 7 });
    let (state, _) = state.advance(&config, true, &RunEvent::Done);
    assert_eq!(state.phase, RunPhase::CleanUpAfter { stable_for: 7 });
    let (state, _) = state.advance(&config, true, &RunEvent::CleanedUp(false));
    assert_eq!(state.phase, RunPhase::CheckStopAfter { stable_for: 7 });
    let (state, _) = state.advance(&config, true, &RunEvent::StopRequested(false));
    assert_eq!(state, RunState { phase: RunPhase::Sleep { base: 16 }, backoff: 16 });
}

#[test]
fn waits_double_whatever_goes_wrong() {
    let config = config();
    let not_started = vec![RunEvent::StartFailed("no exe".to_string())];
    let not_ready = vec![RunEvent::Started(7), RunEvent::Ready(false), RunEvent::Done];
    let ended = vec![
        RunEvent::Started(8),
        RunEvent::Ready(true),
        RunEvent::Ended { reason: "gone".to_string(), stable_for: 179 },
        RunEvent::Done,
        RunEvent::Done,
        RunEvent::CleanedUp(true),
        RunEvent::StopRequested(false),
    ];
    let mut state = RunState::new(&config.health);
    let mut waits = Vec::new();
    for setback in [&not_ready, &not_started, &not_ready, &ended, &not_started, &not_ready, &ended] {
        let opening = [RunEvent::StopRequested(false), RunEvent::CleanedUp(true)];
        for event in opening.iter().chain(setback) {
            state = state.advance(&config, false, event).0;
        }
        match state.phase {
            RunPhase::Sleep { base } => waits.push(base),
            other => panic!("{other:?}"),
        }
        state = state.advance(&config, false, &RunEvent::Done).0;
    }
    assert_eq!(waits, vec![1, 2, 4, 16, 16, 32, 60]);
}

#[test]
fn a_stable_mount_starts_the_waits_anew() {
    let config = config();
    let state = RunState { phase: RunPhase::CheckStopAfter { stable_for: 180 }, backoff: 60 };
    let (state, _) = state.advance(&config, false, &RunEvent::StopRequested(false));
    assert_eq!(state, RunState { phase: RunPhase::Sleep { base: 1 }, backoff: 1 });
}

#[test]
fn a_mount_point_in_use_ends_the_supervisor() {
    let config = config();
    let state = RunState { phase: RunPhase::CleanUp, backoff: 1 };
    let (state, entry) = state.advance(&config, false, &RunEvent::CleanedUp(false));
    assert_eq!(state.phase, RunPhase::Failed);
    assert!(entry.is_none());
    let state = RunState { phase: RunPhase::Supervise { pid: 1 }, backoff: 1 };
    let (state, _) = state.advance(&config, false, &RunEvent::Failed);
    assert_eq!(state.phase, RunPhase::Failed);
}

#[test]
fn a_mount_that_is_not_ready_is_stopped() {
    let config = config();
    let state = RunState { phase: RunPhase::AwaitReady { pid: 9 }, backoff: 4 };
    let (state, entry) = state.advance(&config, false, &RunEvent::Ready(false));
    assert_eq!(state.phase, RunPhase::StopUnready);
    assert_eq!(message(&entry), "mount pid=9 did not become ready");
    let (state, _) = state.advance(&config, false, &RunEvent::Done);
    assert_eq!(state, RunState { phase: RunPhase::Sleep { base: 4 }, backoff: 8 });
    let (same, entry) = state.advance(&config, false, &RunEvent::Started(3));
    assert_eq!(same, state);
    assert!(entry.is_none());
}

#[test]
fn readiness_takes_a_probe_of_a_running_child() {
    let (phase, _) = ReadyPhase::Look.advance(&ReadyEvent::Looked { in_time: true, stop: false });
    assert_eq!(phase, ReadyPhase::CheckChild);
    let (phase, _) = phase.advance(&ReadyEvent::ChildRuns);
    assert_eq!(phase, ReadyPhase::Probe);
    let (phase, _) = phase.advance(&ReadyEvent::Probed(false));
    assert_eq!(phase, ReadyPhase::Pause);
    let (phase, _) = phase.advance(&ReadyEvent::Paused);
    assert_eq!(phase, ReadyPhase::Look);
    assert_eq!(ReadyPhase::Probe.advance(&ReadyEvent::Probed(true)).0, ReadyPhase::Ready);
    let late = ReadyEvent::Looked { in_time: false, stop: false };
    assert_eq!(ReadyPhase::Look.advance(&late).0, ReadyPhase::NotReady);
    let stopped = ReadyEvent::Looked { in_time: true, stop: true };
    assert_eq!(ReadyPhase::Look.advance(&stopped).0, ReadyPhase::NotReady);
    let (phase, entry) =
        ReadyPhase::CheckChild.advance(&ReadyEvent::ChildExited("exit code: 2".to_string()));
    assert_eq!(phase, ReadyPhase::NotReady);
    assert_eq!(message(&entry), "rclone exited during startup: exit code: 2");
}

#[test]
fn three_failed_probes_in_a_row_recycle_a_mount() {
    let config = config();
    let mut watch = Watch::new();
    let mut probe = |watch: &mut Watch, answers: bool| {
        watch.advance(&config, false, &WatchEvent::StopRequested(false));
        watch.advance(&config, false, &WatchEvent::ChildRuns);
        watch.advance(&config, false, &WatchEvent::ProbeDue(true));
        let entry = watch.advance(&config, false, &WatchEvent::Probed(answers));
        watch.advance(&config, false, &WatchEvent::Paused);
        entry
    };
    assert!(probe(&mut watch, true).is_none());
    assert_eq!(message(&probe(&mut watch, false)), "mount health probe failed (1/3)");
    assert_eq!(message(&probe(&mut watch, false)), "mount health probe failed (2/3)");
    assert_eq!(
        message(&probe(&mut watch, true)),
        "mount health recovered after 2 failed probe(s)"
    );
    assert_eq!(watch.failures, 0);
    probe(&mut watch, false);
    probe(&mut watch, false);
    probe(&mut watch, false);
    match watch.phase {
        WatchPhase::Ended { reason } => assert_eq!(reason, "health failed 3 consecutive probes"),
        other => panic!("{other:?}"),
    }
}

#[test]
fn a_change_feed_that_ended_is_started_anew() {
    let mut config = config();
    config.change_feed.enabled = true;
    let mut watch = Watch { phase: WatchPhase::CheckChild, failures: 1 };
    watch.advance(&config, true, &WatchEvent::ChildRuns);
    assert!(matches!(watch.phase, WatchPhase::CheckFeed));
    let entry = watch.advance(&config, true, &WatchEvent::FeedExited("exit code: 1".to_string()));
    assert_eq!(message(&entry), "change feed exited with exit code: 1; restarting");
    assert!(matches!(watch.phase, WatchPhase::RestartFeed));
    let entry = watch.advance(&config, true, &WatchEvent::FeedFailed("gone".to_string()));
    assert_eq!(message(&entry), "change feed restart failed: gone");
    assert!(matches!(watch.phase, WatchPhase::CheckClock));
    assert_eq!(watch.failures, 1);
    let mut watch = Watch { phase: WatchPhase::CheckFeed, failures: 0 };
    watch.advance(&config, false, &WatchEvent::FeedMissing);
    assert!(matches!(watch.phase, WatchPhase::DropFeed));
    watch.advance(&config, false, &WatchEvent::FeedDropped);
    assert!(matches!(watch.phase, WatchPhase::CheckClock));
}

#[test]
fn a_watch_ends_with_the_child_or_on_request() {
    let config = config();
    let mut watch = Watch::new();
    watch.advance(&config, false, &WatchEvent::StopRequested(true));
    match &watch.phase {
        WatchPhase::Ended { reason } => assert_eq!(reason, "service stop requested"),
        other => panic!("{other:?}"),
    }
    let mut watch = Watch { phase: WatchPhase::CheckChild, failures: 0 };
    watch.advance(&config, false, &WatchEvent::ChildExited("exit code: 3".to_string()));
    match &watch.phase {
        WatchPhase::Ended { reason } => assert_eq!(reason, "rclone exited with exit code: 3"),
        other => panic!("{other:?}"),
    }
}

#[test]
fn only_the_own_process_is_asked_to_quit() {
    let (phase, entry) = StopPhase::AskPid.advance(7, StopEvent::EndpointPid(Some(7)));
    assert_eq!(phase, StopPhase::RequestQuit);
    assert_eq!(message(&entry), "requesting graceful rclone shutdown pid=7");
    let (phase, entry) = StopPhase::AskPid.advance(7, StopEvent::EndpointPid(Some(8)));
    assert_eq!(phase, StopPhase::Look);
    assert_eq!(
        message(&entry),
        "RC endpoint PID mismatch: expected=7 actual=8; refusing core/quit"
    );
    let (phase, entry) = StopPhase::AskPid.advance(7, StopEvent::EndpointPid(None));
    assert_eq!(phase, StopPhase::Look);
    assert_eq!(
        message(&entry),
        "RC endpoint unavailable for pid=7; falling back to process termination if needed"
    );
}

#[test]
fn a_mount_that_does_not_quit_in_time_is_killed() {
    assert_eq!(StopPhase::CheckChild.advance(7, StopEvent::ChildExited(true)).0, StopPhase::Stopped);
    assert_eq!(StopPhase::CheckChild.advance(7, StopEvent::ChildExited(false)).0, StopPhase::AskPid);
    let (phase, entry) = StopPhase::RequestQuit.advance(7, StopEvent::QuitAccepted(false));
    assert_eq!(phase, StopPhase::Look);
    assert_eq!(message(&entry), "RC core/quit failed or timed out for pid=7");
    let runs = StopEvent::Looked { in_time: true, exited: false };
    assert_eq!(StopPhase::Look.advance(7, runs).0, StopPhase::Pause);
    assert_eq!(StopPhase::Pause.advance(7, StopEvent::Paused).0, StopPhase::Look);
    let gone = StopEvent::Looked { in_time: true, exited: true };
    assert_eq!(StopPhase::Look.advance(7, gone).0, StopPhase::Stopped);
    let late = StopEvent::Looked { in_time: false, exited: false };
    let (phase, entry) = StopPhase::Look.advance(7, late);
    assert_eq!(phase, StopPhase::Kill);
    assert_eq!(message(&entry), "graceful shutdown timed out; killing pid=7");
    assert_eq!(phase.advance(7, StopEvent::Killed).0, StopPhase::Stopped);
}

#[test]
fn a_change_feed_is_stopped_only_while_it_runs() {
    assert!(stop_change_feed(5, true).is_none());
    assert_eq!(message(&stop_change_feed(5, false)), "stopping change feed pid=5");
}

#[test]
fn a_process_is_given_limited_time() {
    let exited = Polled::Exited { success: true };
    assert_eq!(poll_process(exited, false), PollStep::Finish { success: true });
    assert_eq!(poll_process(Polled::Runs, true), PollStep::Wait);
    assert_eq!(poll_process(Polled::Runs, false), PollStep::Kill);
    assert_eq!(poll_process(Polled::Unknown, true), PollStep::Kill);
}

#[test]
fn parses_rc_pid() {
    assert_eq!(parse_rc_pid("{\n  \"pid\": 19264\n}"), Some(19264));
    assert_eq!(parse_rc_pid("{}"), None);
    assert_eq!(parse_rc_pid("{\"pid\":\"oops\"}"), None);
}

#[test]
fn rc_pid_is_a_number_of_32_bits() {
    assert_eq!(parse_rc_pid("\"pid\" x : 4294967295,"), Some(4294967295));
    assert_eq!(parse_rc_pid("\"pid\": 4294967296"), None);
    assert_eq!(parse_rc_pid("\"pid\": -1"), None);
    assert_eq!(parse_rc_pid("\"pid\" 12"), None);
    assert_eq!(parse_rc_pid("é\"pid\":\u{a0}7x"), Some(7));
    assert_eq!(endpoint_pid(true, "\"pid\":3"), Some(3));
    assert_eq!(endpoint_pid(false, "\"pid\":3"), None);
}

#[test]
fn cleanup_removes_only_empty_normal_mountpoint() {
    let path = r"C:\CloudFolder\mount";
    let found = CleanupEvent::Found { attributes: 0x10, directory: true };
    let (phase, entry) = CleanupPhase::Stat.advance(found, path);
    assert_eq!(phase, CleanupPhase::List);
    assert!(entry.is_none());
    let (phase, entry) = phase.advance(CleanupEvent::Listed { empty: true }, path);
    assert_eq!(phase, CleanupPhase::RemoveEmpty);
    assert_eq!(
        message(&entry),
        r"removing empty leftover mount directory C:\CloudFolder\mount"
    );
    let (phase, _) = phase.advance(CleanupEvent::Removed(true), path);
    assert_eq!(phase, CleanupPhase::Free);
    let (phase, _) = CleanupPhase::RemoveEmpty.advance(CleanupEvent::Removed(false), path);
    assert_eq!(phase, CleanupPhase::Refused(CleanupError::RemoveFailed));
    assert_eq!(CleanupPhase::Stat.advance(CleanupEvent::Absent, path).0, CleanupPhase::Free);
}

#[test]
fn cleanup_refuses_nonempty_normal_mountpoint() {
    let path = r"C:\CloudFolder\mount";
    let found = CleanupEvent::Found { attributes: 0x10, directory: true };
    let (phase, _) = CleanupPhase::Stat.advance(found, path);
    let (phase, entry) = phase.advance(CleanupEvent::Listed { empty: false }, path);
    assert_eq!(phase, CleanupPhase::Refused(CleanupError::NotEmpty));
    assert!(entry.is_none());
    assert_eq!(
        CleanupError::NotEmpty.message(path),
        r"mount point C:\CloudFolder\mount is a non-empty normal directory; refusing to hide or delete user data"
    );
}

#[test]
fn cleanup_names_what_stands_in_the_way() {
    let path = r"C:\m";
    let file = CleanupEvent::Found { attributes: 0x20, directory: false };
    let (phase, _) = CleanupPhase::Stat.advance(file, path);
    assert_eq!(phase, CleanupPhase::Refused(CleanupError::NotDirectory));
    assert_eq!(
        CleanupError::NotDirectory.message(path),
        r"mount point C:\m exists and is not a directory"
    );
    let (phase, _) = CleanupPhase::Stat.advance(CleanupEvent::StatFailed, path);
    assert_eq!(phase, CleanupPhase::Refused(CleanupError::StatFailed));
    assert_eq!(CleanupError::StatFailed.message(path), r"stat mount point C:\m");
    let (phase, _) = CleanupPhase::List.advance(CleanupEvent::ListFailed, path);
    assert_eq!(phase, CleanupPhase::Refused(CleanupError::ListFailed));
    assert_eq!(
        CleanupError::ListFailed.message(path),
        r"reading existing mount directory C:\m"
    );
    assert_eq!(CleanupError::RemoveFailed.message(path), "");
}

#[test]
fn cleanup_detaches_a_reparse_point() {
    let path = r"C:\m";
    let found = CleanupEvent::Found { attributes: 0x410, directory: true };
    let (phase, entry) = CleanupPhase::Stat.advance(found, path);
    assert_eq!(phase, CleanupPhase::Detach);
    assert_eq!(message(&entry), r"stale reparse mount point detected: C:\m");
    let (phase, _) = phase.advance(CleanupEvent::Detached, path);
    assert_eq!(phase, CleanupPhase::CheckDetached);
    assert_eq!(phase.advance(CleanupEvent::Present(false), path).0, CleanupPhase::CheckRemoved);
    let (phase, _) = phase.advance(CleanupEvent::Present(true), path);
    assert_eq!(phase, CleanupPhase::RemoveReparse);
    let (phase, _) = phase.advance(CleanupEvent::Removed(false), path);
    assert_eq!(phase, CleanupPhase::CheckRemoved);
    assert_eq!(phase.advance(CleanupEvent::Present(false), path).0, CleanupPhase::Free);
    let (phase, _) = phase.advance(CleanupEvent::Present(true), path);
    assert_eq!(phase, CleanupPhase::Refused(CleanupError::ReparseRemains));
    assert_eq!(
        CleanupError::ReparseRemains.message(path),
        r"unable to remove stale reparse mount point C:\m"
    );
    assert_eq!(detach_arguments(path), vec![r"C:\m", "/D"]);
}

#[test]
fn normal_file_is_not_reparse() {
    assert!(!has_reparse_attribute(0x20));
    assert!(!has_reparse_attribute(0x10));
    assert!(has_reparse_attribute(0x400));
    assert!(has_reparse_attribute(0x410));
}

fn words(list: &[&str]) -> Vec<String> {
    list.iter().map(|word| word.to_string()).collect()
}

#[test]
fn service_arguments_are_understood() {
    let usual = r"C:\ProgramData\CloudFolder\mounts\default\service.toml".to_string();
    assert_eq!(
        parse_service_command(&words(&[]), None),
        Ok(ServiceCommand::Service {
            name: "CloudFolder.Default".to_string(),
            config: usual.clone()
        })
    );
    assert_eq!(
        parse_service_command(&words(&["service", "CloudFolder.lab"]), Some(r"D:\x.toml")),
        Ok(ServiceCommand::Service {
            name: "CloudFolder.lab".to_string(),
            config: r"D:\x.toml".to_string()
        })
    );
    assert_eq!(
        parse_service_command(&words(&["console"]), None),
        Ok(ServiceCommand::Console { config: usual.clone() })
    );
    assert_eq!(
        parse_service_command(&words(&["check", "a"]), None),
        Ok(ServiceCommand::Check { config: "a".to_string() })
    );
    assert_eq!(
        parse_service_command(&words(&["check-remote", "a"]), None),
        Ok(ServiceCommand::CheckRemote { config: "a".to_string() })
    );
    assert_eq!(
        parse_service_command(&words(&["cleanup", "a", "b"]), None),
        Ok(ServiceCommand::Cleanup { config: "a".to_string() })
    );
    assert_eq!(
        parse_service_command(&feed_worker_arguments("a"), None),
        Ok(ServiceCommand::ChangeFeed { config: "a".to_string() })
    );
    assert_eq!(
        parse_service_command(&probe_arguments("p"), None),
        Ok(ServiceCommand::ProbePath { path: "p".to_string() })
    );
    assert_eq!(
        parse_service_command(&words(&["change-feed"]), None),
        Err(ServiceError::MissingFeedConfig)
    );
    assert_eq!(
        parse_service_command(&words(&["probe-path"]), None),
        Err(ServiceError::MissingProbePath)
    );
    let unknown = parse_service_command(&words(&["Check"]), None).unwrap_err();
    assert!(unknown.message().starts_with("unknown command 'Check'. Use: service "));
}

#[test]
fn a_failed_supervisor_is_reported_to_the_service_manager() {
    let running = ServicePhase::StartPending.next(false).unwrap();
    assert_eq!(running, ServicePhase::Running);
    assert!(running.report().accepts_stop);
    assert_eq!(ServicePhase::StartPending.report().wait_secs, 30);
    let stopped = running.next(true).unwrap().next(false).unwrap();
    assert_eq!(stopped.report().failure_code, Some(1));
    assert!(stopped.next(false).is_none());
    let stopped = running.next(false).unwrap().next(true).unwrap();
    assert_eq!(stopped.report().failure_code, None);
    assert_eq!(running.next(false).unwrap().report().wait_secs, 20);
}

#[test]
fn the_service_answers_only_what_it_can_do() {
    assert!(answer_control(Control::Stop).stop);
    assert!(answer_control(Control::Shutdown).stop);
    assert!(answer_control(Control::Interrogate).handled);
    assert!(!answer_control(Control::Interrogate).stop);
    assert!(!answer_control(Control::Other).handled);
    assert_eq!(started_entry("n", "c").message, "service started; name=n config=c");
    assert_eq!(fatal_entry("x").level, LogLevel::Error);
}
