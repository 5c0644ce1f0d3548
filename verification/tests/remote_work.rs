//! Work on the server: quoting, directories, commands, jobs and ports.

use cloudfolder::environment::EffectiveEnvironment;
use cloudfolder::forward::{
    choose_local_port, command_line_script, forward_action, forward_line, forward_process_matches,
    forward_state_dir, forward_state_path, parse_port, parse_start_request, parse_stop_request,
    parse_stop_target, port_taken, preferred_local_port, select_states, select_targets,
    started_report, stopped_notice, taskkill_arguments, ForwardAction, ForwardError,
    ForwardRequest, ForwardState, PortChoice, PortFault, StopTarget,
};
use cloudfolder::jobs::{
    detached_notice, job_action, job_id, job_list_report, job_logs_command, job_run_command,
    job_stop_command, list_failure, new_job_id, parse_logs_request, start_failure,
    validate_job_id, JobAction, JobError, LIST_JOBS,
};
use cloudfolder::mounts::{mount_data_dir, MountRecord};
use cloudfolder::remote::{
    accept_remote_root, check_control_reply, flush_step, flush_timeout, here_report,
    needs_terminal, normalize_remote_root, pending_report, pending_writes, rc_call_arguments,
    read_pending_writes, remote_command, remote_root, remote_working_directory, routed_tool_task,
    service_state, shell_line_task, status_code, status_report, ControlError, FlushStep,
    PendingWrites, RemoteRoot, RemoteRootError, RemoteTask, TaskEvent, TaskPhase,
};
use cloudfolder::shell::{join_quoted, quote_posix};
use cloudfolder::ssh::{
    forward_arguments, ini_value, needs_rclone_config, run_ssh_arguments, ssh_access, ssh_target,
    verify_access, SshAccess, SshError,
};

fn words(list: &[&str]) -> Vec<String> {
    list.iter().map(|word| word.to_string()).collect()
}

fn mount() -> MountRecord {
    MountRecord {
        name: "Test".to_string(),
        slug: "test".to_string(),
        service_name: "CloudFolder.test".to_string(),
        host: "example.com".to_string(),
        port: 2222,
        user: "alice".to_string(),
        remote_path: "/workspace".to_string(),
        remote_root: "/workspace".to_string(),
        mount_point: r"C:\CloudFolder\Test".to_string(),
        profile: "Dev".to_string(),
        rclone_config: r"C:\data\test\rclone.conf".to_string(),
        key_file: String::new(),
        known_hosts: String::new(),
        ssh_alias: String::new(),
        ssh_config: String::new(),
        rc_port: 55770,
    }
}

fn environment(shell: &str, init: &str) -> EffectiveEnvironment {
    EffectiveEnvironment {
        config_path: None,
        shell: shell.to_string(),
        init: init.to_string(),
        active: String::new(),
    }
}

fn forward(slug: &str, local_port: u16, pid: u32) -> ForwardState {
    ForwardState {
        mount_slug: slug.to_string(),
        remote_port: 8888,
        local_port,
        pid,
        started_epoch: 42,
    }
}

#[test]
fn shell_quoting_handles_spaces_quotes_and_unicode() {
    assert_eq!(quote_posix("hello world"), "'hello world'");
    assert_eq!(quote_posix("apostrophe's"), "'apostrophe'\\''s'");
    assert_eq!(quote_posix("中文\"x"), "'中文\"x'");
}

#[test]
fn quoted_words_are_kept_apart() {
    assert_eq!(quote_posix(""), "''");
    assert_eq!(quote_posix("''"), "''\\'''\\'''");
    assert_eq!(join_quoted(&words(&["a b", "", "$x"])), "'a b' '' '$x'");
    assert_eq!(join_quoted(&Vec::new()), "");
}

#[test]
fn remote_roots_are_normalized() {
    assert_eq!(normalize_remote_root("/"), "/");
    assert_eq!(normalize_remote_root("/data//"), "/data");
    assert_eq!(normalize_remote_root("//"), "");
    let mut record = mount();
    assert_eq!(remote_root(&record), RemoteRoot::Known("/workspace".to_string()));
    record.remote_root = " ".to_string();
    record.remote_path = "/data/".to_string();
    assert_eq!(remote_root(&record), RemoteRoot::Known("/data".to_string()));
    for path in ["", "  ", "~"] {
        record.remote_path = path.to_string();
        assert_eq!(remote_root(&record), RemoteRoot::Ask("pwd -P".to_string()));
    }
    record.remote_path = "~/my data".to_string();
    assert_eq!(
        remote_root(&record),
        RemoteRoot::Ask("cd -- 'my data' && pwd -P".to_string())
    );
    record.remote_path = "projects".to_string();
    assert_eq!(
        remote_root(&record),
        RemoteRoot::Ask("cd -- 'projects' && pwd -P".to_string())
    );
}

#[test]
fn replies_of_the_server_are_checked() {
    assert_eq!(accept_remote_root("lab", 0, "/home/a/\n", ""), Ok("/home/a".to_string()));
    let error = accept_remote_root("lab", 1, "/home", "denied\n").unwrap_err();
    assert_eq!(
        error,
        RemoteRootError::Unresolved { mount: "lab".to_string(), stderr: "denied".to_string() }
    );
    assert_eq!(error.message(), "could not resolve the remote root for 'lab': denied");
    let error = accept_remote_root("lab", 0, "home", "").unwrap_err();
    assert_eq!(error, RemoteRootError::NotAbsolute { root: "home".to_string() });
    assert_eq!(error.message(), "remote root is not an absolute Linux path: home");
}

#[test]
fn local_directories_stand_for_remote_ones() {
    let mount_point = r"C:\CloudFolder\Test";
    let remote = |directory: &str| remote_working_directory("/workspace", mount_point, directory);
    assert_eq!(remote(mount_point), "/workspace");
    assert_eq!(remote(r"c:\cloudfolder\TEST\Project\src"), "/workspace/Project/src");
    assert_eq!(remote(r"C:\CloudFolder\Tester"), "/workspace");
    assert_eq!(remote(r"C:\Windows"), "/workspace");
    assert_eq!(remote_working_directory("/", mount_point, r"C:\CloudFolder\Test\a"), "/a");
    assert_eq!(remote_working_directory("/x/", mount_point, r"C:\CloudFolder\Test\a\b"), "/x/a/b");
}

#[test]
fn programs_run_with_their_arguments() {
    let task = RemoteTask::Program(words(&["pytest", "-k", "it's"]));
    let command = remote_command(&environment("", ""), "/work space", &task).unwrap();
    assert_eq!(
        command,
        "set -e\ncd -- '/work space'\nset +e\nexec 'pytest' '-k' 'it'\\''s'"
    );
    let command = remote_command(&environment("bash -lc ", "export A=1\n\n"), "/w", &task).unwrap();
    let body = "set -e\ncd -- '/w'\nexport A=1\nset +e\nexec 'pytest' '-k' 'it'\\''s'";
    assert_eq!(command, format!("bash -lc {}", quote_posix(body)));
    assert_eq!(remote_command(&environment("", ""), "/w", &RemoteTask::Program(Vec::new())), None);
}

#[test]
fn shells_run_on_the_server() {
    let plain = environment("", "");
    assert_eq!(
        remote_command(&plain, "/w", &RemoteTask::LoginShell).unwrap(),
        "set -e\ncd -- '/w'\nset +e\nexec ${SHELL:-/bin/sh} -l"
    );
    let task = routed_tool_task("bash", &Vec::new());
    assert_eq!(task, RemoteTask::NamedShell("bash".to_string()));
    assert!(needs_terminal(&task));
    assert_eq!(
        remote_command(&plain, "/w", &task).unwrap(),
        "set -e\ncd -- '/w'\nset +e\nexec bash -l"
    );
    let task = routed_tool_task("sh", &words(&["-c", "ls"]));
    assert_eq!(task, RemoteTask::Program(words(&["sh", "-c", "ls"])));
    assert!(!needs_terminal(&task));
    assert_eq!(
        routed_tool_task("git", &Vec::new()),
        RemoteTask::Program(words(&["git"]))
    );
    let task = shell_line_task(&words(&["git", "status", "&&", "pytest"]));
    assert_eq!(
        remote_command(&plain, "/w", &task).unwrap(),
        "set -e\ncd -- '/w'\nset +e\ngit status && pytest"
    );
}

#[test]
fn tasks_flush_run_and_refresh() {
    let phase = TaskPhase::Flush.advance(TaskEvent::Flushed(true));
    assert_eq!(phase, TaskPhase::Run);
    let phase = phase.advance(TaskEvent::Ran(Some(3)));
    assert_eq!(phase, TaskPhase::Refresh { code: 3 });
    assert_eq!(phase.advance(TaskEvent::Refreshed), TaskPhase::Done { code: 3 });
    assert_eq!(TaskPhase::Flush.advance(TaskEvent::Flushed(false)), TaskPhase::Failed);
    assert_eq!(TaskPhase::Run.advance(TaskEvent::Ran(None)), TaskPhase::Failed);
    assert_eq!(TaskPhase::Flush.advance(TaskEvent::Ran(Some(0))), TaskPhase::Flush);
}

#[test]
fn pending_writes_are_read() {
    let stdout = b"{\"diskCache\":{\"uploadsQueued\":2,\"uploadsInProgress\":1}}".to_vec();
    let pending = read_pending_writes(true, &stdout, "").unwrap();
    assert_eq!(pending, PendingWrites { queued: 2, active: 1 });
    let none = PendingWrites { queued: 0, active: 0 };
    assert_eq!(read_pending_writes(true, &Vec::new(), ""), Ok(none));
    assert_eq!(read_pending_writes(true, &b"{\"diskCache\":7}".to_vec(), ""), Ok(none));
    let error = read_pending_writes(false, &stdout, " refused\n").unwrap_err();
    assert_eq!(error, ControlError::Refused { stderr: "refused".to_string() });
    assert_eq!(error.message("vfs/stats"), "RC method vfs/stats failed: refused");
    let error = read_pending_writes(true, &b"{".to_vec(), "").unwrap_err();
    assert_eq!(
        error.message("vfs/stats"),
        "invalid RC response for vfs/stats: EOF while parsing an object at line 1 column 1"
    );
    assert_eq!(check_control_reply(true, &b"{}".to_vec(), ""), Ok(()));
    assert_eq!(
        check_control_reply(true, &b"x".to_vec(), ""),
        Err(ControlError::Unreadable { why: "expected value at line 1 column 1".to_string() })
    );

    let value: serde_json::Value =
        serde_json::from_str("{\"diskCache\":{\"uploadsQueued\":-1,\"uploadsInProgress\":4}}").unwrap();
    assert_eq!(pending_writes(&value), PendingWrites { queued: 0, active: 4 });
}

#[test]
fn flushing_waits_for_every_write() {
    let none = PendingWrites { queued: 0, active: 0 };
    let some = PendingWrites { queued: 0, active: 1 };
    assert_eq!(flush_step(none, false), FlushStep::Flushed);
    assert_eq!(flush_step(some, true), FlushStep::Wait);
    assert_eq!(flush_step(some, false), FlushStep::TimedOut);
    assert_eq!(
        flush_timeout("lab", PendingWrites { queued: 3, active: 1 }),
        "timed out waiting for pending writes on 'lab' (queued=3, in_progress=1)"
    );
    assert_eq!(
        rc_call_arguments(&mount(), "vfs/stats"),
        words(&["rc", "--url", "http://127.0.0.1:55770/", "vfs/stats"])
    );
}

#[test]
fn states_are_shown() {
    assert_eq!(service_state(false, false, ""), "Unavailable");
    assert_eq!(service_state(true, false, "RUNNING"), "Missing");
    assert_eq!(service_state(true, true, "STATE : 4 RUNNING"), "Running");
    assert_eq!(service_state(true, true, "1 STOPPED"), "Stopped");
    assert_eq!(service_state(true, true, "2 START_PENDING"), "Starting");
    assert_eq!(service_state(true, true, "3 STOP_PENDING"), "Stopping");
    assert_eq!(service_state(true, true, "7 PAUSED"), "Unknown");
    let pending = pending_report(Some(PendingWrites { queued: 2, active: 3 }));
    assert_eq!(pending, "5");
    assert_eq!(pending_report(None), "RC unavailable");
    assert_eq!(
        status_report(&mount(), "Running", true, &pending, Some("/workspace")),
        "Name:           Test\nProfile:        Dev\nService:        Running\nMounted:        true\nPending writes: 5\nLocal root:     C:\\CloudFolder\\Test\nRemote root:    /workspace"
    );
    assert!(status_report(&mount(), "Stopped", false, "0", None)
        .ends_with("Mounted:        false\nPending writes: 0\nLocal root:     C:\\CloudFolder\\Test"));
    assert_eq!(status_code("Running", true), 0);
    assert_eq!(status_code("Running", false), 1);
    assert_eq!(status_code("Stopped", true), 1);
    assert_eq!(
        here_report(&mount(), r"C:\x", "/y"),
        "Mount:      Test\nProfile:    Dev\nLocal root: C:\\CloudFolder\\Test\nLocal cwd:  C:\\x\nRemote cwd: /y"
    );
}

#[test]
fn ssh_is_strict() {
    let record = mount();
    let access = SshAccess::Own { key_file: "k".to_string(), known_hosts: "h".to_string() };
    assert_eq!(
        run_ssh_arguments(&record, &access, true, "ls"),
        words(&[
            "-p", "2222", "-i", "k", "-o", "IdentitiesOnly=yes", "-o", "StrictHostKeyChecking=yes",
            "-o", "UserKnownHostsFile=h", "-o", "BatchMode=yes", "-o", "ServerAliveInterval=15",
            "-o", "ServerAliveCountMax=3", "-t", "alice@example.com", "ls",
        ])
    );
    let mut record = mount();
    record.ssh_alias = "lab".to_string();
    record.ssh_config = r"C:\c".to_string();
    assert_eq!(ssh_target(&record), "lab");
    assert_eq!(
        run_ssh_arguments(&record, &SshAccess::Alias, false, "ls"),
        words(&[
            "-F", r"C:\c", "-o", "BatchMode=yes", "-o", "ServerAliveInterval=15", "-o",
            "ServerAliveCountMax=3", "lab", "ls",
        ])
    );
}

#[test]
fn keys_come_from_the_record_or_from_rclone() {
    let text = "[lab]\ntype = sftp\nKEY_FILE = C:\\k=1 \r\nkey_file=other\nknown_hosts_file=C:\\h\n";
    assert_eq!(ini_value(text, "key_file").unwrap(), "C:\\k=1");
    assert_eq!(ini_value(text, "host"), None);
    assert_eq!(ini_value("novalue", "novalue"), None);

    let mut record = mount();
    assert!(needs_rclone_config(&record));
    assert_eq!(
        ssh_access(&record, text),
        Ok(SshAccess::Own { key_file: "C:\\k=1".to_string(), known_hosts: "C:\\h".to_string() })
    );
    record.key_file = " mine ".to_string();
    assert_eq!(
        ssh_access(&record, text),
        Ok(SshAccess::Own { key_file: "mine".to_string(), known_hosts: "C:\\h".to_string() })
    );
    let error = ssh_access(&record, "").unwrap_err();
    assert_eq!(error, SshError::MissingMetadata { mount: "Test".to_string() });
    assert_eq!(error.message(), "mount 'Test' is missing SSH key metadata; re-add the mount");
    record.known_hosts = "hosts".to_string();
    assert!(!needs_rclone_config(&record));
    let access = ssh_access(&record, "").unwrap();
    assert_eq!(verify_access(&access, true, true), Ok(()));
    let error = verify_access(&access, false, false).unwrap_err();
    assert_eq!(error.message(), "SSH key does not exist: mine");
    let error = verify_access(&access, true, false).unwrap_err();
    assert_eq!(error.message(), "known_hosts does not exist: hosts");
    record.ssh_alias = "lab".to_string();
    assert_eq!(ssh_access(&record, ""), Ok(SshAccess::Alias));
    assert_eq!(verify_access(&SshAccess::Alias, false, false), Ok(()));
}

#[test]
fn job_names_are_valid() {
    assert_eq!(job_id(0, 0), "cf-00000000");
    assert_eq!(job_id(0x1_2345_6789, 1), "cf-23446789");
    assert_eq!(job_id(0xffff_ffff, 0xffff), "cf-0000ffff");
    assert!(validate_job_id(&new_job_id(7)));
    assert_eq!(new_job_id(7).len(), 11);
    assert!(validate_job_id("cf-A_b-9"));
    assert!(validate_job_id("cf-"));
    for id in ["", "cf", "CF-1", "cf-1 2", "cf-$(x)", "cf-é", "cf-../x"] {
        assert!(!validate_job_id(id), "{id}");
    }
}

#[test]
fn job_words_are_understood() {
    assert_eq!(job_action(None), Some(JobAction::List));
    assert_eq!(job_action(Some("RUN")), Some(JobAction::Run));
    assert_eq!(job_action(Some("attach")), Some(JobAction::Attach));
    assert_eq!(job_action(Some("logs")), Some(JobAction::Logs));
    assert_eq!(job_action(Some("stop")), Some(JobAction::Stop));
    assert_eq!(job_action(Some("x")), None);

    let request = parse_logs_request(&words(&["-f", "cf-1", "--mount", "lab"]), false).unwrap();
    assert_eq!(request.id, "cf-1");
    assert_eq!(request.mount.as_deref(), Some("lab"));
    assert!(request.follow);
    assert!(!parse_logs_request(&words(&["cf-1"]), false).unwrap().follow);
    assert!(parse_logs_request(&words(&["cf-1"]), true).unwrap().follow);
    assert_eq!(parse_logs_request(&words(&["--follow"]), false), Err(JobError::MissingId));
    assert_eq!(parse_logs_request(&words(&["cf-1", "cf-2"]), false), Err(JobError::LogsUsage));
    assert_eq!(parse_logs_request(&words(&["job"]), false), Err(JobError::InvalidId));
    assert!(matches!(
        parse_logs_request(&words(&["--mount"]), false),
        Err(JobError::Arguments(_))
    ));
    let stop = cloudfolder::jobs::parse_stop_request;
    assert_eq!(stop(&words(&["cf-1"])).unwrap().id, "cf-1");
    assert_eq!(stop(&words(&[])), Err(JobError::StopUsage));
    assert_eq!(stop(&words(&["x;y"])), Err(JobError::InvalidId));
    assert_eq!(JobError::InvalidId.message(), "invalid CloudFolder job id");
}

#[test]
fn jobs_are_started_detached() {
    let command = words(&["python", "train it.py"]);
    let remote = job_run_command(&environment("", ""), "/w", "cf-1", &command);
    let body = "set -e\ncd -- '/w'\nset +e\n'python' 'train it.py'\nrc=$?\nprintf '%s\\n' \"$rc\" > $HOME/.cloudfolder/jobs/cf-1/exit_code\nprintf 'exited\\n' > $HOME/.cloudfolder/jobs/cf-1/state\nexit \"$rc\"";
    let quoted = quote_posix(body);
    assert_eq!(
        remote,
        format!(
            "set -eu; d=$HOME/.cloudfolder/jobs/cf-1; mkdir -p \"$d\"; printf '%s\\n' '/w' > \"$d/cwd\"; printf '%s\\n' 'python train it.py' > \"$d/command\"; date +%s > \"$d/started\"; : > \"$d/stdout.log\"; if command -v setsid >/dev/null 2>&1; then nohup setsid sh -lc {quoted} > \"$d/stdout.log\" 2>&1 < /dev/null & printf 'setsid\\n' > \"$d/mode\"; else nohup sh -lc {quoted} > \"$d/stdout.log\" 2>&1 < /dev/null & printf 'plain\\n' > \"$d/mode\"; fi; p=$!; printf '%s\\n' \"$p\" > \"$d/pid\"; printf 'running\\n' > \"$d/state\"; printf '%s\\t%s\\n' 'cf-1' \"$p\""
        )
    );
    assert_eq!(start_failure("no\n"), "could not start persistent job: no");
    assert_eq!(
        detached_notice("cf-1"),
        "Job cf-1 is detached; it continues if this SSH session or local computer disconnects."
    );
}

#[test]
fn jobs_are_followed_stopped_and_listed() {
    assert_eq!(
        job_logs_command("cf-1", false),
        "test -f $HOME/.cloudfolder/jobs/cf-1/stdout.log && cat $HOME/.cloudfolder/jobs/cf-1/stdout.log"
    );
    assert_eq!(
        job_logs_command("cf-1", true),
        "test -f $HOME/.cloudfolder/jobs/cf-1/stdout.log && exec tail -n 100 -F $HOME/.cloudfolder/jobs/cf-1/stdout.log"
    );
    let stop = job_stop_command("cf-1");
    assert!(stop.starts_with("set -eu; d=$HOME/.cloudfolder/jobs/cf-1; test -d \"$d\"; "));
    assert!(stop.ends_with("; printf 'stopped %s\\n' 'cf-1'"));
    assert!(LIST_JOBS.starts_with("root=\"$HOME/.cloudfolder/jobs\"; [ -d \"$root\" ] || exit 0; "));
    assert_eq!(job_list_report("Lab", " \n"), "No CloudFolder jobs on Lab.\n");
    assert_eq!(job_list_report("Lab", "a\n"), "Job\tState\tStarted(epoch)\tCommand\na\n");
    assert_eq!(list_failure("x "), "could not list jobs: x");
}

#[test]
fn ports_are_read() {
    assert_eq!(parse_port("8080"), Ok(8080));
    assert_eq!(parse_port("+22"), Ok(22));
    assert_eq!(parse_port("00080"), Ok(80));
    assert_eq!(parse_port("65535"), Ok(65535));
    assert_eq!(parse_port("0"), Err(PortFault::Zero));
    assert_eq!(parse_port("+000"), Err(PortFault::Zero));
    assert_eq!(PortFault::Zero.cause(), "");
    for text in [
        "", "+", "-", "65536", "-1", "8080 ", "++1", "0x10", "99999999999999999999", "6553x",
        "65536x", "99999x", "999x99", "+65536", "+x", "\u{4e2d}", "1\u{4e2d}",
    ] {
        let fault = parse_port(text).unwrap_err();
        let error = text.parse::<u16>().unwrap_err();
        assert_eq!(fault.cause(), format!(": {error}"), "{text}");
    }
    assert_eq!(forward_action(None), ForwardAction::List);
    assert_eq!(forward_action(Some("LIST")), ForwardAction::List);
    assert_eq!(forward_action(Some("Stop")), ForwardAction::Stop);
    assert_eq!(forward_action(Some("8080")), ForwardAction::Start);
}

#[test]
fn forward_requests_are_understood() {
    assert_eq!(
        parse_start_request(&words(&["8888", "18888", "--mount", "lab"])),
        Ok(ForwardRequest {
            mount: Some("lab".to_string()),
            remote_port: 8888,
            local_port: Some(18888)
        })
    );
    assert_eq!(
        parse_start_request(&words(&["8888"])),
        Ok(ForwardRequest { mount: None, remote_port: 8888, local_port: None })
    );
    assert_eq!(parse_start_request(&words(&[])), Err(ForwardError::StartUsage));
    assert_eq!(parse_start_request(&words(&["1", "2", "3"])), Err(ForwardError::StartUsage));
    assert_eq!(parse_start_request(&words(&["x", "y"])), Err(ForwardError::RemotePortInvalid(PortFault::NotADigit)));
    assert_eq!(
        parse_start_request(&words(&["1", "0"])),
        Err(ForwardError::LocalPortInvalid(PortFault::Zero))
    );
    assert_eq!(
        ForwardError::RemotePortInvalid(PortFault::TooLarge).message(),
        "remote port must be a TCP port between 1 and 65535: number too large to fit in target type"
    );
    assert_eq!(
        ForwardError::LocalPortInvalid(PortFault::Zero).message(),
        "local port must be a TCP port between 1 and 65535"
    );
    assert_eq!(parse_stop_request(&words(&["all"])), Ok((None, "all".to_string())));
    assert_eq!(parse_stop_request(&words(&[])), Err(ForwardError::StopUsage));
    assert_eq!(parse_stop_target("ALL"), Ok(StopTarget::All));
    assert_eq!(parse_stop_target("80"), Ok(StopTarget::Port(80)));
    assert_eq!(parse_stop_target("none"), Err(ForwardError::LocalPortInvalid(PortFault::NotADigit)));
    assert_eq!(
        parse_stop_target("").unwrap_err().message(),
        "local port must be a TCP port between 1 and 65535: cannot parse integer from empty string"
    );
}

#[test]
fn taken_ports_give_way_only_where_not_asked_for() {
    assert_eq!(preferred_local_port(8888, None), 8888);
    assert_eq!(preferred_local_port(8888, Some(1)), 1);
    assert_eq!(choose_local_port(8888, None, true), PortChoice::Use(8888));
    assert_eq!(choose_local_port(8888, None, false), PortChoice::Any);
    assert_eq!(choose_local_port(8888, Some(9), true), PortChoice::Use(9));
    assert_eq!(choose_local_port(8888, Some(9), false), PortChoice::Taken(9));
    assert_eq!(port_taken(9, "in use"), "local port 9 is unavailable: in use");
}

#[test]
fn forward_state_round_trips_per_mount() {
    let record = mount();
    let data = mount_data_dir(&record, r"C:\mounts");
    assert_eq!(data, r"C:\data\test");
    assert_eq!(forward_state_dir(&data), r"C:\data\test\forwards");
    assert_eq!(forward_state_path(&data, 18888), r"C:\data\test\forwards\18888.json");
    assert_ne!(forward_state_path(&data, 1888), forward_state_path(&data, 18888));
    let loaded = select_states(vec![forward("test", 18888, 1234)], &record.slug);
    assert_eq!(loaded.len(), 1);
    assert_eq!(loaded[0].remote_port, 8888);
    assert_eq!(loaded[0].local_port, 18888);
}

#[test]
fn forwards_of_other_mounts_are_left_out() {
    let record = mount();
    let states = vec![
        forward("other", 1, 1),
        forward("test", 18888, 1234),
        forward("TEST", 80, 2),
        forward("test", 80, 3),
    ];
    let loaded = select_states(states, &record.slug);
    assert_eq!(loaded.len(), 3);
    assert_eq!(loaded[0].pid, 2);
    assert_eq!(loaded[1].pid, 3);
    assert_eq!(loaded[2].remote_port, 8888);
    assert_eq!(loaded[2].local_port, 18888);
    assert_eq!(select_targets(&loaded, StopTarget::All), Ok(vec![0, 1, 2]));
    assert_eq!(select_targets(&loaded, StopTarget::Port(80)), Ok(vec![0, 1]));
    assert_eq!(select_targets(&loaded, StopTarget::Port(81)), Err(ForwardError::NoMatch));
}

#[test]
fn forwards_stay_on_loopback() {
    let record = mount();
    let access = SshAccess::Own { key_file: "k".to_string(), known_hosts: "h".to_string() };
    let arguments = forward_arguments(&record, &access, 18888, 8888);
    let tail = words(&[
        "-N", "-L", "127.0.0.1:18888:127.0.0.1:8888", "-o", "ExitOnForwardFailure=yes",
        "alice@example.com",
    ]);
    assert_eq!(arguments[arguments.len() - 6..], tail[..]);
    assert_eq!(
        started_report("Test", &forward("test", 18888, 5)),
        "Forward active: Test remote 127.0.0.1:8888 -> 127.0.0.1:18888 (pid 5)\nWeb URL (if applicable): http://127.0.0.1:18888/"
    );
}

#[test]
fn only_the_own_ssh_is_ended() {
    let state = forward("test", 18888, 1234);
    let own = "\"C:\\Windows\\System32\\OpenSSH\\SSH.exe\" -N -L 127.0.0.1:18888:127.0.0.1:8888 a@b";
    assert!(forward_process_matches(&state, Some(own)));
    assert!(!forward_process_matches(&state, Some("ssh -L 127.0.0.1:18889:127.0.0.1:8888")));
    assert!(!forward_process_matches(&state, Some("notepad 127.0.0.1:18888:127.0.0.1:8888")));
    assert!(!forward_process_matches(&state, None));
    assert_eq!(
        taskkill_arguments(&state, Some(own)),
        Some(words(&["/PID", "1234", "/T", "/F"]))
    );
    assert_eq!(taskkill_arguments(&state, Some("notepad")), None);
    assert_eq!(
        command_line_script(7),
        "$p=Get-CimInstance Win32_Process -Filter \"ProcessId = 7\" -ErrorAction SilentlyContinue; if($p){$p.CommandLine}"
    );
    assert_eq!(forward_line(&state, true), "18888\t8888\t1234\trunning");
    assert_eq!(forward_line(&state, false), "18888\t8888\t1234\tstale");
    assert_eq!(stopped_notice(&state), "Stopped forward localhost:18888.");
}
