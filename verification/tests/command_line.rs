//! The command line of `cf`.

use cloudfolder::arguments::{
    extract_mount_flag, single_optional_name, split_remote_command, ArgumentError,
};
use cloudfolder::cli::{
    add_arguments, agent_action, dispatch, enter_report, env_action, launcher_script,
    manager_script, missing_file, powershell_arguments, routed_tool_from_exe_name, routed_tools,
    router_bin_dir, router_shim, runtime_dir, session_start, version_text, AgentAction, CfCommand,
    EnvAction, USAGE,
};
use cloudfolder::mounts::MountRecord;
use cloudfolder::ssh::{parse_proxy_request, ProxyError};

fn words(list: &[&str]) -> Vec<String> {
    list.iter().map(|word| word.to_string()).collect()
}

fn mount() -> MountRecord {
    MountRecord {
        name: "Lab".to_string(),
        slug: "lab".to_string(),
        service_name: "CloudFolder.lab".to_string(),
        host: "example.com".to_string(),
        port: 22,
        user: "alice".to_string(),
        remote_path: String::new(),
        remote_root: String::new(),
        mount_point: r"C:\CloudFolder\Lab".to_string(),
        profile: String::new(),
        rclone_config: String::new(),
        key_file: String::new(),
        known_hosts: String::new(),
        ssh_alias: String::new(),
        ssh_config: String::new(),
        rc_port: 55770,
    }
}

#[test]
fn launcher_path_is_relative_to_executable() {
    let path = launcher_script(r"C:\Program Files\CloudFolder\cf.exe").unwrap();
    assert_eq!(path, r"C:\Program Files\CloudFolder\cf.ps1");
    assert_eq!(path.rsplit('\\').next().unwrap(), "cf.ps1");
    assert_eq!(manager_script(r"C:\x\cf.exe").unwrap(), r"C:\x\CloudFolder.ps1");
    assert_eq!(launcher_script(r"C:\"), None);
    assert_eq!(missing_file("p"), "missing p");
}

#[test]
fn command_split_supports_optional_mount() {
    let args = words(&["lab", "--", "pytest", "-q"]);
    let (mount, command) = split_remote_command(&args).unwrap();
    assert_eq!(mount.as_deref(), Some("lab"));
    assert_eq!(command, words(&["pytest", "-q"]));
}

#[test]
fn command_split_names_what_is_wrong() {
    assert_eq!(
        split_remote_command(&words(&["--", "a", "--", "b"])),
        Ok((None, words(&["a", "--", "b"])))
    );
    assert_eq!(split_remote_command(&words(&["a"])), Err(ArgumentError::MissingDelimiter));
    assert_eq!(
        split_remote_command(&words(&["a", "b", "--", "c"])),
        Err(ArgumentError::TooManyNamesBefore)
    );
    assert_eq!(split_remote_command(&words(&["a", "--"])), Err(ArgumentError::MissingCommand));
    assert_eq!(
        ArgumentError::MissingDelimiter.message(),
        "expected -- before the remote command"
    );
}

#[test]
fn router_only_claims_remote_runtime_tools() {
    assert_eq!(routed_tool_from_exe_name("git").as_deref(), Some("git"));
    assert_eq!(
        routed_tool_from_exe_name("PYTHON").as_deref(),
        Some("python")
    );
    assert!(routed_tool_from_exe_name("explorer").is_none());
    assert!(routed_tool_from_exe_name("code").is_none());
    assert!(routed_tool_from_exe_name("cf").is_none());
}

#[test]
fn every_listed_tool_is_routed() {
    let tools = routed_tools();
    assert_eq!(tools.len(), 33);
    for tool in &tools {
        assert_eq!(routed_tool_from_exe_name(&tool.to_uppercase()).as_deref(), Some(tool.as_str()));
    }
    let router = router_bin_dir(r"C:\ProgramData\CloudFolder");
    assert_eq!(router, r"C:\ProgramData\CloudFolder\router\0.9.1\bin");
    assert_eq!(router_shim(&router, "g++"), r"C:\ProgramData\CloudFolder\router\0.9.1\bin\g++.exe");
}

#[test]
fn mount_flag_extraction_preserves_other_arguments() {
    let args = words(&["8080", "--mount", "lab", "18080"]);
    let (mount, rest) = extract_mount_flag(&args).unwrap();
    assert_eq!(mount.as_deref(), Some("lab"));
    assert_eq!(rest, words(&["8080", "18080"]));
}

#[test]
fn mount_flag_is_given_once_and_with_a_name() {
    assert_eq!(extract_mount_flag(&words(&["a", "b"])), Ok((None, words(&["a", "b"]))));
    assert_eq!(extract_mount_flag(&words(&["--mount"])), Err(ArgumentError::MissingMountName));
    assert_eq!(
        extract_mount_flag(&words(&["--mount", "a", "--mount", "b"])),
        Err(ArgumentError::RepeatedMount)
    );
    assert_eq!(
        extract_mount_flag(&words(&["--mount", "--mount"])),
        Ok((Some("--mount".to_string()), Vec::new()))
    );
    assert_eq!(single_optional_name(&Vec::new()), Ok(None));
    assert_eq!(single_optional_name(&words(&["a"])), Ok(Some("a".to_string())));
    assert_eq!(single_optional_name(&words(&["a", "b"])), Err(ArgumentError::TooManyNames));
}

#[test]
fn first_words_choose_the_command() {
    assert_eq!(dispatch(None), CfCommand::Help);
    assert_eq!(dispatch(Some("--HELP")), CfCommand::Help);
    assert_eq!(dispatch(Some("-V")), CfCommand::Version);
    assert_eq!(dispatch(Some("List")), CfCommand::List);
    assert_eq!(dispatch(Some("ssh-proxy")), CfCommand::SshProxy);
    assert_eq!(dispatch(Some("sh")), CfCommand::Sh);
    assert_eq!(dispatch(Some("shell")), CfCommand::Shell);
    assert_eq!(dispatch(Some("remove")), CfCommand::Script);
    assert_eq!(version_text(), "CloudFolder 0.9.1");
    assert!(USAGE.starts_with("CloudFolder developer CLI\n\ncf list\ncf path <mount>\n"));
    assert!(USAGE.ends_with("\ncf sh -- \"git status && pytest -q\"\ncf shell\ncf agent setup"));
}

#[test]
fn environment_and_agent_words_are_understood() {
    assert_eq!(env_action(None, 0), EnvAction::Show);
    assert_eq!(env_action(Some("reload"), 1), EnvAction::Reload);
    assert_eq!(env_action(Some("reload"), 2), EnvAction::Usage);
    assert_eq!(env_action(Some("use"), 2), EnvAction::Use);
    assert_eq!(env_action(Some("use"), 1), EnvAction::Usage);
    assert_eq!(env_action(Some("Use"), 2), EnvAction::Usage);
    assert_eq!(agent_action(None, 0), AgentAction::Status);
    assert_eq!(agent_action(Some("SETUP"), 1), AgentAction::Setup);
    assert_eq!(agent_action(Some("remove"), 1), AgentAction::Remove);
    assert_eq!(agent_action(Some("setup"), 2), AgentAction::Usage);
    assert_eq!(agent_action(Some("x"), 1), AgentAction::Usage);
}

#[test]
fn hosts_are_added_by_the_script() {
    assert_eq!(
        add_arguments(&words(&["h100"])).unwrap(),
        words(&["-Action", "Add", "-SshHost", "h100", "-NonInteractive", "-NoOpen"])
    );
    assert_eq!(add_arguments(&words(&[])), None);
    assert_eq!(add_arguments(&words(&[" "])), None);
    assert_eq!(add_arguments(&words(&["-h"])), None);
    assert_eq!(add_arguments(&words(&["a", "b"])), None);
    assert_eq!(
        powershell_arguments("s.ps1", &words(&["x"])),
        words(&["-NoLogo", "-NoProfile", "-ExecutionPolicy", "Bypass", "-File", "s.ps1", "x"])
    );
}

#[test]
fn sessions_begin_in_the_mount() {
    let mount = mount();
    assert_eq!(session_start(&mount, r"c:\cloudfolder\lab\src"), r"c:\cloudfolder\lab\src");
    assert_eq!(session_start(&mount, r"C:\Windows"), r"C:\CloudFolder\Lab");
    let report = enter_report(&mount, r"C:\CloudFolder\Lab", Some("/home/alice"));
    assert!(report.starts_with("Entering CloudFolder runtime: Lab\nLocal workspace: C:\\CloudFolder\\Lab\nRemote root: /home/alice\nTransparent remote tools: git, python, "));
    assert!(report.ends_with(", nvidia-smi\nLocal tools such as cd/dir/explorer/code remain local."));
    assert_eq!(
        enter_report(&mount, r"C:\CloudFolder\Lab", None),
        "Entering CloudFolder runtime: Lab\nLocal workspace: C:\\CloudFolder\\Lab"
    );
    assert_eq!(runtime_dir(Some(r"D:\cf"), true, r"C:\x\cf.exe").unwrap(), r"D:\cf");
    assert_eq!(runtime_dir(Some(r"D:\cf"), false, r"C:\x\cf.exe").unwrap(), r"C:\x");
    assert_eq!(runtime_dir(None, false, "cf.exe").unwrap(), "");
}

#[test]
fn proxy_requests_are_understood() {
    let request = parse_proxy_request(&words(&[
        "--home", r"C:\h", "--config", r"C:\c", "--target", "lab", "--", "-s", "sftp",
    ]))
    .unwrap();
    assert_eq!(request.home, r"C:\h");
    assert_eq!(
        request.arguments,
        words(&["-F", r"C:\c", "-o", "BatchMode=yes", "lab", "-s", "sftp"])
    );
    let request = parse_proxy_request(&words(&[
        "--target", "a", "--home", "h", "--config", "", "--target", "b", "--", "uname", "-a",
    ]))
    .unwrap();
    assert_eq!(request.arguments, words(&["-o", "BatchMode=yes", "-n", "b", "uname", "-a"]));
    let request = parse_proxy_request(&words(&["--home", "h", "--target", "t", "--"])).unwrap();
    assert_eq!(request.arguments, words(&["-o", "BatchMode=yes", "-n", "t"]));
}

#[test]
fn proxy_errors_are_named() {
    assert_eq!(parse_proxy_request(&words(&["--home"])), Err(ProxyError::MissingDelimiter));
    let error = parse_proxy_request(&words(&["--port", "--"])).unwrap_err();
    assert_eq!(error, ProxyError::MissingValue { flag: "--port".to_string() });
    assert_eq!(error.message(), "internal ssh-proxy option --port is missing a value");
    let error = parse_proxy_request(&words(&["--port", "1", "--"])).unwrap_err();
    assert_eq!(error, ProxyError::UnknownOption { flag: "--port".to_string() });
    assert_eq!(error.message(), "unknown internal ssh-proxy option --port");
    assert_eq!(
        parse_proxy_request(&words(&["--target", "t", "--"])),
        Err(ProxyError::MissingHome)
    );
    assert_eq!(
        parse_proxy_request(&words(&["--home", "t", "--"])),
        Err(ProxyError::MissingTarget)
    );
}
