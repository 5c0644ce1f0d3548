//! Mounts, their metadata, paths and environments.

use cloudfolder::encoding::{decode_mount_json, MountJson, MountJsonError};
use cloudfolder::environment::{
    check_profile, default_environment, environment_profile_override,
    environment_profile_state_path, environment_report, merge_environment, missing_workspace,
    nearest_candidate, profile_state_text, reload_report, workspace_config_candidates, wrap_environment_shell,
    EffectiveEnvironment, EnvironmentConfig, EnvironmentProfile, WorkspaceConfig,
};
use cloudfolder::mounts::{
    listing_line, mount_data_dir, names_mount, profile_label, resolve_mount, sort_mounts, MountRecord,
    ResolveError,
};
use cloudfolder::winpath::{
    path_components, path_is_absolute, path_join, path_parent, paths_equal, relative_components,
    PathPart,
};

fn mount(name: &str, mount_point: &str) -> MountRecord {
    MountRecord {
        name: name.to_string(),
        slug: format!("{}-slug", name.to_lowercase()),
        service_name: format!("CloudFolder.{name}"),
        host: "example.com".to_string(),
        port: 22,
        user: "alice".to_string(),
        remote_path: "/workspace".to_string(),
        remote_root: "/workspace".to_string(),
        mount_point: mount_point.to_string(),
        profile: String::new(),
        rclone_config: String::new(),
        key_file: String::new(),
        known_hosts: String::new(),
        ssh_alias: String::new(),
        ssh_config: String::new(),
        rc_port: 55770,
    }
}

fn workspace() -> WorkspaceConfig {
    let text = r#"[environment]
shell = "bash -lc"
init = "export BASE=1"
active = "gpu"

[environment.profiles.gpu]
init = "export DEVICE=gpu"

[environment.profiles.cpu]
shell = "zsh -lc"
init = "export DEVICE=cpu"
"#;
    let document: toml::Table = toml::from_str(text).unwrap();
    let environment = document.get("environment").unwrap().as_table().unwrap();
    let text_of = |table: &toml::Table, key: &str| match table.get(key).and_then(|v| v.as_str()) {
        Some(text) => text.to_string(),
        None => String::new(),
    };
    let profiles = environment
        .get("profiles")
        .unwrap()
        .as_table()
        .unwrap()
        .iter()
        .map(|(name, profile)| EnvironmentProfile {
            name: name.clone(),
            shell: text_of(profile.as_table().unwrap(), "shell"),
            init: text_of(profile.as_table().unwrap(), "init"),
        })
        .collect();
    WorkspaceConfig {
        environment: EnvironmentConfig {
            shell: text_of(environment, "shell"),
            init: text_of(environment, "init"),
            active: text_of(environment, "active"),
            profiles,
        },
    }
}

#[test]
fn mount_json_accepts_utf8_bom() {
    let json = br#"{"name":"x","slug":"x","service_name":"CloudFolder.x","host":"example.com","port":22,"user":"alice","mount_point":"C:\\CloudFolder\\x","rc_port":55770}"#;
    let mut bytes = vec![0xEF, 0xBB, 0xBF];
    bytes.extend_from_slice(json);
    let decoded = match decode_mount_json(&bytes).unwrap() {
        MountJson::Utf8(bytes) => bytes,
        other => panic!("{other:?}"),
    };
    let record: serde_json::Value = serde_json::from_slice(&decoded).unwrap();
    assert_eq!(record.get("name").unwrap().as_str(), Some("x"));
}

#[test]
fn mount_json_accepts_utf16_of_either_order() {
    let text = "{\"name\":\"中😀\"}";
    let mut little = vec![0xFF, 0xFE];
    let mut big = vec![0xFE, 0xFF];
    for unit in text.encode_utf16() {
        little.extend_from_slice(&unit.to_le_bytes());
        big.extend_from_slice(&unit.to_be_bytes());
    }
    assert_eq!(decode_mount_json(&little), Ok(MountJson::Utf16Le(text.to_string())));
    assert_eq!(decode_mount_json(&big), Ok(MountJson::Utf16Be(text.to_string())));
    let plain = b"{}".to_vec();
    assert_eq!(decode_mount_json(&plain), Ok(MountJson::Utf8(plain)));
    assert_eq!(decode_mount_json(&Vec::new()), Ok(MountJson::Utf8(Vec::new())));
    assert_eq!(decode_mount_json(&little).unwrap().invalid(), "invalid UTF-16LE JSON");
    assert_eq!(decode_mount_json(&big).unwrap().invalid(), "invalid UTF-16BE JSON");
    assert_eq!(MountJson::Utf8(Vec::new()).invalid(), "invalid UTF-8 JSON");
}

#[test]
fn mount_json_errors_are_named() {
    let odd_little = vec![0xFF, 0xFE, 0x41];
    assert_eq!(decode_mount_json(&odd_little), Err(MountJsonError::LittleEndianLength));
    let odd_big = vec![0xFE, 0xFF, 0x41];
    assert_eq!(decode_mount_json(&odd_big), Err(MountJsonError::BigEndianLength));
    for lone in [[0x00, 0xD8], [0x00, 0xDC]] {
        let bytes = vec![0xFF, 0xFE, lone[0], lone[1]];
        assert_eq!(decode_mount_json(&bytes), Err(MountJsonError::LittleEndianText));
        let bytes = vec![0xFE, 0xFF, lone[1], lone[0], 0x00, 0x41];
        assert_eq!(decode_mount_json(&bytes), Err(MountJsonError::BigEndianText));
    }
    assert_eq!(MountJsonError::LittleEndianLength.message(), "invalid UTF-16LE JSON length");
    assert_eq!(MountJsonError::BigEndianLength.message(), "invalid UTF-16BE JSON length");
    let cause = String::from_utf16(&[0xD800]).unwrap_err();
    assert_eq!(
        MountJsonError::LittleEndianText.message(),
        format!("invalid UTF-16LE JSON: {cause}")
    );
    assert_eq!(
        MountJsonError::BigEndianText.message(),
        format!("invalid UTF-16BE JSON: {cause}")
    );
}

#[test]
fn a_blank_name_names_no_mount() {
    assert!(names_mount(Some("lab")));
    assert!(names_mount(Some(" lab ")));
    assert!(!names_mount(Some("")));
    assert!(!names_mount(Some(" \t\u{3000}")));
    assert!(!names_mount(None));
}

#[test]
fn the_nearest_workspace_file_is_taken() {
    assert_eq!(nearest_candidate(&vec![false, true, true]), Some(1));
    assert_eq!(nearest_candidate(&vec![true, false]), Some(0));
    assert_eq!(nearest_candidate(&vec![false, false]), None);
    assert_eq!(nearest_candidate(&Vec::new()), None);
}

#[test]
fn mounts_are_ordered_by_name_whatever_its_case() {
    let records = vec![
        mount("beta", "1"),
        mount("Ünit", "2"),
        mount("Alpha", "3"),
        mount("BETA", "4"),
        mount("ünis", "5"),
    ];
    let names: Vec<String> = sort_mounts(records).into_iter().map(|m| m.mount_point).collect();
    assert_eq!(names, vec!["3", "1", "4", "5", "2"]);
}

#[test]
fn mounts_are_found_by_name() {
    let records = vec![mount("Lab", r"C:\cf\lab"), mount("Home", r"C:\cf\home")];
    assert_eq!(resolve_mount(&records, Some("LAB"), None), Ok(0));
    assert_eq!(resolve_mount(&records, Some("home-slug"), None), Ok(1));
    assert_eq!(resolve_mount(&records, Some("cloudfolder.home"), Some(r"C:\cf\lab")), Ok(1));
    let error = resolve_mount(&records, Some("x"), None).unwrap_err();
    assert_eq!(error.message(), "could not find CloudFolder mount 'x'");
    let twins = vec![mount("Lab", "a"), mount("lab", "b")];
    let error = resolve_mount(&twins, Some("lab"), None).unwrap_err();
    assert_eq!(error, ResolveError::Ambiguous { name: "lab".to_string() });
    assert_eq!(error.message(), "mount name 'lab' is ambiguous");
    let error = resolve_mount(&Vec::new(), Some("lab"), None).unwrap_err();
    assert_eq!(error, ResolveError::NoMounts);
    assert_eq!(error.message(), "no CloudFolder mounts are configured");
}

#[test]
fn mounts_are_found_by_directory() {
    let records = vec![mount("Lab", r"C:\cf\lab"), mount("Home", r"C:\cf\home")];
    assert_eq!(resolve_mount(&records, None, Some(r"c:\CF\Home\src")), Ok(1));
    assert_eq!(resolve_mount(&records, Some("  "), Some(r"C:\cf\lab")), Ok(0));
    assert_eq!(
        resolve_mount(&records, None, Some(r"C:\cf")),
        Err(ResolveError::OutsideMounts)
    );
    assert_eq!(resolve_mount(&records, None, None), Err(ResolveError::OutsideMounts));
    let one = vec![mount("Lab", r"C:\cf\lab")];
    assert_eq!(resolve_mount(&one, None, Some(r"D:\")), Ok(0));
    let nested = vec![mount("Inner", r"C:\cf\lab\in"), mount("Outer", r"C:\cf\lab")];
    assert_eq!(resolve_mount(&nested, None, Some(r"C:\cf\lab\in\x")), Ok(1));
}

#[test]
fn mounts_are_listed_with_their_profile() {
    let mut record = mount("Lab", r"C:\cf\lab");
    assert_eq!(profile_label(&record), "Legacy");
    assert_eq!(listing_line(&record), "Lab\tC:\\cf\\lab\tLegacy\talice@example.com:22");
    record.profile = "Dev".to_string();
    assert_eq!(profile_label(&record), "Dev");
    assert_eq!(mount_data_dir(&record, r"C:\mounts"), r"C:\mounts\lab-slug");
    record.rclone_config = r"D:\m\rclone.conf".to_string();
    assert_eq!(mount_data_dir(&record, r"C:\mounts"), r"D:\m");
}

#[test]
fn paths_are_read_as_windows_does() {
    let parts = path_components(r"C:\a/b\.\..\c");
    assert_eq!(
        parts,
        vec![
            PathPart::Prefix("C:".to_string()),
            PathPart::RootDir,
            PathPart::Normal("a".to_string()),
            PathPart::Normal("b".to_string()),
            PathPart::ParentDir,
            PathPart::Normal("c".to_string()),
        ]
    );
    assert!(path_is_absolute(r"C:\"));
    assert!(path_is_absolute(r"\\server\share"));
    assert!(!path_is_absolute("C:x"));
    assert!(!path_is_absolute(r"\x"));
    assert!(paths_equal(r"c:\a\", r"C:/a/."));
    assert!(!paths_equal(r"C:\a", r"C:\A"));
    assert_eq!(path_parent(r"C:\a\b").unwrap(), r"C:\a");
    assert_eq!(path_parent(r"C:\").as_deref(), None);
    assert_eq!(path_parent(r"C:.\a").unwrap(), "C:.");
    assert_eq!(path_parent("C:.").as_deref(), None);
    assert_eq!(path_parent(".").unwrap(), "");
    assert_eq!(path_join(r"C:\a", "b"), r"C:\a\b");
    assert_eq!(path_join("C:", "b"), "C:b");
    assert_eq!(path_join(r"C:\a", r"\b"), r"C:\b");
    assert_eq!(path_join(r"C:\a", r"D:\b"), r"D:\b");
    assert_eq!(
        relative_components(r"c:\A\b\c", r"C:\a\"),
        Some(vec!["b".to_string(), "c".to_string()])
    );
    assert_eq!(relative_components(r"C:\a", r"C:\a"), Some(Vec::new()));
    assert_eq!(relative_components(r"C:\ab", r"C:\a"), None);
}

#[test]
fn joined_names_are_last_components() {
    for base in [r"C:\", r"C:\a\b", r"\\server\share", r"\\server\share\x\", r"\\.\COM1"] {
        let joined = path_join(base, "name.txt");
        let mut parts = path_components(base);
        parts.push(PathPart::Normal("name.txt".to_string()));
        assert_eq!(path_components(&joined), parts, "{base}");
        assert_eq!(relative_components(&joined, base), Some(vec!["name.txt".to_string()]));
    }
}

#[test]
fn workspace_environment_merges_profile_without_rewriting_config() {
    let root = r"C:\env-root";
    let nested = r"C:\env-root\project\src";
    let candidates = workspace_config_candidates(root, nested);
    assert_eq!(
        candidates,
        vec![
            r"C:\env-root\project\src\.cloudfolder.toml",
            r"C:\env-root\project\.cloudfolder.toml",
            r"C:\env-root\.cloudfolder.toml",
        ]
    );
    let config_path = candidates.last().unwrap();
    let config = workspace();
    let before = config.clone();
    let base = merge_environment(&config, config_path, None).unwrap();
    assert_eq!(base.shell, "bash -lc");
    assert_eq!(base.active, "gpu");
    assert!(base.init.contains("export BASE=1"));
    assert!(base.init.contains("export DEVICE=gpu"));

    check_profile(&config, config_path, "cpu").unwrap();
    let state = profile_state_text(config_path, "cpu");
    let chosen = environment_profile_override(&state, config_path);
    let selected = merge_environment(&config, config_path, chosen).unwrap();
    assert_eq!(selected.shell, "zsh -lc");
    assert_eq!(selected.active, "cpu");
    assert!(selected.init.contains("export DEVICE=cpu"));
    assert_eq!(selected.init, "export BASE=1\nexport DEVICE=cpu");
    assert_eq!(config, before);
    assert_eq!(config.environment.active, "gpu");
}

#[test]
fn workspace_files_are_looked_for_within_the_mount() {
    assert_eq!(
        workspace_config_candidates(r"C:\cf\lab", r"D:\elsewhere"),
        vec![r"C:\cf\lab\.cloudfolder.toml"]
    );
    assert_eq!(
        workspace_config_candidates(r"C:\cf\lab", r"C:\cf\LAB\x"),
        vec![r"C:\cf\LAB\x\.cloudfolder.toml", r"C:\cf\LAB\.cloudfolder.toml"]
    );
    assert_eq!(
        environment_profile_state_path(r"C:\m\lab"),
        r"C:\m\lab\environment-profile"
    );
    assert_eq!(
        missing_workspace(r"C:\cf\lab"),
        r"no .cloudfolder.toml exists between the current directory and C:\cf\lab"
    );
}

#[test]
fn profiles_that_are_not_defined_are_refused() {
    let config = workspace();
    let error = check_profile(&config, "p", "tpu").unwrap_err();
    assert_eq!(error.message(), "environment profile 'tpu' is not defined in p");
    let error = merge_environment(&config, "p", Some("tpu".to_string())).unwrap_err();
    assert_eq!(error.profile, "tpu");
    let blank = merge_environment(&config, "p", Some(" ".to_string())).unwrap();
    assert_eq!(blank.shell, "bash -lc");
    assert_eq!(blank.init, "export BASE=1");
    assert_eq!(blank.active, " ");
}

#[test]
fn chosen_profiles_are_remembered_per_workspace() {
    let path = r"C:\lab\.cloudfolder.toml";
    let text = profile_state_text(path, "cpu");
    assert_eq!(text, "C:\\lab\\.cloudfolder.toml\ncpu\n");
    assert_eq!(environment_profile_override(&text, path).as_deref(), Some("cpu"));
    assert_eq!(
        environment_profile_override(&text, r"c:\LAB\.cloudfolder.toml").as_deref(),
        Some("cpu")
    );
    assert_eq!(environment_profile_override(&text, r"C:\other\.cloudfolder.toml"), None);
    assert_eq!(environment_profile_override("", ""), None);
    assert_eq!(environment_profile_override("p\r\ngpu\r\nrest", "p").as_deref(), Some("gpu"));
    assert_eq!(environment_profile_override("p\n  \n", "p"), None);
}

#[test]
fn environment_shell_wraps_one_remote_body() {
    let environment = EffectiveEnvironment {
        config_path: None,
        shell: "bash -lc".to_string(),
        init: String::new(),
        active: String::new(),
    };
    let wrapped = wrap_environment_shell(&environment, "echo 'hello'");
    assert!(wrapped.starts_with("bash -lc "));
    assert!(wrapped.contains("echo"));
    assert!(wrapped.contains("hello"));
    assert_eq!(wrap_environment_shell(&default_environment(), "echo 'hello'"), "echo 'hello'");
}

#[test]
fn environments_are_shown() {
    assert_eq!(
        environment_report(&default_environment()),
        "Config:  (none)\nProfile: (base)\nShell:   (remote default shell)\nInit:    (none)"
    );
    let environment = merge_environment(&workspace(), "p", None).unwrap();
    assert_eq!(
        environment_report(&environment),
        "Config:  p\nProfile: gpu\nShell:   bash -lc\nInit:\nexport BASE=1\nexport DEVICE=gpu"
    );
    assert!(reload_report(&environment).starts_with("Environment config reloaded: p\n"));
    assert!(reload_report(&default_environment())
        .starts_with("Environment config reloaded: defaults (no .cloudfolder.toml)\n"));
}
