//! How ssh is run for a mount: whom it connects to, with which keys and options.

use crate::arguments::{copy_arguments, find_argument, law_first_place_is_found, place_of};
use crate::mounts::MountRecord;
use crate::rclone::{passes, push_argument};
use crate::text::{
    ascii_lower, blank, chars_of, decimal, decimal_text, digit_value, equal_ignoring_case, find, has_text, is_blank,
    is_white_space, law_blank_trims_to_nothing, law_decimal_reads_back, law_trim_restores_text, lemma_find_from, lemma_has_between, lines,
    lines_of, occurs_at, optional, position_of, push_decimal, same_ignoring_case, same_text,
    string_of, trim, trimmed, views,
};
use vstd::prelude::*;

verus! {

/// Whom ssh connects to: the host of the user's ssh configuration, or a user at a host.
pub open spec fn target_of(record: MountRecord) -> Seq<char> {
    if is_blank(record.ssh_alias@) {
        record.user@ + "@"@ + record.host@
    } else {
        record.ssh_alias@
    }
}

/// Whom ssh connects to.
pub fn ssh_target(record: &MountRecord) -> (target: String)
    ensures
        target@ == target_of(*record),
{
    if blank(record.ssh_alias.as_str()) {
        let mut target = record.user.clone();
        target.append("@");
        target.append(record.host.as_str());
        target
    } else {
        record.ssh_alias.clone()
    }
}

/// What a line sets a key to; nothing where it sets none or another one.
pub open spec fn line_value(line: Seq<char>, key: Seq<char>) -> Option<Seq<char>> {
    match find(line, "="@) {
        None => None,
        Some(at) => if same_ignoring_case(trim(line.subrange(0, at)), key) {
            Some(trim(line.subrange(at + 1, line.len() as int)))
        } else {
            None
        },
    }
}

/// What the first line that sets a key sets it to.
pub open spec fn first_value(found: Seq<Seq<char>>, key: Seq<char>) -> Option<Seq<char>>
    decreases found.len(),
{
    if found.len() == 0 {
        None
    } else {
        match line_value(found[0], key) {
            Some(value) => Some(value),
            None => first_value(found.skip(1), key),
        }
    }
}

/// What a line sets a key to.
fn value_in_line(line: &str, key: &str) -> (value: Option<String>)
    ensures
        match value {
            Some(value) => line_value(line@, key@) == Some(value@),
            None => line_value(line@, key@) is None,
        },
{
    let chars = chars_of(line);
    proof {
        reveal_strlit("=");
    }
    match position_of(&chars, &chars_of("=")) {
        None => None,
        Some(at) => {
            assert(at + 1 <= chars.len());
            let left = string_of(&chars, 0, at);
            let right = string_of(&chars, at + 1, chars.len());
            if equal_ignoring_case(trimmed(left.as_str()).as_str(), key) {
                Some(trimmed(right.as_str()))
            } else {
                None
            }
        },
    }
}

/// What the first line of a text that sets a key sets it to.
pub fn ini_value(text: &str, key: &str) -> (value: Option<String>)
    ensures
        match value {
            Some(value) => first_value(lines(text@), key@) == Some(value@),
            None => first_value(lines(text@), key@) is None,
        },
{
    let found = lines_of(text);
    let mut i: usize = 0;
    assert(views(found@).skip(0) =~= views(found@));
    while i < found.len()
        invariant
            i <= found.len(),
            views(found@) == lines(text@),
            first_value(views(found@).skip(i as int), key@) == first_value(lines(text@), key@),
        decreases found.len() - i,
    {
        let ghost left = views(found@).skip(i as int);
        assert(left[0] == found@[i as int]@);
        assert(left.skip(1) =~= views(found@).skip(i + 1));
        match value_in_line(found[i].as_str(), key) {
            Some(value) => {
                return Some(value);
            },
            None => {},
        }
        i += 1;
    }
    None
}

/// How ssh proves who it is.
#[derive(Clone, Debug, PartialEq, Eq)]
pub enum SshAccess {
    /// With the key of the mount, to a host whose key is known.
    Own { key_file: String, known_hosts: String },
    /// As the user's ssh configuration says.
    Alias,
}

/// How ssh proves who it is, by its text.
#[verifier::ext_equal]
pub enum AccessView {
    Own(Seq<char>, Seq<char>),
    Alias,
}

impl View for SshAccess {
    type V = AccessView;

    open spec fn view(&self) -> AccessView {
        match self {
            SshAccess::Own { key_file, known_hosts } => AccessView::Own(key_file@, known_hosts@),
            SshAccess::Alias => AccessView::Alias,
        }
    }
}

/// Why ssh cannot be run for a mount.
#[derive(Clone, Debug, PartialEq, Eq)]
pub enum SshError {
    MissingMetadata { mount: String },
    MissingKey { path: String },
    MissingKnownHosts { path: String },
}

impl SshError {
    /// What is said where ssh cannot be run.
    pub open spec fn spec_message(self) -> Seq<char> {
        match self {
            SshError::MissingMetadata { mount } => "mount '"@ + mount@
                + "' is missing SSH key metadata; re-add the mount"@,
            SshError::MissingKey { path } => "SSH key does not exist: "@ + path@,
            SshError::MissingKnownHosts { path } => "known_hosts does not exist: "@ + path@,
        }
    }

    /// What is said where ssh cannot be run.
    pub fn message(&self) -> (text: String)
        ensures
            text@ == self.spec_message(),
    {
        match self {
            SshError::MissingMetadata { mount } => {
                let mut text = "mount '".to_string();
                text.append(mount.as_str());
                text.append("' is missing SSH key metadata; re-add the mount");
                text
            },
            SshError::MissingKey { path } => {
                let mut text = "SSH key does not exist: ".to_string();
                text.append(path.as_str());
                text
            },
            SshError::MissingKnownHosts { path } => {
                let mut text = "known_hosts does not exist: ".to_string();
                text.append(path.as_str());
                text
            },
        }
    }
}

/// Whether the rclone configuration of a mount has to be read to find its key.
pub open spec fn reads_rclone_config(record: MountRecord) -> bool {
    is_blank(record.ssh_alias@) && (trim(record.key_file@).len() == 0 || trim(
        record.known_hosts@,
    ).len() == 0) && !is_blank(record.rclone_config@)
}

/// Whether the rclone configuration of a mount has to be read to find its key.
pub fn needs_rclone_config(record: &MountRecord) -> (yes: bool)
    ensures
        yes == reads_rclone_config(*record),
{
    let key = trimmed(record.key_file.as_str());
    let hosts = trimmed(record.known_hosts.as_str());
    blank(record.ssh_alias.as_str()) && (key.as_str().is_empty() || hosts.as_str().is_empty())
        && !blank(record.rclone_config.as_str())
}

/// A file that the record names, or else the one that the rclone configuration names.
pub open spec fn file_or(
    named: Seq<char>,
    record: MountRecord,
    config_text: Seq<char>,
    key: Seq<char>,
) -> Seq<char> {
    if trim(named).len() > 0 {
        trim(named)
    } else if is_blank(record.rclone_config@) {
        Seq::empty()
    } else {
        match first_value(lines(config_text), key) {
            Some(value) => value,
            None => Seq::empty(),
        }
    }
}

/// A file that the record names, or else the one that the rclone configuration names.
fn choose_file(named: &str, record: &MountRecord, config_text: &str, key: &str) -> (file: String)
    ensures
        file@ == file_or(named@, *record, config_text@, key@),
{
    let given = trimmed(named);
    if !given.as_str().is_empty() {
        return given;
    }
    let empty = String::new();
    assert(empty@ =~= Seq::empty());
    if blank(record.rclone_config.as_str()) {
        empty
    } else {
        match ini_value(config_text, key) {
            Some(value) => value,
            None => empty,
        }
    }
}

/// How ssh proves who it is, for a mount whose rclone configuration reads so; nothing where
/// the mount names no key.
pub open spec fn access_of(record: MountRecord, config_text: Seq<char>) -> Option<AccessView> {
    if !is_blank(record.ssh_alias@) {
        Some(AccessView::Alias)
    } else {
        let key = file_or(record.key_file@, record, config_text, "key_file"@);
        let hosts = file_or(record.known_hosts@, record, config_text, "known_hosts_file"@);
        if key.len() == 0 || hosts.len() == 0 {
            None
        } else {
            Some(AccessView::Own(key, hosts))
        }
    }
}

/// How ssh proves who it is, for a mount whose rclone configuration reads so. The text is
/// not looked at where `needs_rclone_config` says no.
pub fn ssh_access(record: &MountRecord, config_text: &str) -> (access: Result<SshAccess, SshError>)
    ensures
        match access {
            Ok(access) => access_of(*record, config_text@) == Some(access@),
            Err(SshError::MissingMetadata { mount }) => access_of(*record, config_text@) is None
                && mount@ == record.name@,
            Err(_) => false,
        },
{
    if !blank(record.ssh_alias.as_str()) {
        return Ok(SshAccess::Alias);
    }
    let key_file = choose_file(record.key_file.as_str(), record, config_text, "key_file");
    let known_hosts = choose_file(
        record.known_hosts.as_str(),
        record,
        config_text,
        "known_hosts_file",
    );
    if key_file.as_str().is_empty() || known_hosts.as_str().is_empty() {
        Err(SshError::MissingMetadata { mount: record.name.clone() })
    } else {
        Ok(SshAccess::Own { key_file, known_hosts })
    }
}

/// Which of the files with which ssh proves who it is is not there: that of the key is looked
/// for before that of the hosts. An alias needs neither.
pub open spec fn missing_file_of(
    access: AccessView,
    key_found: bool,
    hosts_found: bool,
) -> Option<Seq<char>> {
    match access {
        AccessView::Alias => None,
        AccessView::Own(key_file, known_hosts) => if !key_found {
            Some(key_file)
        } else if !hosts_found {
            Some(known_hosts)
        } else {
            None
        },
    }
}

/// Checks that the files with which ssh proves who it is are there.
pub fn verify_access(access: &SshAccess, key_found: bool, hosts_found: bool) -> (checked: Result<
    (),
    SshError,
>)
    ensures
        checked is Ok <==> missing_file_of(access@, key_found, hosts_found) is None,
        match access {
            SshAccess::Alias => checked is Ok,
            SshAccess::Own { key_file, known_hosts } => match checked {
                Ok(()) => key_found && hosts_found,
                Err(SshError::MissingKey { path }) => !key_found && path@ == key_file@,
                Err(SshError::MissingKnownHosts { path }) => key_found && !hosts_found && path@
                    == known_hosts@,
                Err(SshError::MissingMetadata { .. }) => false,
            },
        },
{
    match access {
        SshAccess::Alias => Ok(()),
        SshAccess::Own { key_file, known_hosts } => if !key_found {
            Err(SshError::MissingKey { path: key_file.clone() })
        } else if !hosts_found {
            Err(SshError::MissingKnownHosts { path: known_hosts.clone() })
        } else {
            Ok(())
        },
    }
}

/// The options with which ssh proves who it is and whom it trusts.
pub open spec fn access_options(record: MountRecord, access: AccessView) -> Seq<Seq<char>> {
    match access {
        AccessView::Own(key_file, known_hosts) => seq![
            "-p"@,
            decimal(record.port as nat),
            "-i"@,
            key_file,
            "-o"@,
            "IdentitiesOnly=yes"@,
            "-o"@,
            "StrictHostKeyChecking=yes"@,
            "-o"@,
            "UserKnownHostsFile="@ + known_hosts,
        ],
        AccessView::Alias => if is_blank(record.ssh_config@) {
            Seq::empty()
        } else {
            seq!["-F"@, record.ssh_config@]
        },
    }
}

/// The options with which ssh is run for a mount.
pub open spec fn ssh_options(record: MountRecord, access: AccessView) -> Seq<Seq<char>> {
    access_options(record, access) + seq![
        "-o"@,
        "BatchMode=yes"@,
        "-o"@,
        "ServerAliveInterval=15"@,
        "-o"@,
        "ServerAliveCountMax=3"@,
    ]
}

/// The options with which ssh is run for a mount.
pub fn ssh_option_list(record: &MountRecord, access: &SshAccess) -> (options: Vec<String>)
    ensures
        views(options@) == ssh_options(*record, access@),
{
    let mut options: Vec<String> = Vec::new();
    assert(views(options@) =~= Seq::empty());
    match access {
        SshAccess::Own { key_file, known_hosts } => {
            push_argument(&mut options, "-p");
            push_argument(&mut options, decimal_text(record.port as u64).as_str());
            push_argument(&mut options, "-i");
            push_argument(&mut options, key_file.as_str());
            push_argument(&mut options, "-o");
            push_argument(&mut options, "IdentitiesOnly=yes");
            push_argument(&mut options, "-o");
            push_argument(&mut options, "StrictHostKeyChecking=yes");
            push_argument(&mut options, "-o");
            let mut hosts = "UserKnownHostsFile=".to_string();
            hosts.append(known_hosts.as_str());
            push_argument(&mut options, hosts.as_str());
        },
        SshAccess::Alias => {
            if !blank(record.ssh_config.as_str()) {
                push_argument(&mut options, "-F");
                push_argument(&mut options, record.ssh_config.as_str());
            }
        },
    }
    assert(views(options@) =~= access_options(*record, access@));
    push_argument(&mut options, "-o");
    push_argument(&mut options, "BatchMode=yes");
    push_argument(&mut options, "-o");
    push_argument(&mut options, "ServerAliveInterval=15");
    push_argument(&mut options, "-o");
    push_argument(&mut options, "ServerAliveCountMax=3");
    assert(views(options@) =~= ssh_options(*record, access@));
    options
}

/// The arguments with which ssh runs a command on the server, with or without a terminal.
pub open spec fn run_argument_texts(
    record: MountRecord,
    access: AccessView,
    tty: bool,
    command: Seq<char>,
) -> Seq<Seq<char>> {
    ssh_options(record, access) + if tty {
        seq!["-t"@, target_of(record), command]
    } else {
        seq![target_of(record), command]
    }
}

/// The arguments with which ssh runs a command on the server, with or without a terminal.
pub fn run_ssh_arguments(
    record: &MountRecord,
    access: &SshAccess,
    tty: bool,
    remote_command: &str,
) -> (arguments: Vec<String>)
    ensures
        views(arguments@) == run_argument_texts(*record, access@, tty, remote_command@),
{
    let mut arguments = ssh_option_list(record, access);
    if tty {
        push_argument(&mut arguments, "-t");
    }
    push_argument(&mut arguments, ssh_target(record).as_str());
    push_argument(&mut arguments, remote_command);
    assert(views(arguments@) =~= run_argument_texts(*record, access@, tty, remote_command@));
    arguments
}

/// What a port is forwarded to: from this computer to the server, on the loopback address
/// of either.
pub open spec fn forward_text(local_port: u16, remote_port: u16) -> Seq<char> {
    "127.0.0.1:"@ + decimal(local_port as nat) + ":127.0.0.1:"@ + decimal(remote_port as nat)
}

/// What a port is forwarded to.
pub fn forward_spec_text(local_port: u16, remote_port: u16) -> (text: String)
    ensures
        text@ == forward_text(local_port, remote_port),
{
    let mut text = "127.0.0.1:".to_string();
    push_decimal(&mut text, local_port as u64);
    text.append(":127.0.0.1:");
    push_decimal(&mut text, remote_port as u64);
    text
}

/// The arguments with which ssh forwards a port.
pub open spec fn forward_argument_texts(
    record: MountRecord,
    access: AccessView,
    local_port: u16,
    remote_port: u16,
) -> Seq<Seq<char>> {
    ssh_options(record, access) + seq![
        "-N"@,
        "-L"@,
        forward_text(local_port, remote_port),
        "-o"@,
        "ExitOnForwardFailure=yes"@,
        target_of(record),
    ]
}

/// The arguments with which ssh forwards a port.
pub fn forward_arguments(
    record: &MountRecord,
    access: &SshAccess,
    local_port: u16,
    remote_port: u16,
) -> (arguments: Vec<String>)
    ensures
        views(arguments@) == forward_argument_texts(*record, access@, local_port, remote_port),
{
    let mut arguments = ssh_option_list(record, access);
    push_argument(&mut arguments, "-N");
    push_argument(&mut arguments, "-L");
    push_argument(&mut arguments, forward_spec_text(local_port, remote_port).as_str());
    push_argument(&mut arguments, "-o");
    push_argument(&mut arguments, "ExitOnForwardFailure=yes");
    push_argument(&mut arguments, ssh_target(record).as_str());
    assert(views(arguments@) =~= forward_argument_texts(
        *record,
        access@,
        local_port,
        remote_port,
    ));
    arguments
}

/// ssh never asks a question, and a mount with a key of its own connects only to a host
/// whose key is in its own list, and only with its own key.
pub proof fn law_ssh_is_strict(
    record: MountRecord,
    access: AccessView,
    tty: bool,
    command: Seq<char>,
)
    ensures
        ({
            let arguments = run_argument_texts(record, access, tty, command);
            &&& passes(arguments, "-o"@, "BatchMode=yes"@)
            &&& access matches AccessView::Own(key_file, known_hosts) ==> {
                &&& passes(arguments, "-i"@, key_file)
                &&& passes(arguments, "-o"@, "IdentitiesOnly=yes"@)
                &&& passes(arguments, "-o"@, "StrictHostKeyChecking=yes"@)
                &&& passes(arguments, "-o"@, "UserKnownHostsFile="@ + known_hosts)
            }
        }),
{
    let arguments = run_argument_texts(record, access, tty, command);
    let own = access_options(record, access);
    let n = own.len() as int;
    assert(arguments[n] == "-o"@);
    assert(arguments[n + 1] == "BatchMode=yes"@);
    if access is Own {
        assert(arguments[2] == "-i"@);
        assert(arguments[3] == access->Own_0);
        assert(arguments[4] == "-o"@);
        assert(arguments[5] == "IdentitiesOnly=yes"@);
        assert(arguments[6] == "-o"@);
        assert(arguments[7] == "StrictHostKeyChecking=yes"@);
        assert(arguments[8] == "-o"@);
        assert(arguments[9] == "UserKnownHostsFile="@ + access->Own_1);
    }
}

/// What the proxy that rclone runs ssh through was asked for.
#[derive(Clone, Debug, PartialEq, Eq)]
pub struct ProxyRequest {
    /// The directory that ssh takes for the user's own.
    pub home: String,
    /// The arguments of ssh.
    pub arguments: Vec<String>,
}

/// Why the proxy cannot run ssh.
#[derive(Clone, Debug, PartialEq, Eq)]
pub enum ProxyError {
    MissingDelimiter,
    MissingValue { flag: String },
    UnknownOption { flag: String },
    MissingHome,
    MissingTarget,
}

/// Why the proxy cannot run ssh, by its text.
#[verifier::ext_equal]
pub enum ProxyErrorView {
    MissingDelimiter,
    MissingValue(Seq<char>),
    UnknownOption(Seq<char>),
    MissingHome,
    MissingTarget,
}

impl View for ProxyError {
    type V = ProxyErrorView;

    open spec fn view(&self) -> ProxyErrorView {
        match self {
            ProxyError::MissingDelimiter => ProxyErrorView::MissingDelimiter,
            ProxyError::MissingValue { flag } => ProxyErrorView::MissingValue(flag@),
            ProxyError::UnknownOption { flag } => ProxyErrorView::UnknownOption(flag@),
            ProxyError::MissingHome => ProxyErrorView::MissingHome,
            ProxyError::MissingTarget => ProxyErrorView::MissingTarget,
        }
    }
}

impl ProxyErrorView {
    /// What is said where the proxy cannot run ssh.
    pub open spec fn spec_message(self) -> Seq<char> {
        match self {
            ProxyErrorView::MissingDelimiter => "internal ssh-proxy invocation is missing --"@,
            ProxyErrorView::MissingValue(flag) => "internal ssh-proxy option "@ + flag
                + " is missing a value"@,
            ProxyErrorView::UnknownOption(flag) => "unknown internal ssh-proxy option "@ + flag,
            ProxyErrorView::MissingHome => "internal ssh-proxy home is missing"@,
            ProxyErrorView::MissingTarget => "internal ssh-proxy target is missing"@,
        }
    }
}

impl ProxyError {
    /// What is said where the proxy cannot run ssh.
    pub fn message(&self) -> (text: String)
        ensures
            text@ == self@.spec_message(),
    {
        match self {
            ProxyError::MissingDelimiter => {
                "internal ssh-proxy invocation is missing --".to_string()
            },
            ProxyError::MissingValue { flag } => {
                let mut text = "internal ssh-proxy option ".to_string();
                text.append(flag.as_str());
                text.append(" is missing a value");
                text
            },
            ProxyError::UnknownOption { flag } => {
                let mut text = "unknown internal ssh-proxy option ".to_string();
                text.append(flag.as_str());
                text
            },
            ProxyError::MissingHome => "internal ssh-proxy home is missing".to_string(),
            ProxyError::MissingTarget => "internal ssh-proxy target is missing".to_string(),
        }
    }
}

/// What the proxy was told so far.
#[verifier::ext_equal]
pub struct ProxyOptions {
    pub home: Option<Seq<char>>,
    pub config: Option<Seq<char>>,
    pub target: Option<Seq<char>>,
}

/// What the options before `--` tell the proxy; of an option that is given twice the last
/// counts.
pub open spec fn proxy_options(control: Seq<Seq<char>>, told: ProxyOptions) -> Result<
    ProxyOptions,
    ProxyErrorView,
>
    decreases control.len(),
{
    if control.len() == 0 {
        Ok(told)
    } else if control.len() == 1 {
        Err(ProxyErrorView::MissingValue(control[0]))
    } else if control[0] == "--home"@ {
        proxy_options(control.skip(2), ProxyOptions { home: Some(control[1]), ..told })
    } else if control[0] == "--config"@ {
        proxy_options(control.skip(2), ProxyOptions { config: Some(control[1]), ..told })
    } else if control[0] == "--target"@ {
        proxy_options(control.skip(2), ProxyOptions { target: Some(control[1]), ..told })
    } else {
        Err(ProxyErrorView::UnknownOption(control[0]))
    }
}

/// The arguments with which the proxy runs ssh. Only a subsystem reads standard input.
pub open spec fn proxy_arguments(
    config: Option<Seq<char>>,
    target: Seq<char>,
    passthrough: Seq<Seq<char>>,
) -> Seq<Seq<char>> {
    let front = if config is Some && config->0.len() > 0 {
        seq!["-F"@, config->0]
    } else {
        Seq::empty()
    };
    let subsystem = passthrough.len() > 0 && passthrough[0] == "-s"@;
    let middle = if subsystem {
        seq!["-o"@, "BatchMode=yes"@, target]
    } else {
        seq!["-o"@, "BatchMode=yes"@, "-n"@, target]
    };
    front + middle + passthrough
}

/// The directory and the arguments of ssh that the arguments of the proxy ask for.
pub open spec fn proxy_request(args: Seq<Seq<char>>) -> Result<
    (Seq<char>, Seq<Seq<char>>),
    ProxyErrorView,
> {
    match place_of(args, "--"@) {
        None => Err(ProxyErrorView::MissingDelimiter),
        Some(at) => match proxy_options(
            args.take(at),
            ProxyOptions { home: None, config: None, target: None },
        ) {
            Err(error) => Err(error),
            Ok(told) => if told.home is None {
                Err(ProxyErrorView::MissingHome)
            } else if told.target is None {
                Err(ProxyErrorView::MissingTarget)
            } else {
                Ok((told.home->0, proxy_arguments(told.config, told.target->0, args.skip(at + 1))))
            },
        },
    }
}

/// The arguments with which the proxy runs ssh.
fn proxy_argument_list(config: &Option<String>, target: &str, passthrough: &Vec<String>) -> (arguments:
    Vec<String>)
    ensures
        views(arguments@) == proxy_arguments(optional(*config), target@, views(passthrough@)),
{
    let mut arguments: Vec<String> = Vec::new();
    assert(views(arguments@) =~= Seq::empty());
    match config {
        Some(config) => {
            if !config.as_str().is_empty() {
                push_argument(&mut arguments, "-F");
                push_argument(&mut arguments, config.as_str());
            }
        },
        None => {},
    }
    push_argument(&mut arguments, "-o");
    push_argument(&mut arguments, "BatchMode=yes");
    let subsystem = passthrough.len() > 0 && same_text(passthrough[0].as_str(), "-s");
    if !subsystem {
        push_argument(&mut arguments, "-n");
    }
    push_argument(&mut arguments, target);
    let ghost before = views(arguments@);
    let mut i: usize = 0;
    assert(before + views(passthrough@).take(0) =~= before);
    while i < passthrough.len()
        invariant
            i <= passthrough.len(),
            views(arguments@) == before + views(passthrough@).take(i as int),
        decreases passthrough.len() - i,
    {
        push_argument(&mut arguments, passthrough[i].as_str());
        assert(before + views(passthrough@).take(i + 1) =~= (before + views(passthrough@).take(
            i as int,
        )).push(passthrough@[i as int]@));
        i += 1;
    }
    assert(views(passthrough@).take(i as int) =~= views(passthrough@));
    assert(views(arguments@) =~= proxy_arguments(optional(*config), target@, views(passthrough@)));
    arguments
}

/// What the arguments of the proxy ask for.
pub fn parse_proxy_request(args: &Vec<String>) -> (request: Result<ProxyRequest, ProxyError>)
    ensures
        match request {
            Ok(request) => proxy_request(views(args@)) == Ok::<
                (Seq<char>, Seq<Seq<char>>),
                ProxyErrorView,
            >((request.home@, views(request.arguments@))),
            Err(error) => proxy_request(views(args@)) == Err::<
                (Seq<char>, Seq<Seq<char>>),
                ProxyErrorView,
            >(error@),
        },
{
    let at: usize = match find_argument(args, "--") {
        None => {
            return Err(ProxyError::MissingDelimiter);
        },
        Some(at) => at,
    };
    let ghost control = views(args@).take(at as int);
    let ghost told = proxy_options(control, ProxyOptions { home: None, config: None, target: None });
    let passthrough = copy_arguments(args, at + 1, args.len());
    assert(views(passthrough@) =~= views(args@).skip(at + 1));
    let mut home: Option<String> = None;
    let mut config: Option<String> = None;
    let mut target: Option<String> = None;
    let mut i: usize = 0;
    assert(control.skip(0) =~= control);
    while i < at
        invariant
            i <= at < args.len(),
            control == views(args@).take(at as int),
            told == proxy_options(control, ProxyOptions { home: None, config: None, target: None }),
            place_of(views(args@), "--"@) == Some(at as int),
            told == proxy_options(
                control.skip(i as int),
                ProxyOptions { home: optional(home), config: optional(config), target: optional(target) },
            ),
        decreases at - i,
    {
        let ghost left = control.skip(i as int);
        assert(left[0] == args@[i as int]@);
        let flag = args[i].as_str();
        if i + 1 >= at {
            return Err(ProxyError::MissingValue { flag: flag.to_string() });
        }
        assert(left[1] == args@[i + 1]@);
        assert(left.skip(2) =~= control.skip(i + 2));
        let value = args[i + 1].clone();
        if same_text(flag, "--home") {
            home = Some(value);
        } else if same_text(flag, "--config") {
            config = Some(value);
        } else if same_text(flag, "--target") {
            target = Some(value);
        } else {
            return Err(ProxyError::UnknownOption { flag: flag.to_string() });
        }
        i += 2;
    }
    assert(control.skip(i as int).len() == 0);
    match home {
        None => Err(ProxyError::MissingHome),
        Some(home) => match target {
            None => Err(ProxyError::MissingTarget),
            Some(target) => Ok(
                ProxyRequest {
                    home,
                    arguments: proxy_argument_list(&config, target.as_str(), &passthrough),
                },
            ),
        },
    }
}

/// ssh is run against the server of the mount with the command as its last argument, and is
/// given a terminal by one more word before those two where one is wanted. A mount with a key of
/// its own names the port of the server; one that goes by the user's ssh configuration names
/// the file of it, where there is one.
pub proof fn law_ssh_runs_the_command(
    record: MountRecord,
    access: AccessView,
    command: Seq<char>,
)
    ensures
        ({
            let plain = run_argument_texts(record, access, false, command);
            let n = plain.len() as int;
            let target = if is_blank(record.ssh_alias@) {
                record.user@ + "@"@ + record.host@
            } else {
                record.ssh_alias@
            };
            &&& n >= 2
            &&& plain[n - 1] == command
            &&& plain[n - 2] == target
            &&& run_argument_texts(record, access, true, command) == plain.take(n - 2) + seq!["-t"@]
                + plain.skip(n - 2)
            &&& access is Own ==> passes(plain, "-p"@, decimal(record.port as nat))
            &&& access is Alias && !is_blank(record.ssh_config@) ==> plain[0] == "-F"@ && plain[1]
                == record.ssh_config@
            &&& access is Alias && is_blank(record.ssh_config@) ==> plain[0] == "-o"@
            &&& passes(plain, "-o"@, "ServerAliveInterval=15"@)
            &&& passes(plain, "-o"@, "ServerAliveCountMax=3"@)
        }),
{
    let plain = run_argument_texts(record, access, false, command);
    let tty = run_argument_texts(record, access, true, command);
    let n = plain.len() as int;
    let k = access_options(record, access).len() as int;
    assert(tty =~= plain.take(n - 2) + seq!["-t"@] + plain.skip(n - 2));
    assert(plain[k + 2] == "-o"@ && plain[k + 3] == "ServerAliveInterval=15"@);
    assert(plain[k + 4] == "-o"@ && plain[k + 5] == "ServerAliveCountMax=3"@);
    if access is Own {
        assert(plain[0] == "-p"@ && plain[1] == decimal(record.port as nat));
    }
}

/// A port is forwarded by the same ssh as commands are run by: with the same options, to the
/// same server, and without a command.
pub proof fn law_forward_goes_to_the_server(
    record: MountRecord,
    access: AccessView,
    local_port: u16,
    remote_port: u16,
    command: Seq<char>,
)
    ensures
        ({
            let run = run_argument_texts(record, access, false, command);
            let forward = forward_argument_texts(record, access, local_port, remote_port);
            let n = run.len() - 2;
            &&& forward.len() > n
            &&& forward.take(n) == run.take(n)
            &&& forward[n] == "-N"@
            &&& forward[n + 1] == "-L"@
            &&& forward[n + 2] == "127.0.0.1:"@ + decimal(local_port as nat) + ":127.0.0.1:"@
                + decimal(remote_port as nat)
            &&& forward[n + 3] == "-o"@
            &&& forward[n + 4] == "ExitOnForwardFailure=yes"@
            &&& forward.len() == n + 6
            &&& forward.last() == run[n]
        }),
{
    let run = run_argument_texts(record, access, false, command);
    let forward = forward_argument_texts(record, access, local_port, remote_port);
    let n = run.len() - 2;
    assert(forward.take(n) =~= run.take(n));
}

/// What a line sets is read back: the key before the first equals sign, in whatever case, and
/// the value behind it, without the white space around either.
pub proof fn law_line_is_read(
    key: Seq<char>,
    asked: Seq<char>,
    value: Seq<char>,
    left: Seq<char>,
    right: Seq<char>,
)
    requires
        key.len() > 0 && !is_white_space(key[0]) && !is_white_space(key.last()),
        value.len() > 0 && !is_white_space(value[0]) && !is_white_space(value.last()),
        !key.contains('='),
        !left.contains('='),
        is_blank(left),
        is_blank(right),
    ensures
        line_value(left + key + left + "="@ + right + value + right, asked) == if ascii_lower(key)
            == ascii_lower(asked) {
            Some(value)
        } else {
            None
        },
{
    reveal_strlit("=");
    let front = left + key + left;
    let back = right + value + right;
    let line = left + key + left + "="@ + right + value + right;
    assert(line =~= front + "="@ + back);
    let at = front.len() as int;
    assert(line.subrange(at, at + 1) =~= "="@);
    assert(occurs_at(line, "="@, at));
    assert forall|p: int| 0 <= p < at implies !occurs_at(line, "="@, p) by {
        if occurs_at(line, "="@, p) {
            assert(line.subrange(p, p + 1)[0] == line[p]);
            assert(line[p] == front[p]);
            if p < left.len() {
                assert(left[p] == '=');
            } else if p < left.len() + key.len() {
                assert(key[p - left.len()] == '=');
            } else {
                assert(left[p - left.len() - key.len()] == '=');
            }
        }
    }
    lemma_find_from(line, "="@, 0);
    assert(line.subrange(0, at) =~= front);
    assert(line.subrange(at + 1, line.len() as int) =~= back);
    law_trim_restores_text(left, key, left);
    law_trim_restores_text(right, value, right);
}

/// Of several lines the first that sets a key counts, and lines that do not set it do not
/// matter.
pub proof fn law_first_line_counts(before: Seq<Seq<char>>, line: Seq<char>, after: Seq<Seq<char>>, key: Seq<char>)
    requires
        forall|i: int| 0 <= i < before.len() ==> line_value(#[trigger] before[i], key) is None,
    ensures
        first_value(before, key) is None,
        line_value(line, key) is Some ==> first_value(before + seq![line] + after, key)
            == line_value(line, key),
    decreases before.len(),
{
    let all = before + seq![line] + after;
    if before.len() == 0 {
        assert(all[0] == line);
    } else {
        let rest = before.skip(1);
        assert forall|i: int| 0 <= i < rest.len() implies line_value(#[trigger] rest[i], key)
            is None by {
            assert(rest[i] == before[i + 1]);
        }
        law_first_line_counts(rest, line, after, key);
        assert(line_value(before[0], key) is None);
        assert(all[0] == before[0]);
        assert(all.skip(1) =~= rest + seq![line] + after);
    }
}

/// ssh proves who it is with what the mount names: an alias stands for everything; otherwise
/// the key and the list of hosts that the record names, and in place of either that it does
/// not name what the rclone configuration sets. Nothing is made up for what neither names.
pub proof fn law_access_is_that_of_the_mount(record: MountRecord, config_text: Seq<char>)
    ensures
        !is_blank(record.ssh_alias@) ==> access_of(record, config_text) == Some(AccessView::Alias),
        is_blank(record.ssh_alias@) ==> ({
            let found = lines(config_text);
            let reads = !is_blank(record.rclone_config@);
            let key = if !is_blank(record.key_file@) {
                Some(trim(record.key_file@))
            } else if reads {
                first_value(found, "key_file"@)
            } else {
                None
            };
            let hosts = if !is_blank(record.known_hosts@) {
                Some(trim(record.known_hosts@))
            } else if reads {
                first_value(found, "known_hosts_file"@)
            } else {
                None
            };
            access_of(record, config_text) == if key is Some && hosts is Some && key->0.len() > 0
                && hosts->0.len() > 0 {
                Some(AccessView::Own(key->0, hosts->0))
            } else {
                None
            }
        }),
        reads_rclone_config(record) <==> is_blank(record.ssh_alias@) && !is_blank(
            record.rclone_config@,
        ) && (is_blank(record.key_file@) || is_blank(record.known_hosts@)),
{
    law_blank_trims_to_nothing(record.key_file@);
    law_blank_trims_to_nothing(record.known_hosts@);
}

/// The text of the rclone configuration does not matter where it need not be read.
pub proof fn law_unread_configuration_does_not_matter(
    record: MountRecord,
    text: Seq<char>,
    other: Seq<char>,
)
    requires
        !reads_rclone_config(record),
    ensures
        access_of(record, text) == access_of(record, other),
{
}

/// The proxy runs ssh as the user that it is given the directory of, against the target, with
/// the arguments behind `--` as they are. ssh reads standard input only for a subsystem, never
/// asks a question, and is told of a configuration where there is one.
pub proof fn law_proxy_hands_arguments_on(
    home: Seq<char>,
    config: Seq<char>,
    target: Seq<char>,
    passed: Seq<Seq<char>>,
)
    requires
        home != "--"@ && config != "--"@ && target != "--"@,
        config.len() > 0,
    ensures
        ({
            let told = seq!["--home"@, home, "--target"@, target];
            let bare = proxy_request(told + seq!["--"@] + passed);
            let full = proxy_request(told + seq!["--config"@, config, "--"@] + passed);
            let subsystem = passed.len() > 0 && passed[0] == "-s"@;
            let ssh = if subsystem {
                seq!["-o"@, "BatchMode=yes"@, target]
            } else {
                seq!["-o"@, "BatchMode=yes"@, "-n"@, target]
            };
            &&& bare == Ok::<(Seq<char>, Seq<Seq<char>>), ProxyErrorView>((home, ssh + passed))
            &&& full == Ok::<(Seq<char>, Seq<Seq<char>>), ProxyErrorView>(
                (home, seq!["-F"@, config] + ssh + passed),
            )
        }),
{
    reveal_strlit("--");
    reveal_strlit("--home");
    reveal_strlit("--target");
    reveal_strlit("--config");
    assert("--"@.len() == 2 && "--home"@.len() == 6 && "--target"@.len() == 8 && "--config"@.len()
        == 8);
    assert("--target"@[2] == 't' && "--config"@[2] == 'c');
    let told = seq!["--home"@, home, "--target"@, target];
    let bare = told + seq!["--"@] + passed;
    let full = told + seq!["--config"@, config, "--"@] + passed;
    law_first_place_is_found(bare, "--"@);
    law_first_place_is_found(full, "--"@);
    assert(bare[0] == "--home"@ && bare[1] == home && bare[2] == "--target"@ && bare[3] == target
        && bare[4] == "--"@);
    assert(full[0] == "--home"@ && full[1] == home && full[2] == "--target"@ && full[3] == target
        && full[4] == "--config"@ && full[5] == config && full[6] == "--"@);
    assert(bare.contains("--"@) && full.contains("--"@));
    assert(place_of(bare, "--"@) == Some(4int));
    assert(place_of(full, "--"@) == Some(6int));
    let front = bare.take(4);
    let longer = full.take(6);
    assert(front =~= told);
    assert(longer =~= told + seq!["--config"@, config]);
    reveal_with_fuel(proxy_options, 4);
    assert(front.skip(2) =~= seq!["--target"@, target]);
    assert(front.skip(2).skip(2) =~= Seq::empty());
    assert(longer.skip(2) =~= seq!["--target"@, target, "--config"@, config]);
    assert(longer.skip(2).skip(2) =~= seq!["--config"@, config]);
    assert(longer.skip(2).skip(2).skip(2) =~= Seq::empty());
    assert(bare.skip(5) =~= passed);
    assert(full.skip(7) =~= passed);
    let subsystem = passed.len() > 0 && passed[0] == "-s"@;
    let ssh = if subsystem {
        seq!["-o"@, "BatchMode=yes"@, target]
    } else {
        seq!["-o"@, "BatchMode=yes"@, "-n"@, target]
    };
    assert(proxy_arguments(None, target, passed) =~= ssh + passed);
    assert(proxy_arguments(Some(config), target, passed) =~= seq!["-F"@, config] + ssh + passed);
}

/// The proxy does not run ssh without `--`, without a directory or without a target, nor with
/// an option that it does not know or that has no value.
pub proof fn law_proxy_refuses_what_is_missing(
    args: Seq<Seq<char>>,
    home: Seq<char>,
    target: Seq<char>,
    flag: Seq<char>,
    passed: Seq<Seq<char>>,
)
    requires
        home != "--"@ && target != "--"@ && flag != "--"@,
    ensures
        ({
            let refused = |error: ProxyErrorView|
                Err::<(Seq<char>, Seq<Seq<char>>), ProxyErrorView>(error);
            &&& !args.contains("--"@) ==> proxy_request(args) == refused(
                ProxyErrorView::MissingDelimiter,
            )
            &&& proxy_request(seq!["--home"@, home, "--"@] + passed) == refused(
                ProxyErrorView::MissingTarget,
            )
            &&& proxy_request(seq!["--target"@, target, "--"@] + passed) == refused(
                ProxyErrorView::MissingHome,
            )
            &&& proxy_request(seq![flag, "--"@] + passed) == refused(
                ProxyErrorView::MissingValue(flag),
            )
            &&& flag != "--home"@ && flag != "--config"@ && flag != "--target"@ ==> proxy_request(
                seq![flag, home, "--"@] + passed,
            ) == refused(ProxyErrorView::UnknownOption(flag))
        }),
{
    reveal_strlit("--");
    reveal_strlit("--home");
    reveal_strlit("--target");
    reveal_strlit("--config");
    assert("--"@.len() == 2 && "--home"@.len() == 6 && "--target"@.len() == 8 && "--config"@.len()
        == 8);
    assert("--target"@[2] == 't' && "--config"@[2] == 'c');
    reveal_with_fuel(proxy_options, 3);
    law_first_place_is_found(args, "--"@);
    let a = seq!["--home"@, home, "--"@] + passed;
    let b = seq!["--target"@, target, "--"@] + passed;
    let c = seq![flag, "--"@] + passed;
    let d = seq![flag, home, "--"@] + passed;
    law_first_place_is_found(a, "--"@);
    law_first_place_is_found(b, "--"@);
    law_first_place_is_found(c, "--"@);
    law_first_place_is_found(d, "--"@);
    assert(a[0] == "--home"@ && a[1] == home && a[2] == "--"@);
    assert(b[0] == "--target"@ && b[1] == target && b[2] == "--"@);
    assert(c[0] == flag && c[1] == "--"@);
    assert(d[0] == flag && d[1] == home && d[2] == "--"@);
    assert(a.contains("--"@) && b.contains("--"@) && c.contains("--"@) && d.contains("--"@));
    assert(place_of(a, "--"@) == Some(2int));
    assert(place_of(b, "--"@) == Some(2int));
    assert(place_of(c, "--"@) == Some(1int));
    assert(place_of(d, "--"@) == Some(2int));
    assert(a.take(2).skip(2) =~= Seq::empty());
    assert(b.take(2).skip(2) =~= Seq::empty());
}

/// ssh is run only with a key and a list of hosts that are there, where it needs them.
pub proof fn law_ssh_needs_its_files(access: AccessView, key_found: bool, hosts_found: bool)
    ensures
        missing_file_of(access, key_found, hosts_found) is None <==> access is Alias || (key_found
            && hosts_found),
        access matches AccessView::Own(key_file, known_hosts) ==> missing_file_of(
            access,
            false,
            hosts_found,
        ) == Some(key_file) && missing_file_of(access, true, false) == Some(known_hosts),
{
}

/// What ssh forwards is told as the port of this computer and then that of the server, each
/// behind the loopback address; so no two pairs of ports are told alike.
pub proof fn law_forward_tells_both_ports(local: u16, remote: u16, other_local: u16, other_remote: u16)
    ensures
        ({
            let text = forward_text(local, remote);
            let front = "127.0.0.1:"@ + decimal(local as nat) + ":127.0.0.1:"@;
            &&& text.take(front.len() as int) == front
            &&& text.skip(front.len() as int) == decimal(remote as nat)
        }),
        forward_text(local, remote) == forward_text(other_local, other_remote) ==> local
            == other_local && remote == other_remote,
{
    let text = forward_text(local, remote);
    let front = "127.0.0.1:"@ + decimal(local as nat) + ":127.0.0.1:"@;
    assert(text.take(front.len() as int) =~= front);
    assert(text.skip(front.len() as int) =~= decimal(remote as nat));
    law_decimal_reads_back(local as nat);
    law_decimal_reads_back(remote as nat);
    law_decimal_reads_back(other_local as nat);
    law_decimal_reads_back(other_remote as nat);
    let other = forward_text(other_local, other_remote);
    if text == other {
        reveal_strlit("127.0.0.1:");
        reveal_strlit(":127.0.0.1:");
        let a = decimal(local as nat);
        let b = decimal(other_local as nat);
        let (m, n) = (a.len() as int, b.len() as int);
        assert(text[10 + m] == ':' && other[10 + n] == ':');
        assert(m == n) by {
            if m < n {
                assert(other[10 + m] == b[m]);
                assert(digit_value(b[m], 10) is Some);
            } else if n < m {
                assert(text[10 + n] == a[n]);
                assert(digit_value(a[n], 10) is Some);
            }
        }
        assert(a =~= text.subrange(10, 10 + m));
        assert(b =~= other.subrange(10, 10 + m));
        let c = decimal(remote as nat);
        let d = decimal(other_remote as nat);
        assert(c =~= text.skip(21 + m));
        assert(d =~= other.skip(21 + m));
    }
}

/// A mount that lacks what ssh needs is named, and so is a file that is missing.
pub proof fn law_missing_access_is_named(error: SshError)
    ensures
        match error {
            SshError::MissingMetadata { mount } => has_text(
                error.spec_message(),
                "'"@ + mount@ + "'"@,
            ),
            SshError::MissingKey { path } => path@.is_suffix_of(error.spec_message()),
            SshError::MissingKnownHosts { path } => path@.is_suffix_of(error.spec_message()),
        },
{
    let message = error.spec_message();
    match error {
        SshError::MissingMetadata { mount } => {
            reveal_strlit("mount '");
            reveal_strlit("mount ");
            reveal_strlit("'");
            reveal_strlit("' is missing SSH key metadata; re-add the mount");
            reveal_strlit(" is missing SSH key metadata; re-add the mount");
            let named = "'"@ + mount@ + "'"@;
            let after = " is missing SSH key metadata; re-add the mount"@;
            lemma_has_between("mount "@, named, after);
            assert("mount "@ + named + after =~= message);
        },
        SshError::MissingKey { path } => {
            assert(message.subrange(message.len() - path@.len(), message.len() as int) =~= path@);
        },
        SshError::MissingKnownHosts { path } => {
            assert(message.subrange(message.len() - path@.len(), message.len() as int) =~= path@);
        },
    }
}

} // verus!
