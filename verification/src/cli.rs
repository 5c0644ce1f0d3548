//! The command line of `cf`: what its words ask for, and which tools it stands in for.

use crate::mounts::{name_view, MountRecord};
use crate::rclone::{passes, push_argument};
use crate::text::{
    ascii_lower, begins_with, blank, equal_ignoring_case, is_blank, join, joined, lowered,
    same_ignoring_case, same_text, starts_with, views,
};
use crate::winpath::{
    components, is_plain_name, join_path, law_joined_name_is_last_component,
    law_path_lies_at_itself, parent, path_join, path_parent, relative_components, relative_names,
    takes_names, PartView,
};
use vstd::prelude::*;

verus! {

/// The version of CloudFolder.
pub const VERSION: &'static str = "0.9.1";

/// How `cf` is used.
pub const USAGE: &'static str = r#"CloudFolder developer CLI

cf list
cf path <mount>
cf here
cf status [mount]
cf enter [mount]
cf env [use <profile>|reload]
cf job run [mount] -- <program> [args...]
cf job list [mount]
cf job logs [-f] <job> [--mount <mount>]
cf job stop <job> [--mount <mount>]
cf job attach <job> [--mount <mount>]
cf forward <remote-port> [local-port] [--mount <mount>]
cf forward list [mount]
cf forward stop <local-port|all> [--mount <mount>]
cf add <ssh-config-host>
cf flush [mount]
cf refresh [mount]
cf run [mount] -- <program> [args...]
cf sh [mount] -- <shell command>
cf shell [mount]
cf agent setup|status|remove

Examples:
cd (cf path lab)
cf enter
git status
pytest -q
cf job run -- python train.py
cf forward 8888
cf add h100
cf run -- git status
cf sh -- "git status && pytest -q"
cf shell
cf agent setup"#;

/// What is said of `cf env` with other words.
pub const ENV_USAGE: &'static str = "usage: cf env [use <profile>|reload]";

/// What is said of `cf add` with other words.
pub const ADD_USAGE: &'static str = "usage: cf add <ssh-config-host>";

/// What is said of `cf job` with other words.
pub const JOB_USAGE: &'static str = "usage: cf job run|list|logs|attach|stop";

/// What is said of `cf agent` with other words.
pub const AGENT_USAGE: &'static str = "usage: cf agent setup|status|remove";

/// What `cf` is asked to do.
#[derive(Clone, Copy, Debug, PartialEq, Eq, Structural)]
pub enum CfCommand {
    Help,
    Version,
    List,
    Path,
    Here,
    Status,
    Enter,
    Env,
    Job,
    Forward,
    Add,
    SshProxy,
    Flush,
    Refresh,
    Run,
    Sh,
    Shell,
    Agent,
    /// Anything else goes to the script that manages mounts.
    Script,
}

/// What the first word asks `cf` to do; without a word it shows how it is used.
pub open spec fn command_of(word: Option<Seq<char>>) -> CfCommand {
    match word {
        None => CfCommand::Help,
        Some(word) => {
            let small = ascii_lower(word);
            if small == "help"@ || small == "-h"@ || small == "--help"@ {
                CfCommand::Help
            } else if small == "version"@ || small == "-v"@ || small == "--version"@ {
                CfCommand::Version
            } else if small == "list"@ {
                CfCommand::List
            } else if small == "path"@ {
                CfCommand::Path
            } else if small == "here"@ {
                CfCommand::Here
            } else if small == "status"@ {
                CfCommand::Status
            } else if small == "enter"@ {
                CfCommand::Enter
            } else if small == "env"@ {
                CfCommand::Env
            } else if small == "job"@ {
                CfCommand::Job
            } else if small == "forward"@ {
                CfCommand::Forward
            } else if small == "add"@ {
                CfCommand::Add
            } else if small == "ssh-proxy"@ {
                CfCommand::SshProxy
            } else if small == "flush"@ {
                CfCommand::Flush
            } else if small == "refresh"@ {
                CfCommand::Refresh
            } else if small == "run"@ {
                CfCommand::Run
            } else if small == "sh"@ {
                CfCommand::Sh
            } else if small == "shell"@ {
                CfCommand::Shell
            } else if small == "agent"@ {
                CfCommand::Agent
            } else {
                CfCommand::Script
            }
        },
    }
}

/// What the first word asks `cf` to do.
pub fn dispatch(word: Option<&str>) -> (command: CfCommand)
    ensures
        command == command_of(name_view(word)),
{
    let small = match word {
        None => {
            return CfCommand::Help;
        },
        Some(word) => lowered(word),
    };
    let small = small.as_str();
    if same_text(small, "help") || same_text(small, "-h") || same_text(small, "--help") {
        CfCommand::Help
    } else if same_text(small, "version") || same_text(small, "-v") || same_text(
        small,
        "--version",
    ) {
        CfCommand::Version
    } else if same_text(small, "list") {
        CfCommand::List
    } else if same_text(small, "path") {
        CfCommand::Path
    } else if same_text(small, "here") {
        CfCommand::Here
    } else if same_text(small, "status") {
        CfCommand::Status
    } else if same_text(small, "enter") {
        CfCommand::Enter
    } else if same_text(small, "env") {
        CfCommand::Env
    } else if same_text(small, "job") {
        CfCommand::Job
    } else if same_text(small, "forward") {
        CfCommand::Forward
    } else if same_text(small, "add") {
        CfCommand::Add
    } else if same_text(small, "ssh-proxy") {
        CfCommand::SshProxy
    } else if same_text(small, "flush") {
        CfCommand::Flush
    } else if same_text(small, "refresh") {
        CfCommand::Refresh
    } else if same_text(small, "run") {
        CfCommand::Run
    } else if same_text(small, "sh") {
        CfCommand::Sh
    } else if same_text(small, "shell") {
        CfCommand::Shell
    } else if same_text(small, "agent") {
        CfCommand::Agent
    } else {
        CfCommand::Script
    }
}

/// What is shown as the version.
pub fn version_text() -> (text: String)
    ensures
        text@ == "CloudFolder "@ + VERSION@,
{
    let mut text = "CloudFolder ".to_string();
    text.append(VERSION);
    text
}

/// The tools that run on the server once a mount was entered.
pub open spec fn routed_tool_names() -> Seq<Seq<char>> {
    seq![
        "git"@,
        "python"@,
        "python3"@,
        "pytest"@,
        "uv"@,
        "pip"@,
        "pip3"@,
        "conda"@,
        "cargo"@,
        "rustc"@,
        "gcc"@,
        "g++"@,
        "clang"@,
        "clang++"@,
        "cmake"@,
        "make"@,
        "ninja"@,
        "node"@,
        "npm"@,
        "npx"@,
        "pnpm"@,
        "yarn"@,
        "bun"@,
        "go"@,
        "java"@,
        "javac"@,
        "mvn"@,
        "gradle"@,
        "rg"@,
        "find"@,
        "bash"@,
        "sh"@,
        "nvidia-smi"@,
    ]
}

/// The tools that run on the server once a mount was entered.
pub fn routed_tools() -> (tools: Vec<String>)
    ensures
        views(tools@) == routed_tool_names(),
{
    let mut tools: Vec<String> = Vec::new();
    assert(views(tools@) =~= Seq::empty());
    push_argument(&mut tools, "git");
    push_argument(&mut tools, "python");
    push_argument(&mut tools, "python3");
    push_argument(&mut tools, "pytest");
    push_argument(&mut tools, "uv");
    push_argument(&mut tools, "pip");
    push_argument(&mut tools, "pip3");
    push_argument(&mut tools, "conda");
    push_argument(&mut tools, "cargo");
    push_argument(&mut tools, "rustc");
    push_argument(&mut tools, "gcc");
    push_argument(&mut tools, "g++");
    push_argument(&mut tools, "clang");
    push_argument(&mut tools, "clang++");
    push_argument(&mut tools, "cmake");
    push_argument(&mut tools, "make");
    push_argument(&mut tools, "ninja");
    push_argument(&mut tools, "node");
    push_argument(&mut tools, "npm");
    push_argument(&mut tools, "npx");
    push_argument(&mut tools, "pnpm");
    push_argument(&mut tools, "yarn");
    push_argument(&mut tools, "bun");
    push_argument(&mut tools, "go");
    push_argument(&mut tools, "java");
    push_argument(&mut tools, "javac");
    push_argument(&mut tools, "mvn");
    push_argument(&mut tools, "gradle");
    push_argument(&mut tools, "rg");
    push_argument(&mut tools, "find");
    push_argument(&mut tools, "bash");
    push_argument(&mut tools, "sh");
    push_argument(&mut tools, "nvidia-smi");
    tools
}

/// The first tool of a list that goes by a name, whatever its case.
pub open spec fn tool_in(tools: Seq<Seq<char>>, name: Seq<char>) -> Option<Seq<char>>
    decreases tools.len(),
{
    if tools.len() == 0 {
        None
    } else if same_ignoring_case(tools[0], name) {
        Some(tools[0])
    } else {
        tool_in(tools.skip(1), name)
    }
}

/// The tool that a program of a name stands in for.
pub open spec fn routed_tool(name: Seq<char>) -> Option<Seq<char>> {
    tool_in(routed_tool_names(), ascii_lower(name))
}

/// The tool that a program of a name stands in for; nothing for a program that is not a
/// stand-in.
pub fn routed_tool_from_exe_name(name: &str) -> (tool: Option<String>)
    ensures
        match tool {
            Some(tool) => routed_tool(name@) == Some(tool@),
            None => routed_tool(name@) is None,
        },
{
    let small = lowered(name);
    let tools = routed_tools();
    let mut i: usize = 0;
    assert(views(tools@).skip(0) =~= views(tools@));
    while i < tools.len()
        invariant
            i <= tools.len(),
            views(tools@) == routed_tool_names(),
            small@ == ascii_lower(name@),
            tool_in(views(tools@).skip(i as int), small@) == routed_tool(name@),
        decreases tools.len() - i,
    {
        let ghost left = views(tools@).skip(i as int);
        assert(left[0] == tools@[i as int]@);
        assert(left.skip(1) =~= views(tools@).skip(i + 1));
        if equal_ignoring_case(tools[i].as_str(), small.as_str()) {
            return Some(tools[i].clone());
        }
        i += 1;
    }
    None
}

proof fn lemma_tool_in(tools: Seq<Seq<char>>, name: Seq<char>)
    ensures
        tool_in(tools, name) matches Some(tool) ==> tools.contains(tool) && same_ignoring_case(
            tool,
            name,
        ),
        tool_in(tools, name) is None ==> forall|i: int|
            0 <= i < tools.len() ==> !same_ignoring_case(#[trigger] tools[i], name),
    decreases tools.len(),
{
    if tools.len() > 0 && !same_ignoring_case(tools[0], name) {
        let tail = tools.skip(1);
        lemma_tool_in(tail, name);
        match tool_in(tail, name) {
            Some(tool) => {
                let k = tail.index_of(tool);
                assert(tools[k + 1] == tool);
            },
            None => {
                assert forall|i: int| 0 <= i < tools.len() implies !same_ignoring_case(
                    #[trigger] tools[i],
                    name,
                ) by {
                    if i > 0 {
                        assert(tail[i - 1] == tools[i]);
                    }
                }
            },
        }
    } else if tools.len() > 0 {
        assert(tools[0] == tool_in(tools, name)->0);
    }
}

/// Lowering a text twice changes nothing more.
proof fn lemma_lower_twice(text: Seq<char>)
    ensures
        ascii_lower(ascii_lower(text)) == ascii_lower(text),
{
    assert(ascii_lower(ascii_lower(text)) =~= ascii_lower(text));
}

/// Only tools of the list are stood in for, each under its own name in whatever case, and
/// each tool of the list is.
pub proof fn law_router_claims_listed_tools(name: Seq<char>)
    ensures
        routed_tool(name) matches Some(tool) ==> routed_tool_names().contains(tool)
            && same_ignoring_case(tool, name),
        routed_tool(name) is None ==> forall|i: int|
            0 <= i < routed_tool_names().len() ==> !same_ignoring_case(
                #[trigger] routed_tool_names()[i],
                name,
            ),
{
    lemma_tool_in(routed_tool_names(), ascii_lower(name));
    lemma_lower_twice(name);
}

/// The directory in which the stand-ins lie.
pub open spec fn router_directory(data_dir: Seq<char>) -> Seq<char> {
    join_path(join_path(join_path(data_dir, "router"@), VERSION@), "bin"@)
}

/// The directory in which the stand-ins lie.
pub fn router_bin_dir(data_dir: &str) -> (path: String)
    ensures
        path@ == router_directory(data_dir@),
{
    let router = path_join(data_dir, "router");
    let version = path_join(router.as_str(), VERSION);
    path_join(version.as_str(), "bin")
}

/// The file of a stand-in.
pub fn router_shim(router_dir: &str, tool: &str) -> (path: String)
    ensures
        path@ == join_path(router_dir@, tool@ + ".exe"@),
{
    let mut name = tool.to_string();
    name.append(".exe");
    path_join(router_dir, name.as_str())
}

/// The directory in which a session begins: the current one where it is below the mount
/// point, or else the mount point.
pub open spec fn session_directory(record: MountRecord, directory: Seq<char>) -> Seq<char> {
    if relative_names(directory, record.mount_point@) is Some {
        directory
    } else {
        record.mount_point@
    }
}

/// The directory in which a session begins.
pub fn session_start(record: &MountRecord, directory: &str) -> (start: String)
    ensures
        start@ == session_directory(*record, directory@),
{
    if relative_components(directory, record.mount_point.as_str()).is_some() {
        directory.to_string()
    } else {
        record.mount_point.clone()
    }
}

/// What is said when a mount is entered. Without a root it ends with the local directory.
pub fn enter_report(record: &MountRecord, start: &str, root: Option<&str>) -> (text: String)
    ensures
        text@ == "Entering CloudFolder runtime: "@ + record.name@ + "\nLocal workspace: "@ + start@
            + match root {
            Some(root) => "\nRemote root: "@ + root@ + "\nTransparent remote tools: "@ + join(
                routed_tool_names(),
                ", "@,
            ) + "\nLocal tools such as cd/dir/explorer/code remain local."@,
            None => Seq::empty(),
        },
{
    let mut text = "Entering CloudFolder runtime: ".to_string();
    text.append(record.name.as_str());
    text.append("\nLocal workspace: ");
    text.append(start);
    if let Some(root) = root {
        text.append("\nRemote root: ");
        text.append(root);
        text.append("\nTransparent remote tools: ");
        text.append(joined(&routed_tools(), ", ").as_str());
        text.append("\nLocal tools such as cd/dir/explorer/code remain local.");
    }
    text
}

/// What `cf env` is asked to do.
#[derive(Clone, Copy, Debug, PartialEq, Eq, Structural)]
pub enum EnvAction {
    Show,
    Reload,
    /// Choose the profile that the next word names.
    Use,
    Usage,
}

/// What the first of so many words asks `cf env` to do.
pub open spec fn env_action_of(word: Option<Seq<char>>, words: nat) -> EnvAction {
    match word {
        None => EnvAction::Show,
        Some(word) => if word == "reload"@ && words == 1 {
            EnvAction::Reload
        } else if word == "use"@ && words == 2 {
            EnvAction::Use
        } else {
            EnvAction::Usage
        },
    }
}

/// What the first of so many words asks `cf env` to do.
pub fn env_action(word: Option<&str>, words: usize) -> (action: EnvAction)
    ensures
        action == env_action_of(name_view(word), words as nat),
{
    match word {
        None => EnvAction::Show,
        Some(word) => if same_text(word, "reload") && words == 1 {
            EnvAction::Reload
        } else if same_text(word, "use") && words == 2 {
            EnvAction::Use
        } else {
            EnvAction::Usage
        },
    }
}

/// What `cf agent` is asked to do.
#[derive(Clone, Copy, Debug, PartialEq, Eq, Structural)]
pub enum AgentAction {
    Setup,
    Remove,
    Status,
    Usage,
}

/// What the first of so many words asks `cf agent` to do; without a word it shows what is
/// set up.
pub open spec fn agent_action_of(word: Option<Seq<char>>, words: nat) -> AgentAction {
    let small = match word {
        Some(word) => ascii_lower(word),
        None => "status"@,
    };
    if words > 1 {
        AgentAction::Usage
    } else if small == "setup"@ {
        AgentAction::Setup
    } else if small == "remove"@ {
        AgentAction::Remove
    } else if small == "status"@ {
        AgentAction::Status
    } else {
        AgentAction::Usage
    }
}

/// What the first of so many words asks `cf agent` to do.
pub fn agent_action(word: Option<&str>, words: usize) -> (action: AgentAction)
    ensures
        action == agent_action_of(name_view(word), words as nat),
{
    let small = match word {
        Some(word) => lowered(word),
        None => "status".to_string(),
    };
    let small = small.as_str();
    if words > 1 {
        AgentAction::Usage
    } else if same_text(small, "setup") {
        AgentAction::Setup
    } else if same_text(small, "remove") {
        AgentAction::Remove
    } else if same_text(small, "status") {
        AgentAction::Status
    } else {
        AgentAction::Usage
    }
}

/// The arguments with which the script that manages mounts adds a host; nothing where the
/// words do not name one.
pub open spec fn add_arguments_of(args: Seq<Seq<char>>) -> Option<Seq<Seq<char>>> {
    if args.len() != 1 || is_blank(args[0]) || starts_with(args[0], "-"@) {
        None
    } else {
        Some(seq!["-Action"@, "Add"@, "-SshHost"@, args[0], "-NonInteractive"@, "-NoOpen"@])
    }
}

/// The arguments with which the script that manages mounts adds a host.
pub fn add_arguments(args: &Vec<String>) -> (arguments: Option<Vec<String>>)
    ensures
        match arguments {
            Some(arguments) => add_arguments_of(views(args@)) == Some(views(arguments@)),
            None => add_arguments_of(views(args@)) is None,
        },
{
    assert(views(args@).len() == args.len());
    if args.len() != 1 {
        return None;
    }
    assert(views(args@)[0] == args@[0]@);
    let host = args[0].as_str();
    if blank(host) || begins_with(host, "-") {
        return None;
    }
    let mut arguments: Vec<String> = Vec::new();
    assert(views(arguments@) =~= Seq::empty());
    push_argument(&mut arguments, "-Action");
    push_argument(&mut arguments, "Add");
    push_argument(&mut arguments, "-SshHost");
    push_argument(&mut arguments, host);
    push_argument(&mut arguments, "-NonInteractive");
    push_argument(&mut arguments, "-NoOpen");
    Some(arguments)
}

/// The arguments with which PowerShell runs a script.
pub open spec fn powershell_arguments_of(script: Seq<char>, args: Seq<Seq<char>>) -> Seq<
    Seq<char>,
> {
    seq!["-NoLogo"@, "-NoProfile"@, "-ExecutionPolicy"@, "Bypass"@, "-File"@, script] + args
}

/// The arguments with which PowerShell runs a script.
pub fn powershell_arguments(script: &str, args: &Vec<String>) -> (arguments: Vec<String>)
    ensures
        views(arguments@) == powershell_arguments_of(script@, views(args@)),
{
    let mut arguments: Vec<String> = Vec::new();
    assert(views(arguments@) =~= Seq::empty());
    push_argument(&mut arguments, "-NoLogo");
    push_argument(&mut arguments, "-NoProfile");
    push_argument(&mut arguments, "-ExecutionPolicy");
    push_argument(&mut arguments, "Bypass");
    push_argument(&mut arguments, "-File");
    push_argument(&mut arguments, script);
    let ghost before = views(arguments@);
    let mut i: usize = 0;
    assert(before + views(args@).take(0) =~= before);
    while i < args.len()
        invariant
            i <= args.len(),
            views(arguments@) == before + views(args@).take(i as int),
        decreases args.len() - i,
    {
        push_argument(&mut arguments, args[i].as_str());
        assert(before + views(args@).take(i + 1) =~= (before + views(args@).take(i as int)).push(
            args@[i as int]@,
        ));
        i += 1;
    }
    assert(views(args@).take(i as int) =~= views(args@));
    arguments
}

/// A script that lies beside a program: nothing where the program lies in no directory.
pub fn sibling_script(exe: &str, name: &str) -> (path: Option<String>)
    ensures
        match path {
            Some(path) => parent(exe@) is Some && path@ == join_path(
                parent(exe@)->0,
                name@,
            ),
            None => parent(exe@) is None,
        },
{
    match path_parent(exe) {
        Some(directory) => Some(path_join(directory.as_str(), name)),
        None => None,
    }
}

/// The script that `cf` hands other words to.
pub fn launcher_script(exe: &str) -> (path: Option<String>)
    ensures
        match path {
            Some(path) => parent(exe@) is Some && path@ == join_path(
                parent(exe@)->0,
                "cf.ps1"@,
            ),
            None => parent(exe@) is None,
        },
{
    sibling_script(exe, "cf.ps1")
}

/// The script that manages mounts.
pub fn manager_script(exe: &str) -> (path: Option<String>)
    ensures
        match path {
            Some(path) => parent(exe@) is Some && path@ == join_path(
                parent(exe@)->0,
                "CloudFolder.ps1"@,
            ),
            None => parent(exe@) is None,
        },
{
    sibling_script(exe, "CloudFolder.ps1")
}

/// What is said of a file that is not where it should be.
pub fn missing_file(path: &str) -> (text: String)
    ensures
        text@ == "missing "@ + path@,
{
    let mut text = "missing ".to_string();
    text.append(path);
    text
}

/// The directory in which the programs of CloudFolder lie: the one that the environment
/// names, where it is one, or else the one of the running program.
pub fn runtime_dir(configured: Option<&str>, configured_exists: bool, exe: &str) -> (path: Option<
    String,
>)
    ensures
        match path {
            Some(path) => if configured is Some && configured_exists {
                path@ == configured->0@
            } else {
                parent(exe@) == Some(path@)
            },
            None => !(configured is Some && configured_exists) && parent(exe@) is None,
        },
{
    match configured {
        Some(path) => {
            if configured_exists {
                return Some(path.to_string());
            }
        },
        None => {},
    }
    path_parent(exe)
}

proof fn lemma_command_words()
    ensures
        "help"@.len() == 4 && "help"@[0] == 'h' && "help"@[1] == 'e' && "help"@[2] == 'l',
        "-h"@.len() == 2 && "-h"@[0] == '-' && "-h"@[1] == 'h',
        "--help"@.len() == 6 && "--help"@[0] == '-' && "--help"@[1] == '-' && "--help"@[2] == 'h',
        "version"@.len() == 7 && "version"@[0] == 'v' && "version"@[1] == 'e' && "version"@[2] == 'r',
        "-v"@.len() == 2 && "-v"@[0] == '-' && "-v"@[1] == 'v',
        "--version"@.len() == 9 && "--version"@[0] == '-' && "--version"@[1] == '-' && "--version"@[2] == 'v',
        "list"@.len() == 4 && "list"@[0] == 'l' && "list"@[1] == 'i' && "list"@[2] == 's',
        "path"@.len() == 4 && "path"@[0] == 'p' && "path"@[1] == 'a' && "path"@[2] == 't',
        "here"@.len() == 4 && "here"@[0] == 'h' && "here"@[1] == 'e' && "here"@[2] == 'r',
        "status"@.len() == 6 && "status"@[0] == 's' && "status"@[1] == 't' && "status"@[2] == 'a',
        "enter"@.len() == 5 && "enter"@[0] == 'e' && "enter"@[1] == 'n' && "enter"@[2] == 't',
        "env"@.len() == 3 && "env"@[0] == 'e' && "env"@[1] == 'n' && "env"@[2] == 'v',
        "job"@.len() == 3 && "job"@[0] == 'j' && "job"@[1] == 'o' && "job"@[2] == 'b',
        "forward"@.len() == 7 && "forward"@[0] == 'f' && "forward"@[1] == 'o' && "forward"@[2] == 'r',
        "add"@.len() == 3 && "add"@[0] == 'a' && "add"@[1] == 'd' && "add"@[2] == 'd',
        "ssh-proxy"@.len() == 9 && "ssh-proxy"@[0] == 's' && "ssh-proxy"@[1] == 's' && "ssh-proxy"@[2] == 'h',
        "flush"@.len() == 5 && "flush"@[0] == 'f' && "flush"@[1] == 'l' && "flush"@[2] == 'u',
        "refresh"@.len() == 7 && "refresh"@[0] == 'r' && "refresh"@[1] == 'e' && "refresh"@[2] == 'f',
        "run"@.len() == 3 && "run"@[0] == 'r' && "run"@[1] == 'u' && "run"@[2] == 'n',
        "sh"@.len() == 2 && "sh"@[0] == 's' && "sh"@[1] == 'h',
        "shell"@.len() == 5 && "shell"@[0] == 's' && "shell"@[1] == 'h' && "shell"@[2] == 'e',
        "agent"@.len() == 5 && "agent"@[0] == 'a' && "agent"@[1] == 'g' && "agent"@[2] == 'e',
{
    reveal_strlit("help");
    reveal_strlit("-h");
    reveal_strlit("--help");
    reveal_strlit("version");
    reveal_strlit("-v");
    reveal_strlit("--version");
    reveal_strlit("list");
    reveal_strlit("path");
    reveal_strlit("here");
    reveal_strlit("status");
    reveal_strlit("enter");
    reveal_strlit("env");
    reveal_strlit("job");
    reveal_strlit("forward");
    reveal_strlit("add");
    reveal_strlit("ssh-proxy");
    reveal_strlit("flush");
    reveal_strlit("refresh");
    reveal_strlit("run");
    reveal_strlit("sh");
    reveal_strlit("shell");
    reveal_strlit("agent");
}

/// Each command of `cf` is asked for by its own word, in whatever case, and by no other; what
/// is no command goes to the script, and no word at all asks for help.
pub proof fn law_commands_have_their_words(word: Seq<char>)
    ensures
        command_of(None) == CfCommand::Help,
        command_of(Some(word)) == CfCommand::Help <==> ascii_lower(word) == "help"@ || ascii_lower(word) == "-h"@ || ascii_lower(word) == "--help"@,
        command_of(Some(word)) == CfCommand::Version <==> ascii_lower(word) == "version"@ || ascii_lower(word) == "-v"@ || ascii_lower(word) == "--version"@,
        command_of(Some(word)) == CfCommand::List <==> ascii_lower(word) == "list"@,
        command_of(Some(word)) == CfCommand::Path <==> ascii_lower(word) == "path"@,
        command_of(Some(word)) == CfCommand::Here <==> ascii_lower(word) == "here"@,
        command_of(Some(word)) == CfCommand::Status <==> ascii_lower(word) == "status"@,
        command_of(Some(word)) == CfCommand::Enter <==> ascii_lower(word) == "enter"@,
        command_of(Some(word)) == CfCommand::Env <==> ascii_lower(word) == "env"@,
        command_of(Some(word)) == CfCommand::Job <==> ascii_lower(word) == "job"@,
        command_of(Some(word)) == CfCommand::Forward <==> ascii_lower(word) == "forward"@,
        command_of(Some(word)) == CfCommand::Add <==> ascii_lower(word) == "add"@,
        command_of(Some(word)) == CfCommand::SshProxy <==> ascii_lower(word) == "ssh-proxy"@,
        command_of(Some(word)) == CfCommand::Flush <==> ascii_lower(word) == "flush"@,
        command_of(Some(word)) == CfCommand::Refresh <==> ascii_lower(word) == "refresh"@,
        command_of(Some(word)) == CfCommand::Run <==> ascii_lower(word) == "run"@,
        command_of(Some(word)) == CfCommand::Sh <==> ascii_lower(word) == "sh"@,
        command_of(Some(word)) == CfCommand::Shell <==> ascii_lower(word) == "shell"@,
        command_of(Some(word)) == CfCommand::Agent <==> ascii_lower(word) == "agent"@,
{
    lemma_command_words();
}

/// The same word in another case asks for the same.
pub proof fn law_case_of_commands_does_not_matter(word: Seq<char>, other: Seq<char>)
    requires
        same_ignoring_case(word, other),
    ensures
        command_of(Some(word)) == command_of(Some(other)),
        agent_action_of(Some(word), 1) == agent_action_of(Some(other), 1),
{
}

/// `cf env` shows the environment without a word, reads it anew or chooses a profile by just
/// the words for it, and explains itself otherwise.
pub proof fn law_env_words_are_understood(word: Seq<char>, words: nat)
    ensures
        env_action_of(None, words) == EnvAction::Show,
        env_action_of(Some(word), words) == EnvAction::Reload <==> word == "reload"@ && words == 1,
        env_action_of(Some(word), words) == EnvAction::Use <==> word == "use"@ && words == 2,
        env_action_of(Some(word), words) != EnvAction::Show,
{
    reveal_strlit("reload");
    reveal_strlit("use");
    assert("reload"@.len() == 6 && "use"@.len() == 3);
}

/// `cf agent` shows what is set up without a word, does what one word asks for, in whatever
/// case, and explains itself otherwise.
pub proof fn law_agent_words_are_understood(word: Seq<char>, words: nat)
    ensures
        agent_action_of(None, 0) == AgentAction::Status,
        agent_action_of(Some(word), words) == AgentAction::Setup <==> words <= 1 && ascii_lower(
            word,
        ) == "setup"@,
        agent_action_of(Some(word), words) == AgentAction::Remove <==> words <= 1 && ascii_lower(
            word,
        ) == "remove"@,
        agent_action_of(Some(word), words) == AgentAction::Status <==> words <= 1 && ascii_lower(
            word,
        ) == "status"@,
{
    reveal_strlit("setup");
    reveal_strlit("remove");
    reveal_strlit("status");
    assert("setup"@.len() == 5 && "remove"@.len() == 6 && "status"@.len() == 6);
    assert("remove"@[0] == 'r' && "status"@[0] == 's' && "setup"@[0] == 's');
}

/// A host is added by its name alone: one that is not blank and does not look like an option.
/// The script is told that name and asks nothing.
pub proof fn law_host_is_added_by_name(args: Seq<Seq<char>>)
    ensures
        add_arguments_of(args) is Some <==> args.len() == 1 && !is_blank(args[0]) && args[0][0]
            != '-',
        add_arguments_of(args) matches Some(told) ==> passes(told, "-Action"@, "Add"@) && passes(
            told,
            "-SshHost"@,
            args[0],
        ) && told.contains("-NonInteractive"@) && told.contains("-NoOpen"@),
{
    reveal_strlit("-");
    if args.len() == 1 {
        let host = args[0];
        if host.len() == 0 {
            assert(is_blank(host));
        } else {
            assert(host.subrange(0, 1)[0] == host[0]);
            if host[0] == '-' {
                assert(host.subrange(0, 1) =~= "-"@);
            }
        }
    }
    if add_arguments_of(args) is Some {
        let told = add_arguments_of(args)->0;
        assert(told[0] == "-Action"@ && told[1] == "Add"@);
        assert(told[2] == "-SshHost"@ && told[3] == args[0]);
        assert(told[4] == "-NonInteractive"@ && told[5] == "-NoOpen"@);
    }
}

/// A script is run by PowerShell with the words of the command line behind it, all of them and
/// as they are, and without what the user has set up for PowerShell.
pub proof fn law_script_gets_all_words(script: Seq<char>, args: Seq<Seq<char>>)
    ensures
        ({
            let told = powershell_arguments_of(script, args);
            let n = told.len() - args.len();
            &&& n >= 2
            &&& told.skip(n) == args
            &&& told[n - 1] == script && told[n - 2] == "-File"@
            &&& told.take(n).contains("-NoProfile"@)
            &&& passes(told, "-ExecutionPolicy"@, "Bypass"@)
        }),
{
    let told = powershell_arguments_of(script, args);
    let n = told.len() - args.len();
    assert(told.skip(n) =~= args);
    assert(told.take(n)[1] == "-NoProfile"@);
    assert(told[2] == "-ExecutionPolicy"@ && told[3] == "Bypass"@);
}

/// A session begins where it was asked for, if that is in the mount, and at the mount point
/// otherwise: always at or below the mount point.
pub proof fn law_session_begins_in_the_mount(record: MountRecord, directory: Seq<char>)
    ensures
        relative_names(session_directory(record, directory), record.mount_point@) is Some,
        relative_names(directory, record.mount_point@) is Some ==> session_directory(
            record,
            directory,
        ) == directory,
        relative_names(directory, record.mount_point@) is None ==> session_directory(
            record,
            directory,
        ) == record.mount_point@,
{
    law_path_lies_at_itself(record.mount_point@);
}

/// The stand-ins of a version lie below the directory of the program's data, apart from those of
/// other versions.
pub proof fn law_stand_ins_lie_below_the_data(data_dir: Seq<char>)
    requires
        takes_names(data_dir),
    ensures
        components(router_directory(data_dir)) == components(data_dir) + seq![
            PartView::Normal("router"@),
            PartView::Normal(VERSION@),
            PartView::Normal("bin"@),
        ],
{
    assert(is_plain_name("router"@)) by {
        reveal_strlit("router");
        assert("router"@.len() == 6 && seq!['.'].len() == 1 && seq!['.', '.'].len() == 2);
    }
    assert(is_plain_name(VERSION@)) by {
        reveal_strlit("0.9.1");
        assert(VERSION@.len() == 5 && seq!['.'].len() == 1 && seq!['.', '.'].len() == 2);
    }
    assert(is_plain_name("bin"@)) by {
        reveal_strlit("bin");
        assert("bin"@.len() == 3 && seq!['.'].len() == 1 && seq!['.', '.'].len() == 2);
    }
    let first = join_path(data_dir, "router"@);
    let second = join_path(first, VERSION@);
    law_joined_name_is_last_component(data_dir, "router"@);
    law_joined_name_is_last_component(first, VERSION@);
    law_joined_name_is_last_component(second, "bin"@);
    assert(components(router_directory(data_dir)) =~= components(data_dir) + seq![
        PartView::Normal("router"@),
        PartView::Normal(VERSION@),
        PartView::Normal("bin"@),
    ]);
}

} // verus!
