//! The environment of a workspace: where its file is looked for, how a profile changes it,
//! and how a choice of profile is remembered.

use crate::shell::{law_quoted_text_is_one_word, quote_posix, quoted, shell_words};
use crate::text::{
    ascii_lower, blank, equal_ignoring_case, has_text, is_blank, lemma_has_between, lines, lines_of, optional, same_ignoring_case, same_text,
    trim, trim_end_kind, trimmed, trimmed_end_of, views, without_return, CharKind,
};
use crate::winpath::{
    comparable_components, comparable_texts, components, is_plain_name, join_path,
    law_joined_name_is_last_component, law_joined_name_is_last_name, law_parent_undoes_join,
    law_path_lies_at_itself, lemma_parent_is_shorter, parent, path_join, path_parent,
    relative_components, relative_names, takes_names,
};
use vstd::prelude::*;

verus! {

/// The name of the file that describes a workspace.
pub const WORKSPACE_FILE: &'static str = ".cloudfolder.toml";

/// What the file of a workspace says.
#[derive(Clone, Debug, PartialEq, Eq)]
pub struct WorkspaceConfig {
    pub environment: EnvironmentConfig,
}

/// The environment that commands of a workspace run in.
#[derive(Clone, Debug, PartialEq, Eq)]
pub struct EnvironmentConfig {
    pub shell: String,
    pub init: String,
    pub active: String,
    pub profiles: Vec<EnvironmentProfile>,
}

/// What a profile changes of the environment.
#[derive(Clone, Debug, PartialEq, Eq)]
pub struct EnvironmentProfile {
    pub name: String,
    pub shell: String,
    pub init: String,
}

/// The environment that a command runs in.
#[derive(Clone, Debug, PartialEq, Eq)]
pub struct EffectiveEnvironment {
    pub config_path: Option<String>,
    pub shell: String,
    pub init: String,
    pub active: String,
}

/// The environment that a command runs in, by its text.
#[verifier::ext_equal]
pub struct EnvironmentView {
    pub config_path: Option<Seq<char>>,
    pub shell: Seq<char>,
    pub init: Seq<char>,
    pub active: Seq<char>,
}

impl View for EffectiveEnvironment {
    type V = EnvironmentView;

    open spec fn view(&self) -> EnvironmentView {
        EnvironmentView {
            config_path: optional(self.config_path),
            shell: self.shell@,
            init: self.init@,
            active: self.active@,
        }
    }
}

impl EnvironmentConfig {
    /// No two profiles go by one name.
    pub open spec fn well_formed(&self) -> bool {
        forall|i: int, j: int|
            0 <= i < j < self.profiles@.len() ==> #[trigger] self.profiles@[i].name@
                != #[trigger] self.profiles@[j].name@
    }
}

/// The first profile of a name.
pub open spec fn profile_of(profiles: Seq<EnvironmentProfile>, name: Seq<char>) -> Option<
    EnvironmentProfile,
>
    decreases profiles.len(),
{
    if profiles.len() == 0 {
        None
    } else if profiles[0].name@ == name {
        Some(profiles[0])
    } else {
        profile_of(profiles.skip(1), name)
    }
}

/// The place of the first profile of a name.
fn find_profile(profiles: &Vec<EnvironmentProfile>, name: &str) -> (place: Option<usize>)
    ensures
        match place {
            Some(place) => place < profiles.len() && profile_of(profiles@, name@) == Some(
                profiles@[place as int],
            ),
            None => profile_of(profiles@, name@) is None,
        },
{
    let mut i: usize = 0;
    assert(profiles@.skip(0) =~= profiles@);
    while i < profiles.len()
        invariant
            i <= profiles.len(),
            profile_of(profiles@.skip(i as int), name@) == profile_of(profiles@, name@),
        decreases profiles.len() - i,
    {
        assert(profiles@.skip(i as int)[0] == profiles@[i as int]);
        assert(profiles@.skip(i as int).skip(1) =~= profiles@.skip(i + 1));
        if same_text(profiles[i].name.as_str(), name) {
            return Some(i);
        }
        i += 1;
    }
    None
}

proof fn lemma_profile_found(profiles: Seq<EnvironmentProfile>, name: Seq<char>, at: int)
    requires
        0 <= at < profiles.len(),
        profiles[at].name@ == name,
        forall|i: int| 0 <= i < at ==> #[trigger] profiles[i].name@ != name,
    ensures
        profile_of(profiles, name) == Some(profiles[at]),
    decreases at,
{
    if at > 0 {
        assert(profiles[0].name@ != name);
        let tail = profiles.skip(1);
        assert(tail[at - 1] == profiles[at]);
        assert forall|i: int| 0 <= i < at - 1 implies #[trigger] tail[i].name@ != name by {
            assert(tail[i] == profiles[i + 1]);
        }
        lemma_profile_found(tail, name, at - 1);
    }
}

/// Where no two profiles go by one name, each of them is found by its name.
pub proof fn law_each_profile_is_found(config: EnvironmentConfig, at: int)
    requires
        config.well_formed(),
        0 <= at < config.profiles@.len(),
    ensures
        profile_of(config.profiles@, config.profiles@[at].name@) == Some(config.profiles@[at]),
{
    lemma_profile_found(config.profiles@, config.profiles@[at].name@, at);
}

/// A profile that is not defined in the file of a workspace.
#[derive(Clone, Debug, PartialEq, Eq)]
pub struct UndefinedProfile {
    pub profile: String,
    pub config_path: String,
}

impl UndefinedProfile {
    /// What is said of such a profile.
    pub fn message(&self) -> (text: String)
        ensures
            text@ == "environment profile '"@ + self.profile@ + "' is not defined in "@
                + self.config_path@,
    {
        let mut text = "environment profile '".to_string();
        text.append(self.profile.as_str());
        text.append("' is not defined in ");
        text.append(self.config_path.as_str());
        text
    }
}

/// The profile that is in force: the one that was chosen, or else the one that the file
/// names.
pub open spec fn active_profile(config: EnvironmentConfig, chosen: Option<Seq<char>>) -> Seq<char> {
    match chosen {
        Some(profile) => profile,
        None => config.active@,
    }
}

/// The environment of a workspace with a profile in force; nothing where the profile is not
/// defined. The shell of the profile takes the place of the other, and its preparation
/// comes behind the other.
pub open spec fn merged(
    config: EnvironmentConfig,
    config_path: Seq<char>,
    chosen: Option<Seq<char>>,
) -> Option<EnvironmentView> {
    let active = active_profile(config, chosen);
    if is_blank(active) {
        Some(
            EnvironmentView {
                config_path: Some(config_path),
                shell: config.shell@,
                init: config.init@,
                active,
            },
        )
    } else {
        match profile_of(config.profiles@, active) {
            None => None,
            Some(profile) => Some(
                EnvironmentView {
                    config_path: Some(config_path),
                    shell: if is_blank(profile.shell@) {
                        config.shell@
                    } else {
                        profile.shell@
                    },
                    init: if is_blank(profile.init@) {
                        config.init@
                    } else if is_blank(config.init@) {
                        config.init@ + profile.init@
                    } else {
                        config.init@ + "\n"@ + profile.init@
                    },
                    active,
                },
            ),
        }
    }
}

/// The environment of a workspace with a profile in force.
pub fn merge_environment(
    config: &WorkspaceConfig,
    config_path: &str,
    chosen: Option<String>,
) -> (environment: Result<EffectiveEnvironment, UndefinedProfile>)
    ensures
        match environment {
            Ok(environment) => merged(config.environment, config_path@, optional(chosen)) == Some(
                environment@,
            ),
            Err(error) => merged(config.environment, config_path@, optional(chosen)) is None
                && error.profile@ == active_profile(config.environment, optional(chosen))
                && error.config_path@ == config_path@,
        },
{
    let environment = &config.environment;
    let mut shell = environment.shell.clone();
    let mut init = environment.init.clone();
    let active = match chosen {
        Some(profile) => profile,
        None => environment.active.clone(),
    };
    if !blank(active.as_str()) {
        match find_profile(&environment.profiles, active.as_str()) {
            None => {
                return Err(
                    UndefinedProfile { profile: active, config_path: config_path.to_string() },
                );
            },
            Some(place) => {
                let profile = &environment.profiles[place];
                if !blank(profile.shell.as_str()) {
                    shell = profile.shell.clone();
                }
                if !blank(profile.init.as_str()) {
                    if !blank(init.as_str()) {
                        init.append("\n");
                    }
                    init.append(profile.init.as_str());
                }
            },
        }
    }
    Ok(EffectiveEnvironment { config_path: Some(config_path.to_string()), shell, init, active })
}

/// The environment of a directory without a workspace file.
pub open spec fn bare() -> EnvironmentView {
    EnvironmentView {
        config_path: None,
        shell: Seq::empty(),
        init: Seq::empty(),
        active: Seq::empty(),
    }
}

/// The environment of a directory without a workspace file.
pub fn default_environment() -> (environment: EffectiveEnvironment)
    ensures
        environment@ == bare(),
{
    let environment = EffectiveEnvironment {
        config_path: None,
        shell: String::new(),
        init: String::new(),
        active: String::new(),
    };
    assert(environment@ =~= bare());
    environment
}

/// Checks that a profile can be chosen: that the workspace defines it.
pub fn check_profile(config: &WorkspaceConfig, config_path: &str, profile: &str) -> (checked: Result<
    (),
    UndefinedProfile,
>)
    ensures
        match checked {
            Ok(()) => profile_of(config.environment.profiles@, profile@) is Some,
            Err(error) => profile_of(config.environment.profiles@, profile@) is None
                && error.profile@ == profile@ && error.config_path@ == config_path@,
        },
{
    match find_profile(&config.environment.profiles, profile) {
        Some(_) => Ok(()),
        None => Err(
            UndefinedProfile {
                profile: profile.to_string(),
                config_path: config_path.to_string(),
            },
        ),
    }
}

/// What is said where there is no workspace file to choose a profile of.
pub fn missing_workspace(mount_point: &str) -> (text: String)
    ensures
        text@ == "no .cloudfolder.toml exists between the current directory and "@ + mount_point@,
{
    let mut text = "no .cloudfolder.toml exists between the current directory and ".to_string();
    text.append(mount_point);
    text
}

/// The places at which the workspace file is looked for from a directory up to the root.
pub open spec fn places_up(directory: Seq<char>, root: Seq<char>) -> Seq<Seq<char>>
    decreases directory.len(),
{
    let here = seq![join_path(directory, WORKSPACE_FILE@)];
    if comparable_texts(components(directory)) == comparable_texts(components(root)) {
        here
    } else {
        match parent(directory) {
            None => here,
            Some(up) => {
                proof {
                    lemma_parent_is_shorter(directory);
                }
                if relative_names(up, root) is None {
                    here
                } else {
                    here + places_up(up, root)
                }
            },
        }
    }
}

/// The places at which the workspace file is looked for, the nearest first. A directory
/// that is not below the root counts as the root.
pub open spec fn workspace_places(directory: Seq<char>, root: Seq<char>) -> Seq<Seq<char>> {
    if relative_names(directory, root) is Some {
        places_up(directory, root)
    } else {
        places_up(root, root)
    }
}

/// Whether two lists hold the same strings.
fn same_strings(a: &Vec<String>, b: &Vec<String>) -> (same: bool)
    ensures
        same == (views(a@) == views(b@)),
{
    if a.len() != b.len() {
        assert(views(a@).len() != views(b@).len());
        return false;
    }
    let mut i: usize = 0;
    while i < a.len()
        invariant
            i <= a.len() == b.len(),
            forall|k: int| 0 <= k < i ==> #[trigger] views(a@)[k] == views(b@)[k],
        decreases a.len() - i,
    {
        if !same_text(a[i].as_str(), b[i].as_str()) {
            assert(views(a@)[i as int] != views(b@)[i as int]);
            return false;
        }
        i += 1;
    }
    assert(views(a@) =~= views(b@));
    true
}

/// The places at which the workspace file is looked for, the nearest first. The first of
/// them that is a file is the one.
pub fn workspace_config_candidates(mount_point: &str, directory: &str) -> (candidates: Vec<String>)
    ensures
        views(candidates@) == workspace_places(directory@, mount_point@),
        candidates.len() > 0,
{
    let root = comparable_components(mount_point);
    let mut current = if relative_components(directory, mount_point).is_some() {
        directory.to_string()
    } else {
        mount_point.to_string()
    };
    let ghost all = workspace_places(directory@, mount_point@);
    let mut candidates: Vec<String> = Vec::new();
    assert(views(candidates@) + places_up(current@, mount_point@) =~= all);
    loop
        invariant_except_break
            all == views(candidates@) + places_up(current@, mount_point@),
        invariant
            all == workspace_places(directory@, mount_point@),
            views(root@) == comparable_texts(components(mount_point@)),
        ensures
            views(candidates@) == all,
            candidates.len() > 0,
        decreases current@.len(),
    {
        let ghost before = views(candidates@);
        let candidate = path_join(current.as_str(), WORKSPACE_FILE);
        let ghost here = candidate@;
        candidates.push(candidate);
        assert(views(candidates@) =~= before + seq![here]);
        if same_strings(&comparable_components(current.as_str()), &root) {
            break;
        }
        match path_parent(current.as_str()) {
            None => {
                break;
            },
            Some(up) => {
                if relative_components(up.as_str(), mount_point).is_none() {
                    break;
                }
                assert(before + (seq![here] + places_up(up@, mount_point@)) =~= views(candidates@)
                    + places_up(up@, mount_point@));
                current = up;
            },
        }
    }
    candidates
}

/// The place of the workspace file, once it is known which candidates are files: that of the
/// nearest.
pub fn nearest_candidate(is_file: &Vec<bool>) -> (place: Option<usize>)
    ensures
        match place {
            Some(place) => place < is_file.len() && is_file@[place as int] && forall|i: int|
                0 <= i < place ==> !#[trigger] is_file@[i],
            None => forall|i: int| 0 <= i < is_file.len() ==> !#[trigger] is_file@[i],
        },
{
    let mut i: usize = 0;
    while i < is_file.len()
        invariant
            i <= is_file.len(),
            forall|k: int| 0 <= k < i ==> !#[trigger] is_file@[k],
        decreases is_file.len() - i,
    {
        if is_file[i] {
            return Some(i);
        }
        i += 1;
    }
    None
}

/// Whether a path is that of the workspace file in a directory at or below a root.
pub open spec fn is_workspace_place(path: Seq<char>, root: Seq<char>) -> bool {
    exists|directory: Seq<char>| #[trigger]
        join_path(directory, WORKSPACE_FILE@) == path && relative_names(directory, root) is Some
}

proof fn lemma_places_up(directory: Seq<char>, root: Seq<char>)
    requires
        relative_names(directory, root) is Some,
    ensures
        forall|k: int|
            0 <= k < places_up(directory, root).len() ==> is_workspace_place(
                #[trigger] places_up(directory, root)[k],
                root,
            ),
    decreases directory.len(),
{
    let here = join_path(directory, WORKSPACE_FILE@);
    let places = places_up(directory, root);
    assert(is_workspace_place(here, root));
    lemma_parent_is_shorter(directory);
    match parent(directory) {
        None => {},
        Some(up) => {
            if relative_names(up, root) is Some {
                lemma_places_up(up, root);
                assert forall|k: int| 0 <= k < places.len() implies is_workspace_place(
                    #[trigger] places[k],
                    root,
                ) by {
                    if k > 0 {
                        assert(places[k] == places_up(up, root)[k - 1]);
                    }
                }
            }
        },
    }
}

/// The workspace file is looked for only at and below the mount point, wherever a command is
/// run.
pub proof fn law_workspace_file_is_within_mount(directory: Seq<char>, root: Seq<char>)
    ensures
        forall|k: int|
            0 <= k < workspace_places(directory, root).len() ==> is_workspace_place(
                #[trigger] workspace_places(directory, root)[k],
                root,
            ),
{
    law_path_lies_at_itself(root);
    if relative_names(directory, root) is Some {
        lemma_places_up(directory, root);
    } else {
        lemma_places_up(root, root);
    }
}

/// The file in which the choice of a profile is remembered.
pub fn environment_profile_state_path(data_dir: &str) -> (path: String)
    ensures
        path@ == join_path(data_dir@, "environment-profile"@),
{
    path_join(data_dir, "environment-profile")
}

/// What is written to remember the choice of a profile for a workspace.
pub open spec fn choice_text(config_path: Seq<char>, profile: Seq<char>) -> Seq<char> {
    config_path + "\n"@ + profile + "\n"@
}

/// What is written to remember the choice of a profile for a workspace.
pub fn profile_state_text(config_path: &str, profile: &str) -> (text: String)
    ensures
        text@ == choice_text(config_path@, profile@),
{
    let mut text = config_path.to_string();
    text.append("\n");
    text.append(profile);
    text.append("\n");
    text
}

/// A line of a text, or the empty one where there is none.
pub open spec fn line_at(found: Seq<Seq<char>>, index: int) -> Seq<char> {
    if index < found.len() {
        found[index]
    } else {
        Seq::empty()
    }
}

/// The profile that was chosen for a workspace, as far as one is remembered for it.
pub open spec fn chosen_profile(text: Seq<char>, config_path: Seq<char>) -> Option<Seq<char>> {
    let profile = line_at(lines(text), 1);
    if same_ignoring_case(line_at(lines(text), 0), config_path) && !is_blank(profile) {
        Some(profile)
    } else {
        None
    }
}

/// A line of a text, or the empty one where there is none.
fn get_line(found: &Vec<String>, index: usize) -> (line: String)
    ensures
        line@ == line_at(views(found@), index as int),
{
    if index < found.len() {
        found[index].clone()
    } else {
        let line = String::new();
        assert(line@ =~= Seq::empty());
        line
    }
}

/// The profile that was chosen for a workspace, as far as one is remembered for it.
pub fn environment_profile_override(text: &str, config_path: &str) -> (profile: Option<String>)
    ensures
        optional(profile) == chosen_profile(text@, config_path@),
{
    let found = lines_of(text);
    let stored = get_line(&found, 0);
    let profile = get_line(&found, 1);
    if equal_ignoring_case(stored.as_str(), config_path) && !blank(profile.as_str()) {
        Some(profile)
    } else {
        None
    }
}

/// Whether a text is one line as it stands.
pub open spec fn is_one_line(text: Seq<char>) -> bool {
    !text.contains('\n') && (text.len() > 0 ==> text.last() != '\r')
}

proof fn lemma_first_line(line: Seq<char>, rest: Seq<char>)
    requires
        is_one_line(line),
    ensures
        lines(line + "\n"@ + rest) == seq![line] + lines(rest),
{
    reveal_strlit("\n");
    let text = line + "\n"@ + rest;
    let at = line.len() as int;
    assert(text[at] == '\n');
    assert(text.contains('\n'));
    text.index_of_first_ensures('\n');
    let found = text.index_of_first('\n').unwrap();
    assert(found == at) by {
        if found < at {
            assert(line[found] == text[found]);
            assert(line.contains('\n'));
        }
    }
    assert(text.subrange(0, at) =~= line);
    assert(text.subrange(at + 1, text.len() as int) =~= rest);
    assert(without_return(line) == line);
}

/// What is remembered is what was chosen: the profile written for a workspace is read back
/// for that workspace, and so is in force there.
pub proof fn law_chosen_profile_is_remembered(
    config: EnvironmentConfig,
    config_path: Seq<char>,
    profile: Seq<char>,
)
    requires
        is_one_line(config_path),
        is_one_line(profile),
        !is_blank(profile),
    ensures
        chosen_profile(choice_text(config_path, profile), config_path) == Some(profile),
        active_profile(
            config,
            chosen_profile(choice_text(config_path, profile), config_path),
        ) == profile,
{
    let text = choice_text(config_path, profile);
    let rest = profile + "\n"@;
    assert(text =~= config_path + "\n"@ + rest);
    lemma_first_line(config_path, rest);
    assert(rest =~= profile + "\n"@ + Seq::empty());
    lemma_first_line(profile, Seq::empty());
    assert(lines(text)[0] == config_path);
    assert(lines(text)[1] == profile);
}

/// A command of a workspace, run through the shell of its environment where it has one.
pub open spec fn wrapped(shell: Seq<char>, body: Seq<char>) -> Seq<char> {
    if is_blank(shell) {
        body
    } else {
        trim(shell) + " "@ + quoted(body)
    }
}

/// A command of a workspace, run through the shell of its environment where it has one.
pub fn wrap_environment_shell(environment: &EffectiveEnvironment, body: &str) -> (command: String)
    ensures
        command@ == wrapped(environment@.shell, body@),
{
    if blank(environment.shell.as_str()) {
        body.to_string()
    } else {
        let mut command = trimmed(environment.shell.as_str());
        command.append(" ");
        command.append(quote_posix(body).as_str());
        command
    }
}

/// What an environment is shown as.
pub open spec fn environment_text(environment: EnvironmentView) -> Seq<char> {
    "Config:  "@ + (match environment.config_path {
        Some(path) => path,
        None => "(none)"@,
    }) + "\nProfile: "@ + (if environment.active.len() == 0 {
        "(base)"@
    } else {
        environment.active
    }) + "\nShell:   "@ + (if environment.shell.len() == 0 {
        "(remote default shell)"@
    } else {
        environment.shell
    }) + (if is_blank(environment.init) {
        "\nInit:    (none)"@
    } else {
        "\nInit:\n"@ + trim_end_kind(environment.init, CharKind::White)
    })
}

/// What an environment is shown as.
pub fn environment_report(environment: &EffectiveEnvironment) -> (text: String)
    ensures
        text@ == environment_text(environment@),
{
    let mut text = "Config:  ".to_string();
    match &environment.config_path {
        Some(path) => text.append(path.as_str()),
        None => text.append("(none)"),
    }
    text.append("\nProfile: ");
    if environment.active.as_str().is_empty() {
        text.append("(base)");
    } else {
        text.append(environment.active.as_str());
    }
    text.append("\nShell:   ");
    if environment.shell.as_str().is_empty() {
        text.append("(remote default shell)");
    } else {
        text.append(environment.shell.as_str());
    }
    if blank(environment.init.as_str()) {
        text.append("\nInit:    (none)");
    } else {
        let mut init = "\nInit:\n".to_string();
        init.append(trimmed_end_of(environment.init.as_str(), CharKind::White).as_str());
        text.append(init.as_str());
    }
    text
}

/// What is said after the environment was read anew.
pub fn reload_report(environment: &EffectiveEnvironment) -> (text: String)
    ensures
        text@ == "Environment config reloaded: "@ + (match environment@.config_path {
            Some(path) => path,
            None => "defaults (no .cloudfolder.toml)"@,
        })
            + "\nCommands read this environment on every invocation; no daemon restart is required."@,
{
    let mut text = "Environment config reloaded: ".to_string();
    match &environment.config_path {
        Some(path) => text.append(path.as_str()),
        None => text.append("defaults (no .cloudfolder.toml)"),
    }
    text.append(
        "\nCommands read this environment on every invocation; no daemon restart is required.",
    );
    text
}

/// A profile that is in force is applied: its shell takes the place of the shell of the
/// workspace where it names one, and its preparation comes behind that of the workspace where
/// it has one, on a line of its own where both have something. Nothing of either is lost.
pub proof fn law_profile_is_applied(
    config: EnvironmentConfig,
    config_path: Seq<char>,
    chosen: Option<Seq<char>>,
    at: int,
)
    requires
        0 <= at < config.profiles@.len(),
        !is_blank(config.profiles@[at].name@),
        chosen == Some(config.profiles@[at].name@) || (chosen is None && config.active@
            == config.profiles@[at].name@),
        forall|i: int| 0 <= i < at ==> #[trigger] config.profiles@[i].name@ != config.profiles@[at].name@,
    ensures
        ({
            let profile = config.profiles@[at];
            let environment = merged(config, config_path, chosen)->0;
            let begun = config.init@.len();
            let added = profile.init@.len();
            &&& merged(config, config_path, chosen) is Some
            &&& environment.config_path == Some(config_path)
            &&& environment.active == profile.name@
            &&& !is_blank(profile.shell@) ==> environment.shell == profile.shell@
            &&& is_blank(profile.shell@) ==> environment.shell == config.shell@
            &&& environment.init.len() >= begun
            &&& environment.init.take(begun as int) == config.init@
            &&& is_blank(profile.init@) ==> environment.init == config.init@
            &&& !is_blank(profile.init@) ==> {
                let between = environment.init.len() - begun - added;
                &&& environment.init.skip(environment.init.len() - added) == profile.init@
                &&& between == if is_blank(config.init@) {
                    0int
                } else {
                    1
                }
                &&& between == 1 ==> environment.init[begun as int] == '\n'
            }
        }),
{
    let profile = config.profiles@[at];
    lemma_profile_found(config.profiles@, profile.name@, at);
    reveal_strlit("\n");
    let environment = merged(config, config_path, chosen)->0;
    assert(environment.init.take(config.init@.len() as int) =~= config.init@);
    if !is_blank(profile.init@) {
        assert(environment.init.skip(environment.init.len() - profile.init@.len())
            =~= profile.init@);
    }
}

proof fn lemma_profile_missing(profiles: Seq<EnvironmentProfile>, name: Seq<char>)
    requires
        forall|i: int| 0 <= i < profiles.len() ==> #[trigger] profiles[i].name@ != name,
    ensures
        profile_of(profiles, name) is None,
    decreases profiles.len(),
{
    if profiles.len() > 0 {
        assert(profiles[0].name@ != name);
        let tail = profiles.skip(1);
        assert forall|i: int| 0 <= i < tail.len() implies #[trigger] tail[i].name@ != name by {
            assert(tail[i] == profiles[i + 1]);
        }
        lemma_profile_missing(tail, name);
    }
}

/// Where no profile is in force the environment is that of the workspace, and a profile that
/// the workspace does not define is refused. A choice counts in place of what the file names,
/// also where it chooses no profile.
pub proof fn law_only_defined_profiles_are_applied(
    config: EnvironmentConfig,
    config_path: Seq<char>,
    chosen: Option<Seq<char>>,
)
    ensures
        ({
            let name = if chosen is Some {
                chosen->0
            } else {
                config.active@
            };
            let defined = exists|i: int|
                0 <= i < config.profiles@.len() && #[trigger] config.profiles@[i].name@ == name;
            &&& is_blank(name) ==> merged(config, config_path, chosen) == Some(
                EnvironmentView {
                    config_path: Some(config_path),
                    shell: config.shell@,
                    init: config.init@,
                    active: name,
                },
            )
            &&& !is_blank(name) && !defined ==> merged(config, config_path, chosen) is None
        }),
{
    let name = active_profile(config, chosen);
    let defined = exists|i: int|
        0 <= i < config.profiles@.len() && #[trigger] config.profiles@[i].name@ == name;
    if !defined {
        lemma_profile_missing(config.profiles@, name);
    }
}

/// The choice of a profile counts only for the workspace that it was made for.
pub proof fn law_choice_counts_only_for_its_workspace(
    config_path: Seq<char>,
    other: Seq<char>,
    profile: Seq<char>,
)
    requires
        is_one_line(config_path),
        is_one_line(profile),
    ensures
        chosen_profile(choice_text(config_path, profile), other) is Some <==> ascii_lower(
            config_path,
        ) == ascii_lower(other) && !is_blank(profile),
{
    let text = choice_text(config_path, profile);
    let rest = profile + "\n"@;
    assert(text =~= config_path + "\n"@ + rest);
    lemma_first_line(config_path, rest);
    assert(rest =~= profile + "\n"@ + Seq::empty());
    lemma_first_line(profile, Seq::empty());
    assert(lines(text)[0] == config_path);
    assert(lines(text)[1] == profile);
}

/// The workspace file is looked for in the current directory first and then in each directory
/// above it, up to the mount point: from a directory below another, at one more place than from
/// that one, and at that place first.
pub proof fn law_workspace_file_is_looked_for_upwards(
    root: Seq<char>,
    base: Seq<char>,
    directory: Seq<char>,
    name: Seq<char>,
)
    requires
        takes_names(base),
        is_plain_name(directory),
        is_plain_name(name),
        relative_names(join_path(base, directory), root) is Some,
        components(root).len() <= components(base).len() + 1,
    ensures
        ({
            let outer = join_path(base, directory);
            let inner = join_path(outer, name);
            &&& workspace_places(outer, root).len() > 0
            &&& workspace_places(outer, root)[0] == join_path(outer, WORKSPACE_FILE@)
            &&& workspace_places(inner, root) == seq![join_path(inner, WORKSPACE_FILE@)]
                + workspace_places(outer, root)
        }),
{
    let outer = join_path(base, directory);
    let inner = join_path(outer, name);
    law_joined_name_is_last_component(base, directory);
    law_joined_name_is_last_component(outer, name);
    law_parent_undoes_join(base, directory, name);
    law_joined_name_is_last_name(root, outer, name);
    let parts = components(inner);
    assert(parts.drop_last() =~= components(outer));
    assert(comparable_texts(parts) == comparable_texts(components(outer)).push(name));
    assert(comparable_texts(parts).len() > comparable_texts(components(outer)).len());
    assert(comparable_texts(components(outer)).len() >= comparable_texts(components(root)).len());
    assert(comparable_texts(parts) != comparable_texts(components(root)));
}

/// From outside the mount the workspace file is looked for at the mount point alone, and so it
/// is from the mount point itself.
pub proof fn law_workspace_file_is_looked_for_at_the_root(directory: Seq<char>, root: Seq<char>)
    ensures
        workspace_places(root, root) == seq![join_path(root, WORKSPACE_FILE@)],
        relative_names(directory, root) is None ==> workspace_places(directory, root)
            == workspace_places(root, root),
{
    law_path_lies_at_itself(root);
}

/// A command without a shell of its own is run as it is, and one with a shell is handed to it
/// as one word; the environment without a workspace file changes nothing of a command.
pub proof fn law_shell_gets_the_command_as_one_word(shell: Seq<char>, body: Seq<char>)
    ensures
        is_blank(shell) ==> wrapped(shell, body) == body,
        wrapped(bare().shell, body) == body,
        is_blank(bare().init),
        !is_blank(shell) ==> ({
            let front = trim(shell) + " "@;
            &&& wrapped(shell, body).take(front.len() as int) == front
            &&& shell_words(wrapped(shell, body).skip(front.len() as int)) == Some(seq![body])
        }),
{
    law_quoted_text_is_one_word(body);
    if !is_blank(shell) {
        let front = trim(shell) + " "@;
        assert(wrapped(shell, body).take(front.len() as int) =~= front);
        assert(wrapped(shell, body).skip(front.len() as int) =~= quoted(body));
    }
}

/// What stands in a text that is put together from six parts.
proof fn lemma_six_parts(
    a: Seq<char>,
    b: Seq<char>,
    c: Seq<char>,
    d: Seq<char>,
    e: Seq<char>,
    f: Seq<char>,
    first: Seq<char>,
)
    requires
        first.is_prefix_of(f),
    ensures
        ({
            let text = a + b + c + d + e + f;
            &&& text.take(a.len() as int) == a
            &&& has_text(text, b + c + d)
            &&& has_text(text, d + e + first)
            &&& f.is_suffix_of(text)
        }),
{
    let text = a + b + c + d + e + f;
    let n = first.len() as int;
    assert(text.take(a.len() as int) =~= a);
    lemma_has_between(a, b + c + d, e + f);
    assert(a + (b + c + d) + (e + f) =~= text);
    lemma_has_between(a + b + c, d + e + first, f.skip(n));
    assert(first + f.skip(n) =~= f);
    assert(a + b + c + (d + e + first) + f.skip(n) =~= a + b + c + d + e + (first + f.skip(n)));
    assert(text.subrange(text.len() - f.len(), text.len() as int) =~= f);
}

/// An environment is shown with its file, its profile, its shell and its commands. What is not
/// there is said to be missing.
pub proof fn law_environment_is_shown(environment: EnvironmentView)
    ensures
        ({
            let text = environment_text(environment);
            let file = match environment.config_path {
                Some(path) => path,
                None => "(none)"@,
            };
            &&& text.take(("Config:  "@ + file).len() as int) == "Config:  "@ + file
            &&& environment.active.len() > 0 ==> has_text(
                text,
                "\nProfile: "@ + environment.active + "\nShell:   "@,
            )
            &&& environment.active.len() == 0 ==> has_text(
                text,
                "\nProfile: "@ + "(base)"@ + "\nShell:   "@,
            )
            &&& environment.shell.len() > 0 ==> has_text(
                text,
                "\nShell:   "@ + environment.shell + "\nInit:"@,
            )
            &&& environment.shell.len() == 0 ==> has_text(
                text,
                "\nShell:   "@ + "(remote default shell)"@ + "\nInit:"@,
            )
            &&& is_blank(environment.init) ==> "\nInit:    (none)"@.is_suffix_of(text)
            &&& !is_blank(environment.init) ==> ("\nInit:\n"@ + trim_end_kind(
                environment.init,
                CharKind::White,
            )).is_suffix_of(text)
        }),
{
    reveal_strlit("\nInit:");
    reveal_strlit("\nInit:\n");
    reveal_strlit("\nInit:    (none)");
    let file = match environment.config_path {
        Some(path) => path,
        None => "(none)"@,
    };
    let active = if environment.active.len() == 0 {
        "(base)"@
    } else {
        environment.active
    };
    let shell = if environment.shell.len() == 0 {
        "(remote default shell)"@
    } else {
        environment.shell
    };
    let init = if is_blank(environment.init) {
        "\nInit:    (none)"@
    } else {
        "\nInit:\n"@ + trim_end_kind(environment.init, CharKind::White)
    };
    assert("\nInit:"@.is_prefix_of(init));
    lemma_six_parts(
        "Config:  "@ + file,
        "\nProfile: "@,
        active,
        "\nShell:   "@,
        shell,
        init,
        "\nInit:"@,
    );
}

} // verus!
