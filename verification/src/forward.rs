//! Ports of the server that are reached from this computer: how they are asked for, chosen,
//! remembered and given up.

use crate::arguments::{
    extract_mount_flag, law_mount_is_named_anywhere, mount_flag, ArgumentError,
};
use crate::mounts::{name_view, MountRecord};
use crate::rclone::{passes, push_argument};
use crate::ssh::{
    forward_argument_texts, forward_spec_text, forward_text, ssh_options, AccessView,
};
use crate::text::{
    ascii_lower, begins_with, chars_of, contains_text, decimal, decimal_text, digit_value,
    equal_ignoring_case, has_text, law_decimal_reads_back, lemma_has_between, lower_char, lowered,
    number, occurs_at, optional, push_decimal, read_number, same_ignoring_case, starts_with, to_digit_value, views,
};
use crate::winpath::{
    is_plain_name, is_separator, join_path, law_joined_name_is_last_component,
    law_joined_name_is_last_name, law_joined_names_stay_apart, law_parent_undoes_join,
    law_path_lies_at_itself, parent, path_join, relative_names, takes_names,
};
use vstd::prelude::*;

verus! {

/// A port that is forwarded.
#[derive(Clone, Debug, PartialEq, Eq)]
pub struct ForwardState {
    pub mount_slug: String,
    pub remote_port: u16,
    pub local_port: u16,
    pub pid: u32,
    pub started_epoch: u64,
}

/// Why a text names no port.
#[derive(Clone, Copy, Debug, PartialEq, Eq, Structural)]
pub enum PortFault {
    Empty,
    NotADigit,
    TooLarge,
    Zero,
}

impl PortFault {
    /// What a fault adds to what is said of a text that names no port.
    pub open spec fn spec_cause(self) -> Seq<char> {
        match self {
            PortFault::Empty => ": cannot parse integer from empty string"@,
            PortFault::NotADigit => ": invalid digit found in string"@,
            PortFault::TooLarge => ": number too large to fit in target type"@,
            PortFault::Zero => ""@,
        }
    }

    /// What a fault adds to what is said of a text that names no port.
    pub fn cause(self) -> (text: &'static str)
        ensures
            text@ == self.spec_cause(),
    {
        match self {
            PortFault::Empty => ": cannot parse integer from empty string",
            PortFault::NotADigit => ": invalid digit found in string",
            PortFault::TooLarge => ": number too large to fit in target type",
            PortFault::Zero => "",
        }
    }
}

/// Why a request about ports is refused.
#[derive(Clone, Copy, Debug, PartialEq, Eq, Structural)]
pub enum ForwardError {
    Arguments(ArgumentError),
    StartUsage,
    StopUsage,
    RemotePortInvalid(PortFault),
    LocalPortInvalid(PortFault),
    NoMatch,
}

impl ForwardError {
    /// What is said of a request that is refused.
    pub open spec fn spec_message(self) -> Seq<char> {
        match self {
            ForwardError::Arguments(error) => error.spec_message(),
            ForwardError::StartUsage => "usage: cf forward <remote-port> [local-port] [--mount <mount>]"@,
            ForwardError::StopUsage => "usage: cf forward stop <local-port|all> [--mount <mount>]"@,
            ForwardError::RemotePortInvalid(fault) => {
                "remote port must be a TCP port between 1 and 65535"@ + fault.spec_cause()
            },
            ForwardError::LocalPortInvalid(fault) => {
                "local port must be a TCP port between 1 and 65535"@ + fault.spec_cause()
            },
            ForwardError::NoMatch => "no matching forward was found"@,
        }
    }

    /// What is said of a request that is refused.
    pub fn message(self) -> (text: String)
        ensures
            text@ == self.spec_message(),
    {
        match self {
            ForwardError::Arguments(error) => error.message().to_string(),
            ForwardError::StartUsage => {
                "usage: cf forward <remote-port> [local-port] [--mount <mount>]".to_string()
            },
            ForwardError::StopUsage => {
                "usage: cf forward stop <local-port|all> [--mount <mount>]".to_string()
            },
            ForwardError::RemotePortInvalid(fault) => {
                let mut text = "remote port must be a TCP port between 1 and 65535".to_string();
                text.append(fault.cause());
                text
            },
            ForwardError::LocalPortInvalid(fault) => {
                let mut text = "local port must be a TCP port between 1 and 65535".to_string();
                text.append(fault.cause());
                text
            },
            ForwardError::NoMatch => "no matching forward was found".to_string(),
        }
    }
}

/// A text without a plus sign at its start.
pub open spec fn behind_plus(text: Seq<char>) -> Seq<char> {
    if starts_with(text, "+"@) {
        text.skip(1)
    } else {
        text
    }
}

/// The port that a text names: a number from 1 to 65535, with or without a plus sign.
pub open spec fn port_of(text: Seq<char>) -> Option<nat> {
    match number(behind_plus(text), 10, 65535) {
        Some(port) => if port == 0 {
            None
        } else {
            Some(port)
        },
        None => None,
    }
}

/// The first fault of a row of characters behind digits that write `read`: a character that
/// is no digit, or a digit with which the number is too large for a port.
pub open spec fn first_fault(digits: Seq<char>, read: nat) -> PortFault
    decreases digits.len(),
{
    if digits.len() == 0 {
        PortFault::NotADigit
    } else {
        match digit_value(digits[0], 10) {
            None => PortFault::NotADigit,
            Some(digit) => if read * 10 + digit > 65535 {
                PortFault::TooLarge
            } else {
                first_fault(digits.skip(1), read * 10 + digit)
            },
        }
    }
}

/// Why a text names no port. A plus sign alone lacks a digit.
pub open spec fn port_fault(text: Seq<char>) -> PortFault {
    if text.len() == 0 {
        PortFault::Empty
    } else if number(behind_plus(text), 10, 65535) is Some {
        PortFault::Zero
    } else {
        first_fault(behind_plus(text), 0)
    }
}

/// The first fault of the characters behind a position.
fn find_fault(chars: &Vec<char>, start: usize) -> (fault: PortFault)
    requires
        start <= chars.len(),
    ensures
        fault == first_fault(chars@.skip(start as int), 0),
{
    let mut read: u32 = 0;
    let mut i: usize = start;
    while i < chars.len()
        invariant
            start <= i <= chars.len(),
            read <= 65535,
            first_fault(chars@.skip(start as int), 0) == first_fault(
                chars@.skip(i as int),
                read as nat,
            ),
        decreases chars.len() - i,
    {
        assert(chars@.skip(i as int)[0] == chars@[i as int]);
        assert(chars@.skip(i as int).skip(1) =~= chars@.skip(i + 1));
        match to_digit_value(chars[i], 10) {
            None => {
                return PortFault::NotADigit;
            },
            Some(digit) => {
                if read * 10 + digit > 65535 {
                    return PortFault::TooLarge;
                }
                read = read * 10 + digit;
            },
        }
        i += 1;
    }
    PortFault::NotADigit
}

/// The port that a text names.
pub fn parse_port(text: &str) -> (port: Result<u16, PortFault>)
    ensures
        match port {
            Ok(port) => port_of(text@) == Some(port as nat),
            Err(fault) => port_of(text@) is None && fault == port_fault(text@),
        },
{
    let chars = chars_of(text);
    proof {
        reveal_strlit("+");
    }
    if chars.len() == 0 {
        return Err(PortFault::Empty);
    }
    let start: usize = if begins_with(text, "+") {
        1
    } else {
        0
    };
    assert(chars@.skip(start as int) =~= behind_plus(text@));
    assert(chars@.subrange(start as int, chars.len() as int) =~= behind_plus(text@));
    match read_number(&chars, start, chars.len(), 10, 65535) {
        Some(port) => if port == 0 {
            Err(PortFault::Zero)
        } else {
            assert(port <= 65535);
            Ok(port as u16)
        },
        None => Err(find_fault(&chars, start)),
    }
}

/// What is done about ports.
#[derive(Clone, Copy, Debug, PartialEq, Eq, Structural)]
pub enum ForwardAction {
    Start,
    List,
    Stop,
}

/// What a word asks to be done about ports; without a word they are listed.
pub open spec fn action_of(word: Option<Seq<char>>) -> ForwardAction {
    match word {
        None => ForwardAction::List,
        Some(word) => if same_ignoring_case(word, "list"@) {
            ForwardAction::List
        } else if same_ignoring_case(word, "stop"@) {
            ForwardAction::Stop
        } else {
            ForwardAction::Start
        },
    }
}

/// What a word asks to be done about ports.
pub fn forward_action(word: Option<&str>) -> (action: ForwardAction)
    ensures
        action == action_of(name_view(word)),
{
    match word {
        None => ForwardAction::List,
        Some(word) => if equal_ignoring_case(word, "list") {
            ForwardAction::List
        } else if equal_ignoring_case(word, "stop") {
            ForwardAction::Stop
        } else {
            ForwardAction::Start
        },
    }
}

/// A request to forward a port.
#[derive(Clone, Debug, PartialEq, Eq)]
pub struct ForwardRequest {
    pub mount: Option<String>,
    pub remote_port: u16,
    pub local_port: Option<u16>,
}

/// A port that may be missing.
pub open spec fn optional_port(port: Option<u16>) -> Option<nat> {
    match port {
        Some(port) => Some(port as nat),
        None => None,
    }
}

/// The mount and the ports that arguments ask to be forwarded.
pub open spec fn start_request(args: Seq<Seq<char>>) -> Result<
    (Option<Seq<char>>, nat, Option<nat>),
    ForwardError,
> {
    match mount_flag(args, None) {
        Err(error) => Err(ForwardError::Arguments(error)),
        Ok((mount, rest)) => if rest.len() == 0 || rest.len() > 2 {
            Err(ForwardError::StartUsage)
        } else if port_of(rest[0]) is None {
            Err(ForwardError::RemotePortInvalid(port_fault(rest[0])))
        } else if rest.len() == 1 {
            Ok((mount, port_of(rest[0])->0, None))
        } else if port_of(rest[1]) is None {
            Err(ForwardError::LocalPortInvalid(port_fault(rest[1])))
        } else {
            Ok((mount, port_of(rest[0])->0, port_of(rest[1])))
        },
    }
}

/// The mount and the ports that arguments ask to be forwarded.
pub fn parse_start_request(args: &Vec<String>) -> (request: Result<ForwardRequest, ForwardError>)
    ensures
        match request {
            Ok(request) => start_request(views(args@)) == Ok::<
                (Option<Seq<char>>, nat, Option<nat>),
                ForwardError,
            >(
                (
                    optional(request.mount),
                    request.remote_port as nat,
                    optional_port(request.local_port),
                ),
            ),
            Err(error) => start_request(views(args@)) == Err::<
                (Option<Seq<char>>, nat, Option<nat>),
                ForwardError,
            >(error),
        },
{
    match extract_mount_flag(args) {
        Err(error) => Err(ForwardError::Arguments(error)),
        Ok((mount, rest)) => {
            assert(views(rest@).len() == rest.len());
            if rest.len() == 0 || rest.len() > 2 {
                return Err(ForwardError::StartUsage);
            }
            assert(views(rest@)[0] == rest@[0]@);
            let remote_port: u16 = match parse_port(rest[0].as_str()) {
                Ok(port) => port,
                Err(fault) => {
                    return Err(ForwardError::RemotePortInvalid(fault));
                },
            };
            if rest.len() == 1 {
                return Ok(ForwardRequest { mount, remote_port, local_port: None });
            }
            assert(views(rest@)[1] == rest@[1]@);
            match parse_port(rest[1].as_str()) {
                Ok(port) => Ok(ForwardRequest { mount, remote_port, local_port: Some(port) }),
                Err(fault) => Err(ForwardError::LocalPortInvalid(fault)),
            }
        },
    }
}

/// Where a port of the server is reached on this computer.
#[derive(Clone, Copy, Debug, PartialEq, Eq, Structural)]
pub enum PortChoice {
    /// At this port.
    Use(u16),
    /// At any port that is free.
    Any,
    /// Nowhere: the port that was asked for is taken.
    Taken(u16),
}

/// The port that is tried first: the one that was asked for, or else the one of the server.
pub open spec fn preferred_port(remote_port: u16, local_port: Option<u16>) -> u16 {
    match local_port {
        Some(port) => port,
        None => remote_port,
    }
}

/// The port that is tried first.
pub fn preferred_local_port(remote_port: u16, local_port: Option<u16>) -> (port: u16)
    ensures
        port == preferred_port(remote_port, local_port),
{
    match local_port {
        Some(port) => port,
        None => remote_port,
    }
}

/// Where a port of the server is reached, once it is known whether the port that is tried
/// first is free. Only a port that was not asked for gives way to another.
pub open spec fn port_choice(remote_port: u16, local_port: Option<u16>, free: bool) -> PortChoice {
    if free {
        PortChoice::Use(preferred_port(remote_port, local_port))
    } else if local_port is Some {
        PortChoice::Taken(preferred_port(remote_port, local_port))
    } else {
        PortChoice::Any
    }
}

/// Where a port of the server is reached, once it is known whether the port that is tried
/// first is free.
pub fn choose_local_port(remote_port: u16, local_port: Option<u16>, free: bool) -> (choice: PortChoice)
    ensures
        choice == port_choice(remote_port, local_port, free),
{
    let preferred: u16 = preferred_local_port(remote_port, local_port);
    if free {
        PortChoice::Use(preferred)
    } else if local_port.is_some() {
        PortChoice::Taken(preferred)
    } else {
        PortChoice::Any
    }
}

/// What is said of a port that was asked for and is taken.
pub fn port_taken(port: u16, error: &str) -> (text: String)
    ensures
        text@ == "local port "@ + decimal(port as nat) + " is unavailable: "@ + error@,
{
    let mut text = "local port ".to_string();
    push_decimal(&mut text, port as u64);
    text.append(" is unavailable: ");
    text.append(error);
    text
}

/// What is said of a port that is forwarded now.
pub fn started_report(mount: &str, state: &ForwardState) -> (text: String)
    ensures
        text@ == "Forward active: "@ + mount@ + " remote 127.0.0.1:"@ + decimal(
            state.remote_port as nat,
        ) + " -> 127.0.0.1:"@ + decimal(state.local_port as nat) + " (pid "@ + decimal(
            state.pid as nat,
        ) + ")\nWeb URL (if applicable): http://127.0.0.1:"@ + decimal(state.local_port as nat)
            + "/"@,
{
    let mut text = "Forward active: ".to_string();
    text.append(mount);
    text.append(" remote 127.0.0.1:");
    push_decimal(&mut text, state.remote_port as u64);
    text.append(" -> 127.0.0.1:");
    push_decimal(&mut text, state.local_port as u64);
    text.append(" (pid ");
    push_decimal(&mut text, state.pid as u64);
    text.append(")\nWeb URL (if applicable): http://127.0.0.1:");
    push_decimal(&mut text, state.local_port as u64);
    text.append("/");
    text
}

/// The directory in which forwarded ports are remembered.
pub open spec fn state_directory(data_dir: Seq<char>) -> Seq<char> {
    join_path(data_dir, "forwards"@)
}

/// The directory in which forwarded ports are remembered.
pub fn forward_state_dir(data_dir: &str) -> (path: String)
    ensures
        path@ == state_directory(data_dir@),
{
    path_join(data_dir, "forwards")
}

/// The file in which a forwarded port is remembered.
pub open spec fn state_file(data_dir: Seq<char>, local_port: u16) -> Seq<char> {
    join_path(state_directory(data_dir), decimal(local_port as nat) + ".json"@)
}

/// The file in which a forwarded port is remembered.
pub fn forward_state_path(data_dir: &str, local_port: u16) -> (path: String)
    ensures
        path@ == state_file(data_dir@, local_port),
{
    let mut name = decimal_text(local_port as u64);
    name.append(".json");
    path_join(forward_state_dir(data_dir).as_str(), name.as_str())
}

/// Where a port goes in a list: behind the last one that is not greater.
pub open spec fn slot(states: Seq<ForwardState>, port: u16) -> int
    decreases states.len(),
{
    if states.len() == 0 {
        0
    } else if port < states.last().local_port {
        slot(states.drop_last(), port)
    } else {
        states.len() as int
    }
}

/// The forwarded ports of a mount in their order; those of one port stay in the order in
/// which they came.
pub open spec fn states_of(states: Seq<ForwardState>, slug: Seq<char>) -> Seq<ForwardState>
    decreases states.len(),
{
    if states.len() == 0 {
        states
    } else {
        let before = states_of(states.drop_last(), slug);
        let last = states.last();
        if same_ignoring_case(last.mount_slug@, slug) {
            before.insert(slot(before, last.local_port), last)
        } else {
            before
        }
    }
}

/// The forwarded ports of a mount in their order.
pub fn select_states(states: Vec<ForwardState>, slug: &str) -> (selected: Vec<ForwardState>)
    ensures
        selected@ == states_of(states@, slug@),
{
    let ghost all = states@;
    let mut rest = states;
    let mut selected: Vec<ForwardState> = Vec::new();
    let ghost mut done: int = 0;
    assert(all.take(0) =~= Seq::empty());
    assert(all.skip(0) =~= all);
    while rest.len() > 0
        invariant
            0 <= done <= all.len(),
            rest@ == all.skip(done),
            selected@ == states_of(all.take(done), slug@),
        decreases rest.len(),
    {
        let ghost before = selected@;
        let state = rest.remove(0);
        proof {
            assert(state == all[done]);
            assert(all.skip(done).remove(0) =~= all.skip(done + 1));
            assert(all.take(done + 1).drop_last() =~= all.take(done));
        }
        if equal_ignoring_case(state.mount_slug.as_str(), slug) {
            let port: u16 = state.local_port;
            let mut at: usize = selected.len();
            assert(before.take(at as int) =~= before);
            while at > 0 && port < selected[at - 1].local_port
                invariant
                    at <= selected.len(),
                    selected@ == before,
                    slot(before, port) == slot(before.take(at as int), port),
                decreases at,
            {
                assert(before.take(at as int).drop_last() =~= before.take(at - 1));
                assert(before.take(at as int).last() == before[at - 1]);
                at -= 1;
            }
            proof {
                if at > 0 {
                    assert(before.take(at as int).last() == before[at - 1]);
                }
                assert(slot(before, port) == at);
            }
            selected.insert(at, state);
        }
        proof {
            done = done + 1;
        }
    }
    assert(all.take(done) =~= all);
    selected
}

proof fn lemma_slot(states: Seq<ForwardState>, port: u16)
    ensures
        0 <= slot(states, port) <= states.len(),
        forall|i: int|
            slot(states, port) <= i < states.len() ==> port < (#[trigger] states[i]).local_port,
        slot(states, port) > 0 ==> states[slot(states, port) - 1].local_port <= port,
    decreases states.len(),
{
    if states.len() > 0 && port < states.last().local_port {
        lemma_slot(states.drop_last(), port);
        assert forall|i: int| slot(states, port) <= i < states.len() implies port < (
        #[trigger] states[i]).local_port by {
            if i < states.len() - 1 {
                assert(states.drop_last()[i] == states[i]);
            }
        }
    }
}

/// The forwarded ports of a mount are its own and no others', all of them, and in the order
/// of their ports.
pub proof fn law_mount_has_its_own_forwards(states: Seq<ForwardState>, slug: Seq<char>)
    ensures
        states_of(states, slug).to_multiset() =~= states.filter(
            |state: ForwardState| same_ignoring_case(state.mount_slug@, slug),
        ).to_multiset(),
        forall|i: int, j: int|
            0 <= i < j < states_of(states, slug).len() ==> (#[trigger] states_of(
                states,
                slug,
            )[i]).local_port <= (#[trigger] states_of(states, slug)[j]).local_port,
    decreases states.len(),
{
    broadcast use vstd::seq_lib::group_to_multiset_ensures;

    let own = |state: ForwardState| same_ignoring_case(state.mount_slug@, slug);
    reveal(Seq::filter);
    if states.len() > 0 {
        let head = states.drop_last();
        let last = states.last();
        law_mount_has_its_own_forwards(head, slug);
        let before = states_of(head, slug);
        let all = states_of(states, slug);
        if own(last) {
            let at = slot(before, last.local_port);
            lemma_slot(before, last.local_port);
            let front = before.subrange(0, at);
            let back = before.subrange(at, before.len() as int);
            assert(states.filter(own) =~= head.filter(own).push(last));
            assert(all =~= front.push(last) + back);
            assert(before =~= front + back);
            vstd::seq_lib::lemma_multiset_commutative(front, back);
            vstd::seq_lib::lemma_multiset_commutative(front.push(last), back);
            assert forall|i: int, j: int| 0 <= i < j < all.len() implies (
            #[trigger] all[i]).local_port <= (#[trigger] all[j]).local_port by {
                let a = if i < at {
                    i
                } else {
                    i - 1
                };
                let b = if j < at {
                    j
                } else {
                    j - 1
                };
                if i != at {
                    assert(all[i] == before[a]);
                }
                if j != at {
                    assert(all[j] == before[b]);
                }
                if j == at && i < at - 1 {
                    assert(before[i].local_port <= before[at - 1].local_port);
                }
            }
        } else {
            assert(states.filter(own) =~= head.filter(own));
        }
    }
}

/// Which forwarded ports are to be given up.
#[derive(Clone, Copy, Debug, PartialEq, Eq, Structural)]
pub enum StopTarget {
    All,
    Port(u16),
}

/// The mount and the word that arguments name to give up ports.
pub open spec fn stop_request(args: Seq<Seq<char>>) -> Result<
    (Option<Seq<char>>, Seq<char>),
    ForwardError,
> {
    match mount_flag(args, None) {
        Err(error) => Err(ForwardError::Arguments(error)),
        Ok((mount, rest)) => if rest.len() != 1 {
            Err(ForwardError::StopUsage)
        } else {
            Ok((mount, rest[0]))
        },
    }
}

/// The mount and the word that arguments name to give up ports.
pub fn parse_stop_request(args: &Vec<String>) -> (request: Result<
    (Option<String>, String),
    ForwardError,
>)
    ensures
        match request {
            Ok((mount, word)) => stop_request(views(args@)) == Ok::<
                (Option<Seq<char>>, Seq<char>),
                ForwardError,
            >((optional(mount), word@)),
            Err(error) => stop_request(views(args@)) == Err::<
                (Option<Seq<char>>, Seq<char>),
                ForwardError,
            >(error),
        },
{
    match extract_mount_flag(args) {
        Err(error) => Err(ForwardError::Arguments(error)),
        Ok((mount, rest)) => {
            assert(views(rest@).len() == rest.len());
            if rest.len() != 1 {
                return Err(ForwardError::StopUsage);
            }
            assert(views(rest@)[0] == rest@[0]@);
            Ok((mount, rest[0].clone()))
        },
    }
}

/// Which forwarded ports a word names: all of them, or the one at a port of this computer.
pub open spec fn stop_target(word: Seq<char>) -> Result<StopTarget, ForwardError> {
    if same_ignoring_case(word, "all"@) {
        Ok(StopTarget::All)
    } else {
        match port_of(word) {
            Some(port) => Ok(StopTarget::Port(port as u16)),
            None => Err(ForwardError::LocalPortInvalid(port_fault(word))),
        }
    }
}

/// Which forwarded ports a word names.
pub fn parse_stop_target(word: &str) -> (target: Result<StopTarget, ForwardError>)
    ensures
        target == stop_target(word@),
{
    if equal_ignoring_case(word, "all") {
        Ok(StopTarget::All)
    } else {
        match parse_port(word) {
            Ok(port) => Ok(StopTarget::Port(port)),
            Err(fault) => Err(ForwardError::LocalPortInvalid(fault)),
        }
    }
}

/// Whether a forwarded port is to be given up.
pub open spec fn is_target(target: StopTarget, state: ForwardState) -> bool {
    match target {
        StopTarget::All => true,
        StopTarget::Port(port) => state.local_port == port,
    }
}

/// The places of the forwarded ports that are to be given up.
pub open spec fn target_places(states: Seq<ForwardState>, target: StopTarget) -> Seq<int>
    decreases states.len(),
{
    if states.len() == 0 {
        Seq::empty()
    } else if is_target(target, states.last()) {
        target_places(states.drop_last(), target).push(states.len() - 1)
    } else {
        target_places(states.drop_last(), target)
    }
}

/// The places of the forwarded ports that are to be given up; an error where there is none.
pub fn select_targets(states: &Vec<ForwardState>, target: StopTarget) -> (places: Result<
    Vec<usize>,
    ForwardError,
>)
    ensures
        match places {
            Ok(places) => places.len() > 0 && places@.len() == target_places(states@, target).len()
                && forall|i: int|
                0 <= i < places@.len() ==> #[trigger] places@[i] == target_places(
                    states@,
                    target,
                )[i] && places@[i] < states.len(),
            Err(error) => error == ForwardError::NoMatch && target_places(states@, target).len()
                == 0,
        },
{
    let mut places: Vec<usize> = Vec::new();
    let mut i: usize = 0;
    assert(states@.take(0) =~= Seq::empty());
    while i < states.len()
        invariant
            i <= states.len(),
            places@.len() == target_places(states@.take(i as int), target).len(),
            forall|k: int|
                0 <= k < places@.len() ==> #[trigger] places@[k] == target_places(
                    states@.take(i as int),
                    target,
                )[k] && places@[k] < states.len(),
        decreases states.len() - i,
    {
        assert(states@.take(i + 1).drop_last() =~= states@.take(i as int));
        assert(states@.take(i + 1).last() == states@[i as int]);
        let hit = match target {
            StopTarget::All => true,
            StopTarget::Port(port) => states[i].local_port == port,
        };
        if hit {
            places.push(i);
        }
        i += 1;
    }
    assert(states@.take(i as int) =~= states@);
    if places.len() == 0 {
        Err(ForwardError::NoMatch)
    } else {
        Ok(places)
    }
}

/// The script that prints the command line of a process.
pub fn command_line_script(pid: u32) -> (script: String)
    ensures
        script@ == "$p=Get-CimInstance Win32_Process -Filter \"ProcessId = "@ + decimal(pid as nat)
            + "\" -ErrorAction SilentlyContinue; if($p){$p.CommandLine}"@,
{
    let mut script = "$p=Get-CimInstance Win32_Process -Filter \"ProcessId = ".to_string();
    push_decimal(&mut script, pid as u64);
    script.append("\" -ErrorAction SilentlyContinue; if($p){$p.CommandLine}");
    script
}

/// Whether a command line is that of the ssh that forwards a port.
pub open spec fn forwards(command_line: Seq<char>, state: ForwardState) -> bool {
    let small = ascii_lower(command_line);
    has_text(small, "ssh"@) && has_text(small, forward_text(state.local_port, state.remote_port))
}

/// Whether the process that is remembered for a port still forwards it. A process whose
/// command line cannot be read does not.
pub fn forward_process_matches(state: &ForwardState, command_line: Option<&str>) -> (yes: bool)
    ensures
        yes == (command_line matches Some(line) && forwards(line@, *state)),
{
    match command_line {
        None => false,
        Some(line) => {
            let small = lowered(line);
            contains_text(small.as_str(), "ssh") && contains_text(
                small.as_str(),
                forward_spec_text(state.local_port, state.remote_port).as_str(),
            )
        },
    }
}

/// The arguments with which `taskkill.exe` ends the ssh of a forwarded port; nothing where
/// the process that is remembered is not that ssh any more.
pub fn taskkill_arguments(state: &ForwardState, command_line: Option<&str>) -> (arguments: Option<
    Vec<String>,
>)
    ensures
        match arguments {
            Some(arguments) => command_line is Some && forwards(command_line->0@, *state) && views(
                arguments@,
            ) == seq!["/PID"@, decimal(state.pid as nat), "/T"@, "/F"@],
            None => !(command_line is Some && forwards(command_line->0@, *state)),
        },
{
    if !forward_process_matches(state, command_line) {
        return None;
    }
    let mut arguments: Vec<String> = Vec::new();
    assert(views(arguments@) =~= Seq::empty());
    push_argument(&mut arguments, "/PID");
    push_argument(&mut arguments, decimal_text(state.pid as u64).as_str());
    push_argument(&mut arguments, "/T");
    push_argument(&mut arguments, "/F");
    Some(arguments)
}

/// The line of a forwarded port in a listing.
pub fn forward_line(state: &ForwardState, active: bool) -> (line: String)
    ensures
        line@ == decimal(state.local_port as nat) + "\t"@ + decimal(state.remote_port as nat)
            + "\t"@ + decimal(state.pid as nat) + "\t"@ + (if active {
            "running"@
        } else {
            "stale"@
        }),
{
    let mut line = decimal_text(state.local_port as u64);
    line.append("\t");
    push_decimal(&mut line, state.remote_port as u64);
    line.append("\t");
    push_decimal(&mut line, state.pid as u64);
    line.append("\t");
    if active {
        line.append("running");
    } else {
        line.append("stale");
    }
    line
}

/// What is said of a port that was given up.
pub fn stopped_notice(state: &ForwardState) -> (text: String)
    ensures
        text@ == "Stopped forward localhost:"@ + decimal(state.local_port as nat) + "."@,
{
    let mut text = "Stopped forward localhost:".to_string();
    push_decimal(&mut text, state.local_port as u64);
    text.append(".");
    text
}

/// A forwarded port is reached only from this computer, leads only to the server itself, and
/// is given up where it cannot be had.
pub proof fn law_forward_stays_on_loopback(
    record: MountRecord,
    access: AccessView,
    local_port: u16,
    remote_port: u16,
)
    ensures
        ({
            let arguments = forward_argument_texts(record, access, local_port, remote_port);
            &&& passes(arguments, "-L"@, forward_text(local_port, remote_port))
            &&& passes(arguments, "-o"@, "ExitOnForwardFailure=yes"@)
        }),
        starts_with(forward_text(local_port, remote_port), "127.0.0.1:"@),
        has_text(
            forward_text(local_port, remote_port),
            ":127.0.0.1:"@ + decimal(remote_port as nat),
        ),
{
    let arguments = forward_argument_texts(record, access, local_port, remote_port);
    let n = ssh_options(record, access).len() as int;
    assert(arguments[n + 1] == "-L"@);
    assert(arguments[n + 2] == forward_text(local_port, remote_port));
    assert(arguments[n + 3] == "-o"@);
    assert(arguments[n + 4] == "ExitOnForwardFailure=yes"@);
    let text = forward_text(local_port, remote_port);
    let head = "127.0.0.1:"@;
    let tail = ":127.0.0.1:"@ + decimal(remote_port as nat);
    assert(text.subrange(0, head.len() as int) =~= head);
    let at = (head.len() + decimal(local_port as nat).len()) as int;
    assert(text.subrange(at, at + tail.len()) =~= tail);
    assert(occurs_at(text, tail, at));
}

proof fn lemma_state_name_is_plain(local_port: u16)
    ensures
        is_plain_name(decimal(local_port as nat) + ".json"@),
{
    let digits = decimal(local_port as nat);
    let name = digits + ".json"@;
    law_decimal_reads_back(local_port as nat);
    reveal_strlit(".json");
    assert forall|i: int| 0 <= i < name.len() implies !is_separator(#[trigger] name[i]) && name[i]
        != ':' by {
        if i < digits.len() {
            assert(digit_value(digits[i], 10) is Some);
        } else {
            assert(name[i] == ".json"@[i - digits.len()]);
        }
    }
    assert(name.len() >= 6);
    assert(seq!['.'].len() == 1 && seq!['.', '.'].len() == 2);
    assert(name != seq!['.'] && name != seq!['.', '.']);
}

/// Each forwarded port is remembered in a file of its own.
pub proof fn law_forwards_are_kept_apart(data_dir: Seq<char>, a: u16, b: u16)
    requires
        state_file(data_dir, a) == state_file(data_dir, b),
    ensures
        a == b,
{
    lemma_state_name_is_plain(a);
    lemma_state_name_is_plain(b);
    law_joined_names_stay_apart(
        state_directory(data_dir),
        decimal(a as nat) + ".json"@,
        decimal(b as nat) + ".json"@,
    );
    reveal_strlit(".json");
    let left = decimal(a as nat);
    let right = decimal(b as nat);
    assert((left + ".json"@).take(left.len() as int) =~= left);
    assert((right + ".json"@).take(right.len() as int) =~= right);
    law_decimal_reads_back(a as nat);
    law_decimal_reads_back(b as nat);
}

/// A port that is written in decimal is read back, with or without a plus sign, and whatever is
/// read is a port.
pub proof fn law_port_is_read(port: u16, text: Seq<char>)
    ensures
        port > 0 ==> port_of(decimal(port as nat)) == Some(port as nat),
        port > 0 ==> port_of("+"@ + decimal(port as nat)) == Some(port as nat),
        port_of(decimal(0)) is None,
        port_of(text) matches Some(found) ==> 1 <= found <= 65535,
{
    let digits = decimal(port as nat);
    law_decimal_reads_back(port as nat);
    law_decimal_reads_back(0);
    reveal_strlit("+");
    assert(("+"@ + digits).subrange(0, 1) =~= "+"@);
    assert(behind_plus("+"@ + digits) =~= digits);
    assert(!starts_with(digits, "+"@)) by {
        if starts_with(digits, "+"@) {
            assert(digits.subrange(0, 1)[0] == digits[0]);
            assert(digit_value(digits[0], 10) is Some);
        }
    }
    let zero = decimal(0);
    assert(!starts_with(zero, "+"@)) by {
        if starts_with(zero, "+"@) {
            assert(zero.subrange(0, 1)[0] == zero[0]);
            assert(digit_value(zero[0], 10) is Some);
        }
    }
}

proof fn lemma_digits_are_no_flag(port: u16)
    ensures
        decimal(port as nat) != "--mount"@,
        !same_ignoring_case(decimal(port as nat), "all"@),
{
    let digits = decimal(port as nat);
    law_decimal_reads_back(port as nat);
    reveal_strlit("--mount");
    reveal_strlit("all");
    assert(digit_value(digits[0], 10) is Some);
    assert("--mount"@[0] == '-' && "all"@[0] == 'a');
    assert(ascii_lower(digits)[0] == lower_char(digits[0]));
    assert(ascii_lower("all"@)[0] == 'a');
}

/// A port of the server is asked for by its number, and the port of this computer by a second
/// one; the mount may be named. No number, three of them, and what is no port are refused.
pub proof fn law_forward_is_asked_for(
    remote: u16,
    local: u16,
    mount: Seq<char>,
    args: Seq<Seq<char>>,
)
    requires
        remote > 0,
        local > 0,
        !args.contains("--mount"@),
    ensures
        ({
            let r = decimal(remote as nat);
            let l = decimal(local as nat);
            let zero = decimal(0);
            &&& start_request(seq![r]) == Ok::<(Option<Seq<char>>, nat, Option<nat>), ForwardError>(
                (None, remote as nat, None),
            )
            &&& start_request(seq![r, l]) == Ok::<
                (Option<Seq<char>>, nat, Option<nat>),
                ForwardError,
            >((None, remote as nat, Some(local as nat)))
            &&& start_request(seq![r, l, "--mount"@, mount]) == Ok::<
                (Option<Seq<char>>, nat, Option<nat>),
                ForwardError,
            >((Some(mount), remote as nat, Some(local as nat)))
            &&& start_request(seq!["--mount"@, mount, r]) == Ok::<
                (Option<Seq<char>>, nat, Option<nat>),
                ForwardError,
            >((Some(mount), remote as nat, None))
            &&& args.len() == 0 || args.len() > 2 ==> start_request(args) == Err::<
                (Option<Seq<char>>, nat, Option<nat>),
                ForwardError,
            >(ForwardError::StartUsage)
            &&& start_request(seq![zero, l]) == Err::<
                (Option<Seq<char>>, nat, Option<nat>),
                ForwardError,
            >(ForwardError::RemotePortInvalid(PortFault::Zero))
            &&& start_request(seq![r, zero]) == Err::<
                (Option<Seq<char>>, nat, Option<nat>),
                ForwardError,
            >(ForwardError::LocalPortInvalid(PortFault::Zero))
        }),
{
    let r = decimal(remote as nat);
    let l = decimal(local as nat);
    let zero = decimal(0);
    let none = Seq::<Seq<char>>::empty();
    law_port_is_read(remote, r);
    law_port_is_read(local, l);
    lemma_digits_are_no_flag(remote);
    lemma_digits_are_no_flag(local);
    lemma_digits_are_no_flag(0);
    law_decimal_reads_back(0);
    assert(port_fault(zero) == PortFault::Zero) by {
        reveal_strlit("+");
        assert(!starts_with(zero, "+"@)) by {
            if starts_with(zero, "+"@) {
                assert(zero.subrange(0, 1)[0] == zero[0]);
                assert(digit_value(zero[0], 10) is Some);
            }
        }
    }
    law_mount_is_named_anywhere(seq![r], mount, none, none);
    assert(seq![r] + none =~= seq![r]);
    law_mount_is_named_anywhere(seq![r, l], mount, none, none);
    assert(seq![r, l] + none =~= seq![r, l]);
    assert(seq![r, l] + seq!["--mount"@, mount] + none =~= seq![r, l, "--mount"@, mount]);
    law_mount_is_named_anywhere(none, mount, seq![r], none);
    assert(none + seq!["--mount"@, mount] + seq![r] =~= seq!["--mount"@, mount, r]);
    assert(none + seq![r] =~= seq![r]);
    law_mount_is_named_anywhere(args, mount, none, none);
    assert(args + none =~= args);
    law_mount_is_named_anywhere(seq![zero, l], mount, none, none);
    assert(seq![zero, l] + none =~= seq![zero, l]);
    law_mount_is_named_anywhere(seq![r, zero], mount, none, none);
    assert(seq![r, zero] + none =~= seq![r, zero]);
}

/// A port that was asked for is never exchanged for another: it is used where it is free and
/// refused where it is not. Without one the port of the server is tried, and any other only
/// where that one is taken.
pub proof fn law_asked_port_is_kept(remote_port: u16, asked: u16, free: bool)
    ensures
        port_choice(remote_port, Some(asked), true) == PortChoice::Use(asked),
        port_choice(remote_port, Some(asked), false) == PortChoice::Taken(asked),
        port_choice(remote_port, None, true) == PortChoice::Use(remote_port),
        port_choice(remote_port, None, false) == PortChoice::Any,
        preferred_port(remote_port, Some(asked)) == asked,
        preferred_port(remote_port, None) == remote_port,
{
}

/// Ports are given up by their number on this computer, or all at once by a word in whatever
/// case.
pub proof fn law_stop_names_its_ports(port: u16, word: Seq<char>)
    ensures
        port > 0 ==> stop_target(decimal(port as nat)) == Ok::<StopTarget, ForwardError>(
            StopTarget::Port(port),
        ),
        stop_target(word) == Ok::<StopTarget, ForwardError>(StopTarget::All) <==> ascii_lower(word)
            == "all"@,
        stop_target(word) is Err ==> stop_target(word) == Err::<StopTarget, ForwardError>(
            ForwardError::LocalPortInvalid(port_fault(word)),
        ) && port_of(word) is None,
{
    law_port_is_read(port, word);
    lemma_digits_are_no_flag(port);
    reveal_strlit("all");
    assert(ascii_lower("all"@) =~= "all"@);
}

proof fn lemma_target_places(states: Seq<ForwardState>, target: StopTarget)
    ensures
        forall|k: int|
            0 <= k < target_places(states, target).len() ==> 0 <= #[trigger] target_places(
                states,
                target,
            )[k] < states.len() && is_target(target, states[target_places(states, target)[k]]),
        forall|i: int|
            0 <= i < states.len() && is_target(target, #[trigger] states[i]) ==> target_places(
                states,
                target,
            ).contains(i),
        forall|j: int, k: int|
            0 <= j < k < target_places(states, target).len() ==> #[trigger] target_places(
                states,
                target,
            )[j] < #[trigger] target_places(states, target)[k],
    decreases states.len(),
{
    let places = target_places(states, target);
    if states.len() > 0 {
        let head = states.drop_last();
        let last = states.len() - 1;
        let before = target_places(head, target);
        lemma_target_places(head, target);
        assert(states[last] == states.last());
        assert forall|k: int| 0 <= k < before.len() implies 0 <= #[trigger] before[k] < last
            && is_target(target, states[before[k]]) by {
            assert(head[before[k]] == states[before[k]]);
        }
        assert forall|i: int| 0 <= i < last && is_target(target, #[trigger] states[i]) implies before.contains(
            i,
        ) by {
            assert(head[i] == states[i]);
        }
        if is_target(target, states.last()) {
            assert(places == before.push(last));
            assert forall|k: int| 0 <= k < places.len() implies 0 <= #[trigger] places[k]
                < states.len() && is_target(target, states[places[k]]) by {
                if k < before.len() {
                    assert(places[k] == before[k]);
                }
            }
            assert forall|i: int|
                0 <= i < states.len() && is_target(target, #[trigger] states[i]) implies places.contains(
                i,
            ) by {
                if i < last {
                    let k = before.index_of(i);
                    assert(places[k] == i);
                } else {
                    assert(places[before.len() as int] == i);
                }
            }
            assert forall|j: int, k: int| 0 <= j < k < places.len() implies #[trigger] places[j]
                < #[trigger] places[k] by {
                assert(places[j] == before[j]);
                if k < before.len() {
                    assert(places[k] == before[k]);
                }
            }
        } else {
            assert(places == before);
        }
    }
}

/// Just the ports that were asked for are given up, each of them once and in their order: all
/// of them, or those at one port of this computer.
pub proof fn law_only_asked_ports_are_given_up(states: Seq<ForwardState>, port: u16, at: int)
    requires
        0 <= at < states.len(),
    ensures
        target_places(states, StopTarget::All).contains(at),
        target_places(states, StopTarget::Port(port)).contains(at) <==> states[at].local_port
            == port,
        target_places(states, StopTarget::All).no_duplicates(),
        target_places(states, StopTarget::Port(port)).no_duplicates(),
        forall|j: int, k: int|
            0 <= j < k < target_places(states, StopTarget::All).len() ==> #[trigger] target_places(
                states,
                StopTarget::All,
            )[j] < #[trigger] target_places(states, StopTarget::All)[k],
{
    lemma_target_places(states, StopTarget::All);
    lemma_target_places(states, StopTarget::Port(port));
    let own = target_places(states, StopTarget::Port(port));
    assert(is_target(StopTarget::All, states[at]));
    assert(is_target(StopTarget::Port(port), states[at]) == (states[at].local_port == port));
    if own.contains(at) {
        let k = own.index_of(at);
        assert(own[k] == at);
    }
}

proof fn lemma_lower_parts(a: Seq<char>, b: Seq<char>)
    ensures
        ascii_lower(a + b) == ascii_lower(a) + ascii_lower(b),
{
    assert(ascii_lower(a + b) =~= ascii_lower(a) + ascii_lower(b));
}

proof fn lemma_forward_text_has_no_capitals(local_port: u16, remote_port: u16)
    ensures
        ascii_lower(forward_text(local_port, remote_port)) == forward_text(local_port, remote_port),
{
    let text = forward_text(local_port, remote_port);
    let l = decimal(local_port as nat);
    let r = decimal(remote_port as nat);
    let a = "127.0.0.1:"@;
    let b = ":127.0.0.1:"@;
    reveal_strlit("127.0.0.1:");
    reveal_strlit(":127.0.0.1:");
    law_decimal_reads_back(local_port as nat);
    law_decimal_reads_back(remote_port as nat);
    assert forall|i: int| 0 <= i < text.len() implies lower_char(#[trigger] text[i])
        == text[i] by {
        if i < a.len() {
            assert(text[i] == a[i]);
        } else if i < a.len() + l.len() {
            assert(text[i] == l[i - a.len()]);
            assert(digit_value(l[i - a.len()], 10) is Some);
        } else if i < a.len() + l.len() + b.len() {
            assert(text[i] == b[i - a.len() - l.len()]);
        } else {
            assert(text[i] == r[i - a.len() - l.len() - b.len()]);
            assert(digit_value(r[i - a.len() - l.len() - b.len()], 10) is Some);
        }
    }
    assert(ascii_lower(text) =~= text);
}

/// The process of a forwarded port is known by its command line: one that runs ssh, in whatever
/// case, and forwards just these two ports. One that lacks either is another process.
pub proof fn law_forward_is_known_by_its_command_line(
    state: ForwardState,
    ssh: Seq<char>,
    before: Seq<char>,
    between: Seq<char>,
    after: Seq<char>,
    line: Seq<char>,
)
    requires
        ascii_lower(ssh) == "ssh"@,
    ensures
        forwards(
            before + ssh + between + forward_text(state.local_port, state.remote_port) + after,
            state,
        ),
        !has_text(ascii_lower(line), "ssh"@) ==> !forwards(line, state),
        !has_text(ascii_lower(line), forward_text(state.local_port, state.remote_port))
            ==> !forwards(line, state),
{
    let text = forward_text(state.local_port, state.remote_port);
    let all = before + ssh + between + text + after;
    lemma_forward_text_has_no_capitals(state.local_port, state.remote_port);
    let rest = between + text + after;
    assert(all =~= before + (ssh + rest));
    lemma_lower_parts(before, ssh + rest);
    lemma_lower_parts(ssh, rest);
    assert(ascii_lower(all) =~= ascii_lower(before) + "ssh"@ + ascii_lower(rest));
    lemma_has_between(ascii_lower(before), "ssh"@, ascii_lower(rest));
    let front = before + ssh + between;
    assert(all =~= front + (text + after));
    lemma_lower_parts(front, text + after);
    lemma_lower_parts(text, after);
    assert(ascii_lower(all) =~= ascii_lower(front) + text + ascii_lower(after));
    lemma_has_between(ascii_lower(front), text, ascii_lower(after));
}

/// What a word asks to be done about ports: to list them, to give them up, or else to forward
/// one.
pub proof fn law_port_words_are_understood(word: Seq<char>)
    ensures
        action_of(None) == ForwardAction::List,
        action_of(Some(word)) == ForwardAction::List <==> ascii_lower(word) == "list"@,
        action_of(Some(word)) == ForwardAction::Stop <==> ascii_lower(word) == "stop"@,
{
    reveal_strlit("list");
    reveal_strlit("stop");
    assert(ascii_lower("list"@) =~= "list"@);
    assert(ascii_lower("stop"@) =~= "stop"@);
    assert("list"@[0] == 'l' && "stop"@[0] == 's');
}

/// A forwarded port is remembered in a file of the directory of forwarded ports, which lies in
/// that of the data of its mount.
pub proof fn law_forward_is_remembered_with_its_mount(data_dir: Seq<char>, local_port: u16)
    requires
        takes_names(data_dir),
    ensures
        parent(state_file(data_dir, local_port)) == Some(state_directory(data_dir)),
        relative_names(state_file(data_dir, local_port), state_directory(data_dir)) == Some(
            seq![decimal(local_port as nat) + ".json"@],
        ),
        state_directory(data_dir) == join_path(data_dir, "forwards"@),
{
    let name = decimal(local_port as nat) + ".json"@;
    lemma_state_name_is_plain(local_port);
    reveal_strlit("forwards");
    assert(is_plain_name("forwards"@));
    law_parent_undoes_join(data_dir, "forwards"@, name);
    law_joined_name_is_last_component(data_dir, "forwards"@);
    law_path_lies_at_itself(state_directory(data_dir));
    law_joined_name_is_last_name(state_directory(data_dir), state_directory(data_dir), name);
    assert(Seq::<Seq<char>>::empty().push(name) =~= seq![name]);
}

} // verus!
