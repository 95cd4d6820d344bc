//! The process-level surface: which command the flags of a run select, and
//! the endpoint that it works on.

use vstd::prelude::*;
use vstd::string::StringExecFns;
use crate::options::{argument_of, occurred, parse_flags, parsed};

verus! {

/// The flags of one run, as the command line gave them.
#[derive(Clone, Debug, PartialEq, Eq)]
pub struct Flags {
    /// The help flag.
    pub help: bool,
    /// The flag that selects server mode.
    pub server: bool,
    /// The flag that selects client mode.
    pub client: bool,
    /// The address, where one was given.
    pub address: Option<String>,
    /// The port, where one was given.
    pub port: Option<String>,
}

/// The flags of one run as a mathematical value.
pub struct FlagsView {
    pub help: bool,
    pub server: bool,
    pub client: bool,
    pub address: Option<Seq<char>>,
    pub port: Option<Seq<char>>,
}

/// The text that may or may not be there, as a mathematical value.
pub open spec fn text_of(given: Option<String>) -> Option<Seq<char>> {
    match given {
        Some(s) => Some(s@),
        None => None,
    }
}

impl View for Flags {
    type V = FlagsView;

    open spec fn view(&self) -> FlagsView {
        FlagsView {
            help: self.help,
            server: self.server,
            client: self.client,
            address: text_of(self.address),
            port: text_of(self.port),
        }
    }
}

/// The flags that the occurrences `found` of the options amount to: a flag
/// is set where its option occurred, and the address and the port are the
/// arguments of their options.
pub open spec fn flags_of(found: Map<Seq<char>, Seq<Option<Seq<char>>>>) -> FlagsView {
    FlagsView {
        help: occurred(found, "h"@),
        server: occurred(found, "s"@),
        client: occurred(found, "c"@),
        address: argument_of(found, "a"@),
        port: argument_of(found, "p"@),
    }
}

/// What a run is to do.
#[derive(Clone, Debug, PartialEq, Eq)]
pub enum Command {
    /// The command line does not parse: report `message` and exit with
    /// status 1.
    Invalid { message: String },
    /// No argument was given: report it and exit with status 1.
    NoArguments,
    /// Print the usage and exit with status 0.
    Help,
    /// Both modes were selected: report it and exit with status 1.
    Conflict,
    /// Relay between the clients that connect to `endpoint`.
    Serve { endpoint: String },
    /// Connect to the relay at `endpoint`.
    Connect { endpoint: String },
    /// No mode was selected: there is nothing to do.
    NoMode,
}

/// A command as a mathematical value.
pub enum CommandView {
    Invalid { message: Seq<char> },
    NoArguments,
    Help,
    Conflict,
    Serve { endpoint: Seq<char> },
    Connect { endpoint: Seq<char> },
    NoMode,
}

impl View for Command {
    type V = CommandView;

    open spec fn view(&self) -> CommandView {
        match *self {
            Command::Invalid { message } => CommandView::Invalid { message: message@ },
            Command::NoArguments => CommandView::NoArguments,
            Command::Help => CommandView::Help,
            Command::Conflict => CommandView::Conflict,
            Command::Serve { endpoint } => CommandView::Serve { endpoint: endpoint@ },
            Command::Connect { endpoint } => CommandView::Connect { endpoint: endpoint@ },
            Command::NoMode => CommandView::NoMode,
        }
    }
}

/// The address that a server binds where none is given: every interface.
pub open spec fn default_bind_address() -> Seq<char> {
    seq!['[', ':', ':', ']']
}

/// The address that a client connects to where none is given: this host.
pub open spec fn default_target_address() -> Seq<char> {
    seq!['1', '2', '7', '.', '0', '.', '0', '.', '1']
}

/// The port that is used where none is given.
pub open spec fn default_port() -> Seq<char> {
    seq!['5', '8', '5', '8']
}

/// `given` where there is one, and `default` where there is none.
pub open spec fn or_default(given: Option<Seq<char>>, default: Seq<char>) -> Seq<char> {
    match given {
        Some(s) => s,
        None => default,
    }
}

/// An endpoint in writing: the address, a colon, the port.
pub open spec fn endpoint_text(address: Seq<char>, port: Seq<char>) -> Seq<char> {
    address + seq![':'] + port
}

/// The command that `flags` select in a run that was given `arg_count`
/// arguments, the program's name not counted.
///
/// A run without arguments is refused. Otherwise the help flag wins, then
/// the two modes together are refused, then the mode decides; the address
/// and the port each replace the default of the mode.
pub open spec fn command_of(arg_count: nat, flags: FlagsView) -> CommandView {
    if arg_count == 0 {
        CommandView::NoArguments
    } else if flags.help {
        CommandView::Help
    } else if flags.server && flags.client {
        CommandView::Conflict
    } else if flags.server {
        CommandView::Serve {
            endpoint: endpoint_text(
                or_default(flags.address, default_bind_address()),
                or_default(flags.port, default_port()),
            ),
        }
    } else if flags.client {
        CommandView::Connect {
            endpoint: endpoint_text(
                or_default(flags.address, default_target_address()),
                or_default(flags.port, default_port()),
            ),
        }
    } else {
        CommandView::NoMode
    }
}

/// The status with which a run of `command` ends before it serves or
/// connects, if it ends there.
pub open spec fn early_exit(command: CommandView) -> Option<int> {
    match command {
        CommandView::Invalid { .. } => Some(1),
        CommandView::NoArguments => Some(1),
        CommandView::Help => Some(0),
        CommandView::Conflict => Some(1),
        CommandView::NoMode => Some(0),
        CommandView::Serve { .. } => None,
        CommandView::Connect { .. } => None,
    }
}

/// Writes an endpoint: the address, a colon, the port.
pub fn endpoint(address: &str, port: &str) -> (text: String)
    ensures
        text@ == endpoint_text(address@, port@),
{
    proof {
        reveal_strlit(":");
    }
    let mut text = String::from_str(address);
    text.append(":");
    text.append(port);
    assert(":"@ =~= seq![':']);
    text
}

/// The endpoint of a mode: what was given, and the defaults for the rest.
fn endpoint_or(address: &Option<String>, default_address: &str, port: &Option<String>) -> (text:
    String)
    ensures
        text@ == endpoint_text(
            or_default(text_of(*address), default_address@),
            or_default(text_of(*port), default_port()),
        ),
{
    proof {
        reveal_strlit("5858");
    }
    assert("5858"@ =~= default_port());
    let a: &str = match address {
        Some(s) => s.as_str(),
        None => default_address,
    };
    let p: &str = match port {
        Some(s) => s.as_str(),
        None => "5858",
    };
    endpoint(a, p)
}

/// Selects the command of a run from its flags and from the number of
/// arguments that it was given, the program's name not counted.
pub fn select_command(arg_count: usize, flags: &Flags) -> (command: Command)
    ensures
        command@ == command_of(arg_count as nat, flags@),
{
    proof {
        reveal_strlit("[::]");
        reveal_strlit("127.0.0.1");
    }
    assert("[::]"@ =~= default_bind_address());
    assert("127.0.0.1"@ =~= default_target_address());
    if arg_count == 0 {
        Command::NoArguments
    } else if flags.help {
        Command::Help
    } else if flags.server && flags.client {
        Command::Conflict
    } else if flags.server {
        Command::Serve { endpoint: endpoint_or(&flags.address, "[::]", &flags.port) }
    } else if flags.client {
        Command::Connect { endpoint: endpoint_or(&flags.address, "127.0.0.1", &flags.port) }
    } else {
        Command::NoMode
    }
}

/// The command of a command line on which getopts found `outcome` among
/// `arg_count` arguments: a failure makes the command line invalid, and
/// what was found selects the command by its flags.
pub open spec fn command_line_of(
    outcome: Result<Map<Seq<char>, Seq<Option<Seq<char>>>>, Seq<char>>,
    arg_count: nat,
) -> CommandView {
    match outcome {
        Ok(found) => command_of(arg_count, flags_of(found)),
        Err(message) => CommandView::Invalid { message },
    }
}

/// The command of a run that was given the arguments `args`, the program's
/// name not among them.
pub fn command_line(args: &Vec<String>) -> (command: Command)
    ensures
        command@ == command_line_of(
            parsed(crate::options::relay_groups(), args.deep_view()),
            args@.len(),
        ),
{
    match parse_flags(args) {
        Ok(flags) => select_command(args.len(), &flags),
        Err(message) => Command::Invalid { message },
    }
}

/// The status with which a run of `command` ends before it serves or
/// connects: 1 for a refused command line, 0 after the help and where there
/// is nothing to do, and none for the two modes.
pub fn exit_status(command: &Command) -> (status: Option<i32>)
    ensures
        match status {
            Some(n) => early_exit(command@) == Some(n as int),
            None => early_exit(command@) is None,
        },
{
    match command {
        Command::Invalid { .. } => Some(1),
        Command::NoArguments => Some(1),
        Command::Help => Some(0),
        Command::Conflict => Some(1),
        Command::NoMode => Some(0),
        Command::Serve { .. } => None,
        Command::Connect { .. } => None,
    }
}

/// The first line of the usage: `Usage: ` and the program's name, then
/// ` [options]`.
pub open spec fn usage_brief_text(program: Seq<char>) -> Seq<char> {
    seq!['U', 's', 'a', 'g', 'e', ':', ' '] + program + seq![
        ' ',
        '[',
        'o',
        'p',
        't',
        'i',
        'o',
        'n',
        's',
        ']',
    ]
}

/// Writes the first line of the usage for the program called `program`.
pub fn usage_brief(program: &str) -> (text: String)
    ensures
        text@ == usage_brief_text(program@),
{
    proof {
        reveal_strlit("Usage: ");
        reveal_strlit(" [options]");
    }
    let mut text = String::from_str("Usage: ");
    text.append(program);
    text.append(" [options]");
    assert("Usage: "@ =~= seq!['U', 's', 'a', 'g', 'e', ':', ' ']);
    assert(" [options]"@ =~= seq![' ', '[', 'o', 'p', 't', 'i', 'o', 'n', 's', ']']);
    text
}

} // verus!
