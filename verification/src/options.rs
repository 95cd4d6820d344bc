//! The options of the command line, defined for and parsed by getopts.

use vstd::prelude::*;
use crate::cli::{flags_of, usage_brief, usage_brief_text, Flags};

verus! {

/// getopts' `Options`: the options that a command line may hold. Nothing
/// inside it is visible here.
#[verifier::external_type_specification]
#[verifier::external_body]
pub struct ExOptions(getopts::Options);

/// getopts' `Matches`: what parsing found on a command line. Nothing inside
/// it is visible here.
#[verifier::external_type_specification]
#[verifier::external_body]
pub struct ExMatches(getopts::Matches);

/// The option groups that `options` holds, in the order of their
/// definition. Of each group: the short name, the long name, the
/// description, the hint for the argument, and whether the option takes an
/// argument.
pub uninterp spec fn groups(options: getopts::Options) -> Seq<
    (Seq<char>, Seq<char>, Seq<char>, Seq<char>, bool),
>;

/// Whether `options` are plain: arguments are parsed in the style that
/// getopts starts with (options and free arguments mix, long names take two
/// dashes), and every group may occur at most once and either requires an
/// argument or takes none.
pub uninterp spec fn plain(options: getopts::Options) -> bool;

/// What `matches` holds: under each name that was defined, short or long,
/// what the command line gave for that option, in the order of the command
/// line; the argument where one came with it.
pub uninterp spec fn occurrences(matches: getopts::Matches) -> Map<
    Seq<char>,
    Seq<Option<Seq<char>>>,
>;

/// What getopts makes of the arguments `args` under plain options with the
/// groups `groups`: the occurrences under each name, or the failure in
/// words.
pub uninterp spec fn parsed(
    groups: Seq<(Seq<char>, Seq<char>, Seq<char>, Seq<char>, bool)>,
    args: Seq<Seq<char>>,
) -> Result<Map<Seq<char>, Seq<Option<Seq<char>>>>, Seq<char>>;

/// The usage that getopts writes for plain options with the groups
/// `groups` under the first line `brief`.
pub uninterp spec fn usage_text(
    groups: Seq<(Seq<char>, Seq<char>, Seq<char>, Seq<char>, bool)>,
    brief: Seq<char>,
) -> Seq<char>;

/// How every usage begins: the first line `brief`, an empty line, and the
/// heading of the options.
pub open spec fn usage_head(brief: Seq<char>) -> Seq<char> {
    brief + seq!['\n', '\n', 'O', 'p', 't', 'i', 'o', 'n', 's', ':', '\n']
}

/// The names under which the options of `groups` can be asked for: every
/// short and every long name that is not empty.
pub open spec fn names_of(groups: Seq<(Seq<char>, Seq<char>, Seq<char>, Seq<char>, bool)>) -> Set<
    Seq<char>,
> {
    Set::new(
        |name: Seq<char>|
            name.len() > 0 && exists|i: int|
                0 <= i < groups.len() && ((#[trigger] groups[i]).0 == name || groups[i].1 == name),
    )
}

/// Whether `short` and `long` can name one option: `short` is a single
/// printable ASCII character, and `long` has at least two characters.
pub open spec fn names_fit(short: Seq<char>, long: Seq<char>) -> bool {
    &&& short.len() == 1
    &&& 0x21 <= short[0] as u32 <= 0x7e
    &&& long.len() >= 2
}

/// getopts' `Options::new` makes plain options without any group.
pub assume_specification[ getopts::Options::new ]() -> (options: getopts::Options)
    ensures
        groups(options) == Seq::<(Seq<char>, Seq<char>, Seq<char>, Seq<char>, bool)>::empty(),
        plain(options),
;

/// getopts' `Options::optflag` adds, behind the groups that are there, one
/// for an option without argument that may occur at most once; its hint is
/// empty. It panics unless the short name is at most one byte and the long
/// name is empty or longer than one byte.
#[verifier::external_body]
fn define_flag(options: &mut getopts::Options, short: &str, long: &str, desc: &str)
    requires
        names_fit(short@, long@),
    ensures
        groups(*final(options)) == groups(*old(options)).push(
            (short@, long@, desc@, Seq::<char>::empty(), false),
        ),
        plain(*final(options)) == plain(*old(options)),
{
    options.optflag(short, long, desc);
}

/// getopts' `Options::optopt` adds, behind the groups that are there, one
/// for an option that requires an argument and may occur at most once. It
/// panics on the names on which `optflag` panics.
#[verifier::external_body]
fn define_option(options: &mut getopts::Options, short: &str, long: &str, desc: &str, hint: &str)
    requires
        names_fit(short@, long@),
    ensures
        groups(*final(options)) == groups(*old(options)).push(
            (short@, long@, desc@, hint@, true),
        ),
        plain(*final(options)) == plain(*old(options)),
{
    options.optopt(short, long, desc, hint);
}

/// getopts' `Options::parse` goes through the arguments and sorts what it
/// finds under the options that were defined; a name that was defined is a
/// name that the result can be asked for, and no other is. It panics where
/// a group has no name at all. A failure comes back in the words that its
/// `Display` gives it.
#[verifier::external_body]
fn parse_arguments(options: &getopts::Options, args: &Vec<String>) -> (r: Result<
    getopts::Matches,
    String,
>)
    requires
        plain(*options),
        forall|i: int|
            0 <= i < groups(*options).len() ==> (#[trigger] groups(*options)[i]).0.len() > 0
                || groups(*options)[i].1.len() > 0,
    ensures
        match r {
            Ok(matches) => {
                &&& parsed(groups(*options), args.deep_view()) == Ok::<
                    Map<Seq<char>, Seq<Option<Seq<char>>>>,
                    Seq<char>,
                >(occurrences(matches))
                &&& occurrences(matches).dom() == names_of(groups(*options))
            },
            Err(failure) => parsed(groups(*options), args.deep_view()) == Err::<
                Map<Seq<char>, Seq<Option<Seq<char>>>>,
                Seq<char>,
            >(failure@),
        },
{
    options.parse(args).map_err(|failure| failure.to_string())
}

/// getopts' `Matches::opt_present` tells whether the option of that name
/// occurred at all. It panics on a name that was not defined.
pub assume_specification[ getopts::Matches::opt_present ](
    matches: &getopts::Matches,
    name: &str,
) -> (present: bool)
    requires
        occurrences(*matches).contains_key(name@),
    ensures
        present == (occurrences(*matches)[name@].len() > 0),
;

/// getopts' `Matches::opt_str` gives the argument of the first occurrence
/// of the option of that name, where there is an occurrence and it has an
/// argument. It panics on a name that was not defined.
pub assume_specification[ getopts::Matches::opt_str ](
    matches: &getopts::Matches,
    name: &str,
) -> (value: Option<String>)
    requires
        occurrences(*matches).contains_key(name@),
    ensures
        match value {
            Some(text) => occurrences(*matches)[name@].len() > 0 && occurrences(
                *matches,
            )[name@][0] == Some(text@),
            None => occurrences(*matches)[name@].len() == 0 || occurrences(
                *matches,
            )[name@][0] is None,
        },
;

/// getopts' `Options::usage` writes `brief`, an empty line and the heading
/// `Options:`, then one row for each group in the order of definition.
pub assume_specification[ getopts::Options::usage ](
    options: &getopts::Options,
    brief: &str,
) -> (text: String)
    requires
        plain(*options),
    ensures
        text@ == usage_text(groups(*options), brief@),
        usage_head(brief@).is_prefix_of(text@),
;

/// The groups of this program's options: the help flag, the two mode
/// flags, and the options for the address and for the port.
pub open spec fn relay_groups() -> Seq<(Seq<char>, Seq<char>, Seq<char>, Seq<char>, bool)> {
    seq![
        ("h"@, "help"@, "Print help menu."@, Seq::<char>::empty(), false),
        ("s"@, "server"@, "Start chat in server mode."@, Seq::<char>::empty(), false),
        ("c"@, "client"@, "Start chat in client mode."@, Seq::<char>::empty(), false),
        ("a"@, "address"@, "Ip address. Default: [::], for a client 127.0.0.1"@, "<IP>"@, true),
        ("p"@, "port"@, "Port. Default: 5858"@, "<PORT>"@, true),
    ]
}

/// Whether the option `name` occurred among `found`.
pub open spec fn occurred(found: Map<Seq<char>, Seq<Option<Seq<char>>>>, name: Seq<char>) -> bool {
    found[name].len() > 0
}

/// The argument of the first occurrence of the option `name` among
/// `found`, if there is an occurrence and it has one.
pub open spec fn argument_of(
    found: Map<Seq<char>, Seq<Option<Seq<char>>>>,
    name: Seq<char>,
) -> Option<Seq<char>> {
    if found[name].len() > 0 {
        found[name][0]
    } else {
        None
    }
}

/// This program's options.
fn relay_options() -> (options: getopts::Options)
    ensures
        groups(options) == relay_groups(),
        plain(options),
{
    proof {
        reveal_strlit("h");
        reveal_strlit("help");
        reveal_strlit("s");
        reveal_strlit("server");
        reveal_strlit("c");
        reveal_strlit("client");
        reveal_strlit("a");
        reveal_strlit("address");
        reveal_strlit("p");
        reveal_strlit("port");
    }
    let mut options = getopts::Options::new();
    define_flag(&mut options, "h", "help", "Print help menu.");
    define_flag(&mut options, "s", "server", "Start chat in server mode.");
    define_flag(&mut options, "c", "client", "Start chat in client mode.");
    define_option(
        &mut options,
        "a",
        "address",
        "Ip address. Default: [::], for a client 127.0.0.1",
        "<IP>",
    );
    define_option(&mut options, "p", "port", "Port. Default: 5858", "<PORT>");
    assert(groups(options) =~= relay_groups());
    options
}

/// Every group of this program's options has its short name among the
/// names that can be asked for.
proof fn lemma_relay_names()
    ensures
        names_of(relay_groups()).contains("h"@),
        names_of(relay_groups()).contains("s"@),
        names_of(relay_groups()).contains("c"@),
        names_of(relay_groups()).contains("a"@),
        names_of(relay_groups()).contains("p"@),
        forall|i: int|
            0 <= i < relay_groups().len() ==> (#[trigger] relay_groups()[i]).0.len() > 0,
{
    reveal_strlit("h");
    reveal_strlit("s");
    reveal_strlit("c");
    reveal_strlit("a");
    reveal_strlit("p");
    let g = relay_groups();
    assert(g[0].0 == "h"@);
    assert(g[1].0 == "s"@);
    assert(g[2].0 == "c"@);
    assert(g[3].0 == "a"@);
    assert(g[4].0 == "p"@);
}

/// Parses the arguments of a run, the program's name not among them, into
/// its flags. A command line that getopts refuses gives the failure in
/// words.
pub fn parse_flags(args: &Vec<String>) -> (r: Result<Flags, String>)
    ensures
        match r {
            Ok(flags) => parsed(relay_groups(), args.deep_view()) is Ok && flags@ == flags_of(
                parsed(relay_groups(), args.deep_view())->Ok_0,
            ),
            Err(message) => parsed(relay_groups(), args.deep_view()) == Err::<
                Map<Seq<char>, Seq<Option<Seq<char>>>>,
                Seq<char>,
            >(message@),
        },
{
    let options = relay_options();
    proof {
        lemma_relay_names();
    }
    match parse_arguments(&options, args) {
        Ok(matches) => Ok(
            Flags {
                help: matches.opt_present("h"),
                server: matches.opt_present("s"),
                client: matches.opt_present("c"),
                address: matches.opt_str("a"),
                port: matches.opt_str("p"),
            },
        ),
        Err(message) => Err(message),
    }
}

/// The usage of the program called `program`: its first line, an empty
/// line, the heading of the options, and their rows as getopts writes them.
pub fn usage(program: &str) -> (text: String)
    ensures
        text@ == usage_text(relay_groups(), usage_brief_text(program@)),
        usage_head(usage_brief_text(program@)).is_prefix_of(text@),
{
    let options = relay_options();
    let brief = usage_brief(program);
    options.usage(brief.as_str())
}

} // verus!
