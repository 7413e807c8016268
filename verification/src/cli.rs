//! The command line: what the server's command accepts, and what was given.

use crate::text::texts;
use vstd::prelude::*;

verus! {

/// What an option takes.
#[verifier::ext_equal]
pub enum KindView {
    /// A value; this one where none is given.
    Value(Seq<char>),
    /// Nothing: the option is on where it is given.
    Switch,
}

/// An option of a command.
#[verifier::ext_equal]
pub struct OptionView {
    pub id: Seq<char>,
    pub long: Seq<char>,
    pub short: char,
    pub help: Seq<char>,
    pub kind: KindView,
}

/// A command and its options.
#[verifier::ext_equal]
pub struct CommandView {
    pub name: Seq<char>,
    pub about: Seq<char>,
    pub options: Seq<OptionView>,
}

/// What was given on a command line, defaults included: strings and truth values by option.
#[verifier::ext_equal]
pub struct MatchesView {
    pub strings: Map<Seq<char>, Seq<char>>,
    pub flags: Map<Seq<char>, bool>,
}

impl OptionView {
    /// The option can be told from the one for help, which every command has, and from a value.
    pub open spec fn usable(self) -> bool {
        &&& self.id != "help"@
        &&& self.long != "help"@
        &&& self.long.len() > 0
        &&& self.long[0] != '-'
        &&& self.short != 'h'
        &&& self.short != '-'
    }

    /// The two options cannot be confused.
    pub open spec fn differs_from(self, other: OptionView) -> bool {
        self.id != other.id && self.long != other.long && self.short != other.short
    }
}

impl CommandView {
    /// The command with one more option.
    pub open spec fn with(self, option: OptionView) -> CommandView {
        CommandView { options: self.options.push(option), ..self }
    }

    /// Every option can be told from every other.
    pub open spec fn sound(self) -> bool {
        &&& forall|i: int| 0 <= i < self.options.len() ==> (#[trigger] self.options[i]).usable()
        &&& forall|i: int, j: int|
            0 <= i < j < self.options.len() ==> (#[trigger] self.options[i]).differs_from(
                #[trigger] self.options[j],
            )
    }
}

impl MatchesView {
    /// Every option of the command has a value of its type.
    pub open spec fn covers(self, command: CommandView) -> bool {
        forall|i: int|
            0 <= i < command.options.len() ==> match (#[trigger] command.options[i]).kind {
                KindView::Value(_) => self.strings.contains_key(command.options[i].id),
                KindView::Switch => self.flags.contains_key(command.options[i].id),
            }
    }

    /// Every option of the command is as it is where nothing is given: a value is its default,
    /// and a switch is off.
    pub open spec fn defaults_of(self, command: CommandView) -> bool {
        forall|i: int|
            0 <= i < command.options.len() ==> match (#[trigger] command.options[i]).kind {
                KindView::Value(default) => self.strings[command.options[i].id] == default,
                KindView::Switch => !self.flags[command.options[i].id],
            }
    }
}

/// The command that starts the server.
pub open spec fn mcp_command() -> CommandView {
    CommandView {
        name: "mcp"@,
        about: "Starts the MCP server over stdio"@,
        options: seq![
            OptionView {
                id: "services"@,
                long: "services"@,
                short: 's',
                help: "Comma separated list of services to expose (e.g., drive,gmail,all)"@,
                kind: KindView::Value(""@),
            },
            OptionView {
                id: "workflows"@,
                long: "workflows"@,
                short: 'w',
                help: "Expose workflows as tools"@,
                kind: KindView::Switch,
            },
            OptionView {
                id: "helpers"@,
                long: "helpers"@,
                short: 'e',
                help: "Expose service-specific helpers as tools"@,
                kind: KindView::Switch,
            },
        ],
    }
}

/// `clap::Command`, a command that can be matched against arguments.
#[verifier::external_type_specification]
#[verifier::external_body]
pub struct ExCommand(clap::Command);

/// `clap::ArgMatches`, the options and values that were given.
#[verifier::external_type_specification]
#[verifier::external_body]
pub struct ExArgMatches(clap::ArgMatches);

/// What a command is made of, where it has a name, a line about it, options that either take one
/// string or are switches, and nothing else.
pub uninterp spec fn command_view(command: clap::Command) -> Option<CommandView>;

/// The options whose first value is a string, each with that string.
pub uninterp spec fn string_args(matches: clap::ArgMatches) -> Map<Seq<char>, Seq<char>>;

/// The options whose first value is a truth value, each with that value.
pub uninterp spec fn flag_args(matches: clap::ArgMatches) -> Map<Seq<char>, bool>;

/// What `clap` reads out of arguments, the first of which is the name of the program, where they
/// match the command.
pub uninterp spec fn given(command: CommandView, args: Seq<Seq<char>>) -> Option<MatchesView>;

/// A command without options, by `clap::Command::new` and `clap::Command::about`. Trusted: it
/// has this name and this line about it, and nothing else.
#[verifier::external_body]
fn new_command(name: &'static str, about: &'static str) -> (r: clap::Command)
    ensures
        command_view(r) == Some(CommandView { name: name@, about: about@, options: Seq::empty() }),
{
    clap::Command::new(name).about(about)
}

/// Adds an option that takes a string, by `clap::Command::arg` with a `clap::Arg` that has a
/// default value. Trusted: the option comes behind the others, and nothing else changes.
#[verifier::external_body]
fn with_value(
    command: clap::Command,
    id: &'static str,
    long: &'static str,
    short: char,
    help: &'static str,
    default: &'static str,
) -> (r: clap::Command)
    requires
        short != '-',
    ensures
        command_view(command) matches Some(c) ==> command_view(r) == Some(
            c.with(
                OptionView {
                    id: id@,
                    long: long@,
                    short,
                    help: help@,
                    kind: KindView::Value(default@),
                },
            ),
        ),
{
    command.arg(
        clap::Arg::new(id).long(long).short(short).help(help).default_value(default),
    )
}

/// Adds a switch, by `clap::Command::arg` with a `clap::Arg` whose action is
/// `clap::ArgAction::SetTrue`. Trusted: the switch comes behind the other options, and nothing
/// else changes.
#[verifier::external_body]
fn with_switch(
    command: clap::Command,
    id: &'static str,
    long: &'static str,
    short: char,
    help: &'static str,
) -> (r: clap::Command)
    requires
        short != '-',
    ensures
        command_view(command) matches Some(c) ==> command_view(r) == Some(
            c.with(
                OptionView { id: id@, long: long@, short, help: help@, kind: KindView::Switch },
            ),
        ),
{
    command.arg(
        clap::Arg::new(id).long(long).short(short).action(clap::ArgAction::SetTrue).help(help),
    )
}

/// Matches arguments against a command, by `clap::Command::try_get_matches_from`. Trusted:
/// whether they match, and what is read out of them, depends on the command and the arguments
/// alone; an option that takes a string has one, if only its default, and a switch is on or off.
/// Arguments that hold at most the name of the program match, and leave every option as it is by
/// default.
#[verifier::external_body]
fn match_args(command: clap::Command, args: &[String]) -> (r: Option<clap::ArgMatches>)
    requires
        command_view(command) matches Some(c) && c.sound(),
    ensures
        match r {
            Some(m) => {
                let found = MatchesView { strings: string_args(m), flags: flag_args(m) };
                &&& given(command_view(command)->0, texts(args@)) == Some(found)
                &&& found.covers(command_view(command)->0)
                &&& args@.len() <= 1 ==> found.defaults_of(command_view(command)->0)
            },
            None => given(command_view(command)->0, texts(args@)) is None,
        },
        args@.len() <= 1 ==> r is Some,
{
    command.try_get_matches_from(args).ok()
}

/// The string given for an option, by `clap::ArgMatches::try_get_one`. Trusted: it reads the
/// matches and changes nothing; an option that is undefined, absent or of another type has none.
#[verifier::external_body]
pub(crate) fn string_arg(matches: &clap::ArgMatches, id: &str) -> (r: Option<String>)
    ensures
        match r {
            Some(s) => string_args(*matches).contains_key(id@) && string_args(*matches)[id@] == s@,
            None => !string_args(*matches).contains_key(id@),
        },
{
    matches.try_get_one::<String>(id).ok().flatten().cloned()
}

/// The state of a switch, by `clap::ArgMatches::try_get_one`. Trusted: as for a string.
#[verifier::external_body]
pub(crate) fn flag_arg(matches: &clap::ArgMatches, id: &str) -> (r: Option<bool>)
    ensures
        match r {
            Some(b) => flag_args(*matches).contains_key(id@) && flag_args(*matches)[id@] == b,
            None => !flag_args(*matches).contains_key(id@),
        },
{
    matches.try_get_one::<bool>(id).ok().flatten().copied()
}

/// The options of the server's command can be told apart.
pub proof fn law_mcp_command_is_sound()
    ensures
        mcp_command().sound(),
{
    reveal_strlit("help");
    reveal_strlit("services");
    reveal_strlit("workflows");
    reveal_strlit("helpers");
    assert("help"@.len() == 4 && "services"@.len() == 8 && "workflows"@.len() == 9
        && "helpers"@.len() == 7);
}

/// The command that starts the server.
pub fn build_mcp_cli() -> (r: clap::Command)
    ensures
        command_view(r) == Some(mcp_command()),
{
    let command: clap::Command = new_command("mcp", "Starts the MCP server over stdio");
    let command: clap::Command = with_value(
        command,
        "services",
        "services",
        's',
        "Comma separated list of services to expose (e.g., drive,gmail,all)",
        "",
    );
    let command: clap::Command = with_switch(
        command,
        "workflows",
        "workflows",
        'w',
        "Expose workflows as tools",
    );
    let command: clap::Command = with_switch(
        command,
        "helpers",
        "helpers",
        'e',
        "Expose service-specific helpers as tools",
    );
    assert(command_view(command)->0 =~= mcp_command());
    command
}

/// Matches arguments against the command that starts the server. Nothing comes of arguments that
/// it does not accept or that ask for its help.
pub fn match_mcp_args(args: &[String]) -> (r: Option<clap::ArgMatches>)
    ensures
        match r {
            Some(m) => {
                let found = MatchesView { strings: string_args(m), flags: flag_args(m) };
                &&& given(mcp_command(), texts(args@)) == Some(found)
                &&& found.covers(mcp_command())
                &&& args@.len() <= 1 ==> found.defaults_of(mcp_command())
            },
            None => given(mcp_command(), texts(args@)) is None,
        },
        args@.len() <= 1 ==> r is Some,
{
    proof {
        law_mcp_command_is_sound();
    }
    match_args(build_mcp_cli(), args)
}

/// The server's command has three options and no more: which services it offers, none by default,
/// and whether it offers workflows and helpers.
pub proof fn law_mcp_options()
    ensures
        mcp_command().name == "mcp"@,
        mcp_command().about == "Starts the MCP server over stdio"@,
        mcp_command().options.len() == 3,
        mcp_command().options[0].id == "services"@,
        mcp_command().options[0].long == "services"@,
        mcp_command().options[0].short == 's',
        mcp_command().options[0].help
            == "Comma separated list of services to expose (e.g., drive,gmail,all)"@,
        mcp_command().options[0].kind matches KindView::Value(default) && default.len() == 0,
        mcp_command().options[1].id == "workflows"@,
        mcp_command().options[1].long == "workflows"@,
        mcp_command().options[1].short == 'w',
        mcp_command().options[1].help == "Expose workflows as tools"@,
        mcp_command().options[1].kind is Switch,
        mcp_command().options[2].id == "helpers"@,
        mcp_command().options[2].long == "helpers"@,
        mcp_command().options[2].short == 'e',
        mcp_command().options[2].help == "Expose service-specific helpers as tools"@,
        mcp_command().options[2].kind is Switch,
{
    reveal_strlit("");
}

} // verus!
