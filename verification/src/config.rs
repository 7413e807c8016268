//! What a server session offers.

use crate::cli::{
    flag_arg, flag_args, given, match_mcp_args, mcp_command, string_arg, string_args, MatchesView,
};
use crate::text::{
    concatenated, copy_texts, join, join_texts, law_join_adds_behind, law_join_undoes_split,
    law_split_undoes_join, lemma_split_nonempty, same_text, split, split_at_char, texts, trim_text,
    trimmed,
};
use vstd::prelude::*;

verus! {

/// What a server session offers.
pub struct ServerConfig {
    pub services: Vec<String>,
    pub workflows: bool,
    pub helpers: bool,
}

/// The mathematical content of a [`ServerConfig`].
#[verifier::ext_equal]
pub struct ConfigView {
    pub services: Seq<Seq<char>>,
    pub workflows: bool,
    pub helpers: bool,
}

impl View for ServerConfig {
    type V = ConfigView;

    open spec fn view(&self) -> ConfigView {
        ConfigView {
            services: texts(self.services@),
            workflows: self.workflows,
            helpers: self.helpers,
        }
    }
}

/// The services that a comma separated list asks for, out of those that are known: `all` stands
/// for every one of them, and an empty list for none.
pub open spec fn requested_services(list: Seq<char>, known: Seq<Seq<char>>) -> Seq<Seq<char>> {
    if list.len() == 0 {
        Seq::empty()
    } else if list == "all"@ {
        known
    } else {
        let names = split(list, ',');
        Seq::new(names.len(), |i: int| trimmed(names[i]))
    }
}

/// The options of the server's command are there.
pub open spec fn has_options(found: MatchesView) -> bool {
    &&& found.strings.contains_key("services"@)
    &&& found.flags.contains_key("workflows"@)
    &&& found.flags.contains_key("helpers"@)
}

/// The configuration for the options of the server's command.
pub open spec fn configured(found: MatchesView, known: Seq<Seq<char>>) -> ConfigView {
    ConfigView {
        services: requested_services(found.strings["services"@], known),
        workflows: found.flags["workflows"@],
        helpers: found.flags["helpers"@],
    }
}

/// What is reported when the server starts.
pub open spec fn notice_view(services: Seq<Seq<char>>) -> Seq<Seq<char>> {
    if services.len() == 0 {
        seq![
            "[gws mcp] Warning: No services configured. Zero tools will be exposed."@,
            "[gws mcp] Re-run with: gws mcp -s <service> (e.g., -s drive,gmail,calendar)"@,
            "[gws mcp] Use -s all to expose all available services."@,
        ]
    } else {
        seq!["[gws mcp] Starting with services: "@ + join(services, ", "@)]
    }
}

impl ServerConfig {
    /// The configuration for the options that were given. `known` holds the name of every
    /// service.
    pub fn new(list: &str, workflows: bool, helpers: bool, known: &Vec<String>) -> (r: ServerConfig)
        ensures
            r@ == (ConfigView {
                services: requested_services(list@, texts(known@)),
                workflows,
                helpers,
            }),
    {
        let mut services: Vec<String> = Vec::new();
        if list.is_empty() {
            assert(texts(services@) =~= Seq::empty());
        } else if same_text(list, "all") {
            services = copy_texts(known);
        } else {
            let names: Vec<String> = split_at_char(list, ',');
            let mut i: usize = 0;
            while i < names.len()
                invariant
                    i <= names@.len(),
                    services@.len() == i,
                    forall|k: int| 0 <= k < i ==> (#[trigger] services@[k])@ == trimmed(names@[k]@),
                decreases names@.len() - i,
            {
                services.push(trim_text(names[i].as_str()));
                i += 1;
            }
            proof {
                let pieces = split(list@, ',');
                assert(forall|k: int|
                    0 <= k < names@.len() ==> texts(names@)[k] == (#[trigger] names@[k])@);
                assert(texts(services@) =~= Seq::new(
                    pieces.len(),
                    |k: int| trimmed(pieces[k]),
                ));
            }
        }
        ServerConfig { services, workflows, helpers }
    }

    /// The configuration for the matches of the server's command. There is none where the
    /// matches are those of a command without its options.
    pub fn from_matches(matches: &clap::ArgMatches, known: &Vec<String>) -> (r: Option<
        ServerConfig,
    >)
        ensures
            r is Some <==> has_options(
                MatchesView { strings: string_args(*matches), flags: flag_args(*matches) },
            ),
            r matches Some(config) ==> config@ == configured(
                MatchesView { strings: string_args(*matches), flags: flag_args(*matches) },
                texts(known@),
            ),
    {
        match (
            string_arg(matches, "services"),
            flag_arg(matches, "workflows"),
            flag_arg(matches, "helpers"),
        ) {
            (Some(list), Some(workflows), Some(helpers)) => Some(
                ServerConfig::new(list.as_str(), workflows, helpers, known),
            ),
            _ => None,
        }
    }

    /// The configuration for a command line, which begins with the name of the program. There is
    /// none where the server's command does not accept it or is asked for its help. The plain
    /// command starts a server without services or workflows.
    pub fn from_args(args: &[String], known: &Vec<String>) -> (r: Option<ServerConfig>)
        ensures
            match r {
                Some(config) => given(mcp_command(), texts(args@)) matches Some(found)
                    && has_options(found) && config@ == configured(found, texts(known@)),
                None => given(mcp_command(), texts(args@)) is None,
            },
            args@.len() <= 1 ==> r is Some && r->0@ == (ConfigView {
                services: Seq::empty(),
                workflows: false,
                helpers: false,
            }),
    {
        let matches: clap::ArgMatches = match match_mcp_args(args) {
            Some(matches) => matches,
            None => {
                return None;
            },
        };
        proof {
            reveal_strlit("");
            let options = mcp_command().options;
            assert(options[0].id == "services"@ && options[1].id == "workflows"@ && options[2].id
                == "helpers"@);
        }
        ServerConfig::from_matches(&matches, known)
    }

    /// What is reported when the server starts.
    pub fn notice(&self) -> (r: Vec<String>)
        ensures
            texts(r@) == notice_view(self@.services),
    {
        let mut lines: Vec<String> = Vec::new();
        if self.services.len() == 0 {
            lines.push(
                "[gws mcp] Warning: No services configured. Zero tools will be exposed.".to_string(),
            );
            lines.push(
                "[gws mcp] Re-run with: gws mcp -s <service> (e.g., -s drive,gmail,calendar)".to_string(),
            );
            lines.push("[gws mcp] Use -s all to expose all available services.".to_string());
        } else {
            let list: String = join_texts(&self.services, ", ");
            lines.push(concatenated("[gws mcp] Starting with services: ", list.as_str()));
        }
        assert(texts(lines@) =~= notice_view(self@.services));
        lines
    }
}

/// An empty list asks for no service and `all` for every known one. Any other list asks for the
/// names that it is made of, with commas between them, each without white space round it.
pub proof fn law_services_are_asked_for(names: Seq<Seq<char>>, known: Seq<Seq<char>>)
    requires
        names.len() > 0,
        forall|i: int| 0 <= i < names.len() ==> !(#[trigger] names[i]).contains(','),
    ensures
        requested_services(Seq::empty(), known) == Seq::<Seq<char>>::empty(),
        requested_services("all"@, known) == known,
        ({
            let list = join(names, seq![',']);
            list.len() > 0 && list != "all"@ ==> {
                &&& requested_services(list, known).len() == names.len()
                &&& forall|i: int|
                    0 <= i < names.len() ==> requested_services(list, known)[i] == trimmed(
                        #[trigger] names[i],
                    )
            }
        }),
{
    reveal_strlit("all");
    law_split_undoes_join(names, ',');
}

/// Every list of services is made of names with commas between them.
pub proof fn law_lists_are_made_of_names(list: Seq<char>)
    ensures
        exists|names: Seq<Seq<char>>|
            names.len() > 0 && #[trigger] join(names, seq![',']) == list && forall|i: int|
                0 <= i < names.len() ==> !(#[trigger] names[i]).contains(','),
{
    law_join_undoes_split(list, ',');
    lemma_split_nonempty(list, ',');
}

/// The server is configured by its three options, each on its own.
pub proof fn law_options_make_the_configuration(found: MatchesView, known: Seq<Seq<char>>)
    ensures
        configured(found, known).services == requested_services(
            found.strings["services"@],
            known,
        ),
        configured(found, known).workflows == found.flags["workflows"@],
        configured(found, known).helpers == found.flags["helpers"@],
{
}

/// A server with services says which, in order, with commas between them. One without says that
/// there will be no tools, and how to have some.
pub proof fn law_notice_names_the_services(services: Seq<Seq<char>>, service: Seq<char>)
    ensures
        notice_view(seq![service]) == seq!["[gws mcp] Starting with services: "@ + service],
        services.len() > 0 ==> notice_view(services).len() == 1 && notice_view(
            services.push(service),
        ) == seq![notice_view(services)[0] + ", "@ + service],
        notice_view(Seq::empty()) == seq![
            "[gws mcp] Warning: No services configured. Zero tools will be exposed."@,
            "[gws mcp] Re-run with: gws mcp -s <service> (e.g., -s drive,gmail,calendar)"@,
            "[gws mcp] Use -s all to expose all available services."@,
        ],
{
    law_join_adds_behind(services, service, ", "@);
    let head = "[gws mcp] Starting with services: "@;
    if services.len() > 0 {
        assert(head + (join(services, ", "@) + ", "@ + service) =~= head + join(services, ", "@)
            + ", "@ + service);
    }
}

} // verus!
