//! The command line.

use crate::text::{chars_of, debug_quoted, quoted, same_text};
use crate::views::group_deep_views;
use vstd::prelude::*;
use vstd::string::*;

verus! {

broadcast use group_deep_views;

/// What a campaign is run with.
#[derive(Debug, PartialEq, Eq)]
pub struct Options {
    /// The mutants file.
    pub config_path: String,
    /// Where the machine-readable report goes, if anywhere.
    pub json_path: Option<String>,
    /// Only mutants whose name contains this are probed.
    pub only: Option<String>,
}

/// What the command line asks for.
#[derive(Debug, PartialEq, Eq)]
pub enum Command {
    Help,
    Probe(Options),
}

/// Options by their texts, the mutants file perhaps still to come.
pub struct OptionsView {
    pub config_path: Option<Seq<char>>,
    pub json_path: Option<Seq<char>>,
    pub only: Option<Seq<char>>,
}

/// A command by its texts.
pub enum CommandView {
    Help,
    Probe(OptionsView),
}

impl View for Command {
    type V = CommandView;

    open spec fn view(&self) -> CommandView {
        match self {
            Command::Help => CommandView::Help,
            Command::Probe(options) => CommandView::Probe(
                OptionsView {
                    config_path: Some(options.config_path@),
                    json_path: options.json_path.deep_view(),
                    only: options.only.deep_view(),
                },
            ),
        }
    }
}

/// A command is seen as it stands: each of its options is its own.
pub proof fn law_a_command_is_seen_as_it_stands(command: Command)
    ensures
        command is Help <==> command@ is Help,
        command matches Command::Probe(options) ==> command@ == CommandView::Probe(
            OptionsView {
                config_path: Some(options.config_path@),
                json_path: match options.json_path {
                    Some(path) => Some(path@),
                    None => None,
                },
                only: match options.only {
                    Some(part) => Some(part@),
                    None => None,
                },
            },
        ),
{
}

/// Whether an argument is a request for the manual.
pub open spec fn is_help(arg: Seq<char>) -> bool {
    arg == "--help"@ || arg == "-h"@
}

/// What the rest of a command line asks for after some options were read, or
/// the first thing that is wrong with it. A misspelled flag never becomes the
/// path of the mutants file.
pub open spec fn parsed_args(args: Seq<Seq<char>>, so_far: OptionsView) -> Result<
    CommandView,
    Seq<char>,
>
    decreases args.len(),
{
    if args.len() == 0 {
        if so_far.config_path is Some {
            Ok(CommandView::Probe(so_far))
        } else {
            Err(
                "usage: mutation-probe <mutants.toml> [--json <path>] [--only <substring>] (--help for the manual)"@,
            )
        }
    } else if is_help(args[0]) {
        Ok(CommandView::Help)
    } else if args[0] == "--json"@ {
        if args.len() == 1 {
            Err("--json needs a path"@)
        } else {
            parsed_args(args.skip(2), OptionsView { json_path: Some(args[1]), ..so_far })
        }
    } else if args[0] == "--only"@ {
        if args.len() == 1 {
            Err("--only needs a substring"@)
        } else {
            parsed_args(args.skip(2), OptionsView { only: Some(args[1]), ..so_far })
        }
    } else if args[0].len() > 0 && args[0][0] == '-' {
        Err("unknown flag "@ + debug_quoted(args[0]) + " (--help)"@)
    } else if so_far.config_path is None {
        parsed_args(args.skip(1), OptionsView { config_path: Some(args[0]), ..so_far })
    } else {
        Err("unexpected argument "@ + debug_quoted(args[0]))
    }
}

proof fn lemma_flags_differ()
    ensures
        "--help"@ != "--json"@ && "--help"@ != "--only"@ && "--json"@ != "--only"@,
        "-h"@ != "--json"@ && "-h"@ != "--only"@,
        "--help"@.len() > 0 && "--help"@[0] == '-',
        "-h"@.len() > 0 && "-h"@[0] == '-',
        "--json"@.len() > 0 && "--json"@[0] == '-',
        "--only"@.len() > 0 && "--only"@[0] == '-',
{
    reveal_strlit("--help");
    reveal_strlit("-h");
    reveal_strlit("--json");
    reveal_strlit("--only");
    assert("--help"@[2] == 'h' && "--json"@[2] == 'j' && "--only"@[2] == 'o');
    assert("-h"@.len() == 2 && "--json"@.len() == 6 && "--only"@.len() == 6);
}

/// A flag takes the argument behind it as its value, whatever that looks like, and
/// the rest is read as if the two had not been there. A flag at the end lacks its
/// value.
pub proof fn law_a_flag_takes_the_next_argument(
    value: Seq<char>,
    rest: Seq<Seq<char>>,
    so_far: OptionsView,
)
    ensures
        parsed_args(seq!["--json"@, value] + rest, so_far) == parsed_args(
            rest,
            OptionsView {
                config_path: so_far.config_path,
                json_path: Some(value),
                only: so_far.only,
            },
        ),
        parsed_args(seq!["--only"@, value] + rest, so_far) == parsed_args(
            rest,
            OptionsView {
                config_path: so_far.config_path,
                json_path: so_far.json_path,
                only: Some(value),
            },
        ),
        parsed_args(seq!["--json"@], so_far) == Err::<CommandView, Seq<char>>(
            "--json needs a path"@,
        ),
        parsed_args(seq!["--only"@], so_far) == Err::<CommandView, Seq<char>>(
            "--only needs a substring"@,
        ),
{
    lemma_flags_differ();
    let json = seq!["--json"@, value] + rest;
    let only = seq!["--only"@, value] + rest;
    assert(json.skip(2) =~= rest && json[0] == "--json"@ && json[1] == value);
    assert(only.skip(2) =~= rest && only[0] == "--only"@ && only[1] == value);
}

/// A request for the manual is granted whatever follows it.
pub proof fn law_help_is_granted_whatever_follows(rest: Seq<Seq<char>>, so_far: OptionsView)
    ensures
        parsed_args(seq!["--help"@] + rest, so_far) == Ok::<CommandView, Seq<char>>(
            CommandView::Help,
        ),
        parsed_args(seq!["-h"@] + rest, so_far) == Ok::<CommandView, Seq<char>>(CommandView::Help),
{
    assert((seq!["--help"@] + rest)[0] == "--help"@);
    assert((seq!["-h"@] + rest)[0] == "-h"@);
}

/// The first argument that is no flag is the mutants file, and a second one is an
/// error; so is any unknown flag. At the end the mutants file must have been named,
/// and what was gathered is what is run.
pub proof fn law_other_arguments_name_the_mutants_file(
    arg: Seq<char>,
    rest: Seq<Seq<char>>,
    so_far: OptionsView,
)
    ensures
        (arg.len() == 0 || arg[0] != '-') && so_far.config_path is None ==> parsed_args(
            seq![arg] + rest,
            so_far,
        ) == parsed_args(
            rest,
            OptionsView {
                config_path: Some(arg),
                json_path: so_far.json_path,
                only: so_far.only,
            },
        ),
        (arg.len() == 0 || arg[0] != '-') && so_far.config_path is Some ==> parsed_args(
            seq![arg] + rest,
            so_far,
        ) == Err::<CommandView, Seq<char>>("unexpected argument "@ + debug_quoted(arg)),
        arg.len() > 0 && arg[0] == '-' && arg != "--help"@ && arg != "-h"@ && arg != "--json"@ && arg
            != "--only"@ ==> parsed_args(seq![arg] + rest, so_far) == Err::<
            CommandView,
            Seq<char>,
        >("unknown flag "@ + debug_quoted(arg) + " (--help)"@),
        so_far.config_path is Some ==> parsed_args(Seq::empty(), so_far) == Ok::<
            CommandView,
            Seq<char>,
        >(CommandView::Probe(so_far)),
        so_far.config_path is None ==> parsed_args(Seq::empty(), so_far) == Err::<
            CommandView,
            Seq<char>,
        >(
            "usage: mutation-probe <mutants.toml> [--json <path>] [--only <substring>] (--help for the manual)"@,
        ),
{
    lemma_flags_differ();
    let args = seq![arg] + rest;
    assert(args.skip(1) =~= rest && args[0] == arg);
}

/// A flag, misspelled or not, never becomes the path of the mutants file: that is one
/// of the arguments, and no flag.
pub proof fn law_a_flag_never_becomes_the_mutants_file(args: Seq<Seq<char>>, so_far: OptionsView)
    requires
        so_far.config_path is None,
    ensures
        parsed_args(args, so_far) matches Ok(CommandView::Probe(options)) ==> {
            &&& options.config_path is Some
            &&& args.contains(options.config_path->0)
            &&& options.config_path->0.len() == 0 || options.config_path->0[0] != '-'
        },
    decreases args.len(),
{
    lemma_flags_differ();
    if args.len() > 0 && !is_help(args[0]) {
        if args[0] == "--json"@ {
            if args.len() > 1 {
                law_a_flag_never_becomes_the_mutants_file(
                    args.skip(2),
                    OptionsView { json_path: Some(args[1]), ..so_far },
                );
                lemma_rest_is_contained(args, 2);
            }
        } else if args[0] == "--only"@ {
            if args.len() > 1 {
                law_a_flag_never_becomes_the_mutants_file(
                    args.skip(2),
                    OptionsView { only: Some(args[1]), ..so_far },
                );
                lemma_rest_is_contained(args, 2);
            }
        } else if !(args[0].len() > 0 && args[0][0] == '-') {
            lemma_named_file_stays(
                args.skip(1),
                OptionsView { config_path: Some(args[0]), ..so_far },
            );
            assert(args.contains(args[0]));
        }
    }
}

proof fn lemma_rest_is_contained(args: Seq<Seq<char>>, n: int)
    requires
        0 <= n <= args.len(),
    ensures
        forall|x: Seq<char>| args.skip(n).contains(x) ==> args.contains(x),
{
    assert forall|x: Seq<char>| args.skip(n).contains(x) implies args.contains(x) by {
        let i = choose|i: int| 0 <= i < args.skip(n).len() && args.skip(n)[i] == x;
        assert(args[n + i] == x);
    }
}

proof fn lemma_named_file_stays(args: Seq<Seq<char>>, so_far: OptionsView)
    requires
        so_far.config_path is Some,
    ensures
        parsed_args(args, so_far) matches Ok(CommandView::Probe(options)) ==> options.config_path
            == so_far.config_path,
    decreases args.len(),
{
    if args.len() > 1 && !is_help(args[0]) {
        if args[0] == "--json"@ {
            lemma_named_file_stays(
                args.skip(2),
                OptionsView { json_path: Some(args[1]), ..so_far },
            );
        } else if args[0] == "--only"@ {
            lemma_named_file_stays(args.skip(2), OptionsView { only: Some(args[1]), ..so_far });
        }
    }
}

/// Whether an argument looks like a flag.
fn is_flag(arg: &str) -> (r: bool)
    ensures
        r == (arg@.len() > 0 && arg@[0] == '-'),
{
    let chars = chars_of(arg);
    chars.len() > 0 && chars[0] == '-'
}

/// Reads the command line, without the program's own name.
pub fn parse_args(args: &Vec<String>) -> (r: Result<Command, String>)
    ensures
        match r {
            Ok(command) => parsed_args(
                args.deep_view(),
                OptionsView { config_path: None, json_path: None, only: None },
            ) == Ok::<CommandView, Seq<char>>(command@),
            Err(message) => parsed_args(
                args.deep_view(),
                OptionsView { config_path: None, json_path: None, only: None },
            ) == Err::<CommandView, Seq<char>>(message@),
        },
{
    let ghost all = args.deep_view();
    let ghost wanted = parsed_args(
        all,
        OptionsView { config_path: None, json_path: None, only: None },
    );
    let mut config_path: Option<String> = None;
    let mut json_path: Option<String> = None;
    let mut only: Option<String> = None;
    let mut i: usize = 0;
    assert(all.skip(0) == all);
    while i < args.len()
        invariant
            i <= args@.len(),
            all == args.deep_view(),
            wanted == parsed_args(
                all.skip(i as int),
                OptionsView {
                    config_path: config_path.deep_view(),
                    json_path: json_path.deep_view(),
                    only: only.deep_view(),
                },
            ),
            wanted == parsed_args(
                all,
                OptionsView { config_path: None, json_path: None, only: None },
            ),
        decreases args@.len() - i,
    {
        let ghost rest = all.skip(i as int);
        let arg = args[i].as_str();
        let remaining: usize = args.len() - i;
        proof {
            assert(rest[0] == arg@);
            assert(rest.skip(1) == all.skip(i + 1));
            if remaining > 1 {
                assert(rest[1] == args@[i + 1]@);
                assert(rest.skip(2) == all.skip(i + 2));
            }
        }
        if same_text(arg, "--help") || same_text(arg, "-h") {
            return Ok(Command::Help);
        }
        if same_text(arg, "--json") {
            if remaining == 1 {
                return Err("--json needs a path".to_string());
            }
            json_path = Some(args[i + 1].clone());
            i = i + 2;
        } else if same_text(arg, "--only") {
            if remaining == 1 {
                return Err("--only needs a substring".to_string());
            }
            only = Some(args[i + 1].clone());
            i = i + 2;
        } else if is_flag(arg) {
            let mut message = "unknown flag ".to_string();
            message.append(quoted(arg).as_str());
            message.append(" (--help)");
            return Err(message);
        } else if config_path.is_none() {
            config_path = Some(args[i].clone());
            i = i + 1;
        } else {
            let mut message = "unexpected argument ".to_string();
            message.append(quoted(arg).as_str());
            return Err(message);
        }
    }
    match config_path {
        Some(config_path) => Ok(Command::Probe(Options { config_path, json_path, only })),
        None => Err(
            "usage: mutation-probe <mutants.toml> [--json <path>] [--only <substring>] (--help for the manual)".to_string(),
        ),
    }
}

} // verus!
