//! The command line, and what it prints about the profiles.

use vstd::prelude::*;
use vstd::string::*;
use crate::json::{lemma_step, lemma_whole, opt_string, opt_text};
use crate::text::{cat, cat3, decimal, decimal_text, join, join_texts, lemma_texts_push, starts_with, texts};

verus! {

/// How the program is used.
pub const USAGE: &'static str = "ai-bridge — local Anthropic/OpenAI-compatible bridge to one configured upstream\n\nUsage:\n  ai-bridge              Load the recorded profile (default.toml on first run)\n  ai-bridge <profile>    Load ~/.ai-bridge/<profile>.toml\n  ai-bridge -l, --list   List available profiles (* marks the current selection)\n  ai-bridge -h, --help   Show this help";

/// One argument of the command line.
pub enum CliArg {
    Text(String),
    /// An argument that is no valid text, as it can be shown.
    Invalid(String),
}

/// The model of an argument.
pub enum ArgV {
    Text(Seq<char>),
    Invalid(Seq<char>),
}

impl View for CliArg {
    type V = ArgV;

    open spec fn view(&self) -> ArgV {
        match self {
            CliArg::Text(t) => ArgV::Text(t@),
            CliArg::Invalid(t) => ArgV::Invalid(t@),
        }
    }
}

/// The models of a list of arguments.
pub open spec fn args_view(v: Seq<CliArg>) -> Seq<ArgV> {
    Seq::new(v.len(), |i: int| v[i]@)
}

/// What the command line asks for.
pub enum Cli {
    /// Serve the named profile, or the recorded one where none is named.
    Run { profile: Option<String> },
    List,
    Help,
}

/// The model of what the command line asks for.
pub enum CliV {
    Run(Option<Seq<char>>),
    List,
    Help,
}

impl View for Cli {
    type V = CliV;

    open spec fn view(&self) -> CliV {
        match self {
            Cli::Run { profile } => CliV::Run(opt_string(*profile)),
            Cli::List => CliV::List,
            Cli::Help => CliV::Help,
        }
    }
}

/// Whether an argument asks for the list.
pub open spec fn is_list_flag(t: Seq<char>) -> bool {
    t == "-l"@ || t == "--list"@
}

/// Whether an argument asks for help.
pub open spec fn is_help_flag(t: Seq<char>) -> bool {
    t == "-h"@ || t == "--help"@
}

/// Whether an argument is an option.
pub open spec fn is_option(t: Seq<char>) -> bool {
    t.len() > 0 && t[0] == '-'
}

/// What is wrong with an argument by itself.
pub open spec fn bad_arg(a: ArgV) -> Option<Seq<char>> {
    match a {
        ArgV::Text(t) => if is_option(t) && !is_list_flag(t) && !is_help_flag(t) {
            Some("Unknown option: "@ + t)
        } else {
            None
        },
        ArgV::Invalid(t) => Some("Invalid non-UTF-8 argument: "@ + t),
    }
}

/// What is wrong with the first bad argument.
pub open spec fn first_bad_arg(args: Seq<ArgV>) -> Option<Seq<char>>
    decreases args.len(),
{
    if args.len() == 0 {
        None
    } else {
        match first_bad_arg(args.drop_last()) {
            Some(e) => Some(e),
            None => bad_arg(args.last()),
        }
    }
}

/// The arguments that are no options.
pub open spec fn positionals(args: Seq<ArgV>) -> Seq<Seq<char>>
    decreases args.len(),
{
    if args.len() == 0 {
        Seq::empty()
    } else {
        match args.last() {
            ArgV::Text(t) => if is_option(t) {
                positionals(args.drop_last())
            } else {
                positionals(args.drop_last()).push(t)
            },
            ArgV::Invalid(_) => positionals(args.drop_last()),
        }
    }
}

/// Whether an argument asks for the list.
pub open spec fn asks_list(a: ArgV) -> bool {
    a matches ArgV::Text(t) && is_list_flag(t)
}

/// Whether an argument asks for help.
pub open spec fn asks_help(a: ArgV) -> bool {
    a matches ArgV::Text(t) && is_help_flag(t)
}

/// What the command line asks for, or what is wrong with it. Help goes before
/// the list, and the list takes no other arguments.
pub open spec fn parsed_cli(args: Seq<ArgV>) -> Result<CliV, Seq<char>> {
    let names = positionals(args);
    match first_bad_arg(args) {
        Some(e) => Err(e),
        None => if exists|i: int| 0 <= i < args.len() && #[trigger] asks_help(args[i]) {
            Ok(CliV::Help)
        } else if exists|i: int| 0 <= i < args.len() && #[trigger] asks_list(args[i]) {
            if names.len() > 0 {
                Err("--list takes no arguments (got: "@ + join(names, " "@) + ")"@)
            } else {
                Ok(CliV::List)
            }
        } else if names.len() == 0 {
            Ok(CliV::Run(None))
        } else if names.len() == 1 {
            Ok(CliV::Run(Some(names[0])))
        } else {
            Err(
                "Expected at most one profile name (got "@ + decimal(names.len()) + ": "@ + join(names, " "@)
                    + ")"@,
            )
        },
    }
}

proof fn lemma_first_bad(args: Seq<ArgV>, n: int)
    requires
        0 <= n <= args.len(),
        first_bad_arg(args.take(n)) is Some,
    ensures
        first_bad_arg(args) == first_bad_arg(args.take(n)),
    decreases args.len() - n,
{
    if n < args.len() {
        lemma_step(args, n);
        lemma_first_bad(args, n + 1);
    } else {
        lemma_whole(args);
    }
}

/// Parse the arguments after the name of the program. Anything ambiguous or
/// unknown is a usage error.
pub fn parse_cli(args: &Vec<CliArg>) -> (r: Result<Cli, String>)
    ensures
        match (r, parsed_cli(args_view(args@))) {
            (Ok(a), Ok(b)) => a@ == b,
            (Err(a), Err(b)) => a@ == b,
            _ => false,
        },
{
    broadcast use lemma_texts_push;

    proof {
        reveal_strlit("-l");
        reveal_strlit("--list");
        reveal_strlit("-h");
        reveal_strlit("--help");
        reveal_strlit("-");
        assert("-l"@[0] == '-' && "--list"@[0] == '-' && "-h"@[0] == '-' && "--help"@[0] == '-');
    }
    let ghost all = args_view(args@);
    let mut names: Vec<String> = Vec::new();
    let mut list = false;
    let mut help = false;
    let mut i: usize = 0;
    assert(texts(names@) =~= Seq::empty());
    while i < args.len()
        invariant
            i <= args@.len(),
            all == args_view(args@),
            "-l"@[0] == '-' && "-l"@.len() > 0,
            "--list"@[0] == '-' && "--list"@.len() > 0,
            "-h"@[0] == '-' && "-h"@.len() > 0,
            "--help"@[0] == '-' && "--help"@.len() > 0,
            "-"@.len() == 1 && "-"@[0] == '-',
            texts(names@) == positionals(all.take(i as int)),
            first_bad_arg(all.take(i as int)) is None,
            list == exists|j: int| 0 <= j < i && #[trigger] asks_list(all[j]),
            help == exists|j: int| 0 <= j < i && #[trigger] asks_help(all[j]),
        decreases args@.len() - i,
    {
        proof {
            lemma_step(all, i as int);
        }
        match &args[i] {
            CliArg::Text(t) => {
                let t = t.as_str();
                assert(all[i as int] == ArgV::Text(t@));
                let dashed = starts_with(t, "-");
                assert(dashed == is_option(t@)) by {
                    if t@.len() > 0 {
                        assert(t@.take(1) =~= seq![t@[0]]);
                        assert("-"@ =~= seq!['-']);
                        assert(seq![t@[0]][0] == t@[0]);
                    }
                }
                if t.eq("-l") || t.eq("--list") {
                    list = true;
                    assert(asks_list(all[i as int]));
                } else if t.eq("-h") || t.eq("--help") {
                    help = true;
                    assert(asks_help(all[i as int]));
                } else if dashed {
                    proof {
                        lemma_first_bad(all, i + 1);
                    }
                    return Err(cat("Unknown option: ", t));
                } else {
                    names.push(t.to_owned());
                }
                assert(is_list_flag(t@) ==> !is_help_flag(t@)) by {
                    reveal_strlit("-l");
                    reveal_strlit("--list");
                    reveal_strlit("-h");
                    reveal_strlit("--help");
                    assert("-l"@[1] == 'l' && "-h"@[1] == 'h');
                    assert("--list"@[2] == 'l' && "--help"@[2] == 'h');
                }
            },
            CliArg::Invalid(t) => {
                assert(all[i as int] == ArgV::Invalid(t@));
                proof {
                    lemma_first_bad(all, i + 1);
                }
                return Err(cat("Invalid non-UTF-8 argument: ", t.as_str()));
            },
        }
        i += 1;
    }
    proof {
        lemma_whole(all);
        assert(texts(names@).len() == names@.len());
    }
    if help {
        return Ok(Cli::Help);
    }
    if list {
        if names.len() > 0 {
            return Err(cat3("--list takes no arguments (got: ", join_texts(&names, " ").as_str(), ")"));
        }
        return Ok(Cli::List);
    }
    if names.len() == 0 {
        Ok(Cli::Run { profile: None })
    } else if names.len() == 1 {
        let name = names[0].clone();
        assert(name@ == texts(names@)[0]);
        Ok(Cli::Run { profile: Some(name) })
    } else {
        let mut s = cat3("Expected at most one profile name (got ", decimal_text(names.len() as u64).as_str(), ": ");
        s.append(join_texts(&names, " ").as_str());
        s.append(")");
        Err(s)
    }
}

/// The line for one profile.
pub open spec fn profile_line(name: Seq<char>, current: Option<Seq<char>>) -> Seq<char> {
    "  "@ + (if current == Some(name) {
        "*"@
    } else {
        " "@
    }) + " "@ + name
}

/// The lines for a list of profiles: one each, with a mark at the current one. A
/// hint takes their place where there are none.
pub open spec fn list_lines(
    dir: Seq<char>,
    default_path: Seq<char>,
    profiles: Seq<Seq<char>>,
    current: Option<Seq<char>>,
) -> Seq<Seq<char>> {
    if profiles.len() == 0 {
        seq!["No profiles found in "@ + dir + ". Create "@ + default_path + " to get started."@]
    } else {
        seq!["Available profiles in "@ + dir + ":"@] + Seq::new(
            profiles.len(),
            |i: int| profile_line(profiles[i], current),
        )
    }
}

/// The lines that list the profiles found in `dir`.
pub fn profile_list_lines(dir: &str, default_path: &str, profiles: &Vec<String>, current: Option<&str>) -> (r: Vec<
    String,
>)
    ensures
        texts(r@) == list_lines(dir@, default_path@, texts(profiles@), opt_text(current)),
{
    broadcast use lemma_texts_push;

    let ghost all = texts(profiles@);
    let ghost target = list_lines(dir@, default_path@, all, opt_text(current));
    let mut lines: Vec<String> = Vec::new();
    if profiles.len() == 0 {
        let mut s = cat3("No profiles found in ", dir, ". Create ");
        s.append(default_path);
        s.append(" to get started.");
        lines.push(s);
        assert(texts(lines@) =~= target);
        return lines;
    }
    lines.push(cat3("Available profiles in ", dir, ":"));
    assert(texts(lines@) =~= target.take(1));
    let mut i: usize = 0;
    while i < profiles.len()
        invariant
            i <= profiles@.len(),
            all == texts(profiles@),
            all.len() > 0,
            target == list_lines(dir@, default_path@, all, opt_text(current)),
            texts(lines@) == target.take(i + 1),
        decreases profiles@.len() - i,
    {
        let name = profiles[i].as_str();
        let marked = match current {
            Some(c) => c.eq(name),
            None => false,
        };
        let mut line = cat3(
            "  ",
            if marked {
                "*"
            } else {
                " "
            },
            " ",
        );
        line.append(name);
        assert(all[i as int] == name@);
        assert(target[i + 1] == profile_line(all[i as int], opt_text(current)));
        assert(line@ == target[i + 1]);
        lines.push(line);
        assert(target.take(i + 2) =~= target.take(i + 1).push(target[i + 1]));
        i += 1;
    }
    proof {
        lemma_whole(target);
    }
    lines
}

/// The mark stands at the current profile and at no other.
pub proof fn law_only_current_profile_is_marked(name: Seq<char>, current: Option<Seq<char>>)
    ensures
        profile_line(name, current) == "  * "@ + name <==> current == Some(name),
{
    reveal_strlit("  ");
    reveal_strlit("*");
    reveal_strlit(" ");
    reveal_strlit("  * ");
    let line = profile_line(name, current);
    assert(line.len() == 4 + name.len());
    assert(("  * "@ + name)[2] == '*');
    if current == Some(name) {
        assert(line =~= "  * "@ + name);
    } else {
        assert(line[2] == ' ');
    }
}

} // verus!
