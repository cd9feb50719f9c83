//! The command dispatcher: maps the argument vector of one invocation to
//! the action to take.

use vstd::prelude::*;
use crate::strutil::str_eq;

verus! {

/// What one invocation of the tool was asked to do.
pub enum Command {
    /// Print the usage text and exit cleanly.
    Help,
    /// Print the version string and exit cleanly.
    Version,
    /// Print the stored identifiers.
    List,
    /// Prompt for an identifier, then log in as it.
    Interactive,
    /// Log in as the given identifier.
    Login { account_id: String },
    /// The account option came without exactly one identifier after it.
    MissingAccountId,
    /// An option the tool does not know.
    Unknown,
}

/// The argument names one of the two spellings of a flag.
pub open spec fn is_flag(a: Seq<char>, long: Seq<char>, short: Seq<char>) -> bool {
    a == long || a == short
}

/// Maps the argument vector (program name first) to the command it
/// requests.
pub fn parse_args(args: &Vec<String>) -> (r: Command)
    ensures
        (r is Interactive) <==> args.deep_view().len() <= 1,
        (r is Help) <==> (args.deep_view().len() >= 2 && is_flag(
            args.deep_view()[1],
            "--help"@,
            "-h"@,
        )),
        (r is Version) <==> (args.deep_view().len() >= 2 && !is_flag(
            args.deep_view()[1],
            "--help"@,
            "-h"@,
        ) && is_flag(args.deep_view()[1], "--version"@, "-v"@)),
        (r is Login || r is MissingAccountId) <==> (args.deep_view().len() >= 2 && !is_flag(
            args.deep_view()[1],
            "--help"@,
            "-h"@,
        ) && !is_flag(args.deep_view()[1], "--version"@, "-v"@) && is_flag(
            args.deep_view()[1],
            "--account"@,
            "-a"@,
        )),
        (r is Login) ==> args.deep_view().len() == 3,
        (r matches Command::Login { account_id } ==> account_id@ == args.deep_view()[2]),
        (r is MissingAccountId) ==> args.deep_view().len() != 3,
        (r is List) <==> (args.deep_view().len() >= 2 && !is_flag(
            args.deep_view()[1],
            "--help"@,
            "-h"@,
        ) && !is_flag(args.deep_view()[1], "--version"@, "-v"@) && !is_flag(
            args.deep_view()[1],
            "--account"@,
            "-a"@,
        ) && is_flag(args.deep_view()[1], "--list"@, "-l"@)),
        (r is Unknown) <==> (args.deep_view().len() >= 2 && !is_flag(
            args.deep_view()[1],
            "--help"@,
            "-h"@,
        ) && !is_flag(args.deep_view()[1], "--version"@, "-v"@) && !is_flag(
            args.deep_view()[1],
            "--account"@,
            "-a"@,
        ) && !is_flag(args.deep_view()[1], "--list"@, "-l"@)),
{
    if args.len() <= 1 {
        return Command::Interactive;
    }
    let a = args[1].as_str();
    if str_eq(a, "--help") || str_eq(a, "-h") {
        Command::Help
    } else if str_eq(a, "--version") || str_eq(a, "-v") {
        Command::Version
    } else if str_eq(a, "--account") || str_eq(a, "-a") {
        if args.len() == 3 {
            Command::Login { account_id: args[2].clone() }
        } else {
            Command::MissingAccountId
        }
    } else if str_eq(a, "--list") || str_eq(a, "-l") {
        Command::List
    } else {
        Command::Unknown
    }
}

/// Whether the connectivity gate must pass before the command runs: it
/// must for every command except printing the usage or version text.
pub fn gate_required(c: &Command) -> (r: bool)
    ensures
        r == !(c is Help || c is Version),
{
    match c {
        Command::Help => false,
        Command::Version => false,
        _ => true,
    }
}

} // verus!
