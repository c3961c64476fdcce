//! What the command line asks for.
//!
//! `PROGRAM SOURCE_FILE_NAME [-o TARGET_FILE_NAME] [-n] [-h]`
//!
//! `-h` / `--help` asks for the usage text and for nothing else. So does a
//! command line without a source name. `-o` names the destination.
//!
//! `-n` / `--null` is accepted and changes nothing: a cell without text
//! becomes null whether or not the flag is given. The flag is kept so that
//! command lines which give it are still understood.

use vstd::prelude::*;
use vstd::slice::slice_subrange;
use vstd::string::*;
use crate::command_line;
use crate::command_line::{
    all_named, declares, first_value, flag, matches_view, options_view, parse_outcome, texts,
    usage_text, valued, Found, OptionSet, Parse,
};
use crate::error::ConvertError;

verus! {

/// A conversion that was asked for: the source name, and the destination
/// name where one was given.
#[derive(Debug, PartialEq, Eq)]
pub struct Args {
    pub input: String,
    pub output: Option<String>,
}

/// What the command line asks for: a conversion, or the usage text, which
/// the caller prints before it ends without error.
#[derive(Debug, PartialEq, Eq)]
pub enum Request {
    Convert(Args),
    Usage(String),
}

/// The options of the program: `-o TARGET_FILE_NAME`, `-n` / `--null` and
/// `-h` / `--help`, declared in that order.
pub open spec fn program_options() -> OptionSet {
    OptionSet {
        groups: seq![
            valued(
                "o"@,
                ""@,
                "The path of the output file including the file extension."@,
                "TARGET_FILE_NAME"@,
            ),
            flag("n"@, "null"@, "Empty strings are set to null."@),
            flag("h"@, "help"@, "Prints this help menu."@),
        ],
        long_only: false,
        stop_at_first_free: false,
    }
}

/// The first line of the usage text of `program`.
pub open spec fn brief_of(program: Seq<char>) -> Seq<char> {
    "Usage: "@ + program + " SOURCE_FILE_NAME [options]"@
}

/// The matches ask for the usage text: help was asked for, or no source
/// name was given.
pub open spec fn wants_usage(found: Found) -> bool {
    found.options["h"@].len() > 0 || found.free.len() == 0
}

/// Every option of the program has a name, and `h` and `o` are among the
/// names.
pub proof fn lemma_program_options()
    ensures
        all_named(program_options()),
        declares(program_options(), "h"@),
        declares(program_options(), "o"@),
{
    reveal_strlit("o");
    reveal_strlit("n");
    reveal_strlit("h");
    assert(program_options().groups[0].short == "o"@);
    assert(program_options().groups[2].short == "h"@);
}

/// A set of options that holds the options of the program.
fn declare_options() -> (options: getopts::Options)
    ensures
        options_view(options) == program_options(),
{
    proof {
        reveal_strlit("o");
        reveal_strlit("");
        reveal_strlit("n");
        reveal_strlit("null");
        reveal_strlit("h");
        reveal_strlit("help");
    }
    let mut options = command_line::new_options();
    command_line::optopt(
        &mut options,
        "o",
        "",
        "The path of the output file including the file extension.",
        "TARGET_FILE_NAME",
    );
    command_line::optflag(&mut options, "n", "null", "Empty strings are set to null.");
    command_line::optflag(&mut options, "h", "help", "Prints this help menu.");
    assert(options_view(options).groups =~= program_options().groups);
    options
}

/// The usage text of `program` under `options`.
pub fn usage_of(program: &str, options: &getopts::Options) -> (text: String)
    ensures
        text@ == usage_text(options_view(*options), brief_of(program@)),
{
    let mut brief = String::from_str("Usage: ");
    brief.append(program);
    brief.append(" SOURCE_FILE_NAME [options]");
    command_line::usage(options, brief.as_str())
}

/// Reads what was asked for out of the matches of a parse. The matches
/// must know the names `h` and `o`.
///
/// Help wins over everything else. Without help, the first free argument
/// is the source name and the value of `-o` the destination name; without
/// a free argument the usage text is asked for. `-n` is not looked at.
pub fn resolve(program: &str, options: &getopts::Options, matches: &getopts::Matches) -> (request:
    Request)
    requires
        matches_view(*matches).options.dom().contains("h"@),
        matches_view(*matches).options.dom().contains("o"@),
    ensures
        match request {
            Request::Usage(text) => {
                &&& wants_usage(matches_view(*matches))
                &&& text@ == usage_text(options_view(*options), brief_of(program@))
            },
            Request::Convert(args) => {
                &&& !wants_usage(matches_view(*matches))
                &&& args.input@ == matches_view(*matches).free[0]
                &&& match args.output {
                    Some(name) => first_value(matches_view(*matches).options["o"@]) == Some(
                        name@,
                    ),
                    None => first_value(matches_view(*matches).options["o"@]) is None,
                }
            },
        },
{
    if command_line::opt_present(matches, "h") {
        return Request::Usage(usage_of(program, options));
    }
    let output = command_line::opt_str(matches, "o");
    let free = command_line::free_arguments(matches);
    if free.len() > 0 {
        let input = free[0].clone();
        Request::Convert(Args { input, output })
    } else {
        Request::Usage(usage_of(program, options))
    }
}

/// Reads what was asked for out of the arguments of the process, of which
/// the first is the name of the program.
///
/// Fails with `Usage` exactly when the arguments after the first cannot be
/// parsed under the options of the program, and then tells what is wrong
/// and with which option. Otherwise the request is the one that
/// [`resolve`] reads out of the matches.
pub fn get_args(arg_strings: &[String]) -> (request: Result<Request, ConvertError>)
    requires
        arg_strings@.len() > 0,
    ensures
        match request {
            Ok(Request::Usage(text)) => {
                &&& parse_outcome(program_options(), texts(arg_strings@).skip(1))
                    matches Parse::Matched(found)
                &&& wants_usage(found)
                &&& text@ == usage_text(program_options(), brief_of(arg_strings@[0]@))
            },
            Ok(Request::Convert(args)) => {
                &&& parse_outcome(program_options(), texts(arg_strings@).skip(1))
                    matches Parse::Matched(found)
                &&& !wants_usage(found)
                &&& args.input@ == found.free[0]
                &&& match args.output {
                    Some(name) => first_value(found.options["o"@]) == Some(name@),
                    None => first_value(found.options["o"@]) is None,
                }
            },
            Err(ConvertError::Usage(error)) => parse_outcome(
                program_options(),
                texts(arg_strings@).skip(1),
            ) == Parse::Rejected(error.kind, error.option@),
            Err(_) => false,
        },
{
    let options = declare_options();
    let rest = slice_subrange(arg_strings, 1, arg_strings.len());
    proof {
        lemma_program_options();
        assert(texts(rest@) =~= texts(arg_strings@).skip(1));
    }
    match command_line::parse(&options, rest) {
        Ok(matches) => Ok(resolve(arg_strings[0].as_str(), &options, &matches)),
        Err(error) => Err(ConvertError::Usage(error)),
    }
}

} // verus!
