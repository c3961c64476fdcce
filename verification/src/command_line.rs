//! The boundary to the `getopts` crate.
//!
//! A set of options and the matches of a parse are opaque to the verifier.
//! What they hold is spoken of through [`options_view`] and
//! [`matches_view`], and each function below makes exactly one call into
//! the crate. The contracts are taken from the crate's source and are
//! believed, not proved.

use vstd::prelude::*;
use getopts::Fail;
use crate::error::{UsageError, UsageKind};

verus! {

/// `getopts::Options`, a set of declared options. Nothing of its inside is
/// known here.
#[verifier::external_type_specification]
#[verifier::external_body]
pub struct ExOptions(getopts::Options);

/// `getopts::Matches`, what a parse found. Nothing of its inside is known
/// here.
#[verifier::external_type_specification]
#[verifier::external_body]
pub struct ExMatches(getopts::Matches);

/// Whether an option takes a value.
pub enum Takes {
    Nothing,
    Value,
    OptionalValue,
}

/// How often an option may be given.
pub enum Occurs {
    Once,
    AtMostOnce,
    AnyNumber,
}

/// One declared option: its short and long name (either may be empty), the
/// hint and the description shown in the usage text, and its rules.
pub struct OptionGroup {
    pub short: Seq<char>,
    pub long: Seq<char>,
    pub hint: Seq<char>,
    pub description: Seq<char>,
    pub takes: Takes,
    pub occurs: Occurs,
}

/// What a set of options holds: the declared options, in the order of
/// their declaration, and the two settings of the parser.
pub struct OptionSet {
    pub groups: Seq<OptionGroup>,
    pub long_only: bool,
    pub stop_at_first_free: bool,
}

/// What the matches of a parse hold, as far as it is read here: for every
/// name that the options declared, the occurrences of that option, each
/// with the value given to it if there was one; and the free arguments, in
/// order.
pub struct Found {
    pub options: Map<Seq<char>, Seq<Option<Seq<char>>>>,
    pub free: Seq<Seq<char>>,
}

/// How a parse ends.
pub enum Parse {
    Matched(Found),
    Rejected(UsageKind, Seq<char>),
}

/// What `options` holds.
pub uninterp spec fn options_view(options: getopts::Options) -> OptionSet;

/// What `matches` holds.
pub uninterp spec fn matches_view(matches: getopts::Matches) -> Found;

/// How `getopts::Options::parse` ends for a set that holds `options`, on
/// the arguments `args`.
pub uninterp spec fn parse_outcome(options: OptionSet, args: Seq<Seq<char>>) -> Parse;

/// The text that `getopts::Options::usage` gives for a set that holds
/// `options`, under the first line `brief`.
pub uninterp spec fn usage_text(options: OptionSet, brief: Seq<char>) -> Seq<char>;

/// An option that takes no value and may be given at most once.
pub open spec fn flag(short: Seq<char>, long: Seq<char>, description: Seq<char>) -> OptionGroup {
    OptionGroup {
        short,
        long,
        hint: Seq::empty(),
        description,
        takes: Takes::Nothing,
        occurs: Occurs::AtMostOnce,
    }
}

/// An option that takes a value and may be given at most once.
pub open spec fn valued(
    short: Seq<char>,
    long: Seq<char>,
    description: Seq<char>,
    hint: Seq<char>,
) -> OptionGroup {
    OptionGroup { short, long, hint, description, takes: Takes::Value, occurs: Occurs::AtMostOnce }
}

/// `name` is the short or the long name of a declared option.
pub open spec fn declares(options: OptionSet, name: Seq<char>) -> bool {
    &&& name.len() > 0
    &&& exists|i: int|
        0 <= i < options.groups.len() && ((#[trigger] options.groups[i]).short == name
            || options.groups[i].long == name)
}

/// Every declared option has a name.
pub open spec fn all_named(options: OptionSet) -> bool {
    forall|i: int|
        0 <= i < options.groups.len() ==> (#[trigger] options.groups[i]).short.len() > 0
            || options.groups[i].long.len() > 0
}

/// The texts of `strings`.
pub open spec fn texts(strings: Seq<String>) -> Seq<Seq<char>> {
    strings.map_values(|s: String| s@)
}

/// The value of the first occurrence, if there is an occurrence and it has
/// one.
pub open spec fn first_value(occurrences: Seq<Option<Seq<char>>>) -> Option<Seq<char>> {
    if occurrences.len() > 0 {
        occurrences[0]
    } else {
        None
    }
}

/// `getopts::Options::new`: a set without options, with the parser's
/// default settings.
#[verifier::external_body]
pub(crate) fn new_options() -> (options: getopts::Options)
    ensures
        options_view(options) == (OptionSet {
            groups: Seq::empty(),
            long_only: false,
            stop_at_first_free: false,
        }),
{
    getopts::Options::new()
}

/// `getopts::Options::optopt`: declares an option that takes a value and
/// may be given at most once. The crate panics on a short name of more
/// than one byte and on a long name of exactly one byte.
#[verifier::external_body]
pub(crate) fn optopt(
    options: &mut getopts::Options,
    short: &str,
    long: &str,
    description: &str,
    hint: &str,
)
    requires
        short@.len() <= 1,
        short.is_ascii(),
        long@.len() != 1,
    ensures
        options_view(*final(options)) == (OptionSet {
            groups: options_view(*old(options)).groups.push(
                valued(short@, long@, description@, hint@),
            ),
            ..options_view(*old(options))
        }),
{
    options.optopt(short, long, description, hint);
}

/// `getopts::Options::optflag`: declares an option that takes no value and
/// may be given at most once. The crate panics on a short name of more
/// than one byte and on a long name of exactly one byte.
#[verifier::external_body]
pub(crate) fn optflag(options: &mut getopts::Options, short: &str, long: &str, description: &str)
    requires
        short@.len() <= 1,
        short.is_ascii(),
        long@.len() != 1,
    ensures
        options_view(*final(options)) == (OptionSet {
            groups: options_view(*old(options)).groups.push(flag(short@, long@, description@)),
            ..options_view(*old(options))
        }),
{
    options.optflag(short, long, description);
}

/// `getopts::Options::parse`, with the crate's failure turned into a
/// `UsageError` variant by variant. The matches know every declared name.
/// The crate panics on a declared option that has neither name.
#[verifier::external_body]
pub(crate) fn parse(options: &getopts::Options, args: &[String]) -> (parsed: Result<
    getopts::Matches,
    UsageError,
>)
    requires
        all_named(options_view(*options)),
    ensures
        match parsed {
            Ok(matches) => {
                &&& parse_outcome(options_view(*options), texts(args@)) == Parse::Matched(
                    matches_view(matches),
                )
                &&& forall|name: Seq<char>| #[trigger]
                    declares(options_view(*options), name) ==> matches_view(
                        matches,
                    ).options.dom().contains(name)
            },
            Err(error) => parse_outcome(options_view(*options), texts(args@)) == Parse::Rejected(
                error.kind,
                error.option@,
            ),
        },
{
    match options.parse(args) {
        Ok(matches) => Ok(matches),
        Err(Fail::ArgumentMissing(option)) => Err(UsageError { kind: UsageKind::ArgumentMissing, option }),
        Err(Fail::UnrecognizedOption(option)) => Err(UsageError { kind: UsageKind::UnrecognizedOption, option }),
        Err(Fail::OptionMissing(option)) => Err(UsageError { kind: UsageKind::OptionMissing, option }),
        Err(Fail::OptionDuplicated(option)) => Err(UsageError { kind: UsageKind::OptionDuplicated, option }),
        Err(Fail::UnexpectedArgument(option)) => Err(UsageError { kind: UsageKind::UnexpectedArgument, option }),
    }
}

/// `getopts::Matches::opt_present`: whether the option occurred. The crate
/// panics on a name that the matches do not know.
#[verifier::external_body]
pub(crate) fn opt_present(matches: &getopts::Matches, name: &str) -> (present: bool)
    requires
        matches_view(*matches).options.dom().contains(name@),
    ensures
        present == (matches_view(*matches).options[name@].len() > 0),
{
    matches.opt_present(name)
}

/// `getopts::Matches::opt_str`: the value of the option's first
/// occurrence, if it occurred and a value was given there. The crate
/// panics on a name that the matches do not know.
#[verifier::external_body]
pub(crate) fn opt_str(matches: &getopts::Matches, name: &str) -> (value: Option<String>)
    requires
        matches_view(*matches).options.dom().contains(name@),
    ensures
        match value {
            Some(text) => first_value(matches_view(*matches).options[name@]) == Some(text@),
            None => first_value(matches_view(*matches).options[name@]) is None,
        },
{
    matches.opt_str(name)
}

/// The field `free` of `getopts::Matches`, cloned: the free arguments.
#[verifier::external_body]
pub(crate) fn free_arguments(matches: &getopts::Matches) -> (free: Vec<String>)
    ensures
        texts(free@) == matches_view(*matches).free,
{
    matches.free.clone()
}

/// `getopts::Options::usage`: the usage text under the first line `brief`.
#[verifier::external_body]
pub(crate) fn usage(options: &getopts::Options, brief: &str) -> (text: String)
    ensures
        text@ == usage_text(options_view(*options), brief@),
{
    options.usage(brief)
}

} // verus!
