//! The ways in which a run can fail before any output is produced.

use vstd::prelude::*;

verus! {

/// What is wrong with a command line that cannot be understood.
#[derive(Debug, Clone, Copy, PartialEq, Eq)]
pub enum UsageKind {
    /// An option that needs a value was given without one.
    ArgumentMissing,
    /// An option was given that is not among the known ones.
    UnrecognizedOption,
    /// An option that must be given is absent.
    OptionMissing,
    /// An option that may be given once was given again.
    OptionDuplicated,
    /// A value was given to an option that takes none.
    UnexpectedArgument,
}

/// A command line that cannot be understood: what is wrong, and with which
/// option.
#[derive(Debug, PartialEq, Eq)]
pub struct UsageError {
    pub kind: UsageKind,
    pub option: String,
}

/// Why a run was abandoned. Every failure is final: nothing is retried and
/// no partial document is produced.
#[derive(Debug, PartialEq, Eq)]
pub enum ConvertError {
    /// The command line cannot be understood.
    Usage(UsageError),
    /// The source name does not contain `.csv`.
    InvalidSourceName,
    /// An explicit destination name does not contain `.json`.
    InvalidDestinationName,
    /// The source has no header row, or the header row cannot be read.
    MissingHeader,
    /// A data row cannot be read.
    RowParse,
}

} // verus!
