//! The ways a request can fail.
use vstd::prelude::*;

verus! {

/// Why a request could not be carried out.
#[derive(Clone, Copy, Debug, PartialEq, Eq, Structural)]
pub enum Error {
    /// An action was given fewer arguments than it takes.
    NotEnoughArguments,
    /// The first argument names no action.
    UnknownAction,
    /// None of the default places holds a database file.
    StoreNotFound,
    /// The database file could not be opened or read.
    CouldNotOpenFile,
    /// The database file is not TOML.
    ParseError,
    /// The database file could not be written.
    WriteError,
    /// The document does not have the shape the operation expects, such as
    /// a command without a `tags` array or a tag that is not a string.
    Internal,
    /// The command is not in the database.
    CommandNotFound,
    /// No command has a tag that matches the search.
    TagNotFound,
    /// The command already has that tag.
    DuplicateTag,
}

} // verus!
