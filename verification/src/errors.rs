//! Errors of the toolkit.
use vstd::prelude::*;

verus! {

/// What went wrong, with a message.
#[derive(Debug, Clone, PartialEq, Eq)]
pub enum CellError {
    NotFound(String),
    AlreadyExists(String),
    Config(String),
    Validation(String),
    Io(String),
    Other(String),
}

/// The result of a toolkit operation.
pub type CellResult<T> = Result<T, CellError>;

} // verus!
