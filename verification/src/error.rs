//! Errors that callers see.
use vstd::prelude::*;

verus! {

/// An error of the application.
#[derive(Debug)]
pub enum AppError {
    /// The database refused or failed; the text is its message.
    DatabaseError(String),
}

} // verus!
