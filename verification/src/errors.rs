//! The error taxonomy of the snippet store, and validation of required
//! command arguments.

use vstd::prelude::*;

verus! {

/// An error of the snippet store.
///
/// Every failure of the store falls under one of three kinds: the home
/// directory could not be determined, a required command argument was not
/// supplied, or a filesystem operation failed (the wrapped string carries the
/// underlying system error message).
#[derive(Debug)]
pub enum SnippetStoreError {
    ConfigurationError,
    InvalidArgument,
    IOError(String),
}

impl SnippetStoreError {
    /// True exactly of the configuration failure (home directory unknown).
    pub fn is_configuration(&self) -> (r: bool)
        ensures
            r == (self is ConfigurationError),
    {
        match self {
            SnippetStoreError::ConfigurationError => true,
            _ => false,
        }
    }

    /// True exactly of the missing-argument failure.
    pub fn is_invalid_argument(&self) -> (r: bool)
        ensures
            r == (self is InvalidArgument),
    {
        match self {
            SnippetStoreError::InvalidArgument => true,
            _ => false,
        }
    }

    /// True exactly of the I/O-class failure.
    pub fn is_io(&self) -> (r: bool)
        ensures
            r == (self is IOError),
    {
        match self {
            SnippetStoreError::IOError(_) => true,
            _ => false,
        }
    }

    /// The message shown to the user: the wrapped system message for an I/O
    /// failure, a fixed sentence for the other kinds.
    pub fn message(&self) -> (r: String)
        ensures
            self is IOError ==> r@ == self->IOError_0@,
            self is ConfigurationError ==> r@ == "ENV variable HOME not found"@,
            self is InvalidArgument ==> r@ == "a required argument was not supplied"@,
    {
        match self {
            SnippetStoreError::ConfigurationError => "ENV variable HOME not found".to_string(),
            SnippetStoreError::InvalidArgument => "a required argument was not supplied".to_string(),
            SnippetStoreError::IOError(m) => m.clone(),
        }
    }
}

/// Turns an optional command argument into the argument itself, or the
/// missing-argument error when it was not supplied.
pub fn require_arg(arg: Option<String>) -> (r: Result<String, SnippetStoreError>)
    ensures
        arg is Some ==> (r matches Ok(s) && s == arg->0),
        arg is None ==> (r matches Err(e) && e is InvalidArgument),
{
    match arg {
        Some(s) => Ok(s),
        None => Err(SnippetStoreError::InvalidArgument),
    }
}

} // verus!
