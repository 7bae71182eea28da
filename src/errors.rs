//! Error kinds of the library and the process exit status of each.

use vstd::prelude::*;

verus! {

/// The tagged error that every fallible operation returns.
#[derive(Clone, Debug)]
pub enum ApcError {
    /// The configuration file could not be parsed.
    ParseRon(String),
    /// A value breaks a rule of the domain (a missing image, a bad path).
    Validation(String),
    /// A file or directory operation failed.
    FileSystem(String),
    /// The interactive prompt failed.
    Requestty(String),
    /// A post header is malformed or inconsistent.
    PostProperties(String),
    /// Any other broken structural assumption.
    Other(String),
}

pub type ApcResult<T> = Result<T, ApcError>;

/// The name of an error's kind.
pub open spec fn error_name(e: ApcError) -> Seq<char> {
    match e {
        ApcError::ParseRon(_) => "ParseRon"@,
        ApcError::Validation(_) => "Validation"@,
        ApcError::FileSystem(_) => "FileSystem"@,
        ApcError::Requestty(_) => "Requestty"@,
        ApcError::PostProperties(_) => "PostProperties"@,
        ApcError::Other(_) => "Other"@,
    }
}

/// Exit status: 77 for file system errors, 78 for configuration errors,
/// 1 for everything else.
pub open spec fn exit_status(e: ApcError) -> u8 {
    match e {
        ApcError::FileSystem(_) => 77,
        ApcError::Validation(_) | ApcError::ParseRon(_) => 78,
        _ => 1,
    }
}

impl ApcError {
    /// The name of the variant.
    pub fn name(&self) -> (r: &'static str)
        ensures
            r@ == error_name(*self),
    {
        match self {
            ApcError::ParseRon(_) => "ParseRon",
            ApcError::Validation(_) => "Validation",
            ApcError::FileSystem(_) => "FileSystem",
            ApcError::Requestty(_) => "Requestty",
            ApcError::PostProperties(_) => "PostProperties",
            ApcError::Other(_) => "Other",
        }
    }

    /// The message that the error carries.
    pub fn message(&self) -> (r: &String)
        ensures
            r == match *self {
                ApcError::ParseRon(m) => m,
                ApcError::Validation(m) => m,
                ApcError::FileSystem(m) => m,
                ApcError::Requestty(m) => m,
                ApcError::PostProperties(m) => m,
                ApcError::Other(m) => m,
            },
    {
        match self {
            ApcError::ParseRon(m) => m,
            ApcError::Validation(m) => m,
            ApcError::FileSystem(m) => m,
            ApcError::Requestty(m) => m,
            ApcError::PostProperties(m) => m,
            ApcError::Other(m) => m,
        }
    }

    /// The process exit status that reports this error.
    pub fn exit_code(&self) -> (r: u8)
        ensures
            r == exit_status(*self),
    {
        match self {
            ApcError::FileSystem(_) => 77,
            ApcError::Validation(_) | ApcError::ParseRon(_) => 78,
            _ => 1,
        }
    }

    /// Whether the error is reported to the user (prompt failures are not).
    pub fn is_reported(&self) -> (r: bool)
        ensures
            r == !(*self is Requestty),
    {
        !matches!(self, ApcError::Requestty(_))
    }
}

} // verus!
