//! The error a manifest check reports.

use vstd::prelude::*;
use crate::limits::MAX_MANIFEST_BYTES;
use crate::unicode::{decimal, push_decimal};

verus! {

/// Why a module manifest could not be loaded or was refused.
#[derive(Debug)]
pub enum ManifestError {
    /// The manifest file could not be read; `message` is the operating system's reason.
    Read { path: String, message: String },
    /// The manifest file is larger than `MAX_MANIFEST_BYTES`.
    TooLarge,
    /// The manifest is not valid TOML for a module manifest; the text is the parser's reason.
    Parse(String),
    /// The manifest breaks one of the module rules; the text says which.
    Invalid(String),
}

/// Whether `res` is the refusal `Invalid` whose text is `msg`.
pub open spec fn is_invalid_with(res: Result<(), ManifestError>, msg: Seq<char>) -> bool {
    res matches Err(ManifestError::Invalid(m)) && m@ == msg
}

/// Whether `res` agrees with the outcome `expected` of a rule: success, or refusal
/// `Invalid` with the expected text.
pub open spec fn outcome_matches(res: Result<(), ManifestError>, expected: Result<(), Seq<char>>) -> bool {
    match expected {
        Ok(()) => res is Ok,
        Err(msg) => is_invalid_with(res, msg),
    }
}

/// Makes the refusal `Invalid` with the given text.
pub fn invalid(msg: String) -> (res: Result<(), ManifestError>)
    ensures
        is_invalid_with(res, msg@),
{
    Err(ManifestError::Invalid(msg))
}

/// The text that describes an error to a user.
pub open spec fn error_text(e: ManifestError) -> Seq<char> {
    match e {
        ManifestError::Read { path, message } => "failed to read "@ + path@ + ": "@ + message@,
        ManifestError::TooLarge => "module manifest is larger than "@ + decimal(MAX_MANIFEST_BYTES as nat) + " bytes"@,
        ManifestError::Parse(reason) => "invalid TOML: "@ + reason@,
        ManifestError::Invalid(reason) => "invalid module manifest: "@ + reason@,
    }
}

impl ManifestError {
    /// The text that describes the error to a user.
    pub fn message(&self) -> (res: String)
        ensures
            res@ == error_text(*self),
    {
        match self {
            ManifestError::Read { path, message } => {
                let mut out = String::from_str("failed to read ");
                out.append(path.as_str());
                out.append(": ");
                out.append(message.as_str());
                out
            },
            ManifestError::TooLarge => {
                let mut out = String::from_str("module manifest is larger than ");
                push_decimal(&mut out, MAX_MANIFEST_BYTES);
                out.append(" bytes");
                out
            },
            ManifestError::Parse(reason) => {
                let mut out = String::from_str("invalid TOML: ");
                out.append(reason.as_str());
                out
            },
            ManifestError::Invalid(reason) => {
                let mut out = String::from_str("invalid module manifest: ");
                out.append(reason.as_str());
                out
            },
        }
    }
}

/// Checks the size of a manifest file before it is read: at most `MAX_MANIFEST_BYTES`.
pub fn check_manifest_size(len: u64) -> (res: Result<(), ManifestError>)
    ensures
        res is Ok <==> len <= MAX_MANIFEST_BYTES,
        res is Err ==> res matches Err(ManifestError::TooLarge),
{
    if len > MAX_MANIFEST_BYTES {
        return Err(ManifestError::TooLarge);
    }
    Ok(())
}

} // verus!
