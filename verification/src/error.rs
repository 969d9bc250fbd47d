//! The errors of password store operations.

use vstd::prelude::*;

use crate::text::concat;

verus! {

/// A failed filesystem operation, as the plain values the library reads.
#[derive(Debug)]
pub struct IoFailure {
    /// Whether the operation failed because the file or directory was absent.
    pub not_found: bool,
    /// The operating system's error number, where there is one.
    pub os_code: Option<i32>,
    /// A description of the failure.
    pub message: String,
}

/// A failed GnuPG operation: its error code and description.
#[derive(Debug)]
pub struct GpgFailure {
    /// The GnuPG error code (without its source part).
    pub code: u32,
    /// A description of the failure.
    pub message: String,
}

/// Decrypted contents that were not valid UTF-8.
#[derive(Debug)]
pub struct Utf8Failure {
    /// The length of the longest valid UTF-8 prefix.
    pub valid_up_to: usize,
    /// A description of the failure.
    pub message: String,
}

/// The GnuPG error code with which a key lookup reports that no key matched.
pub const GPG_ERR_EOF: u32 = 16383;

/// Errors returned by password store operations.
#[derive(Debug)]
#[non_exhaustive]
pub enum Error {
    /// A filesystem operation on the store failed.
    Io(IoFailure),
    /// GPG encryption, decryption, or key lookup failed.
    Gpg(GpgFailure),
    /// A decrypted entry was not valid UTF-8.
    Utf8(Utf8Failure),
    /// The named entry is not in the password store.
    NotFound(String),
    /// No `.gpg-id` was found for this location; the store (or subfolder)
    /// has not been initialized.
    NotInitialized(String),
    /// No key matched one of the GPG ids listed in `.gpg-id`.
    KeyNotFound(String),
    /// The entry name would resolve outside the password store.
    SneakyPath(String),
    /// `init` was called with no usable GPG ids.
    NoGpgIds,
}

/// The text that describes an error to a user.
pub open spec fn error_message(e: Error) -> Seq<char> {
    match e {
        Error::Io(f) => "password store I/O error: "@ + f.message@,
        Error::Gpg(f) => "gpg error: "@ + f.message@,
        Error::Utf8(f) => "entry contents were not valid UTF-8: "@ + f.message@,
        Error::NotFound(name) => name@ + " is not in the password store"@,
        Error::NotInitialized(dir) => "no .gpg-id found above "@ + dir@
            + ": store not initialized"@,
        Error::KeyNotFound(id) => "no GPG key found for id "@ + id@,
        Error::SneakyPath(name) => "entry name "@ + name@ + " escapes the password store"@,
        Error::NoGpgIds => "no GPG ids given: a store needs at least one recipient"@,
    }
}

/// The description of the underlying failure that caused an error, for the
/// errors that wrap one.
pub open spec fn error_source(e: Error) -> Option<Seq<char>> {
    match e {
        Error::Io(f) => Some(f.message@),
        Error::Gpg(f) => Some(f.message@),
        Error::Utf8(f) => Some(f.message@),
        _ => None,
    }
}

impl Error {
    /// The text that describes this error to a user.
    pub fn message(&self) -> (m: String)
        ensures
            m@ == error_message(*self),
    {
        match self {
            Error::Io(f) => concat("password store I/O error: ", f.message.as_str()),
            Error::Gpg(f) => concat("gpg error: ", f.message.as_str()),
            Error::Utf8(f) => concat("entry contents were not valid UTF-8: ", f.message.as_str()),
            Error::NotFound(name) => concat(name.as_str(), " is not in the password store"),
            Error::NotInitialized(dir) => {
                let head = concat("no .gpg-id found above ", dir.as_str());
                let m = concat(head.as_str(), ": store not initialized");
                m
            },
            Error::KeyNotFound(id) => concat("no GPG key found for id ", id.as_str()),
            Error::SneakyPath(name) => {
                let head = concat("entry name ", name.as_str());
                concat(head.as_str(), " escapes the password store")
            },
            Error::NoGpgIds => "no GPG ids given: a store needs at least one recipient".to_owned(),
        }
    }

    /// The description of the failure this error wraps, if it wraps one.
    pub fn source(&self) -> (s: Option<&str>)
        ensures
            match s {
                Some(t) => error_source(*self) == Some(t@),
                None => error_source(*self) is None,
            },
    {
        match self {
            Error::Io(f) => Some(f.message.as_str()),
            Error::Gpg(f) => Some(f.message.as_str()),
            Error::Utf8(f) => Some(f.message.as_str()),
            _ => None,
        }
    }
}

/// The error for a failed lookup of the key for `id`: an absent key is
/// `KeyNotFound`; any other failure (agent down, ambiguous id) is `Gpg`.
pub fn key_lookup_error(id: &str, failure: GpgFailure) -> (e: Error)
    ensures
        failure.code == GPG_ERR_EOF ==> (e matches Error::KeyNotFound(i) && i@ == id@),
        failure.code != GPG_ERR_EOF ==> e == Error::Gpg(failure),
{
    if failure.code == GPG_ERR_EOF {
        Error::KeyNotFound(id.to_owned())
    } else {
        Error::Gpg(failure)
    }
}

/// The error for a failed read or removal of the entry `name`: an absent
/// file is `NotFound(name)`, any other failure is `Io`.
pub fn entry_access_error(name: &str, failure: IoFailure) -> (e: Error)
    ensures
        failure.not_found ==> (e matches Error::NotFound(n) && n@ == name@),
        !failure.not_found ==> e == Error::Io(failure),
{
    if failure.not_found {
        Error::NotFound(name.to_owned())
    } else {
        Error::Io(failure)
    }
}

} // verus!
