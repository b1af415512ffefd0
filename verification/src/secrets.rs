//! The secret store adapter: which keys may be asked for, what is written to
//! the secret service, and how its answers are read.
//!
//! The service itself is the caller's; it reports each call as a
//! [`SecretLookup`] or a [`SecretOutcome`].

use crate::errors::LibraryError;
use crate::paths::opt_string;
use crate::text::{
    from_chars, lemma_trim_end_shape, lemma_trim_start_shape, same_chars, to_chars, trim,
    trim_end, trim_start, trimmed,
};
use vstd::prelude::*;

verus! {

/// The one key identifier that may be asked for.
pub open spec fn supported_key_id() -> Seq<char> {
    "comprehension-gemini"@
}

/// The key identifier, where it is on the list; `UnknownKeyId` otherwise.
pub fn parse_api_key_id(input: &str) -> (out: Result<&'static str, LibraryError>)
    ensures
        match out {
            Ok(id) => input@ == supported_key_id() && id@ == supported_key_id(),
            Err(e) => input@ != supported_key_id() && e is UnknownKeyId && e->UnknownKeyId_0@
                == input@,
        },
{
    if same_chars(&to_chars(input), &to_chars("comprehension-gemini")) {
        Ok("comprehension-gemini")
    } else {
        Err(LibraryError::UnknownKeyId(input.to_owned()))
    }
}

/// What the secret service answered to a read.
#[derive(Debug, Clone, PartialEq, Eq)]
pub enum SecretLookup {
    /// The stored value.
    Found(String),
    /// Nothing is stored under the key.
    NoEntry,
    /// The service failed, with its reason.
    Failed(String),
}

/// What the secret service answered to a write or a delete.
#[derive(Debug, Clone, PartialEq, Eq)]
pub enum SecretOutcome {
    Done,
    /// Nothing was stored under the key.
    NoEntry,
    /// The service failed, with its reason.
    Failed(String),
}

/// What is to be done at the secret service.
#[derive(Debug, Clone, PartialEq, Eq)]
pub enum SecretWrite {
    /// Store this value.
    Store(String),
    /// Delete the entry.
    Delete,
}

/// The secret that a read yields: the stored value, trimmed; none where
/// nothing is stored or the stored value is blank.
pub open spec fn secret_read(lookup: SecretLookup) -> Result<Option<Seq<char>>, LibraryError> {
    match lookup {
        SecretLookup::Found(value) => if trim(value@).len() == 0 {
            Ok(None)
        } else {
            Ok(Some(trim(value@)))
        },
        SecretLookup::NoEntry => Ok(None),
        SecretLookup::Failed(cause) => Err(LibraryError::SecretServiceFailure(cause)),
    }
}

pub fn get_secure_api_key(lookup: SecretLookup) -> (out: Result<Option<String>, LibraryError>)
    ensures
        match out {
            Ok(secret) => secret_read(lookup) == Ok::<Option<Seq<char>>, LibraryError>(
                opt_string(secret),
            ),
            Err(e) => secret_read(lookup) == Err::<Option<Seq<char>>, LibraryError>(e),
        },
{
    match lookup {
        SecretLookup::Found(value) => {
            let normalized = trimmed(&to_chars(value.as_str()));
            if normalized.len() == 0 {
                Ok(None)
            } else {
                Ok(Some(from_chars(&normalized)))
            }
        },
        SecretLookup::NoEntry => Ok(None),
        SecretLookup::Failed(cause) => Err(LibraryError::SecretServiceFailure(cause)),
    }
}

/// What a request to set a secret does at the service: a value that is not
/// blank is stored, trimmed; no value, or a blank one, deletes the entry.
pub open spec fn secret_write(value: Option<Seq<char>>) -> (bool, Seq<char>) {
    match value {
        Some(v) => if trim(v).len() == 0 {
            (false, Seq::empty())
        } else {
            (true, trim(v))
        },
        None => (false, Seq::empty()),
    }
}

pub fn set_secure_api_key(value: Option<String>) -> (out: SecretWrite)
    ensures
        match out {
            SecretWrite::Store(secret) => secret_write(opt_string(value)) == (true, secret@),
            SecretWrite::Delete => !secret_write(opt_string(value)).0,
        },
{
    match value {
        Some(v) => {
            let normalized = trimmed(&to_chars(v.as_str()));
            if normalized.len() == 0 {
                SecretWrite::Delete
            } else {
                SecretWrite::Store(from_chars(&normalized))
            }
        },
        None => SecretWrite::Delete,
    }
}

/// How a write ended: storing succeeds only where the service is done;
/// deleting succeeds also where there was nothing to delete. A failure
/// carries the service's reason.
pub fn conclude_secure_api_key_write(write: &SecretWrite, outcome: SecretOutcome) -> (out: Result<
    (),
    LibraryError,
>)
    ensures
        match outcome {
            SecretOutcome::Done => out is Ok,
            SecretOutcome::NoEntry => if write is Delete {
                out is Ok
            } else {
                out is Err && out->Err_0 is SecretServiceFailure
                    && out->Err_0->SecretServiceFailure_0@ == "No matching entry found"@
            },
            SecretOutcome::Failed(cause) => out == Err::<(), LibraryError>(
                LibraryError::SecretServiceFailure(cause),
            ),
        },
{
    match outcome {
        SecretOutcome::Done => Ok(()),
        SecretOutcome::NoEntry => match write {
            SecretWrite::Delete => Ok(()),
            SecretWrite::Store(_) => Err(
                LibraryError::SecretServiceFailure(String::from_str("No matching entry found")),
            ),
        },
        SecretOutcome::Failed(cause) => Err(LibraryError::SecretServiceFailure(cause)),
    }
}

/// Whether the secret service can be used: a read that finds a value or
/// finds none shows that it can; any failure shows that it cannot.
pub fn is_secure_api_key_storage_available(probe: &SecretLookup) -> (out: bool)
    ensures
        out == !(probe is Failed),
{
    match probe {
        SecretLookup::Found(_) => true,
        SecretLookup::NoEntry => true,
        SecretLookup::Failed(_) => false,
    }
}

/// Trimming a trimmed text changes nothing.
pub proof fn lemma_trim_is_idempotent(s: Seq<char>)
    ensures
        trim(trim(s)) == trim(s),
{
    let a = trim_start(s);
    let t = trim_end(a);
    lemma_trim_start_shape(s);
    lemma_trim_end_shape(a);
    if t.len() > 0 {
        assert(t[0] == a[0]);
        assert(trim_start(t) == t);
        assert(trim_end(t) == t);
    } else {
        assert(trim_start(t) == t);
        assert(trim_end(t) == t);
    }
}

/// No blank value is ever stored: setting no value or a blank one deletes
/// the entry, and what is stored is trimmed and not empty.
pub proof fn lemma_blank_secret_is_deleted(value: Option<Seq<char>>)
    ensures
        (value is None || trim(value->0).len() == 0) <==> !secret_write(value).0,
        secret_write(value).0 ==> secret_write(value).1.len() > 0 && trim(secret_write(value).1)
            == secret_write(value).1,
{
    if value is Some {
        lemma_trim_is_idempotent(value->0);
    }
}

/// A secret that was stored reads back as it was stored; after a delete,
/// when the service holds no entry, a read yields none.
pub proof fn lemma_secret_reads_back(value: Option<Seq<char>>, stored: String)
    requires
        secret_write(value).0,
        stored@ == secret_write(value).1,
    ensures
        secret_read(SecretLookup::Found(stored)) == Ok::<Option<Seq<char>>, LibraryError>(
            Some(stored@),
        ),
        secret_read(SecretLookup::NoEntry) == Ok::<Option<Seq<char>>, LibraryError>(None),
{
    lemma_blank_secret_is_deleted(value);
}

} // verus!
