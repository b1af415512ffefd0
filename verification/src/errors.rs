//! The failures the library reports, each with the message shown to a user.

use vstd::prelude::*;

verus! {

/// Which part of a manifest is malformed.
#[derive(Debug, Clone, Copy, PartialEq, Eq)]
pub enum ManifestFault {
    /// The text is no manifest at all: broken JSON or a missing field.
    Payload,
    /// A source with a blank name or root name.
    Source,
    /// An entry with a blank source name or path, or an unknown type.
    Entry,
}

#[derive(Debug, Clone, PartialEq, Eq)]
pub enum LibraryError {
    PathNotFound,
    NoSourcesConfigured,
    PathOutsideLibrary,
    NotADirectory,
    /// The file's extension, lower case, where it has one.
    UnsupportedFileType(Option<String>),
    /// A book, with the given extension, that has no text snapshot beside it.
    NoNormalizedSnapshot(String),
    ManifestSchemaMismatch,
    ManifestMalformed(ManifestFault),
    SharedRootInvalid,
    /// The key identifier that was asked for.
    UnknownKeyId(String),
    /// What the secret service reported.
    SecretServiceFailure(String),
    /// What the operating system reported.
    IoFailure(String),
    LockPoisoned,
}

pub open spec fn snapshot_hint() -> Seq<char> {
    ". This bridge loads normalized .txt snapshots (plus adjacent assets such as figure/equation files). Add a normalized .txt file next to the source file."@
}

impl LibraryError {
    /// The message of this error.
    pub open spec fn message_text(self) -> Seq<char> {
        match self {
            LibraryError::PathNotFound => "Path does not exist"@,
            LibraryError::NoSourcesConfigured => "No library sources configured"@,
            LibraryError::PathOutsideLibrary => "Path is outside configured library sources"@,
            LibraryError::NotADirectory => "Library source must be a directory"@,
            LibraryError::UnsupportedFileType(None) => "Unsupported file type"@,
            LibraryError::UnsupportedFileType(Some(ext)) => "Unsupported file type: ."@ + ext@,
            LibraryError::NoNormalizedSnapshot(ext) => "Unsupported file type: ."@ + ext@
                + snapshot_hint(),
            LibraryError::ManifestSchemaMismatch => "Unsupported library manifest format"@,
            LibraryError::ManifestMalformed(ManifestFault::Payload) => "Invalid manifest JSON payload"@,
            LibraryError::ManifestMalformed(ManifestFault::Source) => "Invalid manifest source entry"@,
            LibraryError::ManifestMalformed(ManifestFault::Entry) => "Invalid manifest content entry"@,
            LibraryError::SharedRootInvalid => "Shared root is not a directory"@,
            LibraryError::UnknownKeyId(id) => "Unsupported API key id: "@ + id@,
            LibraryError::SecretServiceFailure(cause) => "Secure storage failure: "@ + cause@,
            LibraryError::IoFailure(cause) => "File operation failed: "@ + cause@,
            LibraryError::LockPoisoned => "Corpus cache lock poisoned"@,
        }
    }

    pub fn message(&self) -> (out: String)
        ensures
            out@ == self.message_text(),
    {
        match self {
            LibraryError::PathNotFound => String::from_str("Path does not exist"),
            LibraryError::NoSourcesConfigured => String::from_str("No library sources configured"),
            LibraryError::PathOutsideLibrary => String::from_str(
                "Path is outside configured library sources",
            ),
            LibraryError::NotADirectory => String::from_str("Library source must be a directory"),
            LibraryError::UnsupportedFileType(None) => String::from_str("Unsupported file type"),
            LibraryError::UnsupportedFileType(Some(ext)) => String::from_str(
                "Unsupported file type: .",
            ).concat(ext.as_str()),
            LibraryError::NoNormalizedSnapshot(ext) => String::from_str(
                "Unsupported file type: .",
            ).concat(ext.as_str()).concat(
                ". This bridge loads normalized .txt snapshots (plus adjacent assets such as figure/equation files). Add a normalized .txt file next to the source file.",
            ),
            LibraryError::ManifestSchemaMismatch => String::from_str(
                "Unsupported library manifest format",
            ),
            LibraryError::ManifestMalformed(ManifestFault::Payload) => String::from_str(
                "Invalid manifest JSON payload",
            ),
            LibraryError::ManifestMalformed(ManifestFault::Source) => String::from_str(
                "Invalid manifest source entry",
            ),
            LibraryError::ManifestMalformed(ManifestFault::Entry) => String::from_str(
                "Invalid manifest content entry",
            ),
            LibraryError::SharedRootInvalid => String::from_str("Shared root is not a directory"),
            LibraryError::UnknownKeyId(id) => String::from_str("Unsupported API key id: ").concat(
                id.as_str(),
            ),
            LibraryError::SecretServiceFailure(cause) => String::from_str(
                "Secure storage failure: ",
            ).concat(cause.as_str()),
            LibraryError::IoFailure(cause) => String::from_str("File operation failed: ").concat(
                cause.as_str(),
            ),
            LibraryError::LockPoisoned => String::from_str("Corpus cache lock poisoned"),
        }
    }
}

} // verus!
