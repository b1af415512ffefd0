//! What an export or an import reports to the user interface: that the user
//! cancelled, or what was done. A failure is reported as an error instead.

use crate::errors::LibraryError;
use crate::import::{LibraryImportSourceResult, LibraryManifestImportSummary};
use crate::model::{LibraryManifest, LibrarySource};
use vstd::prelude::*;

verus! {

#[derive(Debug, Clone, PartialEq, Eq)]
pub struct LibraryExportResult {
    pub status: String,
    pub path: Option<String>,
    pub source_count: Option<usize>,
    pub entry_count: Option<usize>,
}

#[derive(Debug, Clone, PartialEq, Eq)]
pub struct LibraryImportResult {
    pub status: String,
    pub manifest_path: Option<String>,
    pub shared_root_path: Option<String>,
    pub added: Option<usize>,
    pub existing: Option<usize>,
    pub missing: Option<usize>,
    pub results: Option<Vec<LibraryImportSourceResult>>,
}

/// An export needs at least one registered source.
pub fn check_export_sources(sources: &Vec<LibrarySource>) -> (out: Result<(), LibraryError>)
    ensures
        match out {
            Ok(_) => sources.len() > 0,
            Err(e) => sources.len() == 0 && e == LibraryError::NoSourcesConfigured,
        },
{
    if sources.len() == 0 {
        Err(LibraryError::NoSourcesConfigured)
    } else {
        Ok(())
    }
}

/// The file name offered for a manifest exported on `date`.
pub fn suggested_manifest_name(date: &str) -> (out: String)
    ensures
        out@ == "reader-library-manifest-"@ + date@ + ".json"@,
{
    String::from_str("reader-library-manifest-").concat(date).concat(".json")
}

impl LibraryExportResult {
    /// The user chose no file.
    pub fn cancelled() -> (out: LibraryExportResult)
        ensures
            out.status@ == "cancelled"@,
            out.path is None,
            out.source_count is None,
            out.entry_count is None,
    {
        LibraryExportResult {
            status: String::from_str("cancelled"),
            path: None,
            source_count: None,
            entry_count: None,
        }
    }

    /// The manifest was written to `path`.
    pub fn exported(path: String, manifest: &LibraryManifest) -> (out: LibraryExportResult)
        ensures
            out.status@ == "exported"@,
            out.path == Some(path),
            out.source_count == Some(manifest.sources.len()),
            out.entry_count == Some(manifest.entries.len()),
    {
        LibraryExportResult {
            status: String::from_str("exported"),
            path: Some(path),
            source_count: Some(manifest.sources.len()),
            entry_count: Some(manifest.entries.len()),
        }
    }
}

impl LibraryImportResult {
    /// The user chose no manifest, or no shared root.
    pub fn cancelled() -> (out: LibraryImportResult)
        ensures
            out.status@ == "cancelled"@,
            out.manifest_path is None,
            out.shared_root_path is None,
            out.added is None,
            out.existing is None,
            out.missing is None,
            out.results is None,
    {
        LibraryImportResult {
            status: String::from_str("cancelled"),
            manifest_path: None,
            shared_root_path: None,
            added: None,
            existing: None,
            missing: None,
            results: None,
        }
    }

    /// The manifest at `manifest_path` was imported against
    /// `shared_root_path`, with this summary.
    pub fn imported(
        manifest_path: String,
        shared_root_path: String,
        summary: LibraryManifestImportSummary,
    ) -> (out: LibraryImportResult)
        ensures
            out.status@ == "imported"@,
            out.manifest_path == Some(manifest_path),
            out.shared_root_path == Some(shared_root_path),
            out.added == Some(summary.added),
            out.existing == Some(summary.existing),
            out.missing == Some(summary.missing),
            out.results == Some(summary.results),
    {
        LibraryImportResult {
            status: String::from_str("imported"),
            manifest_path: Some(manifest_path),
            shared_root_path: Some(shared_root_path),
            added: Some(summary.added),
            existing: Some(summary.existing),
            missing: Some(summary.missing),
            results: Some(summary.results),
        }
    }
}

} // verus!
