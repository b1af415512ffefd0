use reader_library::errors::LibraryError;
use reader_library::import::{ImportStatus, LibraryImportSourceResult, LibraryManifestImportSummary};
use reader_library::model::{LibraryManifest, LibraryManifestEntry, LibraryManifestSource, LibrarySource};
use reader_library::outcome::{
    check_export_sources, suggested_manifest_name, LibraryExportResult, LibraryImportResult,
};

#[test]
fn export_needs_a_source() {
    assert_eq!(check_export_sources(&Vec::new()), Err(LibraryError::NoSourcesConfigured));
    let one = vec![LibrarySource { name: "A".to_string(), path: "/a".to_string() }];
    assert_eq!(check_export_sources(&one), Ok(()));
}

#[test]
fn suggested_name_carries_the_date() {
    assert_eq!(suggested_manifest_name("2024-03-09"), "reader-library-manifest-2024-03-09.json");
    assert_eq!(suggested_manifest_name(""), "reader-library-manifest-.json");
}

#[test]
fn cancelled_export_has_no_data() {
    assert_eq!(
        LibraryExportResult::cancelled(),
        LibraryExportResult {
            status: "cancelled".to_string(),
            path: None,
            source_count: None,
            entry_count: None
        }
    );
}

#[test]
fn export_reports_path_and_counts() {
    let entry = |rel: &str| LibraryManifestEntry {
        source_name: "A".to_string(),
        relative_path: rel.to_string(),
        entry_type: "txt".to_string(),
        normalized_text_relative_path: None,
        size: 0,
        modified_at: 0,
    };
    let manifest = LibraryManifest {
        schema: "reader-library-manifest".to_string(),
        version: 1,
        exported_at: "t".to_string(),
        sources: vec![LibraryManifestSource { name: "A".to_string(), root_name: "a".to_string() }],
        entries: vec![entry("1.txt"), entry("2.txt"), entry("3.txt")],
    };
    assert_eq!(
        LibraryExportResult::exported("/out/m.json".to_string(), &manifest),
        LibraryExportResult {
            status: "exported".to_string(),
            path: Some("/out/m.json".to_string()),
            source_count: Some(1),
            entry_count: Some(3)
        }
    );
}

#[test]
fn cancelled_import_has_no_data() {
    let r = LibraryImportResult::cancelled();
    assert_eq!(r.status, "cancelled");
    assert_eq!(r.manifest_path, None);
    assert_eq!(r.shared_root_path, None);
    assert_eq!((r.added, r.existing, r.missing), (None, None, None));
    assert_eq!(r.results, None);
}

#[test]
fn import_reports_the_summary() {
    let line = LibraryImportSourceResult {
        source_name: "A".to_string(),
        status: ImportStatus::Added,
        resolved_path: Some("/share/a".to_string()),
        message: "Source added".to_string(),
    };
    let summary =
        LibraryManifestImportSummary { added: 1, existing: 2, missing: 3, results: vec![line.clone()] };
    let r = LibraryImportResult::imported("/m.json".to_string(), "/share".to_string(), summary);
    assert_eq!(r.status, "imported");
    assert_eq!(r.manifest_path, Some("/m.json".to_string()));
    assert_eq!(r.shared_root_path, Some("/share".to_string()));
    assert_eq!((r.added, r.existing, r.missing), (Some(1), Some(2), Some(3)));
    assert_eq!(r.results, Some(vec![line]));
}
