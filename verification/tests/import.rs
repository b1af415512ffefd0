use reader_library::errors::LibraryError;
use reader_library::import::{
    contains_path, entry_candidates, expected_source_folder, import_library_manifest,
    manifest_lists_source, FolderProbe, ImportStatus, LibraryImportSourceResult,
};
use reader_library::manifest::{build_library_manifest, ScannedItem, ScannedSource};
use reader_library::model::{
    LibraryItem, LibraryManifest, LibraryManifestEntry, LibraryManifestSource, LibrarySource,
};
use reader_library::registry::{
    check_shared_root, library_add_source, library_remove_source, normalize_path_for_compare,
    source_display_name,
};

fn entry(source: &str, rel: &str) -> LibraryManifestEntry {
    LibraryManifestEntry {
        source_name: source.to_string(),
        relative_path: rel.to_string(),
        entry_type: "pdf".to_string(),
        normalized_text_relative_path: None,
        size: 1,
        modified_at: 2,
    }
}

fn manifest(sources: Vec<(&str, &str)>, entries: Vec<LibraryManifestEntry>) -> LibraryManifest {
    LibraryManifest {
        schema: "reader-library-manifest".to_string(),
        version: 1,
        exported_at: "t".to_string(),
        sources: sources
            .into_iter()
            .map(|(name, root_name)| LibraryManifestSource {
                name: name.to_string(),
                root_name: root_name.to_string(),
            })
            .collect(),
        entries,
    }
}

fn probe(named: Option<&str>, in_named: bool, in_shared: bool) -> FolderProbe {
    FolderProbe {
        named_folder: named.map(|s| s.to_string()),
        entry_in_named_folder: in_named,
        entry_in_shared_root: in_shared,
    }
}

fn src(name: &str, path: &str) -> LibrarySource {
    LibrarySource { name: name.to_string(), path: path.to_string() }
}

fn paths(sources: &[LibrarySource]) -> Vec<String> {
    sources.iter().map(|s| s.path.clone()).collect()
}

#[test]
fn first_import_adds_every_source_and_second_finds_them_existing() {
    let m = manifest(
        vec![("Novels", "novels"), ("Papers", "papers")],
        vec![entry("Novels", "a/ch1.pdf"), entry("Papers", "p.pdf")],
    );
    let probes = vec![
        probe(Some("/share/novels"), true, false),
        probe(Some("/share/papers"), true, false),
    ];
    let mut registry: Vec<LibrarySource> = Vec::new();
    let first = import_library_manifest(&mut registry, &Vec::new(), &m, "/share", &probes);
    assert_eq!((first.added, first.existing, first.missing), (2, 0, 0));
    assert_eq!(registry, vec![src("Novels", "/share/novels"), src("Papers", "/share/papers")]);
    assert_eq!(
        first.results,
        vec![
            LibraryImportSourceResult {
                source_name: "Novels".to_string(),
                status: ImportStatus::Added,
                resolved_path: Some("/share/novels".to_string()),
                message: "Source added".to_string(),
            },
            LibraryImportSourceResult {
                source_name: "Papers".to_string(),
                status: ImportStatus::Added,
                resolved_path: Some("/share/papers".to_string()),
                message: "Source added".to_string(),
            },
        ]
    );

    let known = paths(&registry);
    let second = import_library_manifest(&mut registry, &known, &m, "/share", &probes);
    assert_eq!((second.added, second.existing, second.missing), (0, 2, 0));
    assert_eq!(registry, vec![src("Novels", "/share/novels"), src("Papers", "/share/papers")]);
    for line in &second.results {
        assert_eq!(line.status, ImportStatus::Existing);
        assert_eq!(line.message, "Source already configured");
    }
    assert_eq!(second.results[1].resolved_path, Some("/share/papers".to_string()));
}

#[test]
fn round_trip_of_a_built_manifest() {
    let registered = vec![src("Novels", "/home/u/novels"), src("Papers", "/home/u/papers")];
    let scanned: Vec<ScannedSource> = registered
        .iter()
        .map(|s| ScannedSource {
            source: s.clone(),
            root: Some(s.path.clone()),
            items: vec![ScannedItem {
                item: LibraryItem {
                    name: "book.pdf".to_string(),
                    path: format!("{}/book.pdf", s.path),
                    item_type: "pdf".to_string(),
                    size: 3,
                    modified_at: 4,
                    parent_dir: None,
                    is_frontmatter: false,
                },
                has_text_sidecar: false,
            }],
        })
        .collect();
    let m = build_library_manifest(&scanned, None, "t".to_string());
    let probes: Vec<FolderProbe> = m
        .sources
        .iter()
        .map(|s| {
            let folder = expected_source_folder("/home/u", &s.root_name);
            assert_eq!(
                entry_candidates(&m, &s.name, &folder),
                vec![format!("{folder}/book.pdf")]
            );
            probe(Some(&folder), true, false)
        })
        .collect();
    let mut registry: Vec<LibrarySource> = Vec::new();
    let first = import_library_manifest(&mut registry, &Vec::new(), &m, "/home/u", &probes);
    assert_eq!(registry, registered);
    assert!(first.results.iter().all(|r| r.status == ImportStatus::Added));
    let known = paths(&registry);
    let second = import_library_manifest(&mut registry, &known, &m, "/home/u", &probes);
    assert_eq!(registry, registered);
    assert_eq!(second.added, 0);
    assert!(second.results.iter().all(|r| r.status == ImportStatus::Existing));
}

#[test]
fn missing_folder_is_reported_and_changes_nothing() {
    let m = manifest(vec![("Novels", "novels"), ("Papers", "papers")], vec![]);
    let probes = vec![probe(None, false, true), probe(None, false, true)];
    let mut registry = vec![src("Old", "/old")];
    let summary =
        import_library_manifest(&mut registry, &vec!["/old".to_string()], &m, "/share", &probes);
    assert_eq!((summary.added, summary.existing, summary.missing), (0, 0, 2));
    assert_eq!(registry, vec![src("Old", "/old")]);
    assert_eq!(
        summary.results[0],
        LibraryImportSourceResult {
            source_name: "Novels".to_string(),
            status: ImportStatus::Missing,
            resolved_path: None,
            message: "Missing folder \"novels\" under shared root".to_string(),
        }
    );
    assert_eq!(summary.results[1].message, "Missing folder \"papers\" under shared root");
}

#[test]
fn single_source_falls_back_to_the_shared_root() {
    let m = manifest(vec![("Novels", "novels")], vec![entry("Novels", "a.pdf")]);
    let mut registry: Vec<LibrarySource> = Vec::new();
    let summary = import_library_manifest(
        &mut registry,
        &Vec::new(),
        &m,
        "/picked/content",
        &vec![probe(None, false, true)],
    );
    assert_eq!((summary.added, summary.existing, summary.missing), (1, 0, 0));
    assert_eq!(registry, vec![src("Novels", "/picked/content")]);
    assert_eq!(summary.results[0].resolved_path, Some("/picked/content".to_string()));
}

#[test]
fn single_source_prefers_the_named_folder() {
    let m = manifest(vec![("Novels", "novels")], vec![entry("Novels", "a.pdf")]);
    let mut registry: Vec<LibrarySource> = Vec::new();
    let summary = import_library_manifest(
        &mut registry,
        &Vec::new(),
        &m,
        "/share",
        &vec![probe(Some("/share/novels"), true, true)],
    );
    assert_eq!(summary.added, 1);
    assert_eq!(registry, vec![src("Novels", "/share/novels")]);
}

#[test]
fn folder_without_any_listed_file_is_missing() {
    let m = manifest(
        vec![("Novels", "novels"), ("Papers", "papers")],
        vec![entry("Novels", "a.pdf"), entry("Novels", "b.pdf")],
    );
    let probes = vec![
        probe(Some("/share/novels"), false, true),
        probe(Some("/share/papers"), false, false),
    ];
    let mut registry: Vec<LibrarySource> = Vec::new();
    let summary = import_library_manifest(&mut registry, &Vec::new(), &m, "/share", &probes);
    assert_eq!((summary.added, summary.existing, summary.missing), (1, 0, 1));
    assert_eq!(
        summary.results[0],
        LibraryImportSourceResult {
            source_name: "Novels".to_string(),
            status: ImportStatus::Missing,
            resolved_path: Some("/share/novels".to_string()),
            message: "No manifest files found under resolved folder".to_string(),
        }
    );
    assert_eq!(summary.results[1].status, ImportStatus::Added);
    assert_eq!(registry, vec![src("Papers", "/share/papers")]);
}

#[test]
fn fallback_folder_is_checked_for_files_too() {
    let m = manifest(vec![("Novels", "novels")], vec![entry("Novels", "a.pdf")]);
    let mut registry: Vec<LibrarySource> = Vec::new();
    let summary = import_library_manifest(
        &mut registry,
        &Vec::new(),
        &m,
        "/picked",
        &vec![probe(None, true, false)],
    );
    assert_eq!(summary.missing, 1);
    assert_eq!(summary.results[0].resolved_path, Some("/picked".to_string()));
    assert_eq!(summary.results[0].message, "No manifest files found under resolved folder");
    assert!(registry.is_empty());
}

#[test]
fn a_folder_is_added_once_within_one_import() {
    let m = manifest(vec![("First", "books"), ("Second", "books")], vec![]);
    let probes = vec![probe(Some("/share/books"), false, false), probe(Some("/share/books"), false, false)];
    let mut registry: Vec<LibrarySource> = Vec::new();
    let summary = import_library_manifest(&mut registry, &Vec::new(), &m, "/share", &probes);
    assert_eq!((summary.added, summary.existing, summary.missing), (1, 1, 0));
    assert_eq!(registry, vec![src("First", "/share/books")]);
    assert_eq!(summary.results[1].status, ImportStatus::Existing);
    assert_eq!(summary.results[1].source_name, "Second");
}

#[test]
fn known_folder_is_existing_and_not_added_again() {
    let m = manifest(vec![("Novels", "novels"), ("Papers", "papers")], vec![]);
    let probes = vec![probe(Some("/share/novels"), false, false), probe(Some("/share/papers"), false, false)];
    let mut registry = vec![src("My novels", "/share/novels")];
    let summary = import_library_manifest(
        &mut registry,
        &vec!["/share/novels".to_string()],
        &m,
        "/share",
        &probes,
    );
    assert_eq!((summary.added, summary.existing, summary.missing), (1, 1, 0));
    assert_eq!(registry, vec![src("My novels", "/share/novels"), src("Papers", "/share/papers")]);
}

#[test]
fn a_source_without_probe_has_nothing_on_disk() {
    let m = manifest(vec![("A", "a"), ("B", "b")], vec![]);
    let mut registry: Vec<LibrarySource> = Vec::new();
    let summary = import_library_manifest(
        &mut registry,
        &Vec::new(),
        &m,
        "/share",
        &vec![probe(Some("/share/a"), false, false)],
    );
    assert_eq!((summary.added, summary.existing, summary.missing), (1, 0, 1));
    assert_eq!(summary.results[1].status, ImportStatus::Missing);
    assert_eq!(summary.results[1].resolved_path, None);
}

#[test]
fn empty_manifest_imports_nothing() {
    let m = manifest(vec![], vec![]);
    let mut registry = vec![src("Old", "/old")];
    let summary = import_library_manifest(&mut registry, &Vec::new(), &m, "/share", &Vec::new());
    assert_eq!((summary.added, summary.existing, summary.missing), (0, 0, 0));
    assert!(summary.results.is_empty());
    assert_eq!(registry, vec![src("Old", "/old")]);
}

#[test]
fn status_texts() {
    assert_eq!(ImportStatus::Added.as_text(), "added");
    assert_eq!(ImportStatus::Existing.as_text(), "existing");
    assert_eq!(ImportStatus::Missing.as_text(), "missing");
}

#[test]
fn candidates_are_the_entries_of_the_source() {
    let m = manifest(
        vec![("A", "a"), ("B", "b")],
        vec![entry("A", "x/1.pdf"), entry("B", "2.pdf"), entry("A", "3.pdf")],
    );
    assert_eq!(expected_source_folder("/share", "a"), "/share/a");
    assert_eq!(entry_candidates(&m, "A", "/share/a"), vec!["/share/a/x/1.pdf", "/share/a/3.pdf"]);
    assert_eq!(entry_candidates(&m, "B", "/share/b/"), vec!["/share/b/2.pdf"]);
    assert!(entry_candidates(&m, "C", "/share/c").is_empty());
    assert!(manifest_lists_source(&m.entries, &"A".to_string()));
    assert!(!manifest_lists_source(&m.entries, &"C".to_string()));
    assert!(contains_path(&vec!["/a".to_string(), "/b".to_string()], &"/b".to_string()));
    assert!(!contains_path(&vec!["/a".to_string()], &"/a/".to_string()));
}

#[test]
fn shared_root_must_be_a_directory() {
    assert_eq!(check_shared_root(Some("/share".to_string()), true), Ok("/share".to_string()));
    assert_eq!(
        check_shared_root(Some("/share/file".to_string()), false),
        Err(LibraryError::SharedRootInvalid)
    );
    assert_eq!(check_shared_root(None, false), Err(LibraryError::SharedRootInvalid));
    assert_eq!(check_shared_root(None, true), Err(LibraryError::SharedRootInvalid));
}

#[test]
fn compare_form_prefers_the_canonical_path() {
    assert_eq!(
        normalize_path_for_compare("/a/link".to_string(), Some("/a/real".to_string())),
        "/a/real"
    );
    assert_eq!(normalize_path_for_compare("/a/gone".to_string(), None), "/a/gone");
}

#[test]
fn adding_a_source() {
    let mut registry: Vec<LibrarySource> = Vec::new();
    assert_eq!(
        library_add_source(&mut registry, &Vec::new(), "  My Books ", Some("/lib/books".to_string()), true),
        Ok(true)
    );
    assert_eq!(registry, vec![src("My Books", "/lib/books")]);
    let known = paths(&registry);
    assert_eq!(
        library_add_source(&mut registry, &known, "Again", Some("/lib/books".to_string()), true),
        Ok(false)
    );
    assert_eq!(registry, vec![src("My Books", "/lib/books")]);
    assert_eq!(
        library_add_source(&mut registry, &known, "   ", Some("/lib/papers".to_string()), true),
        Ok(true)
    );
    assert_eq!(registry, vec![src("My Books", "/lib/books"), src("papers", "/lib/papers")]);
}

#[test]
fn adding_a_source_that_is_not_there_fails() {
    let mut registry = vec![src("A", "/a")];
    assert_eq!(
        library_add_source(&mut registry, &Vec::new(), "B", None, false),
        Err(LibraryError::PathNotFound)
    );
    assert_eq!(
        library_add_source(&mut registry, &Vec::new(), "B", None, true),
        Err(LibraryError::PathNotFound)
    );
    assert_eq!(
        library_add_source(&mut registry, &Vec::new(), "B", Some("/b.txt".to_string()), false),
        Err(LibraryError::NotADirectory)
    );
    assert_eq!(registry, vec![src("A", "/a")]);
}

#[test]
fn display_name_falls_back_to_the_folder() {
    assert_eq!(source_display_name("Shelf", "/lib/books"), "Shelf");
    assert_eq!(source_display_name("", "/lib/books"), "books");
    assert_eq!(source_display_name(" \t", "/"), "Library");
}

#[test]
fn removing_a_source_by_its_compare_form() {
    let registry = vec![src("A", "/a"), src("B", "/link-to-b"), src("C", "/c"), src("B2", "/b")];
    let compare: Vec<String> = ["/a", "/b", "/c", "/b"].iter().map(|s| s.to_string()).collect();
    assert_eq!(
        library_remove_source(registry.clone(), &compare, "/b"),
        vec![src("A", "/a"), src("C", "/c")]
    );
    assert_eq!(library_remove_source(registry.clone(), &compare, "/zzz"), registry);
    assert_eq!(
        library_remove_source(registry.clone(), &vec!["/a".to_string()], "/a"),
        vec![src("B", "/link-to-b"), src("C", "/c"), src("B2", "/b")]
    );
    assert!(library_remove_source(Vec::new(), &compare, "/a").is_empty());
}
