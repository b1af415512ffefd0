use reader_library::access::{any_root_holds, get_allowed_library_roots, resolve_allowed_library_path};
use reader_library::errors::LibraryError;

fn roots(list: &[&str]) -> Vec<String> {
    list.iter().map(|s| s.to_string()).collect()
}

#[test]
fn request_inside_a_root_is_granted() {
    let r = roots(&["/lib/books", "/media/papers"]);
    assert_eq!(
        resolve_allowed_library_path(Some("/lib/books/a/ch1.pdf".to_string()), &r),
        Ok("/lib/books/a/ch1.pdf".to_string())
    );
    assert_eq!(
        resolve_allowed_library_path(Some("/media/papers".to_string()), &r),
        Ok("/media/papers".to_string())
    );
}

#[test]
fn sibling_with_shared_prefix_is_refused() {
    let r = roots(&["/lib/books"]);
    assert_eq!(
        resolve_allowed_library_path(Some("/lib/books2".to_string()), &r),
        Err(LibraryError::PathOutsideLibrary)
    );
    assert_eq!(
        resolve_allowed_library_path(Some("/lib/books2/a.pdf".to_string()), &r),
        Err(LibraryError::PathOutsideLibrary)
    );
}

#[test]
fn missing_path_is_not_found() {
    let r = roots(&["/lib/books"]);
    assert_eq!(resolve_allowed_library_path(None, &r), Err(LibraryError::PathNotFound));
    assert_eq!(resolve_allowed_library_path(None, &Vec::new()), Err(LibraryError::PathNotFound));
}

#[test]
fn empty_registry_refuses_every_existing_path() {
    assert_eq!(
        resolve_allowed_library_path(Some("/lib/books".to_string()), &Vec::new()),
        Err(LibraryError::NoSourcesConfigured)
    );
}

#[test]
fn path_outside_every_root_is_refused() {
    let r = roots(&["/lib/books", "/media/papers"]);
    assert_eq!(
        resolve_allowed_library_path(Some("/etc/passwd".to_string()), &r),
        Err(LibraryError::PathOutsideLibrary)
    );
    assert_eq!(
        resolve_allowed_library_path(Some("/lib".to_string()), &r),
        Err(LibraryError::PathOutsideLibrary)
    );
}

#[test]
fn allowed_roots_skip_sources_that_do_not_exist() {
    let canonical = vec![Some("/a".to_string()), None, Some("/b".to_string()), None];
    assert_eq!(get_allowed_library_roots(&canonical), roots(&["/a", "/b"]));
    assert_eq!(get_allowed_library_roots(&vec![None, None]), Vec::<String>::new());
    assert_eq!(get_allowed_library_roots(&Vec::new()), Vec::<String>::new());
}

#[test]
fn any_root_holds_looks_at_every_root() {
    let r = roots(&["/x", "/y", "/z"]);
    assert!(any_root_holds("/z/file.txt", &r));
    assert!(any_root_holds("/x", &r));
    assert!(!any_root_holds("/w/file.txt", &r));
    assert!(!any_root_holds("/z/file.txt", &Vec::new()));
}

#[test]
fn error_messages() {
    assert_eq!(LibraryError::PathNotFound.message(), "Path does not exist");
    assert_eq!(LibraryError::NoSourcesConfigured.message(), "No library sources configured");
    assert_eq!(
        LibraryError::PathOutsideLibrary.message(),
        "Path is outside configured library sources"
    );
    assert_eq!(LibraryError::NotADirectory.message(), "Library source must be a directory");
    assert_eq!(LibraryError::UnsupportedFileType(None).message(), "Unsupported file type");
    assert_eq!(
        LibraryError::UnsupportedFileType(Some("doc".to_string())).message(),
        "Unsupported file type: .doc"
    );
    assert_eq!(
        LibraryError::NoNormalizedSnapshot("pdf".to_string()).message(),
        "Unsupported file type: .pdf. This bridge loads normalized .txt snapshots (plus adjacent assets such as figure/equation files). Add a normalized .txt file next to the source file."
    );
    assert_eq!(LibraryError::SharedRootInvalid.message(), "Shared root is not a directory");
    assert_eq!(
        LibraryError::UnknownKeyId("x".to_string()).message(),
        "Unsupported API key id: x"
    );
    assert_eq!(
        LibraryError::SecretServiceFailure("locked".to_string()).message(),
        "Secure storage failure: locked"
    );
    assert_eq!(
        LibraryError::IoFailure("denied".to_string()).message(),
        "File operation failed: denied"
    );
    assert_eq!(LibraryError::LockPoisoned.message(), "Corpus cache lock poisoned");
    assert_eq!(
        LibraryError::ManifestSchemaMismatch.message(),
        "Unsupported library manifest format"
    );
}
