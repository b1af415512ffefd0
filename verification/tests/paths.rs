use reader_library::paths::{
    chars_extension, chars_file_name, chars_file_stem, chars_parent, chars_strip_prefix,
    chars_with_extension, is_within_root, join_paths, normalize_manifest_path,
    normalize_path_fragment, render_path, resolve_absolute_path, split_segments,
};
use reader_library::text::{from_chars, to_chars};

fn text(chars: Option<Vec<char>>) -> Option<String> {
    chars.map(|c| from_chars(&c))
}

#[test]
fn root_is_within_itself() {
    assert!(is_within_root("/lib/books", "/lib/books"));
    assert!(is_within_root("/lib/books/", "/lib/books"));
    assert!(is_within_root("/lib/books", "/lib/books/"));
}

#[test]
fn descendants_are_within_root() {
    assert!(is_within_root("/lib/books/a.pdf", "/lib/books"));
    assert!(is_within_root("/lib/books/sub/deep/a.pdf", "/lib/books"));
}

#[test]
fn sibling_sharing_a_text_prefix_is_outside() {
    assert!(!is_within_root("/lib/books2", "/lib/books"));
    assert!(!is_within_root("/lib/books2/a.pdf", "/lib/books"));
    assert!(!is_within_root("/lib/book", "/lib/books"));
}

#[test]
fn ancestor_and_unrelated_paths_are_outside() {
    assert!(!is_within_root("/lib", "/lib/books"));
    assert!(!is_within_root("/", "/lib/books"));
    assert!(!is_within_root("/other/books", "/lib/books"));
}

#[test]
fn relative_and_absolute_paths_do_not_mix() {
    assert!(!is_within_root("lib/books/a.pdf", "/lib/books"));
    assert!(!is_within_root("/lib/books/a.pdf", "lib/books"));
    assert!(is_within_root("lib/books/a.pdf", "lib/books"));
}

#[test]
fn everything_absolute_is_within_the_root_directory() {
    assert!(is_within_root("/a/b", "/"));
    assert!(is_within_root("/", "/"));
}

#[test]
fn segments_skip_empty_pieces() {
    let segs = split_segments(&to_chars("//a///b/"));
    let names: Vec<String> = segs.iter().map(|s| from_chars(s)).collect();
    assert_eq!(names, vec!["a".to_string(), "b".to_string()]);
    assert!(split_segments(&to_chars("")).is_empty());
    assert!(split_segments(&to_chars("///")).is_empty());
}

#[test]
fn render_writes_one_separator_between_segments() {
    let segs = vec![to_chars("a"), to_chars("b"), to_chars("c.txt")];
    assert_eq!(from_chars(&render_path(true, &segs)), "/a/b/c.txt");
    assert_eq!(from_chars(&render_path(false, &segs)), "a/b/c.txt");
    assert_eq!(from_chars(&render_path(true, &Vec::new())), "/");
    assert_eq!(from_chars(&render_path(false, &Vec::new())), "");
}

#[test]
fn fragments_get_forward_slashes() {
    assert_eq!(normalize_path_fragment("a\\b\\c"), "a/b/c");
    assert_eq!(normalize_path_fragment("a/b"), "a/b");
    assert_eq!(normalize_manifest_path("sub\\book.pdf"), "sub/book.pdf");
    assert_eq!(normalize_manifest_path(""), "");
}

#[test]
fn join_puts_one_separator() {
    assert_eq!(join_paths("/a", "b"), "/a/b");
    assert_eq!(join_paths("/a/", "b"), "/a/b");
    assert_eq!(join_paths("/a", "b/c.txt"), "/a/b/c.txt");
}

#[test]
fn join_edge_cases() {
    assert_eq!(join_paths("", "b"), "b");
    assert_eq!(join_paths("/a", "/b"), "/b");
    assert_eq!(join_paths("/a", ""), "/a/");
    assert_eq!(join_paths("/", "b"), "/b");
}

#[test]
fn absolute_input_is_kept() {
    assert_eq!(resolve_absolute_path("/x/y", Some("/cwd")), "/x/y");
    assert_eq!(resolve_absolute_path("/x/y", None), "/x/y");
}

#[test]
fn relative_input_goes_below_the_working_directory() {
    assert_eq!(resolve_absolute_path("x/y", Some("/cwd")), "/cwd/x/y");
    assert_eq!(resolve_absolute_path("x", None), "x");
}

#[test]
fn file_name_is_the_last_segment() {
    assert_eq!(text(chars_file_name(&to_chars("/a/b/c.txt"))), Some("c.txt".to_string()));
    assert_eq!(text(chars_file_name(&to_chars("/a/b/"))), Some("b".to_string()));
    assert_eq!(text(chars_file_name(&to_chars("name"))), Some("name".to_string()));
}

#[test]
fn file_name_is_absent_for_root_empty_and_dotdot() {
    assert_eq!(text(chars_file_name(&to_chars("/"))), None);
    assert_eq!(text(chars_file_name(&to_chars(""))), None);
    assert_eq!(text(chars_file_name(&to_chars("/a/.."))), None);
}

#[test]
fn extension_follows_the_last_dot() {
    assert_eq!(text(chars_extension(&to_chars("/a/b.pdf"))), Some("pdf".to_string()));
    assert_eq!(text(chars_extension(&to_chars("a.tar.gz"))), Some("gz".to_string()));
    assert_eq!(text(chars_extension(&to_chars("foo."))), Some("".to_string()));
}

#[test]
fn extension_is_absent_without_an_inner_dot() {
    assert_eq!(text(chars_extension(&to_chars("/a/b"))), None);
    assert_eq!(text(chars_extension(&to_chars("/a/.bashrc"))), None);
    assert_eq!(text(chars_extension(&to_chars("/a.d/b"))), None);
    assert_eq!(text(chars_extension(&to_chars("/"))), None);
}

#[test]
fn stem_precedes_the_last_dot() {
    assert_eq!(text(chars_file_stem(&to_chars("/a/b.pdf"))), Some("b".to_string()));
    assert_eq!(text(chars_file_stem(&to_chars("a.tar.gz"))), Some("a.tar".to_string()));
    assert_eq!(text(chars_file_stem(&to_chars(".bashrc"))), Some(".bashrc".to_string()));
    assert_eq!(text(chars_file_stem(&to_chars("plain"))), Some("plain".to_string()));
    assert_eq!(text(chars_file_stem(&to_chars("/"))), None);
}

#[test]
fn with_extension_replaces_or_adds() {
    let txt = to_chars("txt");
    assert_eq!(from_chars(&chars_with_extension(&to_chars("/a/b.pdf"), &txt)), "/a/b.txt");
    assert_eq!(from_chars(&chars_with_extension(&to_chars("/a/b"), &txt)), "/a/b.txt");
    assert_eq!(from_chars(&chars_with_extension(&to_chars("a.tar.gz"), &txt)), "a.tar.txt");
    assert_eq!(from_chars(&chars_with_extension(&to_chars("/a/.hidden"), &txt)), "/a/.hidden.txt");
}

#[test]
fn with_extension_leaves_a_path_without_file_name() {
    let txt = to_chars("txt");
    assert_eq!(from_chars(&chars_with_extension(&to_chars("/"), &txt)), "/");
    assert_eq!(from_chars(&chars_with_extension(&to_chars("/a/.."), &txt)), "/a/..");
}

#[test]
fn parent_drops_the_last_segment() {
    assert_eq!(text(chars_parent(&to_chars("/a/b"))), Some("/a".to_string()));
    assert_eq!(text(chars_parent(&to_chars("/a"))), Some("/".to_string()));
    assert_eq!(text(chars_parent(&to_chars("a/b/c.txt"))), Some("a/b".to_string()));
    assert_eq!(text(chars_parent(&to_chars("a"))), Some("".to_string()));
}

#[test]
fn parent_is_absent_for_root_and_empty() {
    assert_eq!(text(chars_parent(&to_chars("/"))), None);
    assert_eq!(text(chars_parent(&to_chars(""))), None);
}

#[test]
fn strip_prefix_leaves_the_relative_rest() {
    let root = to_chars("/r");
    assert_eq!(
        text(chars_strip_prefix(&to_chars("/r/a/b.pdf"), &root)),
        Some("a/b.pdf".to_string())
    );
    assert_eq!(text(chars_strip_prefix(&to_chars("/r"), &root)), Some("".to_string()));
    assert_eq!(text(chars_strip_prefix(&to_chars("/r2/a"), &root)), None);
    assert_eq!(text(chars_strip_prefix(&to_chars("/x/a"), &root)), None);
}
