use reader_library::model::LibraryItem;
use reader_library::scanner::{
    book_item, insert_sorted, is_frontmatter_filename, is_manifest_entry_type,
    item_before_or_same, scan_directory, FoundFile,
};
use reader_library::text::to_chars;

fn found(path: &str, size: u64, modified_at: u64) -> FoundFile {
    FoundFile { path: path.to_string(), size, modified_at }
}

fn item(parent: Option<&str>, name: &str) -> LibraryItem {
    LibraryItem {
        name: name.to_string(),
        path: format!("/r/{}/{}", parent.unwrap_or(""), name),
        item_type: "txt".to_string(),
        size: 0,
        modified_at: 0,
        parent_dir: parent.map(|p| p.to_string()),
        is_frontmatter: false,
    }
}

#[test]
fn frontmatter_names_are_recognised() {
    assert!(is_frontmatter_filename("00-intro.pdf"));
    assert!(is_frontmatter_filename("Cover.PDF"));
    assert!(is_frontmatter_filename("Table-Of-Contents.txt"));
    assert!(!is_frontmatter_filename("chapter1.pdf"));
}

#[test]
fn every_frontmatter_rule_applies() {
    for name in [
        "00-a.pdf",
        "00_a.pdf",
        "my-frontmatter.txt",
        "cover.epub",
        "toc.txt",
        "book-table-of-contents.pdf",
        "the_table_of_contents.pdf",
        "title-page.pdf",
        "title_page.pdf",
        "copyright.txt",
        "preface.txt",
        "foreword.pdf",
        "acknowledgements.txt",
        "dedication.txt",
        "half-title.pdf",
        "half_title.pdf",
        "FRONTMATTER.TXT",
    ] {
        assert!(is_frontmatter_filename(name), "{name}");
    }
}

#[test]
fn prefix_rules_do_not_match_inside_a_name() {
    for name in [
        "chapter-00-.pdf",
        "discover.pdf",
        "mycover.pdf",
        "cover-story.pdf",
        "0-intro.pdf",
        "the-copyright.txt",
        "a-preface.txt",
        "toc",
        "",
        "001.pdf",
    ] {
        assert!(!is_frontmatter_filename(name), "{name}");
    }
}

#[test]
fn manifest_entry_types() {
    assert!(is_manifest_entry_type("pdf"));
    assert!(is_manifest_entry_type("epub"));
    assert!(is_manifest_entry_type("txt"));
    assert!(!is_manifest_entry_type("PDF"));
    assert!(!is_manifest_entry_type("doc"));
    assert!(!is_manifest_entry_type(""));
    assert!(!is_manifest_entry_type("txt "));
}

#[test]
fn scan_orders_by_directory_then_name() {
    let files = vec![
        found("/root/b/chapter2.pdf", 20, 2000),
        found("/root/a/chapter1.pdf", 10, 1000),
        found("/root/intro.txt", 5, 500),
    ];
    let items = scan_directory("/root", &files);
    let listed: Vec<(Option<&str>, &str)> =
        items.iter().map(|i| (i.parent_dir.as_deref(), i.name.as_str())).collect();
    assert_eq!(
        listed,
        vec![(None, "intro.txt"), (Some("a"), "chapter1.pdf"), (Some("b"), "chapter2.pdf")]
    );
}

#[test]
fn scan_fills_every_field() {
    let files = vec![found("/root/Sub/Deep/00-Cover.PDF", 1234, 1_700_000_000_123)];
    let items = scan_directory("/root", &files);
    assert_eq!(
        items,
        vec![LibraryItem {
            name: "00-Cover.PDF".to_string(),
            path: "/root/Sub/Deep/00-Cover.PDF".to_string(),
            item_type: "pdf".to_string(),
            size: 1234,
            modified_at: 1_700_000_000_123,
            parent_dir: Some("Sub/Deep".to_string()),
            is_frontmatter: true,
        }]
    );
}

#[test]
fn scan_skips_unsupported_files() {
    let files = vec![
        found("/root/notes.md", 1, 1),
        found("/root/README", 1, 1),
        found("/root/.txt", 1, 1),
        found("/root/archive.tar.gz", 1, 1),
        found("/root/book.epub", 7, 9),
        found("/root/image.pdf.png", 1, 1),
    ];
    let items = scan_directory("/root", &files);
    assert_eq!(items.len(), 1);
    assert_eq!(items[0].name, "book.epub");
    assert_eq!(items[0].item_type, "epub");
    assert_eq!(items[0].parent_dir, None);
    assert!(!items[0].is_frontmatter);
}

#[test]
fn scan_of_nothing_is_empty() {
    assert!(scan_directory("/root", &Vec::new()).is_empty());
}

#[test]
fn scan_orders_names_by_code_point() {
    let files = vec![
        found("/root/b.txt", 0, 0),
        found("/root/B.txt", 0, 0),
        found("/root/a.txt", 0, 0),
        found("/root/10.txt", 0, 0),
        found("/root/9.txt", 0, 0),
        found("/root/ab.txt", 0, 0),
    ];
    let items = scan_directory("/root", &files);
    let names: Vec<&str> = items.iter().map(|i| i.name.as_str()).collect();
    let mut expected = vec!["b.txt", "B.txt", "a.txt", "10.txt", "9.txt", "ab.txt"];
    expected.sort();
    assert_eq!(names, expected);
}

#[test]
fn scan_is_the_same_for_any_order_of_the_walk() {
    let a = vec![
        found("/root/x/2.pdf", 1, 1),
        found("/root/1.txt", 2, 2),
        found("/root/x/y/3.epub", 3, 3),
        found("/root/x/1.pdf", 4, 4),
    ];
    let mut b = a.clone();
    b.reverse();
    assert_eq!(scan_directory("/root", &a), scan_directory("/root", &b));
    let paths: Vec<String> = scan_directory("/root", &a).into_iter().map(|i| i.path).collect();
    assert_eq!(paths, vec!["/root/1.txt", "/root/x/1.pdf", "/root/x/2.pdf", "/root/x/y/3.epub"]);
}

#[test]
fn items_at_the_same_place_keep_their_order() {
    let files = vec![found("/other/x.txt", 1, 0), found("/root/x.txt", 2, 0)];
    let items = scan_directory("/root", &files);
    let sizes: Vec<u64> = items.iter().map(|i| i.size).collect();
    assert_eq!(sizes, vec![1, 2]);
    let mut back = files.clone();
    back.reverse();
    let sizes: Vec<u64> = scan_directory("/root", &back).iter().map(|i| i.size).collect();
    assert_eq!(sizes, vec![2, 1]);
}

#[test]
fn a_file_outside_the_root_has_no_parent_dir() {
    let made = book_item(&to_chars("/root"), &found("/elsewhere/a/b.pdf", 1, 1)).unwrap();
    assert_eq!(made.parent_dir, None);
    assert_eq!(made.name, "b.pdf");
}

#[test]
fn parent_dir_uses_forward_slashes() {
    let made = book_item(&to_chars("/root"), &found("/root/a\\b/c.pdf", 1, 1)).unwrap();
    assert_eq!(made.parent_dir, Some("a/b".to_string()));
}

#[test]
fn item_order() {
    assert!(item_before_or_same(&item(None, "z.txt"), &item(Some("a"), "a.txt")));
    assert!(!item_before_or_same(&item(Some("a"), "a.txt"), &item(None, "z.txt")));
    assert!(item_before_or_same(&item(Some("a"), "b.txt"), &item(Some("a"), "c.txt")));
    assert!(!item_before_or_same(&item(Some("a"), "c.txt"), &item(Some("a"), "b.txt")));
    assert!(item_before_or_same(&item(Some("a"), "z.txt"), &item(Some("b"), "a.txt")));
    assert!(item_before_or_same(&item(Some("a"), "b.txt"), &item(Some("a"), "b.txt")));
}

#[test]
fn insert_sorted_puts_an_item_at_its_place() {
    let mut items = vec![item(None, "a.txt"), item(None, "c.txt"), item(Some("d"), "a.txt")];
    insert_sorted(&mut items, item(None, "b.txt"));
    insert_sorted(&mut items, item(Some("e"), "a.txt"));
    insert_sorted(&mut items, item(None, "1.txt"));
    let names: Vec<(Option<&str>, &str)> =
        items.iter().map(|i| (i.parent_dir.as_deref(), i.name.as_str())).collect();
    assert_eq!(
        names,
        vec![
            (None, "1.txt"),
            (None, "a.txt"),
            (None, "b.txt"),
            (None, "c.txt"),
            (Some("d"), "a.txt"),
            (Some("e"), "a.txt")
        ]
    );
}
