//! The library scanner: from the files found under a root to the list of
//! books, classified and in order.
//!
//! Walking the directory is the caller's part; it hands over every regular
//! file it found as a [`FoundFile`].

use crate::model::{item_views, ItemView, LibraryItem};
use crate::ordering::{text_before_or_same, text_le};
use crate::paths::{
    chars_extension, chars_file_name, chars_parent, chars_strip_prefix, extension, file_name,
    forward_slashes, parent, strip_prefix,
};
use crate::text::{
    contains, from_chars, has_prefix, has_substring, lowercase, replace_chars, same_chars,
    starts_with, to_chars, to_lowercase,
};
use vstd::prelude::*;

verus! {

/// Whether a file name marks front matter: its lower-case form begins with
/// one of a fixed list of prefixes or holds one of a fixed list of words.
pub open spec fn frontmatter_name(name: Seq<char>) -> bool {
    let lower = lowercase(name);
    has_prefix(lower, "00-"@) || has_prefix(lower, "00_"@) || has_substring(
        lower,
        "frontmatter"@,
    ) || has_prefix(lower, "cover."@) || has_prefix(lower, "toc."@) || has_substring(
        lower,
        "table-of-contents"@,
    ) || has_substring(lower, "table_of_contents"@) || has_prefix(lower, "title-page"@)
        || has_prefix(lower, "title_page"@) || has_prefix(lower, "copyright"@) || has_prefix(
        lower,
        "preface."@,
    ) || has_prefix(lower, "foreword."@) || has_prefix(lower, "acknowledgement"@) || has_prefix(
        lower,
        "dedication."@,
    ) || has_prefix(lower, "half-title"@) || has_prefix(lower, "half_title"@)
}

fn begins(text: &Vec<char>, word: &str) -> (out: bool)
    ensures
        out == has_prefix(text@, word@),
{
    starts_with(text, &to_chars(word))
}

fn holds(text: &Vec<char>, word: &str) -> (out: bool)
    ensures
        out == has_substring(text@, word@),
{
    contains(text, &to_chars(word))
}

pub fn is_frontmatter_filename(filename: &str) -> (out: bool)
    ensures
        out == frontmatter_name(filename@),
{
    let lower = to_lowercase(&to_chars(filename));
    begins(&lower, "00-") || begins(&lower, "00_") || holds(&lower, "frontmatter") || begins(
        &lower,
        "cover.",
    ) || begins(&lower, "toc.") || holds(&lower, "table-of-contents") || holds(
        &lower,
        "table_of_contents",
    ) || begins(&lower, "title-page") || begins(&lower, "title_page") || begins(
        &lower,
        "copyright",
    ) || begins(&lower, "preface.") || begins(&lower, "foreword.") || begins(
        &lower,
        "acknowledgement",
    ) || begins(&lower, "dedication.") || begins(&lower, "half-title") || begins(
        &lower,
        "half_title",
    )
}

/// The three kinds of book.
pub open spec fn supported_type(value: Seq<char>) -> bool {
    value == "pdf"@ || value == "epub"@ || value == "txt"@
}

fn chars_supported_type(value: &Vec<char>) -> (out: bool)
    ensures
        out == supported_type(value@),
{
    same_chars(value, &to_chars("pdf")) || same_chars(value, &to_chars("epub")) || same_chars(
        value,
        &to_chars("txt"),
    )
}

pub fn is_manifest_entry_type(value: &str) -> (out: bool)
    ensures
        out == supported_type(value@),
{
    chars_supported_type(&to_chars(value))
}

/// The kind of book at `path`: its extension in lower case where that is a
/// supported one.
pub open spec fn book_type(path: Seq<char>) -> Option<Seq<char>> {
    match extension(path) {
        Some(ext) => if supported_type(lowercase(ext)) {
            Some(lowercase(ext))
        } else {
            None
        },
        None => None,
    }
}

/// The directory of `path` below `root`, with forward slashes; none for a
/// file directly under the root or outside it.
pub open spec fn parent_dir_below(root: Seq<char>, path: Seq<char>) -> Option<Seq<char>> {
    match strip_prefix(path, root) {
        Some(rel) => match parent(rel) {
            Some(dir) => if dir.len() == 0 {
                None
            } else {
                Some(forward_slashes(dir))
            },
            None => None,
        },
        None => None,
    }
}

/// A regular file found by a walk, with its size in bytes and the time of
/// its last change in milliseconds since the epoch (0 where unknown).
#[derive(Debug, Clone, PartialEq, Eq)]
pub struct FoundFile {
    pub path: String,
    pub size: u64,
    pub modified_at: u64,
}

pub struct FoundFileView {
    pub path: Seq<char>,
    pub size: u64,
    pub modified_at: u64,
}

impl View for FoundFile {
    type V = FoundFileView;

    open spec fn view(&self) -> FoundFileView {
        FoundFileView { path: self.path@, size: self.size, modified_at: self.modified_at }
    }
}

pub open spec fn found_file_views(v: Seq<FoundFile>) -> Seq<FoundFileView> {
    Seq::new(v.len(), |i: int| v[i]@)
}

/// The book that a found file is; none where its extension is not a
/// supported one.
pub open spec fn book_of(root: Seq<char>, file: FoundFileView) -> Option<ItemView> {
    match book_type(file.path) {
        Some(kind) => Some(
            ItemView {
                name: file_name(file.path)->0,
                path: file.path,
                item_type: kind,
                size: file.size,
                modified_at: file.modified_at,
                parent_dir: parent_dir_below(root, file.path),
                is_frontmatter: frontmatter_name(file_name(file.path)->0),
            },
        ),
        None => None,
    }
}

/// The books among the found files, in the order in which they were found.
pub open spec fn found_books(root: Seq<char>, files: Seq<FoundFileView>) -> Seq<ItemView>
    decreases files.len(),
{
    if files.len() == 0 {
        Seq::empty()
    } else {
        match book_of(root, files.last()) {
            Some(item) => found_books(root, files.drop_last()).push(item),
            None => found_books(root, files.drop_last()),
        }
    }
}

/// The directory an item is ordered by: the empty text for an item directly
/// under the root.
pub open spec fn parent_key(item: ItemView) -> Seq<char> {
    match item.parent_dir {
        Some(dir) => dir,
        None => Seq::empty(),
    }
}

/// `a` is listed before `b` or at the same place: by directory first, by
/// name within one directory.
pub open spec fn item_le(a: ItemView, b: ItemView) -> bool {
    if parent_key(a) == parent_key(b) {
        text_le(a.name, b.name)
    } else {
        text_le(parent_key(a), parent_key(b))
    }
}

/// Where `x` goes into the ordered list `s`: behind the last item that is
/// listed before it or at the same place.
pub open spec fn insert_position(s: Seq<ItemView>, x: ItemView) -> int
    decreases s.len(),
{
    if s.len() == 0 {
        0
    } else if item_le(s.last(), x) {
        s.len() as int
    } else {
        insert_position(s.drop_last(), x)
    }
}

/// The items in listing order. Items at the same place keep the order in
/// which they came.
pub open spec fn sorted_items(s: Seq<ItemView>) -> Seq<ItemView>
    decreases s.len(),
{
    if s.len() == 0 {
        Seq::empty()
    } else {
        let front = sorted_items(s.drop_last());
        front.insert(insert_position(front, s.last()), s.last())
    }
}

pub fn item_before_or_same(a: &LibraryItem, b: &LibraryItem) -> (out: bool)
    ensures
        out == item_le(a@, b@),
{
    let pa = match &a.parent_dir {
        Some(dir) => to_chars(dir.as_str()),
        None => Vec::new(),
    };
    let pb = match &b.parent_dir {
        Some(dir) => to_chars(dir.as_str()),
        None => Vec::new(),
    };
    assert(pa@ =~= parent_key(a@));
    assert(pb@ =~= parent_key(b@));
    if same_chars(&pa, &pb) {
        text_before_or_same(&to_chars(a.name.as_str()), &to_chars(b.name.as_str()))
    } else {
        text_before_or_same(&pa, &pb)
    }
}

/// Puts `item` into the ordered list at its place.
pub fn insert_sorted(items: &mut Vec<LibraryItem>, item: LibraryItem)
    ensures
        item_views(final(items)@) == item_views(old(items)@).insert(
            insert_position(item_views(old(items)@), item@),
            item@,
        ),
{
    let ghost all = item_views(items@);
    let mut p: usize = items.len();
    assert(all.subrange(0, p as int) =~= all);
    while p > 0 && !item_before_or_same(&items[p - 1], &item)
        invariant
            p <= items.len(),
            all == item_views(items@),
            insert_position(all, item@) == insert_position(all.subrange(0, p as int), item@),
        decreases p,
    {
        assert(all.subrange(0, p as int).drop_last() =~= all.subrange(0, p - 1));
        p -= 1;
    }
    assert(insert_position(all, item@) == p) by {
        if p > 0 {
            assert(all.subrange(0, p as int).last() == items@[p - 1]@);
        }
    }
    items.insert(p, item);
    assert(item_views(items@) =~= all.insert(p as int, item@));
}

/// The book that `file` is.
pub fn book_item(root: &Vec<char>, file: &FoundFile) -> (out: Option<LibraryItem>)
    ensures
        match out {
            Some(item) => book_of(root@, file@) == Some(item@),
            None => book_of(root@, file@) is None,
        },
{
    let path = to_chars(file.path.as_str());
    let kind = match chars_extension(&path) {
        Some(ext) => to_lowercase(&ext),
        None => {
            return None;
        },
    };
    if !chars_supported_type(&kind) {
        return None;
    }
    let name = match chars_file_name(&path) {
        Some(name) => name,
        None => {
            return None;
        },
    };
    let parent_dir = match chars_strip_prefix(&path, root) {
        Some(rel) => match chars_parent(&rel) {
            Some(dir) => if dir.len() == 0 {
                None
            } else {
                Some(from_chars(&replace_chars(&dir, '\\', '/')))
            },
            None => None,
        },
        None => None,
    };
    let name_text = from_chars(&name);
    let is_frontmatter = is_frontmatter_filename(name_text.as_str());
    Some(
        LibraryItem {
            name: name_text,
            path: file.path.clone(),
            item_type: from_chars(&kind),
            size: file.size,
            modified_at: file.modified_at,
            parent_dir,
            is_frontmatter,
        },
    )
}

/// The books under `root_path` among the regular files `files` found there:
/// every file with a supported extension, each with its name, kind, size,
/// time, directory below the root and front-matter mark, ordered by
/// directory and then by name.
pub fn scan_directory(root_path: &str, files: &Vec<FoundFile>) -> (out: Vec<LibraryItem>)
    ensures
        item_views(out@) == sorted_items(found_books(root_path@, found_file_views(files@))),
{
    let root = to_chars(root_path);
    let mut out: Vec<LibraryItem> = Vec::new();
    let ghost all = found_file_views(files@);
    let mut i: usize = 0;
    assert(all.subrange(0, 0) =~= Seq::<FoundFileView>::empty());
    assert(item_views(out@) =~= Seq::<ItemView>::empty());
    while i < files.len()
        invariant
            i <= files.len(),
            root@ == root_path@,
            all == found_file_views(files@),
            item_views(out@) == sorted_items(found_books(root_path@, all.subrange(0, i as int))),
        decreases files.len() - i,
    {
        assert(all.subrange(0, i + 1).drop_last() =~= all.subrange(0, i as int));
        assert(all.subrange(0, i + 1).last() == files@[i as int]@);
        match book_item(&root, &files[i]) {
            Some(item) => {
                let ghost books = found_books(root_path@, all.subrange(0, i as int));
                assert(books.push(item@).drop_last() =~= books);
                insert_sorted(&mut out, item);
            },
            None => {},
        }
        i += 1;
    }
    assert(all.subrange(0, files.len() as int) =~= all);
    out
}

} // verus!
