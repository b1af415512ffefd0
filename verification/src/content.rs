//! The content loader: which file holds the text of a book, and what is
//! handed to the reader once that file was read.
//!
//! Only text is ever read. A text file is its own content; a PDF or EPUB is
//! read through the `.txt` snapshot that lies beside it.

use crate::errors::LibraryError;
use crate::paths::{
    chars_extension, chars_file_stem, chars_parent, chars_with_extension, extension, file_stem,
    opt_string, parent, with_extension,
};
use crate::scanner::supported_type;
use crate::text::{
    from_chars, lowercase, replace_char, replace_chars, same_chars, to_chars, to_lowercase,
};
use vstd::prelude::*;

verus! {

/// The URL of the directory at `path`, as `url::Url::from_directory_path`
/// writes it; none where it refuses the path.
pub uninterp spec fn directory_url(path: Seq<char>) -> Option<Seq<char>>;

/// Calls `url::Url::from_directory_path` and takes the URL's text. The URL
/// depends on the path alone; nothing more is claimed of it.
#[verifier::external_body]
fn path_file_url(path: &str) -> (out: Option<String>)
    ensures
        opt_string(out) == directory_url(path@),
{
    match url::Url::from_directory_path(path) {
        Ok(url) => Some(String::from(url)),
        Err(_) => None,
    }
}

#[derive(Debug, Clone, PartialEq, Eq)]
pub struct ExtractedChapter {
    pub title: String,
    pub content: String,
}

/// The text of a book and how to present it.
#[derive(Debug, Clone, PartialEq, Eq)]
pub struct ExtractedContent {
    pub title: String,
    pub content: String,
    pub source_path: Option<String>,
    pub asset_base_url: Option<String>,
    pub page_count: Option<u32>,
    pub chapters: Option<Vec<ExtractedChapter>>,
}

/// The title of the book at `path`: its file stem with hyphens and
/// underscores turned into spaces; `Untitled` where the path has no file
/// stem.
pub open spec fn title_of(path: Seq<char>) -> Seq<char> {
    match file_stem(path) {
        Some(stem) => replace_char(replace_char(stem, '-', ' '), '_', ' '),
        None => "Untitled"@,
    }
}

pub fn format_title_from_path(file_path: &str) -> (out: String)
    ensures
        out@ == title_of(file_path@),
{
    match chars_file_stem(&to_chars(file_path)) {
        Some(stem) => from_chars(&replace_chars(&replace_chars(&stem, '-', ' '), '_', ' ')),
        None => String::from_str("Untitled"),
    }
}

/// The directory whose URL is the base of a book's assets.
pub fn asset_directory(requested_path: &str) -> (out: Option<String>)
    ensures
        opt_string(out) == parent(requested_path@),
{
    match chars_parent(&to_chars(requested_path)) {
        Some(dir) => Some(from_chars(&dir)),
        None => None,
    }
}

/// What is handed to the reader for the book at `requested_path`, given the
/// text that was read and the URL of the book's directory: the title from
/// the path, the text as it is, the path echoed back, and neither page count
/// nor chapters.
pub fn assemble_content(
    requested_path: &str,
    content: String,
    asset_base_url: Option<String>,
) -> (out: ExtractedContent)
    ensures
        out.title@ == title_of(requested_path@),
        out.content == content,
        opt_string(out.source_path) == Some(requested_path@),
        out.asset_base_url == asset_base_url,
        out.page_count is None,
        out.chapters is None,
{
    ExtractedContent {
        title: format_title_from_path(requested_path),
        content,
        source_path: Some(requested_path.to_owned()),
        asset_base_url,
        page_count: None,
        chapters: None,
    }
}

/// The URL that a book's assets are resolved against: that of the book's
/// directory; none for a path without one.
pub open spec fn asset_base_of(requested_path: Seq<char>) -> Option<Seq<char>> {
    match parent(requested_path) {
        Some(dir) => directory_url(dir),
        None => None,
    }
}

/// Presents what was read for the book at `requested_path`. `read` is the
/// text of the content file, or what went wrong reading it; a failed read is
/// an `IoFailure` with that cause.
pub fn open_text_content(requested_path: &str, read: Result<String, String>) -> (out: Result<
    ExtractedContent,
    LibraryError,
>)
    ensures
        match out {
            Ok(book) => {
                &&& read == Ok::<String, String>(book.content)
                &&& book.title@ == title_of(requested_path@)
                &&& opt_string(book.source_path) == Some(requested_path@)
                &&& opt_string(book.asset_base_url) == asset_base_of(requested_path@)
                &&& book.page_count is None
                &&& book.chapters is None
            },
            Err(e) => read is Err && e == LibraryError::IoFailure(read->Err_0),
        },
{
    match read {
        Ok(content) => {
            let base = match asset_directory(requested_path) {
                Some(dir) => path_file_url(dir.as_str()),
                None => None,
            };
            Ok(assemble_content(requested_path, content, base))
        },
        Err(cause) => Err(LibraryError::IoFailure(cause)),
    }
}

/// The two failures of choosing a content file, with their extensions as
/// character sequences.
pub enum ContentFault {
    UnsupportedFileType(Option<Seq<char>>),
    NoNormalizedSnapshot(Seq<char>),
}

/// The file that holds the text of the book at `path`, where `sidecar_is_file`
/// says whether a `.txt` file with the book's stem lies beside it.
///
/// A path without an extension, or with one that is no book's, is an
/// `UnsupportedFileType`; a text file is its own content; another book is read
/// from its snapshot, and without one is a `NoNormalizedSnapshot`.
pub open spec fn content_file(path: Seq<char>, sidecar_is_file: bool) -> Result<
    Seq<char>,
    ContentFault,
> {
    match extension(path) {
        None => Err(ContentFault::UnsupportedFileType(None)),
        Some(ext) => {
            let kind = lowercase(ext);
            if !supported_type(kind) {
                Err(ContentFault::UnsupportedFileType(Some(kind)))
            } else if kind == "txt"@ {
                Ok(path)
            } else if sidecar_is_file {
                Ok(with_extension(path, "txt"@))
            } else {
                Err(ContentFault::NoNormalizedSnapshot(kind))
            }
        },
    }
}

/// The view of a failure of choosing a content file; none for any other
/// error.
pub open spec fn content_error_view(e: LibraryError) -> Option<ContentFault> {
    match e {
        LibraryError::UnsupportedFileType(ext) => Some(
            ContentFault::UnsupportedFileType(opt_string(ext)),
        ),
        LibraryError::NoNormalizedSnapshot(ext) => Some(
            ContentFault::NoNormalizedSnapshot(ext@),
        ),
        _ => None,
    }
}

/// The path of the text snapshot of the book at `path`.
pub fn sidecar_path(path: &str) -> (out: String)
    ensures
        out@ == with_extension(path@, "txt"@),
{
    from_chars(&chars_with_extension(&to_chars(path), &to_chars("txt")))
}

/// Chooses the file to read for the book at `allowed_path`, a path that the
/// access guard has granted.
pub fn library_open_book(allowed_path: &str, sidecar_is_file: bool) -> (out: Result<
    String,
    LibraryError,
>)
    ensures
        match out {
            Ok(file) => content_file(allowed_path@, sidecar_is_file) == Ok::<
                Seq<char>,
                ContentFault,
            >(file@),
            Err(e) => content_error_view(e) is Some && content_file(
                allowed_path@,
                sidecar_is_file,
            ) == Err::<Seq<char>, ContentFault>(content_error_view(e)->0),
        },
{
    let path = to_chars(allowed_path);
    let kind = match chars_extension(&path) {
        Some(ext) => to_lowercase(&ext),
        None => {
            return Err(LibraryError::UnsupportedFileType(None));
        },
    };
    if !(same_chars(&kind, &to_chars("pdf")) || same_chars(&kind, &to_chars("epub"))
        || same_chars(&kind, &to_chars("txt"))) {
        return Err(LibraryError::UnsupportedFileType(Some(from_chars(&kind))));
    }
    if same_chars(&kind, &to_chars("txt")) {
        return Ok(allowed_path.to_owned());
    }
    if sidecar_is_file {
        return Ok(sidecar_path(allowed_path));
    }
    Err(LibraryError::NoNormalizedSnapshot(from_chars(&kind)))
}

} // verus!
