//! The library's data: registered sources, scan results and the manifest.
//!
//! Each type has a view that holds its strings as character sequences; the
//! contracts speak of the views.

use crate::paths::opt_string;
use vstd::prelude::*;

verus! {

/// The schema tag every manifest carries.
pub open spec fn manifest_schema() -> Seq<char> {
    "reader-library-manifest"@
}

/// The manifest version this library writes and reads.
pub const LIBRARY_MANIFEST_VERSION: u32 = 1;

/// A registered root directory. The name is a label; the path says which
/// directory it is.
#[derive(Debug, Clone, PartialEq, Eq)]
pub struct LibrarySource {
    pub name: String,
    pub path: String,
}

pub struct SourceView {
    pub name: Seq<char>,
    pub path: Seq<char>,
}

impl View for LibrarySource {
    type V = SourceView;

    open spec fn view(&self) -> SourceView {
        SourceView { name: self.name@, path: self.path@ }
    }
}

/// A book found by a scan. `modified_at` is in milliseconds since the epoch;
/// `parent_dir` is relative to the scanned root and absent for a file
/// directly under it.
#[derive(Debug, Clone, PartialEq, Eq)]
pub struct LibraryItem {
    pub name: String,
    pub path: String,
    pub item_type: String,
    pub size: u64,
    pub modified_at: u64,
    pub parent_dir: Option<String>,
    pub is_frontmatter: bool,
}

pub struct ItemView {
    pub name: Seq<char>,
    pub path: Seq<char>,
    pub item_type: Seq<char>,
    pub size: u64,
    pub modified_at: u64,
    pub parent_dir: Option<Seq<char>>,
    pub is_frontmatter: bool,
}

impl View for LibraryItem {
    type V = ItemView;

    open spec fn view(&self) -> ItemView {
        ItemView {
            name: self.name@,
            path: self.path@,
            item_type: self.item_type@,
            size: self.size,
            modified_at: self.modified_at,
            parent_dir: opt_string(self.parent_dir),
            is_frontmatter: self.is_frontmatter,
        }
    }
}

/// A source as a manifest carries it: its label, and the last segment of its
/// directory at the time of export.
#[derive(Debug, Clone, PartialEq, Eq)]
pub struct LibraryManifestSource {
    pub name: String,
    pub root_name: String,
}

pub struct ManifestSourceView {
    pub name: Seq<char>,
    pub root_name: Seq<char>,
}

impl View for LibraryManifestSource {
    type V = ManifestSourceView;

    open spec fn view(&self) -> ManifestSourceView {
        ManifestSourceView { name: self.name@, root_name: self.root_name@ }
    }
}

/// One book of a manifest, by its path below its source's root.
#[derive(Debug, Clone, PartialEq, Eq)]
pub struct LibraryManifestEntry {
    pub source_name: String,
    pub relative_path: String,
    pub entry_type: String,
    pub normalized_text_relative_path: Option<String>,
    pub size: u64,
    pub modified_at: u64,
}

pub struct ManifestEntryView {
    pub source_name: Seq<char>,
    pub relative_path: Seq<char>,
    pub entry_type: Seq<char>,
    pub normalized_text_relative_path: Option<Seq<char>>,
    pub size: u64,
    pub modified_at: u64,
}

impl View for LibraryManifestEntry {
    type V = ManifestEntryView;

    open spec fn view(&self) -> ManifestEntryView {
        ManifestEntryView {
            source_name: self.source_name@,
            relative_path: self.relative_path@,
            entry_type: self.entry_type@,
            normalized_text_relative_path: opt_string(self.normalized_text_relative_path),
            size: self.size,
            modified_at: self.modified_at,
        }
    }
}

#[derive(Debug, Clone, PartialEq, Eq)]
pub struct LibraryManifest {
    pub schema: String,
    pub version: u32,
    pub exported_at: String,
    pub sources: Vec<LibraryManifestSource>,
    pub entries: Vec<LibraryManifestEntry>,
}

pub struct ManifestView {
    pub schema: Seq<char>,
    pub version: u32,
    pub exported_at: Seq<char>,
    pub sources: Seq<ManifestSourceView>,
    pub entries: Seq<ManifestEntryView>,
}

pub open spec fn source_views(v: Seq<LibrarySource>) -> Seq<SourceView> {
    Seq::new(v.len(), |i: int| v[i]@)
}

pub open spec fn item_views(v: Seq<LibraryItem>) -> Seq<ItemView> {
    Seq::new(v.len(), |i: int| v[i]@)
}

pub open spec fn manifest_source_views(v: Seq<LibraryManifestSource>) -> Seq<ManifestSourceView> {
    Seq::new(v.len(), |i: int| v[i]@)
}

pub open spec fn manifest_entry_views(v: Seq<LibraryManifestEntry>) -> Seq<ManifestEntryView> {
    Seq::new(v.len(), |i: int| v[i]@)
}

impl View for LibraryManifest {
    type V = ManifestView;

    open spec fn view(&self) -> ManifestView {
        ManifestView {
            schema: self.schema@,
            version: self.version,
            exported_at: self.exported_at@,
            sources: manifest_source_views(self.sources@),
            entries: manifest_entry_views(self.entries@),
        }
    }
}

} // verus!
