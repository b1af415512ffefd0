//! The portable manifest: building one from scanned sources, and checking
//! one that was read.
//!
//! A manifest names each source by the last segment of its directory and
//! each book by its path below its source's root, with forward slashes, so
//! that it can be resolved again on another machine.

use crate::errors::{LibraryError, ManifestFault};
use crate::model::{
    manifest_entry_views, manifest_schema, ItemView, LibraryItem,
    LibraryManifest, LibraryManifestEntry, LibraryManifestSource, LibrarySource,
    ManifestEntryView, ManifestSourceView, ManifestView, SourceView, LIBRARY_MANIFEST_VERSION,
};
use crate::paths::{
    absolute_form, chars_file_name, chars_strip_prefix, chars_with_extension, file_name,
    forward_slashes, is_absolute, join, opt_string, parent, resolve_absolute_path, strip_prefix,
    with_extension, within_root,
};
use crate::paths_laws::{lemma_file_name_below_parent, lemma_strip_then_join, same_place};
use crate::scanner::{is_manifest_entry_type, supported_type};
use crate::text::{from_chars, replace_chars, same_chars, to_chars, trim, trimmed};
use vstd::prelude::*;

verus! {

/// The name a source is known by across machines: the last segment of its
/// directory, taken from the absolute form of its path; `library` where the
/// path has none.
pub open spec fn root_name_of(source_path: Seq<char>, cwd: Option<Seq<char>>) -> Seq<char> {
    match file_name(absolute_form(source_path, cwd)) {
        Some(name) => name,
        None => "library"@,
    }
}

pub fn source_root_name(source_path: &str, cwd: Option<&str>) -> (out: String)
    ensures
        out@ == root_name_of(
            source_path@,
            match cwd {
                Some(dir) => Some(dir@),
                None => None,
            },
        ),
{
    let resolved = resolve_absolute_path(source_path, cwd);
    match chars_file_name(&to_chars(resolved.as_str())) {
        Some(name) => from_chars(&name),
        None => String::from_str("library"),
    }
}

/// Where the text of a book is, below the root: the book itself for a text
/// file; for another kind the `.txt` file beside it, where there is one;
/// none for a book outside the root.
pub open spec fn text_snapshot(
    root: Seq<char>,
    file: Seq<char>,
    entry_type: Seq<char>,
    sidecar_is_file: bool,
) -> Option<Seq<char>> {
    match strip_prefix(file, root) {
        None => None,
        Some(rel) => if entry_type == "txt"@ {
            Some(forward_slashes(rel))
        } else if !sidecar_is_file {
            None
        } else {
            match strip_prefix(with_extension(file, "txt"@), root) {
                Some(beside) => Some(forward_slashes(beside)),
                None => None,
            }
        },
    }
}

/// `sidecar_is_file` says whether the file with the same stem as `file_path`
/// and the extension `txt` exists and is a regular file.
pub fn resolve_normalized_text_snapshot(
    root_path: &str,
    file_path: &str,
    entry_type: &str,
    sidecar_is_file: bool,
) -> (out: Option<String>)
    ensures
        opt_string(out) == text_snapshot(root_path@, file_path@, entry_type@, sidecar_is_file),
{
    let root = to_chars(root_path);
    let file = to_chars(file_path);
    let rel = match chars_strip_prefix(&file, &root) {
        Some(rel) => rel,
        None => {
            return None;
        },
    };
    if same_chars(&to_chars(entry_type), &to_chars("txt")) {
        return Some(from_chars(&replace_chars(&rel, '\\', '/')));
    }
    if !sidecar_is_file {
        return None;
    }
    let sidecar = chars_with_extension(&file, &to_chars("txt"));
    match chars_strip_prefix(&sidecar, &root) {
        Some(beside) => Some(from_chars(&replace_chars(&beside, '\\', '/'))),
        None => None,
    }
}

/// A scanned book, and whether a text snapshot lies beside it.
#[derive(Debug, Clone, PartialEq, Eq)]
pub struct ScannedItem {
    pub item: LibraryItem,
    pub has_text_sidecar: bool,
}

pub struct ScannedItemView {
    pub item: ItemView,
    pub has_text_sidecar: bool,
}

impl View for ScannedItem {
    type V = ScannedItemView;

    open spec fn view(&self) -> ScannedItemView {
        ScannedItemView { item: self.item@, has_text_sidecar: self.has_text_sidecar }
    }
}

pub open spec fn scanned_item_views(v: Seq<ScannedItem>) -> Seq<ScannedItemView> {
    Seq::new(v.len(), |i: int| v[i]@)
}

/// A registered source with what a scan found in it. `root` is the canonical
/// path of its directory, none where the directory does not exist.
#[derive(Debug, Clone, PartialEq, Eq)]
pub struct ScannedSource {
    pub source: LibrarySource,
    pub root: Option<String>,
    pub items: Vec<ScannedItem>,
}

pub struct ScannedSourceView {
    pub source: SourceView,
    pub root: Option<Seq<char>>,
    pub items: Seq<ScannedItemView>,
}

impl View for ScannedSource {
    type V = ScannedSourceView;

    open spec fn view(&self) -> ScannedSourceView {
        ScannedSourceView {
            source: self.source@,
            root: opt_string(self.root),
            items: scanned_item_views(self.items@),
        }
    }
}

pub open spec fn scanned_source_views(v: Seq<ScannedSource>) -> Seq<ScannedSourceView> {
    Seq::new(v.len(), |i: int| v[i]@)
}

/// The manifest entry of a scanned book; none for the root itself and for a
/// book outside the root.
pub open spec fn entry_of(source_name: Seq<char>, root: Seq<char>, scanned: ScannedItemView) -> Option<
    ManifestEntryView,
> {
    match strip_prefix(scanned.item.path, root) {
        None => None,
        Some(rel) => if rel.len() == 0 {
            None
        } else {
            Some(
                ManifestEntryView {
                    source_name,
                    relative_path: forward_slashes(rel),
                    entry_type: scanned.item.item_type,
                    normalized_text_relative_path: text_snapshot(
                        root,
                        scanned.item.path,
                        scanned.item.item_type,
                        scanned.has_text_sidecar,
                    ),
                    size: scanned.item.size,
                    modified_at: scanned.item.modified_at,
                },
            )
        },
    }
}

/// The entries of the first `n` books of a source, in order.
pub open spec fn entries_of_items(
    source_name: Seq<char>,
    root: Seq<char>,
    items: Seq<ScannedItemView>,
    n: nat,
) -> Seq<ManifestEntryView>
    decreases n,
{
    if n == 0 {
        Seq::empty()
    } else {
        let front = entries_of_items(source_name, root, items, (n - 1) as nat);
        match entry_of(source_name, root, items[n - 1]) {
            Some(entry) => front.push(entry),
            None => front,
        }
    }
}

/// The entries of one source; none where its directory does not exist.
pub open spec fn entries_of_source(source: ScannedSourceView) -> Seq<ManifestEntryView> {
    match source.root {
        Some(root) => entries_of_items(source.source.name, root, source.items, source.items.len()),
        None => Seq::empty(),
    }
}

/// The entries of the first `n` sources, source after source.
pub open spec fn entries_of_sources(sources: Seq<ScannedSourceView>, n: nat) -> Seq<
    ManifestEntryView,
>
    decreases n,
{
    if n == 0 {
        Seq::empty()
    } else {
        entries_of_sources(sources, (n - 1) as nat) + entries_of_source(sources[n - 1])
    }
}

/// The manifest's list of sources: every registered source, found or not,
/// under its label and root name.
pub open spec fn manifest_sources_of(sources: Seq<ScannedSourceView>, cwd: Option<Seq<char>>) -> Seq<
    ManifestSourceView,
> {
    Seq::new(
        sources.len(),
        |i: int|
            ManifestSourceView {
                name: sources[i].source.name,
                root_name: root_name_of(sources[i].source.path, cwd),
            },
    )
}

/// The manifest of the scanned sources.
pub open spec fn manifest_of(
    sources: Seq<ScannedSourceView>,
    cwd: Option<Seq<char>>,
    exported_at: Seq<char>,
) -> ManifestView {
    ManifestView {
        schema: manifest_schema(),
        version: LIBRARY_MANIFEST_VERSION,
        exported_at,
        sources: manifest_sources_of(sources, cwd),
        entries: entries_of_sources(sources, sources.len()),
    }
}

/// The manifest entry of one scanned book.
pub fn manifest_entry(source_name: &String, root: &str, scanned: &ScannedItem) -> (out: Option<
    LibraryManifestEntry,
>)
    ensures
        match out {
            Some(entry) => entry_of(source_name@, root@, scanned@) == Some(entry@),
            None => entry_of(source_name@, root@, scanned@) is None,
        },
{
    let rel = match chars_strip_prefix(&to_chars(scanned.item.path.as_str()), &to_chars(root)) {
        Some(rel) => rel,
        None => {
            return None;
        },
    };
    if rel.len() == 0 {
        return None;
    }
    Some(
        LibraryManifestEntry {
            source_name: source_name.clone(),
            relative_path: from_chars(&replace_chars(&rel, '\\', '/')),
            entry_type: scanned.item.item_type.clone(),
            normalized_text_relative_path: resolve_normalized_text_snapshot(
                root,
                scanned.item.path.as_str(),
                scanned.item.item_type.as_str(),
                scanned.has_text_sidecar,
            ),
            size: scanned.item.size,
            modified_at: scanned.item.modified_at,
        },
    )
}

/// Builds the manifest of the scanned sources. `cwd` is the working
/// directory, against which a relative source path is read; `exported_at` is
/// the time of the export as text.
pub fn build_library_manifest(
    sources: &Vec<ScannedSource>,
    cwd: Option<&str>,
    exported_at: String,
) -> (out: LibraryManifest)
    ensures
        out@ == manifest_of(
            scanned_source_views(sources@),
            match cwd {
                Some(dir) => Some(dir@),
                None => None,
            },
            exported_at@,
        ),
{
    let ghost all = scanned_source_views(sources@);
    let ghost dir = match cwd {
        Some(dir) => Some(dir@),
        None => None,
    };
    let mut entries: Vec<LibraryManifestEntry> = Vec::new();
    let mut listed: Vec<LibraryManifestSource> = Vec::new();
    let mut i: usize = 0;
    assert(manifest_entry_views(entries@) =~= Seq::<ManifestEntryView>::empty());
    while i < sources.len()
        invariant
            i <= sources.len(),
            all == scanned_source_views(sources@),
            dir == (match cwd {
                Some(dir) => Some(dir@),
                None => None,
            }),
            manifest_entry_views(entries@) == entries_of_sources(all, i as nat),
            listed.len() == i,
            forall|k: int| 0 <= k < i ==> (#[trigger] listed@[k])@ == manifest_sources_of(all, dir)[k],
        decreases sources.len() - i,
    {
        let scanned = &sources[i];
        assert(all[i as int] == scanned@);
        let ghost before = manifest_entry_views(entries@);
        match &scanned.root {
            Some(root) => {
                let mut k: usize = 0;
                assert(manifest_entry_views(entries@) =~= before + entries_of_items(
                    scanned@.source.name,
                    root@,
                    scanned@.items,
                    0,
                ));
                while k < scanned.items.len()
                    invariant
                        k <= scanned.items.len(),
                        manifest_entry_views(entries@) == before + entries_of_items(
                            scanned@.source.name,
                            root@,
                            scanned@.items,
                            k as nat,
                        ),
                    decreases scanned.items.len() - k,
                {
                    let ghost so_far = manifest_entry_views(entries@);
                    assert(scanned@.items[k as int] == scanned.items@[k as int]@);
                    match manifest_entry(&scanned.source.name, root.as_str(), &scanned.items[k]) {
                        Some(entry) => {
                            let ghost view = entry@;
                            entries.push(entry);
                            assert(manifest_entry_views(entries@) =~= so_far.push(view));
                            assert(so_far.push(view) =~= before + entries_of_items(
                                scanned@.source.name,
                                root@,
                                scanned@.items,
                                (k + 1) as nat,
                            ));
                        },
                        None => {},
                    }
                    k += 1;
                }
            },
            None => {
                assert(before + entries_of_source(scanned@) =~= before);
            },
        }
        listed.push(
            LibraryManifestSource {
                name: scanned.source.name.clone(),
                root_name: source_root_name(scanned.source.path.as_str(), cwd),
            },
        );
        i += 1;
    }
    let out = LibraryManifest {
        schema: String::from_str("reader-library-manifest"),
        version: LIBRARY_MANIFEST_VERSION,
        exported_at,
        sources: listed,
        entries,
    };
    assert(out@.sources =~= manifest_sources_of(all, dir));
    out
}

/// Nothing is left of `s` once it is trimmed.
pub open spec fn blank(s: Seq<char>) -> bool {
    trim(s).len() == 0
}

pub open spec fn sound_source(source: ManifestSourceView) -> bool {
    !blank(source.name) && !blank(source.root_name)
}

pub open spec fn sound_entry(entry: ManifestEntryView) -> bool {
    !blank(entry.source_name) && !blank(entry.relative_path) && supported_type(entry.entry_type)
}

/// What is wrong with a manifest, the first fault in this order: another
/// schema or version; a source without a name or root name; an entry without
/// a source name or path, or of an unknown kind. None where it is sound.
pub open spec fn fault_of(manifest: ManifestView) -> Option<LibraryError> {
    if manifest.schema != manifest_schema() || manifest.version != LIBRARY_MANIFEST_VERSION {
        Some(LibraryError::ManifestSchemaMismatch)
    } else if exists|i: int|
        0 <= i < manifest.sources.len() && !sound_source(#[trigger] manifest.sources[i]) {
        Some(LibraryError::ManifestMalformed(ManifestFault::Source))
    } else if exists|i: int|
        0 <= i < manifest.entries.len() && !sound_entry(#[trigger] manifest.entries[i]) {
        Some(LibraryError::ManifestMalformed(ManifestFault::Entry))
    } else {
        None
    }
}

fn is_blank_text(s: &String) -> (out: bool)
    ensures
        out == blank(s@),
{
    trimmed(&to_chars(s.as_str())).len() == 0
}

/// Checks a manifest that was read. `parsed` is none where the text could
/// not be read as a manifest at all. The manifest is handed back unchanged
/// exactly when it has no fault.
pub fn load_library_manifest(parsed: Option<LibraryManifest>) -> (out: Result<
    LibraryManifest,
    LibraryError,
>)
    ensures
        match out {
            Ok(manifest) => parsed == Some(manifest) && fault_of(manifest@) is None,
            Err(e) => match parsed {
                Some(manifest) => fault_of(manifest@) == Some(e),
                None => e == LibraryError::ManifestMalformed(ManifestFault::Payload),
            },
        },
{
    let manifest = match parsed {
        Some(manifest) => manifest,
        None => {
            return Err(LibraryError::ManifestMalformed(ManifestFault::Payload));
        },
    };
    if !same_chars(&to_chars(manifest.schema.as_str()), &to_chars("reader-library-manifest"))
        || manifest.version != LIBRARY_MANIFEST_VERSION {
        return Err(LibraryError::ManifestSchemaMismatch);
    }
    let mut i: usize = 0;
    while i < manifest.sources.len()
        invariant
            i <= manifest.sources.len(),
            parsed == Some(manifest),
            manifest@.schema == manifest_schema(),
            manifest.version == LIBRARY_MANIFEST_VERSION,
            forall|k: int| 0 <= k < i ==> sound_source(#[trigger] manifest@.sources[k]),
        decreases manifest.sources.len() - i,
    {
        let source = &manifest.sources[i];
        assert(manifest@.sources[i as int] == source@);
        if is_blank_text(&source.name) || is_blank_text(&source.root_name) {
            assert(!sound_source(manifest@.sources[i as int]));
            return Err(LibraryError::ManifestMalformed(ManifestFault::Source));
        }
        i += 1;
    }
    let mut k: usize = 0;
    while k < manifest.entries.len()
        invariant
            k <= manifest.entries.len(),
            parsed == Some(manifest),
            manifest@.schema == manifest_schema(),
            manifest.version == LIBRARY_MANIFEST_VERSION,
            forall|j: int|
                0 <= j < manifest.sources.len() ==> sound_source(#[trigger] manifest@.sources[j]),
            forall|j: int| 0 <= j < k ==> sound_entry(#[trigger] manifest@.entries[j]),
        decreases manifest.entries.len() - k,
    {
        let entry = &manifest.entries[k];
        assert(manifest@.entries[k as int] == entry@);
        if is_blank_text(&entry.source_name) || is_blank_text(&entry.relative_path)
            || !is_manifest_entry_type(entry.entry_type.as_str()) {
            assert(!sound_entry(manifest@.entries[k as int]));
            return Err(LibraryError::ManifestMalformed(ManifestFault::Entry));
        }
        k += 1;
    }
    Ok(manifest)
}

/// Every entry of the first `n` books of a source carries the source's name.
pub proof fn lemma_entries_carry_source_name(
    source_name: Seq<char>,
    root: Seq<char>,
    items: Seq<ScannedItemView>,
    n: nat,
)
    ensures
        forall|k: int|
            0 <= k < entries_of_items(source_name, root, items, n).len() ==> (
            #[trigger] entries_of_items(source_name, root, items, n)[k]).source_name
                == source_name,
    decreases n,
{
    if n > 0 {
        lemma_entries_carry_source_name(source_name, root, items, (n - 1) as nat);
    }
}

/// One of the first `n` listed sources has the name `name`.
pub open spec fn names_a_source(listed: Seq<ManifestSourceView>, n: nat, name: Seq<char>) -> bool {
    exists|i: int| 0 <= i < n && i < listed.len() && (#[trigger] listed[i]).name == name
}

/// Every entry of a built manifest names one of the manifest's sources.
pub proof fn lemma_every_entry_names_a_source(
    sources: Seq<ScannedSourceView>,
    cwd: Option<Seq<char>>,
    n: nat,
)
    requires
        n <= sources.len(),
    ensures
        forall|k: int|
            0 <= k < entries_of_sources(sources, n).len() ==> names_a_source(
                manifest_sources_of(sources, cwd),
                n,
                (#[trigger] entries_of_sources(sources, n)[k]).source_name,
            ),
    decreases n,
{
    if n > 0 {
        let m = (n - 1) as nat;
        lemma_every_entry_names_a_source(sources, cwd, m);
        let listed = manifest_sources_of(sources, cwd);
        let front = entries_of_sources(sources, m);
        let now = entries_of_sources(sources, n);
        let last = sources[n - 1];
        match last.root {
            Some(root) => lemma_entries_carry_source_name(
                last.source.name,
                root,
                last.items,
                last.items.len(),
            ),
            None => {},
        }
        assert forall|k: int| 0 <= k < now.len() implies names_a_source(
            listed,
            n,
            (#[trigger] now[k]).source_name,
        ) by {
            if k < front.len() {
                assert(now[k] == front[k]);
                assert(names_a_source(listed, m, front[k].source_name));
                let i = choose|i: int|
                    0 <= i < m && i < listed.len() && (#[trigger] listed[i]).name
                        == front[k].source_name;
                assert(listed[i].name == now[k].source_name);
            } else {
                assert(now[k] == entries_of_source(last)[k - front.len()]);
                assert(listed[n - 1].name == now[k].source_name);
            }
        }
    }
}

/// A built manifest carries the current schema and version, so reading it
/// back never fails on its format.
pub proof fn lemma_built_manifest_has_current_format(
    sources: Seq<ScannedSourceView>,
    cwd: Option<Seq<char>>,
    exported_at: Seq<char>,
)
    ensures
        fault_of(manifest_of(sources, cwd, exported_at)) != Some(
            LibraryError::ManifestSchemaMismatch,
        ),
{
}

/// The root name of a source leads back to the source: looked for under the
/// parent of the source's directory, it names that directory.
pub proof fn lemma_root_name_leads_back(source_path: Seq<char>, cwd: Option<Seq<char>>)
    requires
        is_absolute(source_path),
        file_name(source_path) is Some,
    ensures
        parent(source_path) is Some,
        same_place(join(parent(source_path)->0, root_name_of(source_path, cwd)), source_path),
{
    lemma_file_name_below_parent(source_path);
}

/// The path of an entry leads back to the book: below the source's root it
/// names the book's file, for a book whose path below the root holds no
/// backslash.
pub proof fn lemma_entry_path_leads_back(
    source_name: Seq<char>,
    root: Seq<char>,
    scanned: ScannedItemView,
)
    requires
        root.len() > 0,
        entry_of(source_name, root, scanned) is Some,
        forward_slashes(strip_prefix(scanned.item.path, root)->0) == strip_prefix(
            scanned.item.path,
            root,
        )->0,
    ensures
        same_place(
            join(root, entry_of(source_name, root, scanned)->0.relative_path),
            scanned.item.path,
        ),
        within_root(join(root, entry_of(source_name, root, scanned)->0.relative_path), root),
{
    lemma_strip_then_join(scanned.item.path, root);
}

} // verus!
