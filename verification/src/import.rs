//! Importing a manifest: each of its sources is looked for under a shared
//! root and reported as added, existing or missing.
//!
//! The library decides; the caller supplies what is on disk as one
//! [`FolderProbe`] per manifest source, and writes the registry back once the
//! import has returned.

use crate::access::string_views;
use crate::model::{
    manifest_entry_views, source_views, LibraryManifest, LibraryManifestEntry, LibrarySource,
    ManifestEntryView, ManifestSourceView, ManifestView, SourceView,
};
use crate::paths::{join, join_paths, opt_string};
use vstd::prelude::*;

verus! {

#[derive(Debug, Clone, Copy, PartialEq, Eq)]
pub enum ImportStatus {
    Added,
    Existing,
    Missing,
}

impl ImportStatus {
    pub open spec fn text(self) -> Seq<char> {
        match self {
            ImportStatus::Added => "added"@,
            ImportStatus::Existing => "existing"@,
            ImportStatus::Missing => "missing"@,
        }
    }

    /// The status as it is written in a report.
    pub fn as_text(&self) -> (out: String)
        ensures
            out@ == self.text(),
    {
        match self {
            ImportStatus::Added => String::from_str("added"),
            ImportStatus::Existing => String::from_str("existing"),
            ImportStatus::Missing => String::from_str("missing"),
        }
    }
}

/// What became of one manifest source.
#[derive(Debug, Clone, PartialEq, Eq)]
pub struct LibraryImportSourceResult {
    pub source_name: String,
    pub status: ImportStatus,
    pub resolved_path: Option<String>,
    pub message: String,
}

pub struct ImportResultView {
    pub source_name: Seq<char>,
    pub status: ImportStatus,
    pub resolved_path: Option<Seq<char>>,
    pub message: Seq<char>,
}

impl View for LibraryImportSourceResult {
    type V = ImportResultView;

    open spec fn view(&self) -> ImportResultView {
        ImportResultView {
            source_name: self.source_name@,
            status: self.status,
            resolved_path: opt_string(self.resolved_path),
            message: self.message@,
        }
    }
}

pub open spec fn result_views(v: Seq<LibraryImportSourceResult>) -> Seq<ImportResultView> {
    Seq::new(v.len(), |i: int| v[i]@)
}

#[derive(Debug, Clone, PartialEq, Eq)]
pub struct LibraryManifestImportSummary {
    pub added: usize,
    pub existing: usize,
    pub missing: usize,
    pub results: Vec<LibraryImportSourceResult>,
}

/// What is on disk for one manifest source.
#[derive(Debug, Clone, PartialEq, Eq)]
pub struct FolderProbe {
    /// The canonical path of the folder named by the source's root name
    /// under the shared root, where that folder is a directory.
    pub named_folder: Option<String>,
    /// Some entry of the source exists below that folder.
    pub entry_in_named_folder: bool,
    /// Some entry of the source exists below the shared root itself.
    pub entry_in_shared_root: bool,
}

pub struct ProbeView {
    pub named_folder: Option<Seq<char>>,
    pub entry_in_named_folder: bool,
    pub entry_in_shared_root: bool,
}

impl View for FolderProbe {
    type V = ProbeView;

    open spec fn view(&self) -> ProbeView {
        ProbeView {
            named_folder: opt_string(self.named_folder),
            entry_in_named_folder: self.entry_in_named_folder,
            entry_in_shared_root: self.entry_in_shared_root,
        }
    }
}

pub open spec fn probe_views(v: Seq<FolderProbe>) -> Seq<ProbeView> {
    Seq::new(v.len(), |i: int| v[i]@)
}

/// The probe of the source at `i`. A source without a probe has nothing on
/// disk.
pub open spec fn probe_at(probes: Seq<ProbeView>, i: int) -> ProbeView {
    if 0 <= i < probes.len() {
        probes[i]
    } else {
        ProbeView { named_folder: None, entry_in_named_folder: false, entry_in_shared_root: false }
    }
}

/// The folder a source resolves to: the named folder where it is there;
/// the shared root itself where the manifest has exactly one source;
/// otherwise none.
pub open spec fn resolved_folder(
    probe: ProbeView,
    shared_root: Seq<char>,
    source_count: nat,
) -> Option<Seq<char>> {
    match probe.named_folder {
        Some(folder) => Some(folder),
        None => if source_count == 1 {
            Some(shared_root)
        } else {
            None
        },
    }
}

/// The manifest lists an entry for the source named `name`.
pub open spec fn has_entries(entries: Seq<ManifestEntryView>, name: Seq<char>) -> bool {
    exists|i: int| 0 <= i < entries.len() && (#[trigger] entries[i]).source_name == name
}

/// Some entry of the source was found below the folder it resolves to.
pub open spec fn entry_found(probe: ProbeView) -> bool {
    if probe.named_folder is Some {
        probe.entry_in_named_folder
    } else {
        probe.entry_in_shared_root
    }
}

/// What is decided for one source.
pub enum Verdict {
    /// No folder for it under the shared root.
    NoFolder,
    /// A folder, but none of the listed files in it.
    NoFiles(Seq<char>),
    /// Its folder is registered already.
    Known(Seq<char>),
    /// Its folder is to be registered.
    New(Seq<char>),
}

/// The decision for one source, given the canonical paths registered so far.
pub open spec fn verdict(
    known: Seq<Seq<char>>,
    source: ManifestSourceView,
    entries: Seq<ManifestEntryView>,
    shared_root: Seq<char>,
    source_count: nat,
    probe: ProbeView,
) -> Verdict {
    match resolved_folder(probe, shared_root, source_count) {
        None => Verdict::NoFolder,
        Some(folder) => if has_entries(entries, source.name) && !entry_found(probe) {
            Verdict::NoFiles(folder)
        } else if known.contains(folder) {
            Verdict::Known(folder)
        } else {
            Verdict::New(folder)
        },
    }
}

pub open spec fn missing_folder_message(root_name: Seq<char>) -> Seq<char> {
    "Missing folder \""@ + root_name + "\" under shared root"@
}

/// The report line for one source.
pub open spec fn report(source: ManifestSourceView, v: Verdict) -> ImportResultView {
    match v {
        Verdict::NoFolder => ImportResultView {
            source_name: source.name,
            status: ImportStatus::Missing,
            resolved_path: None,
            message: missing_folder_message(source.root_name),
        },
        Verdict::NoFiles(folder) => ImportResultView {
            source_name: source.name,
            status: ImportStatus::Missing,
            resolved_path: Some(folder),
            message: "No manifest files found under resolved folder"@,
        },
        Verdict::Known(folder) => ImportResultView {
            source_name: source.name,
            status: ImportStatus::Existing,
            resolved_path: Some(folder),
            message: "Source already configured"@,
        },
        Verdict::New(folder) => ImportResultView {
            source_name: source.name,
            status: ImportStatus::Added,
            resolved_path: Some(folder),
            message: "Source added"@,
        },
    }
}

/// Where an import stands: the registry, the canonical paths known to be
/// registered, the report so far and its three counts.
pub struct ImportState {
    pub sources: Seq<SourceView>,
    pub known: Seq<Seq<char>>,
    pub results: Seq<ImportResultView>,
    pub added: nat,
    pub existing: nat,
    pub missing: nat,
}

pub open spec fn start_state(sources: Seq<SourceView>, known: Seq<Seq<char>>) -> ImportState {
    ImportState { sources, known, results: Seq::empty(), added: 0, existing: 0, missing: 0 }
}

/// The state after one more source was decided. Only a new folder changes
/// the registry, and it is known from then on.
pub open spec fn step(state: ImportState, source: ManifestSourceView, v: Verdict) -> ImportState {
    let results = state.results.push(report(source, v));
    match v {
        Verdict::NoFolder => ImportState { results, missing: state.missing + 1, ..state },
        Verdict::NoFiles(_) => ImportState { results, missing: state.missing + 1, ..state },
        Verdict::Known(_) => ImportState { results, existing: state.existing + 1, ..state },
        Verdict::New(folder) => ImportState {
            sources: state.sources.push(SourceView { name: source.name, path: folder }),
            known: state.known.push(folder),
            results,
            added: state.added + 1,
            ..state
        },
    }
}

/// The state after the first `n` sources of the manifest were decided, in
/// order.
pub open spec fn import_upto(
    start: ImportState,
    manifest: ManifestView,
    shared_root: Seq<char>,
    probes: Seq<ProbeView>,
    n: nat,
) -> ImportState
    decreases n,
{
    if n == 0 {
        start
    } else {
        let prev = import_upto(start, manifest, shared_root, probes, (n - 1) as nat);
        let source = manifest.sources[n - 1];
        step(
            prev,
            source,
            verdict(
                prev.known,
                source,
                manifest.entries,
                shared_root,
                manifest.sources.len(),
                probe_at(probes, n - 1),
            ),
        )
    }
}

/// The state after the whole manifest was imported.
pub open spec fn imported(
    sources: Seq<SourceView>,
    known: Seq<Seq<char>>,
    manifest: ManifestView,
    shared_root: Seq<char>,
    probes: Seq<ProbeView>,
) -> ImportState {
    import_upto(start_state(sources, known), manifest, shared_root, probes, manifest.sources.len())
}

/// Whether `path` is one of `known`.
pub fn contains_path(known: &Vec<String>, path: &String) -> (out: bool)
    ensures
        out == string_views(known@).contains(path@),
{
    let mut i: usize = 0;
    while i < known.len()
        invariant
            i <= known.len(),
            forall|k: int| 0 <= k < i ==> string_views(known@)[k] != path@,
        decreases known.len() - i,
    {
        if known[i] == *path {
            assert(string_views(known@)[i as int] == path@);
            return true;
        }
        i += 1;
    }
    false
}

/// Whether the manifest lists an entry for the source named `name`.
pub fn manifest_lists_source(entries: &Vec<LibraryManifestEntry>, name: &String) -> (out: bool)
    ensures
        out == has_entries(manifest_entry_views(entries@), name@),
{
    let mut i: usize = 0;
    while i < entries.len()
        invariant
            i <= entries.len(),
            forall|k: int| 0 <= k < i ==> manifest_entry_views(entries@)[k].source_name != name@,
        decreases entries.len() - i,
    {
        if entries[i].source_name == *name {
            assert(manifest_entry_views(entries@)[i as int].source_name == name@);
            return true;
        }
        i += 1;
    }
    false
}

/// A copy of `v`.
pub fn copy_strings(v: &Vec<String>) -> (out: Vec<String>)
    ensures
        string_views(out@) == string_views(v@),
{
    let mut out: Vec<String> = Vec::new();
    let mut i: usize = 0;
    while i < v.len()
        invariant
            i <= v.len(),
            out.len() == i,
            forall|k: int| 0 <= k < i ==> out@[k]@ == v@[k]@,
        decreases v.len() - i,
    {
        out.push(v[i].clone());
        i += 1;
    }
    assert(string_views(out@) =~= string_views(v@));
    out
}

/// Imports `manifest` against the shared root whose canonical path is
/// `shared_root`.
///
/// `sources` is the registry and `known_paths` the canonical paths of its
/// sources; `probes` holds, for each manifest source in order, what is on
/// disk for it. Every manifest source gets one line in the report, in the
/// manifest's order. A source whose folder is new is appended to `sources`
/// under the manifest's name; nothing else in `sources` changes.
pub fn import_library_manifest(
    sources: &mut Vec<LibrarySource>,
    known_paths: &Vec<String>,
    manifest: &LibraryManifest,
    shared_root: &str,
    probes: &Vec<FolderProbe>,
) -> (out: LibraryManifestImportSummary)
    ensures
        ({
            let end = imported(
                source_views(old(sources)@),
                string_views(known_paths@),
                manifest@,
                shared_root@,
                probe_views(probes@),
            );
            &&& source_views(final(sources)@) == end.sources
            &&& result_views(out.results@) == end.results
            &&& out.added == end.added
            &&& out.existing == end.existing
            &&& out.missing == end.missing
        }),
{
    let mut results: Vec<LibraryImportSourceResult> = Vec::new();
    let mut added: usize = 0;
    let mut existing: usize = 0;
    let mut missing: usize = 0;
    let mut known = copy_strings(known_paths);
    let count: usize = manifest.sources.len();
    let ghost start = start_state(source_views(old(sources)@), string_views(known_paths@));
    let ghost probe_seq = probe_views(probes@);
    assert(result_views(results@) =~= Seq::<ImportResultView>::empty());
    let mut i: usize = 0;
    while i < count
        invariant
            i <= count,
            count == manifest.sources.len(),
            probe_seq == probe_views(probes@),
            added + existing + missing == i,
            ({
                let state = import_upto(start, manifest@, shared_root@, probe_seq, i as nat);
                &&& source_views(sources@) == state.sources
                &&& string_views(known@) == state.known
                &&& result_views(results@) == state.results
                &&& added == state.added
                &&& existing == state.existing
                &&& missing == state.missing
            }),
        decreases count - i,
    {
        let ghost prev = import_upto(start, manifest@, shared_root@, probe_seq, i as nat);
        let ghost old_results = result_views(results@);
        let source = &manifest.sources[i];
        assert(manifest@.sources[i as int] == source@);
        let ghost probe = probe_at(probe_seq, i as int);
        let ghost v = verdict(
            prev.known,
            source@,
            manifest@.entries,
            shared_root@,
            manifest@.sources.len(),
            probe,
        );
        let mut named: Option<String> = None;
        let mut in_named: bool = false;
        let mut in_shared: bool = false;
        if i < probes.len() {
            named = probes[i].named_folder.clone();
            in_named = probes[i].entry_in_named_folder;
            in_shared = probes[i].entry_in_shared_root;
            assert(probe == probes@[i as int]@);
        }
        assert(opt_string(named) == probe.named_folder);
        let found: bool = if named.is_some() {
            in_named
        } else {
            in_shared
        };
        let resolved: Option<String> = match named {
            Some(folder) => Some(folder),
            None => if count == 1 {
                Some(shared_root.to_owned())
            } else {
                None
            },
        };
        assert(opt_string(resolved) == resolved_folder(
            probe,
            shared_root@,
            manifest@.sources.len(),
        ));
        match resolved {
            None => {
                missing += 1;
                let message = String::from_str("Missing folder \"").concat(
                    source.root_name.as_str(),
                ).concat("\" under shared root");
                let line = LibraryImportSourceResult {
                    source_name: source.name.clone(),
                    status: ImportStatus::Missing,
                    resolved_path: None,
                    message,
                };
                assert(line@ == report(source@, v));
                results.push(line);
            },
            Some(folder) => {
                if manifest_lists_source(&manifest.entries, &source.name) && !found {
                    missing += 1;
                    let line = LibraryImportSourceResult {
                        source_name: source.name.clone(),
                        status: ImportStatus::Missing,
                        resolved_path: Some(folder),
                        message: String::from_str("No manifest files found under resolved folder"),
                    };
                    assert(line@ == report(source@, v));
                    results.push(line);
                } else if contains_path(&known, &folder) {
                    existing += 1;
                    let line = LibraryImportSourceResult {
                        source_name: source.name.clone(),
                        status: ImportStatus::Existing,
                        resolved_path: Some(folder),
                        message: String::from_str("Source already configured"),
                    };
                    assert(line@ == report(source@, v));
                    results.push(line);
                } else {
                    let ghost old_sources = source_views(sources@);
                    let ghost old_known = string_views(known@);
                    let entry = LibrarySource { name: source.name.clone(), path: folder.clone() };
                    sources.push(entry);
                    assert(source_views(sources@) =~= old_sources.push(
                        SourceView { name: source@.name, path: folder@ },
                    ));
                    known.push(folder.clone());
                    assert(string_views(known@) =~= old_known.push(folder@));
                    added += 1;
                    let line = LibraryImportSourceResult {
                        source_name: source.name.clone(),
                        status: ImportStatus::Added,
                        resolved_path: Some(folder),
                        message: String::from_str("Source added"),
                    };
                    assert(line@ == report(source@, v));
                    results.push(line);
                }
            },
        }
        assert(result_views(results@) =~= old_results.push(report(source@, v)));
        i += 1;
    }
    LibraryManifestImportSummary { added, existing, missing, results }
}

/// Where the folder of a manifest source is looked for: under the shared
/// root, by its root name.
pub fn expected_source_folder(shared_root: &str, root_name: &str) -> (out: String)
    ensures
        out@ == join(shared_root@, root_name@),
{
    join_paths(shared_root, root_name)
}

/// The paths below `folder` of the entries that the first `n` entries list
/// for the source named `name`, in order.
pub open spec fn entry_paths(
    entries: Seq<ManifestEntryView>,
    name: Seq<char>,
    folder: Seq<char>,
    n: nat,
) -> Seq<Seq<char>>
    decreases n,
{
    if n == 0 {
        Seq::empty()
    } else {
        let front = entry_paths(entries, name, folder, (n - 1) as nat);
        if entries[n - 1].source_name == name {
            front.push(join(folder, entries[n - 1].relative_path))
        } else {
            front
        }
    }
}

/// The files to look for below `folder` to tell whether it is the folder of
/// the source named `source_name`: one path for each entry that the manifest
/// lists for that source.
pub fn entry_candidates(manifest: &LibraryManifest, source_name: &str, folder: &str) -> (out: Vec<
    String,
>)
    ensures
        string_views(out@) == entry_paths(
            manifest@.entries,
            source_name@,
            folder@,
            manifest.entries.len() as nat,
        ),
{
    let wanted = source_name.to_owned();
    let mut out: Vec<String> = Vec::new();
    let mut i: usize = 0;
    assert(string_views(out@) =~= Seq::<Seq<char>>::empty());
    while i < manifest.entries.len()
        invariant
            i <= manifest.entries.len(),
            wanted@ == source_name@,
            string_views(out@) == entry_paths(
                manifest@.entries,
                source_name@,
                folder@,
                i as nat,
            ),
        decreases manifest.entries.len() - i,
    {
        let ghost before = string_views(out@);
        let entry = &manifest.entries[i];
        assert(manifest@.entries[i as int] == entry@);
        if entry.source_name == wanted {
            let path = join_paths(folder, entry.relative_path.as_str());
            out.push(path);
            assert(string_views(out@) =~= before.push(join(folder@, entry@.relative_path)));
        }
        i += 1;
    }
    out
}

/// The manifest lists an entry for a source exactly when there is a file to
/// look for.
pub proof fn lemma_candidates_iff_entries(
    entries: Seq<ManifestEntryView>,
    name: Seq<char>,
    folder: Seq<char>,
    n: nat,
)
    requires
        n <= entries.len(),
    ensures
        entry_paths(entries, name, folder, n).len() > 0 <==> exists|i: int|
            0 <= i < n && (#[trigger] entries[i]).source_name == name,
    decreases n,
{
    if n > 0 {
        lemma_candidates_iff_entries(entries, name, folder, (n - 1) as nat);
        if entries[n - 1].source_name != name {
            if exists|i: int| 0 <= i < n && (#[trigger] entries[i]).source_name == name {
                let i = choose|i: int| 0 <= i < n && (#[trigger] entries[i]).source_name == name;
                assert(i < n - 1);
            }
        }
    }
}

} // verus!
