//! What holds of every import.

use crate::import::{
    entry_found, has_entries, import_upto, imported, missing_folder_message, probe_at, report,
    resolved_folder, start_state, verdict, ImportState, ImportStatus, ProbeView, Verdict,
};
use crate::model::{ManifestView, SourceView};
use vstd::prelude::*;

verus! {

/// The verdict on the source at `i` when the import reaches it.
pub open spec fn verdict_at(
    start: ImportState,
    manifest: ManifestView,
    shared_root: Seq<char>,
    probes: Seq<ProbeView>,
    i: int,
) -> Verdict {
    verdict(
        import_upto(start, manifest, shared_root, probes, i as nat).known,
        manifest.sources[i],
        manifest.entries,
        shared_root,
        manifest.sources.len(),
        probe_at(probes, i),
    )
}

/// The folder the source at `i` resolves to.
pub open spec fn folder_at(
    manifest: ManifestView,
    shared_root: Seq<char>,
    probes: Seq<ProbeView>,
    i: int,
) -> Option<Seq<char>> {
    resolved_folder(probe_at(probes, i), shared_root, manifest.sources.len())
}

/// The source at `i` has a folder, and one of its listed files is in it
/// unless the manifest lists none for it.
pub open spec fn found_on_disk(
    manifest: ManifestView,
    shared_root: Seq<char>,
    probes: Seq<ProbeView>,
    i: int,
) -> bool {
    &&& folder_at(manifest, shared_root, probes, i) is Some
    &&& has_entries(manifest.entries, manifest.sources[i].name) ==> entry_found(
        probe_at(probes, i),
    )
}

/// After `n` sources the report has `n` more lines, the three counts have
/// grown by `n` together, and the registry and the known paths still begin
/// with what they held at the start.
pub proof fn lemma_import_grows(
    start: ImportState,
    manifest: ManifestView,
    shared_root: Seq<char>,
    probes: Seq<ProbeView>,
    n: nat,
)
    ensures
        ({
            let end = import_upto(start, manifest, shared_root, probes, n);
            &&& end.results.len() == start.results.len() + n
            &&& end.added + end.existing + end.missing == start.added + start.existing
                + start.missing + n
            &&& end.added >= start.added
            &&& start.sources.is_prefix_of(end.sources)
            &&& start.known.is_prefix_of(end.known)
            &&& start.results.is_prefix_of(end.results)
            &&& end.sources.len() == start.sources.len() + (end.added - start.added)
        }),
    decreases n,
{
    if n > 0 {
        lemma_import_grows(start, manifest, shared_root, probes, (n - 1) as nat);
    }
}

/// What is known after `m` sources is still known after `n >= m` sources,
/// and the report's first lines do not change.
pub proof fn lemma_import_is_monotone(
    start: ImportState,
    manifest: ManifestView,
    shared_root: Seq<char>,
    probes: Seq<ProbeView>,
    m: nat,
    n: nat,
)
    requires
        m <= n,
    ensures
        ({
            let mid = import_upto(start, manifest, shared_root, probes, m);
            let end = import_upto(start, manifest, shared_root, probes, n);
            &&& mid.known.is_prefix_of(end.known)
            &&& mid.sources.is_prefix_of(end.sources)
            &&& mid.results.is_prefix_of(end.results)
            &&& mid.added <= end.added
        }),
    decreases n,
{
    if m < n {
        lemma_import_is_monotone(start, manifest, shared_root, probes, m, (n - 1) as nat);
    }
}

/// The line of the source at `i` in the report is the report of the verdict
/// that was reached for it.
pub proof fn lemma_report_line(
    start: ImportState,
    manifest: ManifestView,
    shared_root: Seq<char>,
    probes: Seq<ProbeView>,
    n: nat,
    i: int,
)
    requires
        0 <= i < n,
    ensures
        ({
            let end = import_upto(start, manifest, shared_root, probes, n);
            &&& start.results.len() + i < end.results.len()
            &&& end.results[start.results.len() + i] == report(
                manifest.sources[i],
                verdict_at(start, manifest, shared_root, probes, i),
            )
        }),
{
    lemma_import_grows(start, manifest, shared_root, probes, i as nat);
    lemma_import_grows(start, manifest, shared_root, probes, (i + 1) as nat);
    lemma_import_grows(start, manifest, shared_root, probes, n);
    lemma_import_is_monotone(start, manifest, shared_root, probes, (i + 1) as nat, n);
    let next = import_upto(start, manifest, shared_root, probes, (i + 1) as nat);
    let end = import_upto(start, manifest, shared_root, probes, n);
    assert(next.results[start.results.len() + i] == end.results[start.results.len() + i]);
}

/// A source whose named folder is not there, in a manifest that has not
/// exactly one source, is reported missing with a message that names the
/// folder, without a resolved path, and leaves the registry as it was.
pub proof fn lemma_missing_folder(
    sources: Seq<SourceView>,
    known: Seq<Seq<char>>,
    manifest: ManifestView,
    shared_root: Seq<char>,
    probes: Seq<ProbeView>,
    i: int,
)
    requires
        0 <= i < manifest.sources.len(),
        manifest.sources.len() != 1,
        probe_at(probes, i).named_folder is None,
    ensures
        ({
            let start = start_state(sources, known);
            let line = imported(sources, known, manifest, shared_root, probes).results[i];
            let before = import_upto(start, manifest, shared_root, probes, i as nat);
            let after = import_upto(start, manifest, shared_root, probes, (i + 1) as nat);
            &&& line.source_name == manifest.sources[i].name
            &&& line.status == ImportStatus::Missing
            &&& line.resolved_path is None
            &&& line.message == missing_folder_message(manifest.sources[i].root_name)
            &&& after.sources == before.sources
            &&& after.known == before.known
            &&& after.added == before.added
        }),
{
    let start = start_state(sources, known);
    lemma_report_line(start, manifest, shared_root, probes, manifest.sources.len(), i);
}

/// A manifest none of whose sources has a folder under the shared root
/// leaves the registry exactly as it was.
pub proof fn lemma_nothing_found_changes_nothing(
    sources: Seq<SourceView>,
    known: Seq<Seq<char>>,
    manifest: ManifestView,
    shared_root: Seq<char>,
    probes: Seq<ProbeView>,
    n: nat,
)
    requires
        n <= manifest.sources.len(),
        forall|i: int|
            0 <= i < manifest.sources.len() ==> folder_at(manifest, shared_root, probes, i)
                is None,
    ensures
        ({
            let end = import_upto(start_state(sources, known), manifest, shared_root, probes, n);
            &&& end.sources == sources
            &&& end.known == known
            &&& end.added == 0
            &&& end.existing == 0
            &&& end.missing == n
        }),
    decreases n,
{
    if n > 0 {
        lemma_nothing_found_changes_nothing(
            sources,
            known,
            manifest,
            shared_root,
            probes,
            (n - 1) as nat,
        );
        assert(folder_at(manifest, shared_root, probes, n - 1) is None);
    }
}

/// The sources that a first import appends: one for each of the first `n`
/// manifest sources, under the manifest's name, at its resolved folder.
pub open spec fn appended(
    manifest: ManifestView,
    shared_root: Seq<char>,
    probes: Seq<ProbeView>,
    n: nat,
) -> Seq<SourceView> {
    Seq::new(
        n,
        |i: int|
            SourceView {
                name: manifest.sources[i].name,
                path: folder_at(manifest, shared_root, probes, i)->0,
            },
    )
}

/// The folders of the first `n` manifest sources.
pub open spec fn folders(
    manifest: ManifestView,
    shared_root: Seq<char>,
    probes: Seq<ProbeView>,
    n: nat,
) -> Seq<Seq<char>> {
    Seq::new(n, |i: int| folder_at(manifest, shared_root, probes, i)->0)
}

/// A first import: where every manifest source is found on disk, and the
/// folders are different from each other and from every known path, every
/// source is reported added, and the registry gains exactly those folders, in
/// the manifest's order and under the manifest's names.
pub proof fn lemma_first_import_adds_every_source(
    sources: Seq<SourceView>,
    known: Seq<Seq<char>>,
    manifest: ManifestView,
    shared_root: Seq<char>,
    probes: Seq<ProbeView>,
    n: nat,
)
    requires
        n <= manifest.sources.len(),
        forall|i: int|
            0 <= i < manifest.sources.len() ==> found_on_disk(manifest, shared_root, probes, i),
        forall|i: int|
            0 <= i < manifest.sources.len() ==> !known.contains(
                folder_at(manifest, shared_root, probes, i)->0,
            ),
        forall|i: int, j: int|
            0 <= i < j < manifest.sources.len() ==> folder_at(manifest, shared_root, probes, i)
                != folder_at(manifest, shared_root, probes, j),
    ensures
        ({
            let end = import_upto(start_state(sources, known), manifest, shared_root, probes, n);
            &&& end.sources == sources + appended(manifest, shared_root, probes, n)
            &&& end.known == known + folders(manifest, shared_root, probes, n)
            &&& end.added == n
            &&& end.existing == 0
            &&& end.missing == 0
            &&& end.results.len() == n
            &&& forall|i: int|
                0 <= i < n ==> (#[trigger] end.results[i]).status == ImportStatus::Added
                    && end.results[i].resolved_path == folder_at(
                    manifest,
                    shared_root,
                    probes,
                    i,
                )
        }),
    decreases n,
{
    let start = start_state(sources, known);
    if n == 0 {
        assert(sources + appended(manifest, shared_root, probes, 0) =~= sources);
        assert(known + folders(manifest, shared_root, probes, 0) =~= known);
    } else {
        let m = (n - 1) as nat;
        lemma_first_import_adds_every_source(sources, known, manifest, shared_root, probes, m);
        let prev = import_upto(start, manifest, shared_root, probes, m);
        let end = import_upto(start, manifest, shared_root, probes, n);
        let folder = folder_at(manifest, shared_root, probes, m as int)->0;
        assert(found_on_disk(manifest, shared_root, probes, m as int));
        assert(!prev.known.contains(folder)) by {
            if prev.known.contains(folder) {
                let k = choose|k: int| 0 <= k < prev.known.len() && prev.known[k] == folder;
                if k < known.len() {
                    assert(prev.known[k] == known[k]);
                    assert(known.contains(folder));
                } else {
                    let j = k - known.len();
                    assert(prev.known[k] == folders(manifest, shared_root, probes, m)[j]);
                    assert(found_on_disk(manifest, shared_root, probes, j));
                    assert(folder_at(manifest, shared_root, probes, j)->0 == folder);
                    assert(folder_at(manifest, shared_root, probes, j) != folder_at(
                        manifest,
                        shared_root,
                        probes,
                        m as int,
                    ));
                }
            }
        }
        assert(end.sources =~= sources + appended(manifest, shared_root, probes, n));
        assert(end.known =~= known + folders(manifest, shared_root, probes, n));
        assert forall|i: int| 0 <= i < n implies (#[trigger] end.results[i]).status
            == ImportStatus::Added && end.results[i].resolved_path == folder_at(
            manifest,
            shared_root,
            probes,
            i,
        ) by {
            if i < m {
                assert(end.results[i] == prev.results[i]);
            }
        }
    }
}

/// A second import. `first` is any state that an import of the manifest
/// reached; the second import starts from the registry that the first one
/// left, with at least the paths known that were known then, and sees the
/// same disk. It adds nothing: the registry stays as it is, and every source
/// that was added or existing is now existing, every missing one still
/// missing.
pub proof fn lemma_second_import_adds_nothing(
    start: ImportState,
    known_again: Seq<Seq<char>>,
    manifest: ManifestView,
    shared_root: Seq<char>,
    probes: Seq<ProbeView>,
    n: nat,
)
    requires
        n <= manifest.sources.len(),
        start.results.len() == 0,
        ({
            let first = import_upto(
                start,
                manifest,
                shared_root,
                probes,
                manifest.sources.len(),
            );
            forall|p: Seq<char>| first.known.contains(p) ==> known_again.contains(p)
        }),
    ensures
        ({
            let first = import_upto(
                start,
                manifest,
                shared_root,
                probes,
                manifest.sources.len(),
            );
            let again = import_upto(
                start_state(first.sources, known_again),
                manifest,
                shared_root,
                probes,
                n,
            );
            &&& again.added == 0
            &&& again.sources == first.sources
            &&& again.known == known_again
            &&& again.results.len() == n
            &&& forall|i: int|
                0 <= i < n ==> (#[trigger] again.results[i]).status == (if first.results[i].status
                    == ImportStatus::Missing {
                    ImportStatus::Missing
                } else {
                    ImportStatus::Existing
                }) && again.results[i].source_name == first.results[i].source_name
                    && again.results[i].resolved_path == first.results[i].resolved_path
        }),
    decreases n,
{
    let total = manifest.sources.len();
    let first = import_upto(start, manifest, shared_root, probes, total);
    let second_start = start_state(first.sources, known_again);
    if n > 0 {
        let m = (n - 1) as nat;
        lemma_second_import_adds_nothing(start, known_again, manifest, shared_root, probes, m);
        let prev = import_upto(second_start, manifest, shared_root, probes, m);
        let again = import_upto(second_start, manifest, shared_root, probes, n);
        lemma_report_line(start, manifest, shared_root, probes, total, m as int);
        let then_known = import_upto(start, manifest, shared_root, probes, m).known;
        let after = import_upto(start, manifest, shared_root, probes, n);
        lemma_import_is_monotone(start, manifest, shared_root, probes, n, total);
        let v1 = verdict_at(start, manifest, shared_root, probes, m as int);
        match folder_at(manifest, shared_root, probes, m as int) {
            Some(folder) => {
                if !(has_entries(manifest.entries, manifest.sources[m as int].name)
                    && !entry_found(probe_at(probes, m as int))) {
                    assert(after.known.contains(folder)) by {
                        if then_known.contains(folder) {
                            let k = choose|k: int|
                                0 <= k < then_known.len() && then_known[k] == folder;
                            assert(after.known == then_known);
                            assert(after.known[k] == folder);
                        } else {
                            assert(after.known == then_known.push(folder));
                            assert(after.known[then_known.len() as int] == folder);
                        }
                    }
                    let k = choose|k: int| 0 <= k < after.known.len() && after.known[k] == folder;
                    assert(first.known[k] == folder);
                    assert(first.known.contains(folder));
                    assert(known_again.contains(folder));
                }
            },
            None => {},
        }
        assert forall|i: int| 0 <= i < n implies (#[trigger] again.results[i]).status == (
        if first.results[i].status == ImportStatus::Missing {
            ImportStatus::Missing
        } else {
            ImportStatus::Existing
        }) && again.results[i].source_name == first.results[i].source_name
            && again.results[i].resolved_path == first.results[i].resolved_path by {
            if i < m {
                assert(again.results[i] == prev.results[i]);
            }
        }
    }
}

} // verus!
