//! The source registry: the list of registered roots, and the two changes a
//! user can make to it.
//!
//! A source is identified by the compare form of its path: the canonical
//! path where the directory exists, the absolute path where it does not.

use crate::access::string_views;
use crate::errors::LibraryError;
use crate::import::contains_path;
use crate::model::{source_views, LibrarySource, SourceView};
use crate::paths::{chars_file_name, file_name};
use crate::text::{from_chars, to_chars, trim, trimmed};
use vstd::prelude::*;

verus! {

/// The compare form of a path: its canonical form where it has one, else its
/// absolute form.
pub fn normalize_path_for_compare(absolute: String, canonical: Option<String>) -> (out: String)
    ensures
        out@ == (match canonical {
            Some(c) => c@,
            None => absolute@,
        }),
{
    match canonical {
        Some(c) => c,
        None => absolute,
    }
}

/// The name a new source is registered under: the name asked for, trimmed;
/// where that is blank, the last segment of the directory; where the
/// directory has none, `Library`.
pub open spec fn registered_name(requested: Seq<char>, directory: Seq<char>) -> Seq<char> {
    if trim(requested).len() > 0 {
        trim(requested)
    } else {
        match file_name(directory) {
            Some(name) => name,
            None => "Library"@,
        }
    }
}

/// The registry after a request to add the directory whose canonical path is
/// `directory`: unchanged where that path is known already, otherwise one
/// source longer.
pub open spec fn with_source(
    sources: Seq<SourceView>,
    known: Seq<Seq<char>>,
    requested: Seq<char>,
    directory: Seq<char>,
) -> Seq<SourceView> {
    if known.contains(directory) {
        sources
    } else {
        sources.push(
            SourceView { name: registered_name(requested, directory), path: directory },
        )
    }
}

pub fn source_display_name(requested: &str, directory: &str) -> (out: String)
    ensures
        out@ == registered_name(requested@, directory@),
{
    let wanted = trimmed(&to_chars(requested));
    if wanted.len() > 0 {
        from_chars(&wanted)
    } else {
        match chars_file_name(&to_chars(directory)) {
            Some(name) => from_chars(&name),
            None => String::from_str("Library"),
        }
    }
}

/// Adds a source. `canonical` is the canonical path of the directory asked
/// for, none where it does not exist; `is_directory` says whether it is a
/// directory; `known_paths` are the compare forms of the registered sources.
///
/// Fails with `PathNotFound` where the path does not exist and with
/// `NotADirectory` where it is no directory, and then leaves the registry as
/// it is. Otherwise the registry gains the source unless its path is known,
/// and the answer says whether it did.
pub fn library_add_source(
    sources: &mut Vec<LibrarySource>,
    known_paths: &Vec<String>,
    requested_name: &str,
    canonical: Option<String>,
    is_directory: bool,
) -> (out: Result<bool, LibraryError>)
    ensures
        match out {
            Ok(grew) => canonical is Some && is_directory && source_views(final(sources)@)
                == with_source(
                source_views(old(sources)@),
                string_views(known_paths@),
                requested_name@,
                canonical->0@,
            ) && grew == !string_views(known_paths@).contains(canonical->0@),
            Err(e) => source_views(final(sources)@) == source_views(old(sources)@) && (e == (
            if canonical is None {
                LibraryError::PathNotFound
            } else {
                LibraryError::NotADirectory
            })) && !(canonical is Some && is_directory),
        },
{
    match canonical {
        None => Err(LibraryError::PathNotFound),
        Some(directory) => {
            if !is_directory {
                return Err(LibraryError::NotADirectory);
            }
            if contains_path(known_paths, &directory) {
                return Ok(false);
            }
            let ghost before = source_views(sources@);
            let name = source_display_name(requested_name, directory.as_str());
            let ghost added = SourceView { name: name@, path: directory@ };
            sources.push(LibrarySource { name, path: directory });
            assert(source_views(sources@) =~= before.push(added));
            Ok(true)
        },
    }
}

/// The compare form of the source at `i`; none where it was not given.
pub open spec fn compare_form_at(compare_paths: Seq<Seq<char>>, i: int) -> Option<Seq<char>> {
    if 0 <= i < compare_paths.len() {
        Some(compare_paths[i])
    } else {
        None
    }
}

/// The first `n` sources without those whose compare form is `target`.
pub open spec fn without_target(
    sources: Seq<SourceView>,
    compare_paths: Seq<Seq<char>>,
    target: Seq<char>,
    n: nat,
) -> Seq<SourceView>
    decreases n,
{
    if n == 0 {
        Seq::empty()
    } else {
        let front = without_target(sources, compare_paths, target, (n - 1) as nat);
        if compare_form_at(compare_paths, n - 1) == Some(target) {
            front
        } else {
            front.push(sources[n - 1])
        }
    }
}

/// Removes every source whose compare form is `target`; the others stay, in
/// order. `compare_paths` holds the compare form of each source, by
/// position; a source without one stays.
pub fn library_remove_source(
    sources: Vec<LibrarySource>,
    compare_paths: &Vec<String>,
    target: &str,
) -> (out: Vec<LibrarySource>)
    ensures
        source_views(out@) == without_target(
            source_views(sources@),
            string_views(compare_paths@),
            target@,
            sources.len() as nat,
        ),
{
    let wanted = target.to_owned();
    let mut out: Vec<LibrarySource> = Vec::new();
    let mut i: usize = 0;
    assert(source_views(out@) =~= Seq::<SourceView>::empty());
    while i < sources.len()
        invariant
            i <= sources.len(),
            wanted@ == target@,
            source_views(out@) == without_target(
                source_views(sources@),
                string_views(compare_paths@),
                target@,
                i as nat,
            ),
        decreases sources.len() - i,
    {
        let ghost before = source_views(out@);
        let drop = i < compare_paths.len() && compare_paths[i] == wanted;
        assert(drop == (compare_form_at(string_views(compare_paths@), i as int) == Some(
            target@,
        )));
        if !drop {
            let kept = LibrarySource {
                name: sources[i].name.clone(),
                path: sources[i].path.clone(),
            };
            out.push(kept);
            assert(source_views(out@) =~= before.push(source_views(sources@)[i as int]));
        }
        i += 1;
    }
    out
}

/// The shared root of an import: the canonical path where the chosen folder
/// exists and is a directory, `SharedRootInvalid` otherwise.
pub fn check_shared_root(canonical: Option<String>, is_directory: bool) -> (out: Result<
    String,
    LibraryError,
>)
    ensures
        match out {
            Ok(root) => canonical == Some(root) && is_directory,
            Err(e) => e == LibraryError::SharedRootInvalid && !(canonical is Some
                && is_directory),
        },
{
    match canonical {
        Some(root) => if is_directory {
            Ok(root)
        } else {
            Err(LibraryError::SharedRootInvalid)
        },
        None => Err(LibraryError::SharedRootInvalid),
    }
}

/// After a removal no source with a given compare form equal to the target
/// is left, and every source that is left was there before.
pub proof fn lemma_removal_keeps_only_others(
    sources: Seq<SourceView>,
    compare_paths: Seq<Seq<char>>,
    target: Seq<char>,
    n: nat,
)
    requires
        n <= sources.len(),
    ensures
        forall|s: SourceView| #[trigger]
            without_target(sources, compare_paths, target, n).contains(s) <==> exists|i: int|
                0 <= i < n && sources[i] == s && compare_form_at(compare_paths, i) != Some(
                    target,
                ),
    decreases n,
{
    if n > 0 {
        let m = (n - 1) as nat;
        lemma_removal_keeps_only_others(sources, compare_paths, target, m);
        let front = without_target(sources, compare_paths, target, m);
        let now = without_target(sources, compare_paths, target, n);
        assert forall|s: SourceView| #[trigger] now.contains(s) <==> exists|i: int|
            0 <= i < n && sources[i] == s && compare_form_at(compare_paths, i) != Some(
                target,
            ) by {
            if now.contains(s) {
                let k = choose|k: int| 0 <= k < now.len() && now[k] == s;
                if k < front.len() {
                    assert(front[k] == s);
                    assert(front.contains(s));
                    let i = choose|i: int|
                        0 <= i < m && sources[i] == s && compare_form_at(compare_paths, i)
                            != Some(target);
                    assert(0 <= i < n && sources[i] == s);
                } else {
                    assert(sources[n - 1] == s);
                }
            }
            if exists|i: int|
                0 <= i < n && sources[i] == s && compare_form_at(compare_paths, i) != Some(
                    target,
                ) {
                let i = choose|i: int|
                    0 <= i < n && sources[i] == s && compare_form_at(compare_paths, i) != Some(
                        target,
                    );
                if i < m {
                    assert(front.contains(s));
                    let k = choose|k: int| 0 <= k < front.len() && front[k] == s;
                    assert(now[k] == s);
                } else {
                    assert(now[now.len() - 1] == s);
                }
            }
        }
    } else {
        assert forall|s: SourceView| #[trigger]
            without_target(sources, compare_paths, target, n).contains(s) <==> exists|i: int|
                0 <= i < n && sources[i] == s && compare_form_at(compare_paths, i) != Some(
                    target,
                ) by {}
    }
}

} // verus!
