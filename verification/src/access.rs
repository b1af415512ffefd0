//! The access guard: a requested path is served only where it lies within a
//! registered root.

use crate::errors::LibraryError;
use crate::paths::{chars_within_root, opt_string, segments, within_root};
use crate::text::to_chars;
use vstd::prelude::*;

verus! {

/// The views of a vector of strings.
pub open spec fn string_views(v: Seq<String>) -> Seq<Seq<char>> {
    Seq::new(v.len(), |i: int| v[i]@)
}

/// The views of a vector of optional strings.
pub open spec fn opt_string_views(v: Seq<Option<String>>) -> Seq<Option<Seq<char>>> {
    Seq::new(v.len(), |i: int| opt_string(v[i]))
}

/// The paths that are there, in order.
pub open spec fn present(s: Seq<Option<Seq<char>>>) -> Seq<Seq<char>>
    decreases s.len(),
{
    if s.len() == 0 {
        Seq::empty()
    } else {
        match s.last() {
            Some(p) => present(s.drop_last()).push(p),
            None => present(s.drop_last()),
        }
    }
}

/// Some root holds `target`.
pub open spec fn some_root_holds(target: Seq<char>, roots: Seq<Seq<char>>) -> bool {
    exists|i: int| 0 <= i < roots.len() && within_root(target, #[trigger] roots[i])
}

/// What the guard answers for a request whose canonical form is `normalized`
/// (none where the path does not exist), given the canonical roots.
pub open spec fn guarded(normalized: Option<Seq<char>>, roots: Seq<Seq<char>>) -> Result<
    Seq<char>,
    LibraryError,
> {
    match normalized {
        None => Err(LibraryError::PathNotFound),
        Some(p) => if roots.len() == 0 {
            Err(LibraryError::NoSourcesConfigured)
        } else if some_root_holds(p, roots) {
            Ok(p)
        } else {
            Err(LibraryError::PathOutsideLibrary)
        },
    }
}

/// The roots that may be served: the canonical form of each registered
/// source, without the sources whose directory does not exist.
pub fn get_allowed_library_roots(canonical_sources: &Vec<Option<String>>) -> (out: Vec<String>)
    ensures
        string_views(out@) == present(opt_string_views(canonical_sources@)),
{
    let mut out: Vec<String> = Vec::new();
    let mut i: usize = 0;
    let ghost all = opt_string_views(canonical_sources@);
    assert(all.subrange(0, 0) =~= Seq::<Option<Seq<char>>>::empty());
    assert(string_views(out@) =~= Seq::<Seq<char>>::empty());
    while i < canonical_sources.len()
        invariant
            i <= canonical_sources.len(),
            all == opt_string_views(canonical_sources@),
            string_views(out@) == present(all.subrange(0, i as int)),
        decreases canonical_sources.len() - i,
    {
        let ghost before = string_views(out@);
        assert(all.subrange(0, i + 1).drop_last() =~= all.subrange(0, i as int));
        assert(all.subrange(0, i + 1).last() == opt_string(canonical_sources@[i as int]));
        match &canonical_sources[i] {
            Some(path) => {
                let copy = path.clone();
                out.push(copy);
                assert(string_views(out@) =~= before.push(path@));
            },
            None => {},
        }
        i += 1;
    }
    assert(all.subrange(0, canonical_sources.len() as int) =~= all);
    out
}

/// Whether some root holds `target`.
pub fn any_root_holds(target: &str, roots: &Vec<String>) -> (out: bool)
    ensures
        out == some_root_holds(target@, string_views(roots@)),
{
    let t = to_chars(target);
    let mut i: usize = 0;
    while i < roots.len()
        invariant
            i <= roots.len(),
            t@ == target@,
            forall|k: int| 0 <= k < i ==> !within_root(target@, string_views(roots@)[k]),
        decreases roots.len() - i,
    {
        let r = to_chars(roots[i].as_str());
        if chars_within_root(&t, &r) {
            assert(within_root(target@, string_views(roots@)[i as int]));
            return true;
        }
        i += 1;
    }
    false
}

/// Decides a request. `normalized` is the canonical form of the requested
/// path, none where the path does not exist; `roots` are the canonical roots.
/// The request is granted exactly when the path exists, some root is
/// registered, and the path is a root or lies below one.
pub fn resolve_allowed_library_path(normalized: Option<String>, roots: &Vec<String>) -> (out:
    Result<String, LibraryError>)
    ensures
        match out {
            Ok(p) => guarded(opt_string(normalized), string_views(roots@)) == Ok::<
                Seq<char>,
                LibraryError,
            >(p@),
            Err(e) => guarded(opt_string(normalized), string_views(roots@)) == Err::<
                Seq<char>,
                LibraryError,
            >(e),
        },
{
    match normalized {
        None => Err(LibraryError::PathNotFound),
        Some(p) => {
            if roots.len() == 0 {
                Err(LibraryError::NoSourcesConfigured)
            } else if any_root_holds(p.as_str(), roots) {
                Ok(p)
            } else {
                Err(LibraryError::PathOutsideLibrary)
            }
        },
    }
}

/// A path is within itself.
pub proof fn lemma_root_is_within_itself(root: Seq<char>)
    ensures
        within_root(root, root),
{
}

/// What lies within a path that lies within a root lies within that root.
pub proof fn lemma_within_is_transitive(a: Seq<char>, b: Seq<char>, c: Seq<char>)
    requires
        within_root(a, b),
        within_root(b, c),
    ensures
        within_root(a, c),
{
}

/// Containment goes by whole segments: a target that lacks one of the
/// root's segments, or differs from the root in it, is outside the root,
/// however much text the two segments share.
pub proof fn lemma_differing_segment_is_outside(target: Seq<char>, root: Seq<char>, k: int)
    requires
        0 <= k < segments(root).len(),
        k >= segments(target).len() || segments(target)[k] != segments(root)[k],
    ensures
        !within_root(target, root),
{
}

/// The guard grants a request exactly when its path exists, a root is
/// registered and some root holds the path; it then answers with that path.
pub proof fn lemma_guard_grants_iff_within(normalized: Option<Seq<char>>, roots: Seq<Seq<char>>)
    ensures
        guarded(normalized, roots) is Ok <==> (normalized is Some && some_root_holds(
            normalized->0,
            roots,
        )),
        guarded(normalized, roots) is Ok ==> guarded(normalized, roots)->Ok_0 == normalized->0,
{
}

} // verus!
