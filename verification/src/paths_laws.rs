//! What holds of every path.

use crate::paths::{
    file_name, flush, is_absolute, join, joined, parent, render, scan, segments, strip_prefix,
    within_root,
};
use vstd::prelude::*;

verus! {

/// A segment is not empty and holds no separator.
pub open spec fn valid_segment(seg: Seq<char>) -> bool {
    seg.len() > 0 && forall|i: int| 0 <= i < seg.len() ==> seg[i] != '/'
}

pub open spec fn valid_segments(segs: Seq<Seq<char>>) -> bool {
    forall|i: int| 0 <= i < segs.len() ==> valid_segment(#[trigger] segs[i])
}

/// Two paths name the same place: both start at the root or neither does,
/// and they have the same segments.
pub open spec fn same_place(a: Seq<char>, b: Seq<char>) -> bool {
    is_absolute(a) == is_absolute(b) && segments(a) == segments(b)
}

/// Whatever a scan has closed is a valid segment, and what it has pending
/// holds no separator.
pub proof fn lemma_scan_is_valid(p: Seq<char>)
    ensures
        valid_segments(scan(p).0),
        forall|i: int| 0 <= i < scan(p).1.len() ==> scan(p).1[i] != '/',
        valid_segments(segments(p)),
    decreases p.len(),
{
    if p.len() > 0 {
        lemma_scan_is_valid(p.drop_last());
    }
}

/// Reading on after a separator: the segments of what follows are appended.
pub proof fn lemma_scan_after_separator(x: Seq<char>, y: Seq<char>)
    requires
        scan(x).1.len() == 0,
    ensures
        scan(x + y) == (scan(x).0 + scan(y).0, scan(y).1),
        segments(x + y) == scan(x).0 + segments(y),
    decreases y.len(),
{
    if y.len() == 0 {
        assert(x + y =~= x);
        assert(scan(x).0 + scan(y).0 =~= scan(x).0);
        assert(scan(x).1 =~= scan(y).1);
    } else {
        assert((x + y).drop_last() =~= x + y.drop_last());
        lemma_scan_after_separator(x, y.drop_last());
        let (d, c) = scan(y.drop_last());
        assert(scan(x).0 + flush(d, c) =~= flush(scan(x).0 + d, c));
    }
    let (d, c) = scan(y);
    assert(scan(x).0 + flush(d, c) =~= flush(scan(x).0 + d, c));
}

/// Reading on through text without a separator: it is added to what is
/// pending.
pub proof fn lemma_scan_through_segment(x: Seq<char>, y: Seq<char>)
    requires
        forall|i: int| 0 <= i < y.len() ==> y[i] != '/',
    ensures
        scan(x + y) == (scan(x).0, scan(x).1 + y),
    decreases y.len(),
{
    if y.len() == 0 {
        assert(x + y =~= x);
        assert(scan(x).1 + y =~= scan(x).1);
    } else {
        assert((x + y).drop_last() =~= x + y.drop_last());
        lemma_scan_through_segment(x, y.drop_last());
        assert(scan(x).1 + y =~= (scan(x).1 + y.drop_last()).push(y.last()));
    }
}

/// Writing segments out and reading them again gives the same segments.
pub proof fn lemma_joined_reads_back(segs: Seq<Seq<char>>)
    requires
        valid_segments(segs),
    ensures
        segments(joined(segs)) == segs,
        segs.len() > 0 ==> joined(segs).len() > 0 && joined(segs)[0] != '/',
        segs.len() == 0 ==> joined(segs).len() == 0,
    decreases segs.len(),
{
    let empty = Seq::<char>::empty();
    if segs.len() == 0 {
        assert(segments(joined(segs)) =~= segs);
    } else if segs.len() == 1 {
        assert(valid_segment(segs[0]));
        lemma_scan_through_segment(empty, segs[0]);
        assert(empty + segs[0] =~= segs[0]);
        assert(segments(segs[0]) =~= segs);
    } else {
        let front = segs.drop_last();
        let last = segs.last();
        assert(valid_segment(last));
        assert(valid_segments(front)) by {
            assert forall|i: int| 0 <= i < front.len() implies valid_segment(
                #[trigger] front[i],
            ) by {
                assert(front[i] == segs[i]);
            }
        }
        lemma_joined_reads_back(front);
        let head = joined(front) + seq!['/'];
        assert(head.drop_last() =~= joined(front));
        assert(scan(head) == (front, empty));
        lemma_scan_through_segment(head, last);
        assert(empty + last =~= last);
        assert(segments(joined(segs)) =~= segs);
        assert(joined(segs)[0] == joined(front)[0]);
    }
}

/// A rendered path reads back as what was rendered.
pub proof fn lemma_render_reads_back(absolute: bool, segs: Seq<Seq<char>>)
    requires
        valid_segments(segs),
    ensures
        segments(render(absolute, segs)) == segs,
        is_absolute(render(absolute, segs)) == absolute,
{
    lemma_joined_reads_back(segs);
    if absolute {
        let slash = seq!['/'];
        assert(slash.drop_last() =~= Seq::<char>::empty());
        assert(scan(Seq::<char>::empty()) == (Seq::<Seq<char>>::empty(), Seq::<char>::empty()));
        assert(slash.last() == '/');
        assert(scan(slash) == (Seq::<Seq<char>>::empty(), Seq::<char>::empty()));
        lemma_scan_after_separator(slash, joined(segs));
        assert(Seq::<Seq<char>>::empty() + segs =~= segs);
    }
}

/// A relative path joined below a base has the base's segments followed by
/// its own, and lies within the base.
pub proof fn lemma_join_appends_segments(base: Seq<char>, rel: Seq<char>)
    requires
        !is_absolute(rel),
    ensures
        segments(join(base, rel)) == segments(base) + segments(rel),
        base.len() > 0 ==> is_absolute(join(base, rel)) == is_absolute(base),
        within_root(join(base, rel), base),
{
    if base.len() == 0 {
        assert(segments(base) + segments(rel) =~= segments(rel));
    } else if base.last() == '/' {
        lemma_scan_after_separator(base, rel);
    } else {
        let head = base + seq!['/'];
        assert(head.drop_last() =~= base);
        lemma_scan_after_separator(head, rel);
        assert(head + rel =~= base + seq!['/'] + rel);
    }
}

/// What is left of a path below a base, joined below the base again, names
/// the same place as the path.
pub proof fn lemma_strip_then_join(p: Seq<char>, base: Seq<char>)
    requires
        within_root(p, base),
    ensures
        strip_prefix(p, base) is Some,
        !is_absolute(strip_prefix(p, base)->0),
        segments(join(base, strip_prefix(p, base)->0)) == segments(p),
        base.len() > 0 ==> same_place(join(base, strip_prefix(p, base)->0), p),
{
    let n = segments(base).len() as int;
    let rest = segments(p).skip(n);
    lemma_scan_is_valid(p);
    assert(valid_segments(rest)) by {
        assert forall|i: int| 0 <= i < rest.len() implies valid_segment(#[trigger] rest[i]) by {
            assert(rest[i] == segments(p)[i + n]);
        }
    }
    lemma_render_reads_back(false, rest);
    let rel = strip_prefix(p, base)->0;
    lemma_join_appends_segments(base, rel);
    assert(segments(base) + rest =~= segments(p));
}

/// The last segment of a path, joined below the path's parent, names the
/// same place as the path.
pub proof fn lemma_file_name_below_parent(p: Seq<char>)
    requires
        file_name(p) is Some,
    ensures
        parent(p) is Some,
        same_place(join(parent(p)->0, file_name(p)->0), p),
{
    let segs = segments(p);
    let front = segs.drop_last();
    let name = segs.last();
    lemma_scan_is_valid(p);
    assert(valid_segment(name));
    assert(valid_segments(front)) by {
        assert forall|i: int| 0 <= i < front.len() implies valid_segment(#[trigger] front[i]) by {
            assert(front[i] == segs[i]);
        }
    }
    lemma_render_reads_back(is_absolute(p), front);
    let dir = parent(p)->0;
    assert(name[0] != '/');
    lemma_join_appends_segments(dir, name);
    lemma_scan_through_segment(Seq::<char>::empty(), name);
    assert(Seq::<char>::empty() + name =~= name);
    assert(segments(name) =~= seq![name]);
    assert(front + seq![name] =~= segs);
    if dir.len() == 0 {
        assert(!is_absolute(dir));
    }
}

/// Two paths that name the same place are within the same roots.
pub proof fn lemma_same_place_same_containment(a: Seq<char>, b: Seq<char>, root: Seq<char>)
    requires
        same_place(a, b),
    ensures
        within_root(a, root) == within_root(b, root),
        within_root(root, a) == within_root(root, b),
{
}

} // verus!
