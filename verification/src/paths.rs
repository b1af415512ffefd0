//! The path model.
//!
//! A path is a string. It is read as a flag, whether it starts at the root,
//! and the sequence of its segments: the non-empty pieces between `/`
//! separators. Two paths that read the same are the same place, so every
//! function here compares and builds paths by whole segments, never by raw
//! characters.

use crate::text::{from_chars, replace_char, replace_chars, same_chars, slice_chars, to_chars};
use vstd::prelude::*;

verus! {

pub open spec fn is_absolute(p: Seq<char>) -> bool {
    p.len() > 0 && p[0] == '/'
}

/// `done` with the pending segment `cur` appended, unless `cur` is empty.
pub open spec fn flush(done: Seq<Seq<char>>, cur: Seq<char>) -> Seq<Seq<char>> {
    if cur.len() == 0 {
        done
    } else {
        done.push(cur)
    }
}

/// Reading `p` from the left: the segments already closed by a separator, and
/// the characters read since the last separator.
pub open spec fn scan(p: Seq<char>) -> (Seq<Seq<char>>, Seq<char>)
    decreases p.len(),
{
    if p.len() == 0 {
        (Seq::empty(), Seq::empty())
    } else {
        let (done, cur) = scan(p.drop_last());
        if p.last() == '/' {
            (flush(done, cur), Seq::empty())
        } else {
            (done, cur.push(p.last()))
        }
    }
}

/// The segments of `p`: its non-empty pieces between separators, in order.
pub open spec fn segments(p: Seq<char>) -> Seq<Seq<char>> {
    flush(scan(p).0, scan(p).1)
}

/// The segments written out with one separator between neighbours.
pub open spec fn joined(segs: Seq<Seq<char>>) -> Seq<char>
    decreases segs.len(),
{
    if segs.len() == 0 {
        Seq::empty()
    } else if segs.len() == 1 {
        segs[0]
    } else {
        joined(segs.drop_last()) + seq!['/'] + segs.last()
    }
}

/// The path that starts at the root if `absolute` and has the segments `segs`.
pub open spec fn render(absolute: bool, segs: Seq<Seq<char>>) -> Seq<char> {
    if absolute {
        seq!['/'] + joined(segs)
    } else {
        joined(segs)
    }
}

/// The views of a vector of segments.
pub open spec fn seg_views(v: Seq<Vec<char>>) -> Seq<Seq<char>> {
    Seq::new(v.len(), |i: int| v[i]@)
}

pub fn path_is_absolute(p: &Vec<char>) -> (out: bool)
    ensures
        out == is_absolute(p@),
{
    p.len() > 0 && p[0] == '/'
}

/// Splits a path into its segments.
pub fn split_segments(p: &Vec<char>) -> (out: Vec<Vec<char>>)
    ensures
        seg_views(out@) == segments(p@),
{
    let mut done: Vec<Vec<char>> = Vec::new();
    let mut cur: Vec<char> = Vec::new();
    let mut i: usize = 0;
    assert(seg_views(done@) =~= Seq::<Seq<char>>::empty());
    assert(p@.subrange(0, 0) =~= Seq::<char>::empty());
    while i < p.len()
        invariant
            i <= p.len(),
            (seg_views(done@), cur@) == scan(p@.subrange(0, i as int)),
        decreases p.len() - i,
    {
        let ghost before = p@.subrange(0, i as int);
        let ghost old_done = seg_views(done@);
        let c = p[i];
        assert(p@.subrange(0, i + 1).drop_last() =~= before);
        assert(p@.subrange(0, i + 1).last() == c);
        if c == '/' {
            if cur.len() > 0 {
                done.push(cur);
                assert(seg_views(done@) =~= old_done.push(cur@));
                cur = Vec::new();
            } else {
                cur = Vec::new();
            }
            assert(cur@ =~= Seq::<char>::empty());
        } else {
            cur.push(c);
        }
        i += 1;
    }
    assert(p@.subrange(0, p.len() as int) =~= p@);
    if cur.len() > 0 {
        let ghost old_done = seg_views(done@);
        done.push(cur);
        assert(seg_views(done@) =~= old_done.push(cur@));
    }
    done
}

/// Writes segments out as a path.
pub fn render_path(absolute: bool, segs: &Vec<Vec<char>>) -> (out: Vec<char>)
    ensures
        out@ == render(absolute, seg_views(segs@)),
{
    let mut body: Vec<char> = Vec::new();
    let mut i: usize = 0;
    assert(seg_views(segs@).subrange(0, 0) =~= Seq::<Seq<char>>::empty());
    while i < segs.len()
        invariant
            i <= segs.len(),
            body@ == joined(seg_views(segs@).subrange(0, i as int)),
        decreases segs.len() - i,
    {
        let ghost upto = seg_views(segs@).subrange(0, i + 1);
        assert(upto.drop_last() =~= seg_views(segs@).subrange(0, i as int));
        assert(upto.last() == segs@[i as int]@);
        if i > 0 {
            body.push('/');
        }
        let seg = &segs[i];
        let mut k: usize = 0;
        let ghost start = body@;
        while k < seg.len()
            invariant
                k <= seg.len(),
                body@ == start + seg@.subrange(0, k as int),
            decreases seg.len() - k,
        {
            body.push(seg[k]);
            k += 1;
            assert(body@ =~= start + seg@.subrange(0, k as int));
        }
        assert(seg@.subrange(0, seg.len() as int) =~= seg@);
        assert(body@ =~= joined(upto)) by {
            if i == 0 {
                assert(start =~= Seq::<char>::empty());
                assert(upto.len() == 1);
            } else {
                assert(upto.len() > 1);
            }
        }
        i += 1;
    }
    assert(seg_views(segs@).subrange(0, segs.len() as int) =~= seg_views(segs@));
    if absolute {
        let mut out: Vec<char> = Vec::new();
        out.push('/');
        let mut k: usize = 0;
        while k < body.len()
            invariant
                k <= body.len(),
                out@ == seq!['/'] + body@.subrange(0, k as int),
            decreases body.len() - k,
        {
            out.push(body[k]);
            k += 1;
            assert(out@ =~= seq!['/'] + body@.subrange(0, k as int));
        }
        assert(body@.subrange(0, body.len() as int) =~= body@);
        out
    } else {
        body
    }
}

/// `a` is the beginning of `b`, segment by segment.
pub open spec fn seg_prefix(a: Seq<Seq<char>>, b: Seq<Seq<char>>) -> bool {
    a.len() <= b.len() && forall|i: int| 0 <= i < a.len() ==> a[i] == b[i]
}

/// `target` is `root` or lies below it: both start at the root or neither
/// does, and the segments of `root` are the first segments of `target`.
pub open spec fn within_root(target: Seq<char>, root: Seq<char>) -> bool {
    is_absolute(target) == is_absolute(root) && seg_prefix(segments(root), segments(target))
}

/// The last segment of `p`; none where `p` has no segment or ends in `..`.
pub open spec fn file_name(p: Seq<char>) -> Option<Seq<char>> {
    let segs = segments(p);
    if segs.len() == 0 || segs.last() == seq!['.', '.'] {
        None
    } else {
        Some(segs.last())
    }
}

/// The position of the last `.` in `name`, or -1 where it has none.
pub open spec fn last_dot(name: Seq<char>) -> int
    decreases name.len(),
{
    if name.len() == 0 {
        -1
    } else if name.last() == '.' {
        name.len() - 1
    } else {
        last_dot(name.drop_last())
    }
}

/// What follows the last `.` of a file name. A name without a `.`, or whose
/// only `.` is its first character, has no extension.
pub open spec fn name_extension(name: Seq<char>) -> Option<Seq<char>> {
    let d = last_dot(name);
    if d <= 0 {
        None
    } else {
        Some(name.subrange(d + 1, name.len() as int))
    }
}

/// What precedes the last `.` of a file name; the whole name where it has no
/// extension.
pub open spec fn name_stem(name: Seq<char>) -> Seq<char> {
    let d = last_dot(name);
    if d <= 0 {
        name
    } else {
        name.subrange(0, d)
    }
}

pub open spec fn extension(p: Seq<char>) -> Option<Seq<char>> {
    match file_name(p) {
        Some(name) => name_extension(name),
        None => None,
    }
}

pub open spec fn file_stem(p: Seq<char>) -> Option<Seq<char>> {
    match file_name(p) {
        Some(name) => Some(name_stem(name)),
        None => None,
    }
}

/// `p` with the extension of its file name replaced by `ext`; `p` itself
/// where it has no file name.
pub open spec fn with_extension(p: Seq<char>, ext: Seq<char>) -> Seq<char> {
    match file_name(p) {
        Some(name) => render(
            is_absolute(p),
            segments(p).drop_last().push(name_stem(name) + seq!['.'] + ext),
        ),
        None => p,
    }
}

/// `p` without its last segment; none where `p` has no segment.
pub open spec fn parent(p: Seq<char>) -> Option<Seq<char>> {
    if segments(p).len() == 0 {
        None
    } else {
        Some(render(is_absolute(p), segments(p).drop_last()))
    }
}

/// What is left of `p` below `base`, as a relative path; none where `p` is
/// not within `base`.
pub open spec fn strip_prefix(p: Seq<char>, base: Seq<char>) -> Option<Seq<char>> {
    if within_root(p, base) {
        Some(render(false, segments(p).skip(segments(base).len() as int)))
    } else {
        None
    }
}

/// `rel` below `base`. An absolute `rel` replaces `base`; otherwise one
/// separator is put between them unless `base` is empty or ends in one.
pub open spec fn join(base: Seq<char>, rel: Seq<char>) -> Seq<char> {
    if is_absolute(rel) || base.len() == 0 {
        rel
    } else if base.last() == '/' {
        base + rel
    } else {
        base + seq!['/'] + rel
    }
}

/// `p` with every backslash turned into a forward slash.
pub open spec fn forward_slashes(p: Seq<char>) -> Seq<char> {
    replace_char(p, '\\', '/')
}

/// Whether the segments `a` are the first segments of `b`.
pub fn segments_start_with(b: &Vec<Vec<char>>, a: &Vec<Vec<char>>) -> (out: bool)
    ensures
        out == seg_prefix(seg_views(a@), seg_views(b@)),
{
    if a.len() > b.len() {
        return false;
    }
    let mut i: usize = 0;
    while i < a.len()
        invariant
            i <= a.len(),
            a.len() <= b.len(),
            forall|k: int| 0 <= k < i ==> seg_views(a@)[k] == seg_views(b@)[k],
        decreases a.len() - i,
    {
        if !same_chars(&a[i], &b[i]) {
            assert(seg_views(a@)[i as int] != seg_views(b@)[i as int]);
            return false;
        }
        i += 1;
    }
    true
}

pub fn chars_within_root(target: &Vec<char>, root: &Vec<char>) -> (out: bool)
    ensures
        out == within_root(target@, root@),
{
    if path_is_absolute(target) != path_is_absolute(root) {
        return false;
    }
    let t = split_segments(target);
    let r = split_segments(root);
    segments_start_with(&t, &r)
}

/// Whether `target_path` is `root_path` or lies below it, by whole segments.
pub fn is_within_root(target_path: &str, root_path: &str) -> (out: bool)
    ensures
        out == within_root(target_path@, root_path@),
{
    let t = to_chars(target_path);
    let r = to_chars(root_path);
    chars_within_root(&t, &r)
}

/// A path fragment with forward slashes only.
pub fn normalize_path_fragment(path: &str) -> (out: String)
    ensures
        out@ == forward_slashes(path@),
{
    let chars = to_chars(path);
    from_chars(&replace_chars(&chars, '\\', '/'))
}

/// A manifest path with forward slashes only.
pub fn normalize_manifest_path(path: &str) -> (out: String)
    ensures
        out@ == forward_slashes(path@),
{
    let chars = to_chars(path);
    from_chars(&replace_chars(&chars, '\\', '/'))
}

/// The view of an optional character vector.
pub open spec fn opt_chars(o: Option<Vec<char>>) -> Option<Seq<char>> {
    match o {
        Some(v) => Some(v@),
        None => None,
    }
}

/// The view of an optional string.
pub open spec fn opt_string(o: Option<String>) -> Option<Seq<char>> {
    match o {
        Some(v) => Some(v@),
        None => None,
    }
}

pub fn copy_chars(s: &Vec<char>) -> (out: Vec<char>)
    ensures
        out@ == s@,
{
    let out = slice_chars(s, 0, s.len());
    assert(s@.subrange(0, s.len() as int) =~= s@);
    out
}

pub fn chars_file_name(p: &Vec<char>) -> (out: Option<Vec<char>>)
    ensures
        opt_chars(out) == file_name(p@),
{
    let segs = split_segments(p);
    if segs.len() == 0 {
        return None;
    }
    let last = &segs[segs.len() - 1];
    assert(seg_views(segs@).last() == last@);
    if last.len() == 2 && last[0] == '.' && last[1] == '.' {
        assert(last@ =~= seq!['.', '.']);
        return None;
    }
    assert(last@ != seq!['.', '.']) by {
        if last@ == seq!['.', '.'] {
            assert(last@.len() == 2 && last@[0] == '.' && last@[1] == '.');
        }
    }
    Some(copy_chars(last))
}

/// The position of the last `.` in `name`.
pub fn find_last_dot(name: &Vec<char>) -> (out: Option<usize>)
    ensures
        match out {
            Some(d) => last_dot(name@) == d && d < name.len(),
            None => last_dot(name@) == -1,
        },
{
    let mut i: usize = name.len();
    assert(name@.subrange(0, i as int) =~= name@);
    while i > 0
        invariant
            i <= name.len(),
            last_dot(name@) == last_dot(name@.subrange(0, i as int)),
        decreases i,
    {
        if name[i - 1] == '.' {
            return Some(i - 1);
        }
        assert(name@.subrange(0, i as int).drop_last() =~= name@.subrange(0, i - 1));
        i -= 1;
    }
    None
}

pub fn chars_name_extension(name: &Vec<char>) -> (out: Option<Vec<char>>)
    ensures
        opt_chars(out) == name_extension(name@),
{
    match find_last_dot(name) {
        Some(d) => {
            if d == 0 {
                None
            } else {
                Some(slice_chars(name, d + 1, name.len()))
            }
        },
        None => None,
    }
}

pub fn chars_name_stem(name: &Vec<char>) -> (out: Vec<char>)
    ensures
        out@ == name_stem(name@),
{
    match find_last_dot(name) {
        Some(d) => {
            if d == 0 {
                copy_chars(name)
            } else {
                slice_chars(name, 0, d)
            }
        },
        None => copy_chars(name),
    }
}

pub fn chars_extension(p: &Vec<char>) -> (out: Option<Vec<char>>)
    ensures
        opt_chars(out) == extension(p@),
{
    match chars_file_name(p) {
        Some(name) => chars_name_extension(&name),
        None => None,
    }
}

pub fn chars_file_stem(p: &Vec<char>) -> (out: Option<Vec<char>>)
    ensures
        opt_chars(out) == file_stem(p@),
{
    match chars_file_name(p) {
        Some(name) => Some(chars_name_stem(&name)),
        None => None,
    }
}

/// `a` followed by `b`.
pub fn concat_chars(a: &Vec<char>, b: &Vec<char>) -> (out: Vec<char>)
    ensures
        out@ == a@ + b@,
{
    let mut out = copy_chars(a);
    let mut i: usize = 0;
    while i < b.len()
        invariant
            i <= b.len(),
            out@ == a@ + b@.subrange(0, i as int),
        decreases b.len() - i,
    {
        out.push(b[i]);
        i += 1;
        assert(out@ =~= a@ + b@.subrange(0, i as int));
    }
    assert(b@.subrange(0, b.len() as int) =~= b@);
    out
}

pub fn chars_with_extension(p: &Vec<char>, ext: &Vec<char>) -> (out: Vec<char>)
    ensures
        out@ == with_extension(p@, ext@),
{
    match chars_file_name(p) {
        Some(name) => {
            let mut segs = split_segments(p);
            let ghost before = seg_views(segs@);
            let mut renamed = chars_name_stem(&name);
            renamed.push('.');
            let renamed = concat_chars(&renamed, ext);
            assert(renamed@ =~= name_stem(name@) + seq!['.'] + ext@);
            segs.pop();
            segs.push(renamed);
            assert(seg_views(segs@) =~= before.drop_last().push(renamed@));
            render_path(path_is_absolute(p), &segs)
        },
        None => copy_chars(p),
    }
}

pub fn chars_parent(p: &Vec<char>) -> (out: Option<Vec<char>>)
    ensures
        opt_chars(out) == parent(p@),
{
    let mut segs = split_segments(p);
    if segs.len() == 0 {
        return None;
    }
    let ghost before = seg_views(segs@);
    segs.pop();
    assert(seg_views(segs@) =~= before.drop_last());
    Some(render_path(path_is_absolute(p), &segs))
}

pub fn chars_strip_prefix(p: &Vec<char>, base: &Vec<char>) -> (out: Option<Vec<char>>)
    ensures
        opt_chars(out) == strip_prefix(p@, base@),
{
    if path_is_absolute(p) != path_is_absolute(base) {
        return None;
    }
    let segs = split_segments(p);
    let base_segs = split_segments(base);
    if !segments_start_with(&segs, &base_segs) {
        return None;
    }
    let mut rest: Vec<Vec<char>> = Vec::new();
    let mut i: usize = base_segs.len();
    let ghost all = seg_views(segs@);
    let ghost from = base_segs.len() as int;
    assert(seg_views(rest@) =~= all.subrange(from, from));
    while i < segs.len()
        invariant
            0 <= from <= i <= segs.len(),
            all == seg_views(segs@),
            seg_views(rest@) == all.subrange(from, i as int),
        decreases segs.len() - i,
    {
        let ghost old_rest = seg_views(rest@);
        let piece = copy_chars(&segs[i]);
        rest.push(piece);
        assert(seg_views(rest@) =~= old_rest.push(piece@));
        i += 1;
        assert(seg_views(rest@) =~= all.subrange(from, i as int));
    }
    assert(all.subrange(from, segs.len() as int) =~= all.skip(from));
    Some(render_path(false, &rest))
}

pub fn chars_join(base: &Vec<char>, rel: &Vec<char>) -> (out: Vec<char>)
    ensures
        out@ == join(base@, rel@),
{
    if path_is_absolute(rel) || base.len() == 0 {
        copy_chars(rel)
    } else if base[base.len() - 1] == '/' {
        concat_chars(base, rel)
    } else {
        let mut head = copy_chars(base);
        head.push('/');
        let out = concat_chars(&head, rel);
        assert(out@ =~= base@ + seq!['/'] + rel@);
        out
    }
}

/// `rel` below `base`.
pub fn join_paths(base: &str, rel: &str) -> (out: String)
    ensures
        out@ == join(base@, rel@),
{
    from_chars(&chars_join(&to_chars(base), &to_chars(rel)))
}

/// The absolute form of `input` given the working directory: `input` itself
/// where it is absolute or no working directory is known, otherwise `input`
/// below the working directory.
pub open spec fn absolute_form(input: Seq<char>, cwd: Option<Seq<char>>) -> Seq<char> {
    if is_absolute(input) {
        input
    } else {
        match cwd {
            Some(dir) => join(dir, input),
            None => input,
        }
    }
}

pub fn resolve_absolute_path(input_path: &str, cwd: Option<&str>) -> (out: String)
    ensures
        out@ == absolute_form(
            input_path@,
            match cwd {
                Some(dir) => Some(dir@),
                None => None,
            },
        ),
{
    let input = to_chars(input_path);
    if path_is_absolute(&input) {
        return from_chars(&input);
    }
    match cwd {
        Some(dir) => join_paths(dir, input_path),
        None => from_chars(&input),
    }
}

} // verus!
