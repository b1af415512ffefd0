//! The corpus cache: article lists by family and tier, loaded once and kept.
//!
//! Finding and reading a corpus file is the caller's part. The library names
//! the files to look for, frames the lines of a file, and keeps what was
//! loaded.

use crate::access::string_views;
use crate::paths::{chars_join, join, opt_string};
use crate::text::{from_chars, same_chars, to_chars};
use vstd::prelude::*;

verus! {

pub open spec fn corpus_family(family: Seq<char>) -> bool {
    family == "wiki"@ || family == "prose"@
}

pub open spec fn corpus_tier(tier: Seq<char>) -> bool {
    tier == "easy"@ || tier == "medium"@ || tier == "hard"@
}

pub fn is_corpus_family(family: &str) -> (out: bool)
    ensures
        out == corpus_family(family@),
{
    let f = to_chars(family);
    same_chars(&f, &to_chars("wiki")) || same_chars(&f, &to_chars("prose"))
}

pub fn is_corpus_tier(tier: &str) -> (out: bool)
    ensures
        out == corpus_tier(tier@),
{
    let t = to_chars(tier);
    same_chars(&t, &to_chars("easy")) || same_chars(&t, &to_chars("medium")) || same_chars(
        &t,
        &to_chars("hard"),
    )
}

/// The key of a corpus: family, a colon, tier.
pub open spec fn key_of(family: Seq<char>, tier: Seq<char>) -> Seq<char> {
    family + ":"@ + tier
}

pub fn corpus_key(family: &str, tier: &str) -> (out: String)
    ensures
        out@ == key_of(family@, tier@),
{
    String::from_str(family).concat(":").concat(tier)
}

/// The name of the corpus file of a family and tier.
pub open spec fn corpus_file_name(family: Seq<char>, tier: Seq<char>) -> Seq<char> {
    "corpus-"@ + family + "-"@ + tier + ".jsonl"@
}

/// The name that the corpus file of a tier had before there were families.
pub open spec fn legacy_file_name(tier: Seq<char>) -> Seq<char> {
    "corpus-"@ + tier + ".jsonl"@
}

/// The file names to look for, in order: the family's own, and for the
/// `wiki` family the old name after it.
pub open spec fn file_names(family: Seq<char>, tier: Seq<char>) -> Seq<Seq<char>> {
    if family == "wiki"@ {
        seq![corpus_file_name(family, tier), legacy_file_name(tier)]
    } else {
        seq![corpus_file_name(family, tier)]
    }
}

pub fn corpus_file_names(family: &str, tier: &str) -> (out: Vec<String>)
    ensures
        string_views(out@) == file_names(family@, tier@),
{
    let mut out: Vec<String> = Vec::new();
    out.push(String::from_str("corpus-").concat(family).concat("-").concat(tier).concat(".jsonl"));
    if same_chars(&to_chars(family), &to_chars("wiki")) {
        out.push(String::from_str("corpus-").concat(tier).concat(".jsonl"));
    }
    assert(string_views(out@) =~= file_names(family@, tier@));
    out
}

/// The directories in which a corpus is looked for, in order: the corpus
/// folder of the application's data directory, that of its resources, and
/// two folders of a development checkout, below the working directory and
/// beside it. A directory that is not known contributes nothing.
pub open spec fn candidate_dirs(
    app_data: Option<Seq<char>>,
    resources: Option<Seq<char>>,
    cwd: Option<Seq<char>>,
) -> Seq<Seq<char>> {
    let first = match app_data {
        Some(dir) => seq![join(dir, "corpus"@)],
        None => Seq::empty(),
    };
    let second = match resources {
        Some(dir) => seq![join(dir, "corpus"@)],
        None => Seq::empty(),
    };
    let third = match cwd {
        Some(dir) => seq![
            join(join(dir, "scripts"@), "prepare-corpus"@),
            join(join(join(dir, ".."@), "scripts"@), "prepare-corpus"@),
        ],
        None => Seq::empty(),
    };
    first + second + third
}

fn below(dir: &Vec<char>, name: &str) -> (out: Vec<char>)
    ensures
        out@ == join(dir@, name@),
{
    chars_join(dir, &to_chars(name))
}

pub fn corpus_candidate_dirs(
    app_data: Option<&str>,
    resources: Option<&str>,
    cwd: Option<&str>,
) -> (out: Vec<String>)
    ensures
        string_views(out@) == candidate_dirs(
            match app_data {
                Some(dir) => Some(dir@),
                None => None,
            },
            match resources {
                Some(dir) => Some(dir@),
                None => None,
            },
            match cwd {
                Some(dir) => Some(dir@),
                None => None,
            },
        ),
{
    let mut out: Vec<String> = Vec::new();
    if let Some(dir) = app_data {
        out.push(from_chars(&below(&to_chars(dir), "corpus")));
    }
    if let Some(dir) = resources {
        out.push(from_chars(&below(&to_chars(dir), "corpus")));
    }
    if let Some(dir) = cwd {
        let here = to_chars(dir);
        out.push(from_chars(&below(&below(&here, "scripts"), "prepare-corpus")));
        out.push(from_chars(&below(&below(&below(&here, ".."), "scripts"), "prepare-corpus")));
    }
    assert(string_views(out@) =~= candidate_dirs(
        match app_data {
            Some(dir) => Some(dir@),
            None => None,
        },
        match resources {
            Some(dir) => Some(dir@),
            None => None,
        },
        match cwd {
            Some(dir) => Some(dir@),
            None => None,
        },
    ));
    out
}

/// The paths at which the corpus of a family and tier is looked for, in
/// order: directory after directory, and in each the file names in their
/// order.
pub open spec fn candidate_paths(dirs: Seq<Seq<char>>, names: Seq<Seq<char>>, n: nat) -> Seq<
    Seq<char>,
>
    decreases n,
{
    if n == 0 {
        Seq::empty()
    } else {
        candidate_paths(dirs, names, (n - 1) as nat) + Seq::new(
            names.len(),
            |k: int| join(dirs[n - 1], names[k]),
        )
    }
}

pub fn corpus_candidate_paths(dirs: &Vec<String>, family: &str, tier: &str) -> (out: Vec<String>)
    ensures
        string_views(out@) == candidate_paths(
            string_views(dirs@),
            file_names(family@, tier@),
            dirs.len() as nat,
        ),
{
    let names = corpus_file_names(family, tier);
    let ghost name_seq = file_names(family@, tier@);
    let ghost dir_seq = string_views(dirs@);
    let mut out: Vec<String> = Vec::new();
    let mut i: usize = 0;
    assert(string_views(out@) =~= candidate_paths(dir_seq, name_seq, 0));
    while i < dirs.len()
        invariant
            i <= dirs.len(),
            dir_seq == string_views(dirs@),
            name_seq == string_views(names@),
            string_views(out@) == candidate_paths(dir_seq, name_seq, i as nat),
        decreases dirs.len() - i,
    {
        let ghost before = string_views(out@);
        let dir = to_chars(dirs[i].as_str());
        let mut k: usize = 0;
        while k < names.len()
            invariant
                k <= names.len(),
                i < dirs.len(),
                dir@ == dir_seq[i as int],
                dir_seq == string_views(dirs@),
                name_seq == string_views(names@),
                string_views(out@) == before + Seq::new(
                    k as nat,
                    |j: int| join(dir_seq[i as int], name_seq[j]),
                ),
            decreases names.len() - k,
        {
            let ghost so_far = string_views(out@);
            let path = from_chars(&chars_join(&dir, &to_chars(names[k].as_str())));
            out.push(path);
            assert(string_views(out@) =~= so_far.push(join(dir_seq[i as int], name_seq[k as int])));
            k += 1;
            assert(string_views(out@) =~= before + Seq::new(
                k as nat,
                |j: int| join(dir_seq[i as int], name_seq[j]),
            ));
        }
        i += 1;
    }
    out
}

/// Whether the candidate at `i` exists. A candidate that was not looked at
/// does not.
pub open spec fn exists_at(exists: Seq<bool>, i: int) -> bool {
    0 <= i < exists.len() && exists[i]
}

/// The first candidate from position `from` on that exists.
pub open spec fn first_existing(candidates: Seq<Seq<char>>, exists: Seq<bool>, from: int) -> Option<
    Seq<char>,
>
    decreases candidates.len() - from,
{
    if from < 0 || from >= candidates.len() {
        None
    } else if exists_at(exists, from) {
        Some(candidates[from])
    } else {
        first_existing(candidates, exists, from + 1)
    }
}

/// The corpus file to read: the first candidate that exists, none where
/// none does. `exists` says of each candidate, by position, whether it is
/// there.
pub fn find_corpus_path(candidates: &Vec<String>, exists: &Vec<bool>) -> (out: Option<String>)
    ensures
        opt_string(out) == first_existing(string_views(candidates@), exists@, 0),
{
    let mut i: usize = 0;
    while i < candidates.len()
        invariant
            i <= candidates.len(),
            first_existing(string_views(candidates@), exists@, 0) == first_existing(
                string_views(candidates@),
                exists@,
                i as int,
            ),
        decreases candidates.len() - i,
    {
        if i < exists.len() && exists[i] {
            return Some(candidates[i].clone());
        }
        i += 1;
    }
    None
}

} // verus!
