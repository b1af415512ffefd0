//! The loaded corpora: the lines of a corpus file, the articles read from
//! them, and the cache that keeps each list under its key.

use crate::access::string_views;
use crate::corpus::{
    corpus_family, corpus_key, corpus_tier, is_corpus_family, is_corpus_tier, key_of,
};
use crate::text::{from_chars, is_blank, is_space_char, to_chars};
use vstd::prelude::*;

verus! {

/// One article of a corpus. The readability score is held as the bits of
/// the double that the corpus file gives.
#[derive(Debug, Clone, PartialEq, Eq)]
pub struct CorpusArticle {
    pub title: String,
    pub text: String,
    pub domain: String,
    pub fk_grade_bits: u64,
    pub words: u64,
    pub sentences: u64,
}

pub struct ArticleView {
    pub title: Seq<char>,
    pub text: Seq<char>,
    pub domain: Seq<char>,
    pub fk_grade_bits: u64,
    pub words: u64,
    pub sentences: u64,
}

impl View for CorpusArticle {
    type V = ArticleView;

    open spec fn view(&self) -> ArticleView {
        ArticleView {
            title: self.title@,
            text: self.text@,
            domain: self.domain@,
            fk_grade_bits: self.fk_grade_bits,
            words: self.words,
            sentences: self.sentences,
        }
    }
}

pub open spec fn article_views(v: Seq<CorpusArticle>) -> Seq<ArticleView> {
    Seq::new(v.len(), |i: int| v[i]@)
}

pub fn copy_article(article: &CorpusArticle) -> (out: CorpusArticle)
    ensures
        out@ == article@,
{
    CorpusArticle {
        title: article.title.clone(),
        text: article.text.clone(),
        domain: article.domain.clone(),
        fk_grade_bits: article.fk_grade_bits,
        words: article.words,
        sentences: article.sentences,
    }
}

pub fn copy_articles(articles: &Vec<CorpusArticle>) -> (out: Vec<CorpusArticle>)
    ensures
        article_views(out@) == article_views(articles@),
{
    let mut out: Vec<CorpusArticle> = Vec::new();
    let mut i: usize = 0;
    while i < articles.len()
        invariant
            i <= articles.len(),
            out.len() == i,
            forall|k: int| 0 <= k < i ==> out@[k]@ == articles@[k]@,
        decreases articles.len() - i,
    {
        out.push(copy_article(&articles[i]));
        i += 1;
    }
    assert(article_views(out@) =~= article_views(articles@));
    out
}

/// A line without the carriage return at its end, if it has one.
pub open spec fn without_return(line: Seq<char>) -> Seq<char> {
    if line.len() > 0 && line.last() == '\r' {
        line.drop_last()
    } else {
        line
    }
}

/// `done` with the line `cur` appended, unless `cur` is blank.
pub open spec fn keep_line(done: Seq<Seq<char>>, cur: Seq<char>) -> Seq<Seq<char>> {
    if is_blank(cur) {
        done
    } else {
        done.push(without_return(cur))
    }
}

/// Reading `s` from the left: the lines kept so far, and the characters read
/// since the last line feed.
pub open spec fn line_scan(s: Seq<char>) -> (Seq<Seq<char>>, Seq<char>)
    decreases s.len(),
{
    if s.len() == 0 {
        (Seq::empty(), Seq::empty())
    } else {
        let (done, cur) = line_scan(s.drop_last());
        if s.last() == '\n' {
            (keep_line(done, cur), Seq::empty())
        } else {
            (done, cur.push(s.last()))
        }
    }
}

/// The lines of a corpus file that may hold an article: its lines, ended by
/// a line feed or the end of the file, without the blank ones, in order.
pub open spec fn article_lines(s: Seq<char>) -> Seq<Seq<char>> {
    keep_line(line_scan(s).0, line_scan(s).1)
}

pub fn is_blank_line(line: &Vec<char>) -> (out: bool)
    ensures
        out == is_blank(line@),
{
    let mut i: usize = 0;
    while i < line.len()
        invariant
            i <= line.len(),
            forall|k: int| 0 <= k < i ==> crate::text::is_space(#[trigger] line@[k]),
        decreases line.len() - i,
    {
        if !is_space_char(line[i]) {
            return false;
        }
        i += 1;
    }
    true
}

fn keep(done: &mut Vec<String>, mut cur: Vec<char>)
    ensures
        string_views(final(done)@) == keep_line(string_views(old(done)@), cur@),
{
    if !is_blank_line(&cur) {
        let ghost before = string_views(done@);
        let ghost line = cur@;
        if cur.len() > 0 && cur[cur.len() - 1] == '\r' {
            cur.pop();
            assert(cur@ =~= line.drop_last());
        }
        let text = from_chars(&cur);
        done.push(text);
        assert(string_views(done@) =~= before.push(without_return(line)));
    }
}

/// Frames a corpus file into the lines that may hold an article.
pub fn corpus_lines(content: &str) -> (out: Vec<String>)
    ensures
        string_views(out@) == article_lines(content@),
{
    let chars = to_chars(content);
    let mut done: Vec<String> = Vec::new();
    let mut cur: Vec<char> = Vec::new();
    let mut i: usize = 0;
    assert(string_views(done@) =~= Seq::<Seq<char>>::empty());
    assert(chars@.subrange(0, 0) =~= Seq::<char>::empty());
    while i < chars.len()
        invariant
            i <= chars.len(),
            (string_views(done@), cur@) == line_scan(chars@.subrange(0, i as int)),
        decreases chars.len() - i,
    {
        let c = chars[i];
        assert(chars@.subrange(0, i + 1).drop_last() =~= chars@.subrange(0, i as int));
        assert(chars@.subrange(0, i + 1).last() == c);
        if c == '\n' {
            keep(&mut done, cur);
            cur = Vec::new();
            assert(cur@ =~= Seq::<char>::empty());
        } else {
            cur.push(c);
        }
        i += 1;
    }
    assert(chars@.subrange(0, chars.len() as int) =~= chars@);
    keep(&mut done, cur);
    done
}

/// The articles that were read, in order, without the lines that held none.
pub open spec fn read_articles(parsed: Seq<Option<CorpusArticle>>, n: nat) -> Seq<ArticleView>
    decreases n,
{
    if n == 0 {
        Seq::empty()
    } else {
        let front = read_articles(parsed, (n - 1) as nat);
        match parsed[n - 1] {
            Some(article) => front.push(article@),
            None => front,
        }
    }
}

/// Gathers the articles of a corpus file. `parsed` holds, for each line, the
/// article read from it, none where the line is no well-formed article.
pub fn collect_articles(parsed: &Vec<Option<CorpusArticle>>) -> (out: Vec<CorpusArticle>)
    ensures
        article_views(out@) == read_articles(parsed@, parsed.len() as nat),
{
    let mut out: Vec<CorpusArticle> = Vec::new();
    let mut i: usize = 0;
    assert(article_views(out@) =~= Seq::<ArticleView>::empty());
    while i < parsed.len()
        invariant
            i <= parsed.len(),
            article_views(out@) == read_articles(parsed@, i as nat),
        decreases parsed.len() - i,
    {
        let ghost before = article_views(out@);
        match &parsed[i] {
            Some(article) => {
                out.push(copy_article(article));
                assert(article_views(out@) =~= before.push(article@));
            },
            None => {},
        }
        i += 1;
    }
    out
}

/// One loaded corpus.
#[derive(Debug, Clone, PartialEq, Eq)]
pub struct CorpusEntry {
    pub key: String,
    pub articles: Vec<CorpusArticle>,
}

/// The corpora loaded so far. An entry holds for its key unless a later
/// entry has the same key.
#[derive(Debug, Clone, PartialEq, Eq)]
pub struct CorpusCache {
    pub entries: Vec<CorpusEntry>,
}

/// What the first `n` entries hold, by key.
pub open spec fn cache_map(entries: Seq<CorpusEntry>, n: nat) -> Map<Seq<char>, Seq<ArticleView>>
    decreases n,
{
    if n == 0 {
        Map::empty()
    } else {
        cache_map(entries, (n - 1) as nat).insert(
            entries[n - 1].key@,
            article_views(entries[n - 1].articles@),
        )
    }
}

impl View for CorpusCache {
    type V = Map<Seq<char>, Seq<ArticleView>>;

    open spec fn view(&self) -> Map<Seq<char>, Seq<ArticleView>> {
        cache_map(self.entries@, self.entries.len() as nat)
    }
}

#[derive(Debug, Clone, Copy, PartialEq, Eq)]
pub struct CorpusTierInfo {
    pub available: bool,
    pub total_articles: usize,
}

impl CorpusCache {
    /// A cache that holds nothing.
    pub fn new() -> (out: CorpusCache)
        ensures
            out@ == Map::<Seq<char>, Seq<ArticleView>>::empty(),
    {
        CorpusCache { entries: Vec::new() }
    }

    /// The position of the entry that holds for `key`.
    pub fn position(&self, key: &String) -> (out: Option<usize>)
        ensures
            match out {
                Some(i) => i < self.entries.len() && self@.dom().contains(key@) && self@[key@]
                    == article_views(self.entries@[i as int].articles@),
                None => !self@.dom().contains(key@),
            },
    {
        let mut i: usize = self.entries.len();
        while i > 0
            invariant
                i <= self.entries.len(),
                self@.dom().contains(key@) == cache_map(self.entries@, i as nat).dom().contains(
                    key@,
                ),
                self@.dom().contains(key@) ==> self@[key@] == cache_map(self.entries@, i as nat)[key@],
            decreases i,
        {
            if self.entries[i - 1].key == *key {
                return Some(i - 1);
            }
            i -= 1;
        }
        None
    }

    /// Whether the corpus of this family and tier was loaded.
    pub fn is_loaded(&self, family: &str, tier: &str) -> (out: bool)
        ensures
            out == self@.dom().contains(key_of(family@, tier@)),
    {
        self.position(&corpus_key(family, tier)).is_some()
    }

    /// The number of articles loaded for this family and tier; 0 where none
    /// was.
    pub fn total_articles(&self, family: &str, tier: &str) -> (out: usize)
        ensures
            out == article_count(self@, key_of(family@, tier@)),
    {
        match self.position(&corpus_key(family, tier)) {
            Some(i) => self.entries[i].articles.len(),
            None => 0,
        }
    }
}

/// Makes sure the corpus of a family and tier is in the cache, and says
/// whether it is. `loaded` holds the articles of its file, none where no
/// file was found or read.
///
/// A corpus that is in the cache stays as it is, whatever `loaded` holds.
/// Otherwise the articles are put under its key, also where there is none
/// among them; without a file the cache does not change.
pub fn ensure_corpus_loaded(
    cache: &mut CorpusCache,
    family: &str,
    tier: &str,
    loaded: Option<Vec<CorpusArticle>>,
) -> (out: bool)
    ensures
        ({
            let key = key_of(family@, tier@);
            if old(cache)@.dom().contains(key) {
                out && final(cache)@ == old(cache)@
            } else {
                match loaded {
                    Some(articles) => out && final(cache)@ == old(cache)@.insert(
                        key,
                        article_views(articles@),
                    ),
                    None => !out && final(cache)@ == old(cache)@,
                }
            }
        }),
{
    let key = corpus_key(family, tier);
    if cache.position(&key).is_some() {
        return true;
    }
    match loaded {
        Some(articles) => {
            let ghost before = cache.entries@;
            cache.entries.push(CorpusEntry { key, articles });
            proof {
                lemma_cache_map_reads_first_entries(
                    before,
                    cache.entries@,
                    before.len() as nat,
                );
            }
            true
        },
        None => false,
    }
}

/// What the first `n` entries hold depends on those entries alone.
pub proof fn lemma_cache_map_reads_first_entries(
    a: Seq<CorpusEntry>,
    b: Seq<CorpusEntry>,
    n: nat,
)
    requires
        n <= a.len(),
        n <= b.len(),
        forall|i: int| 0 <= i < n ==> a[i] == b[i],
    ensures
        cache_map(a, n) == cache_map(b, n),
    decreases n,
{
    if n > 0 {
        lemma_cache_map_reads_first_entries(a, b, (n - 1) as nat);
    }
}

/// What is reported of one family and tier.
#[derive(Debug, Clone, PartialEq, Eq)]
pub struct CorpusInfoRow {
    pub family: String,
    pub tier: String,
    pub info: CorpusTierInfo,
}

/// The family of the row at `k`: three rows for each family, `wiki` first.
pub open spec fn row_family(k: int) -> Seq<char> {
    if k < 3 {
        "wiki"@
    } else {
        "prose"@
    }
}

/// The tier of the row at `k`: within a family `easy`, `medium`, `hard`.
pub open spec fn row_tier(k: int) -> Seq<char> {
    if k % 3 == 0 {
        "easy"@
    } else if k % 3 == 1 {
        "medium"@
    } else {
        "hard"@
    }
}

/// The number of articles held under `key`; 0 where nothing is.
pub open spec fn article_count(cache: Map<Seq<char>, Seq<ArticleView>>, key: Seq<char>) -> nat {
    if cache.dom().contains(key) {
        cache[key].len()
    } else {
        0
    }
}

/// The row at `k` is the report of its family and tier: whether the corpus
/// is available, as `available` says at `k`, and how many articles the cache
/// holds for it.
pub open spec fn is_info_row(
    row: CorpusInfoRow,
    cache: Map<Seq<char>, Seq<ArticleView>>,
    available: Seq<bool>,
    k: int,
) -> bool {
    &&& row.family@ == row_family(k)
    &&& row.tier@ == row_tier(k)
    &&& row.info.available == (0 <= k < available.len() && available[k])
    &&& row.info.total_articles == article_count(cache, key_of(row_family(k), row_tier(k)))
}

fn info_row(cache: &CorpusCache, available: &Vec<bool>, k: usize, family: &str, tier: &str) -> (out:
    CorpusInfoRow)
    requires
        k < 6,
        family@ == row_family(k as int),
        tier@ == row_tier(k as int),
    ensures
        is_info_row(out, cache@, available@, k as int),
{
    CorpusInfoRow {
        family: String::from_str(family),
        tier: String::from_str(tier),
        info: CorpusTierInfo {
            available: k < available.len() && available[k],
            total_articles: cache.total_articles(family, tier),
        },
    }
}

/// The families and tiers that are reported, in the order of the report.
pub fn corpus_pairs() -> (out: Vec<(String, String)>)
    ensures
        out.len() == 6,
        forall|k: int| 0 <= k < 6 ==> (#[trigger] out@[k]).0@ == row_family(k) && out@[k].1@
            == row_tier(k),
{
    let mut out: Vec<(String, String)> = Vec::new();
    out.push((String::from_str("wiki"), String::from_str("easy")));
    out.push((String::from_str("wiki"), String::from_str("medium")));
    out.push((String::from_str("wiki"), String::from_str("hard")));
    out.push((String::from_str("prose"), String::from_str("easy")));
    out.push((String::from_str("prose"), String::from_str("medium")));
    out.push((String::from_str("prose"), String::from_str("hard")));
    out
}

/// The report on every family and tier, in the order of [`corpus_pairs`].
/// `available` says of each, by position, whether its corpus is available; a
/// corpus that it does not speak of is not.
pub fn corpus_get_info(cache: &CorpusCache, available: &Vec<bool>) -> (out: Vec<CorpusInfoRow>)
    ensures
        out.len() == 6,
        forall|k: int| 0 <= k < 6 ==> is_info_row(#[trigger] out@[k], cache@, available@, k),
{
    let mut out: Vec<CorpusInfoRow> = Vec::new();
    out.push(info_row(cache, available, 0, "wiki", "easy"));
    out.push(info_row(cache, available, 1, "wiki", "medium"));
    out.push(info_row(cache, available, 2, "wiki", "hard"));
    out.push(info_row(cache, available, 3, "prose", "easy"));
    out.push(info_row(cache, available, 4, "prose", "medium"));
    out.push(info_row(cache, available, 5, "prose", "hard"));
    out
}

/// The article that a sample yields at the time `now`: none for an unknown
/// family or tier, a corpus that was not loaded, or one without articles;
/// otherwise the article at `now` modulo the number of articles.
pub open spec fn sampled(
    cache: Map<Seq<char>, Seq<ArticleView>>,
    family: Seq<char>,
    tier: Seq<char>,
    now: usize,
) -> Option<ArticleView> {
    let key = key_of(family, tier);
    if !corpus_family(family) || !corpus_tier(tier) || !cache.dom().contains(key)
        || cache[key].len() == 0 {
        None
    } else {
        Some(cache[key][(now as int) % (cache[key].len() as int)])
    }
}

pub fn corpus_sample_article(cache: &CorpusCache, family: &str, tier: &str, now: usize) -> (out:
    Option<CorpusArticle>)
    ensures
        match out {
            Some(article) => sampled(cache@, family@, tier@, now) == Some(article@),
            None => sampled(cache@, family@, tier@, now) is None,
        },
{
    if !is_corpus_family(family) || !is_corpus_tier(tier) {
        return None;
    }
    match cache.position(&corpus_key(family, tier)) {
        Some(i) => {
            let articles = &cache.entries[i].articles;
            if articles.len() == 0 {
                return None;
            }
            let index: usize = now % articles.len();
            Some(copy_article(&articles[index]))
        },
        None => None,
    }
}

/// A corpus that is not in the cache has no sample, whatever the time.
pub proof fn lemma_unloaded_corpus_has_no_sample(
    cache: Map<Seq<char>, Seq<ArticleView>>,
    family: Seq<char>,
    tier: Seq<char>,
    now: usize,
)
    requires
        !cache.dom().contains(key_of(family, tier)),
    ensures
        sampled(cache, family, tier, now) is None,
{
}

/// A sample is always one of the loaded articles of its family and tier.
pub proof fn lemma_sample_is_a_loaded_article(
    cache: Map<Seq<char>, Seq<ArticleView>>,
    family: Seq<char>,
    tier: Seq<char>,
    now: usize,
)
    requires
        sampled(cache, family, tier, now) is Some,
    ensures
        cache.dom().contains(key_of(family, tier)),
        cache[key_of(family, tier)].contains(sampled(cache, family, tier, now)->0),
{
    let list = cache[key_of(family, tier)];
    let index = (now as int) % (list.len() as int);
    assert(0 <= index < list.len());
    assert(list[index] == sampled(cache, family, tier, now)->0);
}

/// A line that holds no article takes nothing away: every article that was
/// read is gathered, and in the order of the lines.
pub proof fn lemma_read_articles_skips_only_failures(parsed: Seq<Option<CorpusArticle>>, n: nat)
    requires
        n <= parsed.len(),
    ensures
        read_articles(parsed, n).len() <= n,
        forall|i: int|
            0 <= i < n && (#[trigger] parsed[i]) is Some ==> read_articles(parsed, n).contains(
                parsed[i]->0@,
            ),
        (forall|i: int| 0 <= i < n ==> (#[trigger] parsed[i]) is Some) ==> read_articles(
            parsed,
            n,
        ).len() == n,
    decreases n,
{
    if n > 0 {
        let m = (n - 1) as nat;
        lemma_read_articles_skips_only_failures(parsed, m);
        let front = read_articles(parsed, m);
        let now = read_articles(parsed, n);
        assert forall|i: int| 0 <= i < n && (#[trigger] parsed[i]) is Some implies now.contains(
            parsed[i]->0@,
        ) by {
            if i < m {
                let k = choose|k: int| 0 <= k < front.len() && front[k] == parsed[i]->0@;
                assert(now[k] == parsed[i]->0@);
            } else {
                assert(now[now.len() - 1] == parsed[i]->0@);
            }
        }
    }
}

} // verus!
