use crate::downloads::{later_than, DownloadItem};
use nucleo_matcher::pattern::{CaseMatching, Normalization, Pattern};
use nucleo_matcher::{Config, Matcher, Utf32Str};
use vstd::prelude::*;
use vstd::string::StrSliceExecFns;

verus! {

/// The score that nucleo-matcher gives the title `title` for the query
/// `query`, or `None` where the title does not match.
pub uninterp spec fn fuzzy_title_score(query: Seq<char>, title: Seq<char>) -> Option<u32>;

/// The most characters that a word of a query may hold: nucleo-matcher
/// scores a word in a `u16`, at most 26 per character of the word plus 10,
/// which fits for words of this many characters.
pub const MAX_QUERY_WORD_CHARS: usize = 2048;

/// The most words that a query may hold: the words' scores, each at most
/// `u16::MAX`, are summed in a `u32`, which holds the sum of this many.
pub const MAX_QUERY_WORDS: usize = 65537;

/// nucleo-matcher splits a query into words at position `i`: a space that
/// does not follow a backslash.
pub open spec fn splits_at(q: Seq<char>, i: int) -> bool {
    q[i] == ' ' && (i == 0 || q[i - 1] != '\\')
}

/// A tally of the words of a query (the runs of characters between the
/// positions where it splits): the length of its last word, the length of
/// its longest word, and how many of its words are not empty.
pub open spec fn word_tally(q: Seq<char>) -> (nat, nat, nat)
    decreases q.len(),
{
    if q.len() == 0 {
        (0, 0, 0)
    } else {
        let (last, longest, words) = word_tally(q.drop_last());
        if splits_at(q, q.len() - 1) {
            (0, longest, words)
        } else {
            (
                last + 1,
                if longest < last + 1 { last + 1 } else { longest },
                if last == 0 { words + 1 } else { words },
            )
        }
    }
}

/// The query's score cannot overflow: no word of it holds more than
/// `MAX_QUERY_WORD_CHARS` characters, and it holds at most `MAX_QUERY_WORDS`
/// words that are not empty.
pub open spec fn scorable_query(q: Seq<char>) -> bool {
    &&& word_tally(q).1 <= MAX_QUERY_WORD_CHARS
    &&& word_tally(q).2 <= MAX_QUERY_WORDS
}

/// The longest word and the number of words of a prefix are at most those
/// of the whole query.
proof fn lemma_word_tally_grows(q: Seq<char>, k: int)
    requires
        0 <= k <= q.len(),
    ensures
        word_tally(q.take(k)).1 <= word_tally(q).1,
        word_tally(q.take(k)).2 <= word_tally(q).2,
    decreases q.len(),
{
    if k < q.len() {
        let p = q.drop_last();
        assert(p.take(k) =~= q.take(k));
        lemma_word_tally_grows(p, k);
    } else {
        assert(q.take(k) =~= q);
    }
}

/// Whether the query can be scored without overflow (see `scorable_query`).
pub fn is_scorable_query(query: &str) -> (r: bool)
    ensures
        r == scorable_query(query@),
{
    let mut last: usize = 0;
    let mut longest: usize = 0;
    let mut words: usize = 0;
    let mut after_backslash = false;
    for c in it: query.chars()
        invariant
            it.seq() == query@,
            0 <= it.index() <= query@.len(),
            word_tally(query@.take(it.index() as int)) == (last as nat, longest as nat, words as nat),
            last <= longest <= MAX_QUERY_WORD_CHARS,
            words <= MAX_QUERY_WORDS,
            after_backslash == (it.index() > 0 && query@[it.index() - 1] == '\\'),
    {
        let ghost k = it.index() as int;
        proof {
            let p = query@.take(k + 1);
            assert(p.drop_last() =~= query@.take(k));
            assert(p[k] == c);
            assert(k > 0 ==> p[k - 1] == query@[k - 1]);
        }
        if c == ' ' && !after_backslash {
            last = 0;
        } else {
            if last == 0 {
                if words == MAX_QUERY_WORDS {
                    proof {
                        lemma_word_tally_grows(query@, k + 1);
                    }
                    return false;
                }
                words += 1;
            }
            if last == MAX_QUERY_WORD_CHARS {
                proof {
                    lemma_word_tally_grows(query@, k + 1);
                }
                return false;
            }
            last += 1;
            if longest < last {
                longest = last;
            }
        }
        after_backslash = c == '\\';
    }
    assert(query@.take(query@.len() as int) =~= query@);
    true
}

/// Every title among the items can be matched: it holds at most
/// `u32::MAX` characters.
pub open spec fn scorable_titles(items: Seq<DownloadItem>) -> bool {
    forall|i: int| 0 <= i < items.len() ==> (#[trigger] items[i]).title@.len() <= u32::MAX
}

/// Whether every title among the items can be matched (see
/// `scorable_titles`).
pub fn has_scorable_titles(items: &Vec<DownloadItem>) -> (r: bool)
    ensures
        r == scorable_titles(items@),
{
    let mut i: usize = 0;
    while i < items.len()
        invariant
            0 <= i <= items@.len(),
            scorable_titles(items@.take(i as int)),
        decreases items.len() - i,
    {
        let n = items[i].title.as_str().unicode_len();
        if (n as u64) > 4294967295u64 {
            assert(items@[i as int].title@.len() > u32::MAX);
            return false;
        }
        assert(items@.take(i + 1) =~= items@.take(i as int).push(items@[i as int]));
        i += 1;
    }
    assert(items@.take(i as int) =~= items@);
    true
}

/// Whether nucleo-matcher can match the query against every item's title:
/// the query holds no word, or every title can be matched (see
/// `scorable_titles`).
pub fn can_match_titles(query: &str, items: &Vec<DownloadItem>) -> (r: bool)
    ensures
        r == (!blank_query(query@) ==> scorable_titles(items@)),
{
    let mut blank = true;
    for c in it: query.chars()
        invariant
            it.seq() == query@,
            blank == forall|k: int| 0 <= k < it.index() ==> query@[k] == ' ',
    {
        if c != ' ' {
            blank = false;
        }
    }
    blank || has_scorable_titles(items)
}

/// Scores `title` against `query` with nucleo-matcher: the query is parsed
/// by `Pattern::parse` with case ignored and smart normalization, and scored
/// by `Pattern::score` with a matcher made from `Config::DEFAULT`. Claimed:
/// the result is the named score of the two texts, and a query made only of
/// spaces (the empty query among them) has no words, so every title scores 0.
/// The query is kept to words of at most `MAX_QUERY_WORD_CHARS` characters
/// and at most `MAX_QUERY_WORDS` words, on which neither a word's `u16`
/// score nor the `u32` sum of them overflows; and, where the query holds a
/// word, to titles of at most `u32::MAX` characters, the most that
/// nucleo-matcher matches against (it asserts so).
#[verifier::external_body]
fn pattern_score(query: &str, title: &str) -> (r: Option<u32>)
    requires
        scorable_query(query@),
        !blank_query(query@) ==> title@.len() <= u32::MAX,
    ensures
        r == fuzzy_title_score(query@, title@),
        blank_query(query@) ==> r == Some(0u32),
{
    let pattern = Pattern::parse(query, CaseMatching::Ignore, Normalization::Smart);
    let mut matcher = Matcher::new(Config::DEFAULT);
    let mut haystack_buffer = Vec::new();
    pattern.score(Utf32Str::new(title, &mut haystack_buffer), &mut matcher)
}

/// The query holds no word: it is empty or made only of spaces.
pub open spec fn blank_query(q: Seq<char>) -> bool {
    forall|i: int| 0 <= i < q.len() ==> q[i] == ' '
}

/// Whether an item's title matches the query.
pub open spec fn title_matches(q: Seq<char>) -> spec_fn(DownloadItem) -> bool {
    |it: DownloadItem| fuzzy_title_score(q, it.title@) is Some
}

/// The score of an item's title for the query (0 where it does not match).
pub open spec fn item_score(q: Seq<char>, it: DownloadItem) -> u32 {
    match fuzzy_title_score(q, it.title@) {
        Some(s) => s,
        None => 0,
    }
}

/// `a` is listed before `b`: it scores higher, or scores the same and was
/// added later.
pub open spec fn listed_before(q: Seq<char>, a: DownloadItem, b: DownloadItem) -> bool {
    ||| item_score(q, a) > item_score(q, b)
    ||| (item_score(q, a) == item_score(q, b) && later_than(a.item_date_added, b.item_date_added))
}

/// No item of the list is listed before one that comes earlier in it.
pub open spec fn listing_sorted(q: Seq<char>, s: Seq<DownloadItem>) -> bool {
    forall|i: int, j: int| 0 <= i < j < s.len() ==> !listed_before(q, #[trigger] s[j], #[trigger] s[i])
}

/// What the main view of the server holds: the stored download items and
/// the query by which they are filtered.
#[derive(Debug, PartialEq, Eq)]
pub struct MainStates {
    pub download_items: Vec<DownloadItem>,
    pub filter_query: String,
}

impl MainStates {
    /// The state for the items read from storage, with an empty query.
    pub fn initialize(download_items: Vec<DownloadItem>) -> (r: Self)
        ensures
            r.download_items == download_items,
            r.filter_query@ == Seq::<char>::empty(),
    {
        MainStates { download_items, filter_query: String::new() }
    }

    /// Takes the items as storage holds them after a write.
    pub fn reload_download_items(&mut self, download_items: Vec<DownloadItem>)
        ensures
            final(self).download_items == download_items,
            final(self).filter_query == old(self).filter_query,
    {
        self.download_items = download_items;
    }

    /// The items whose title matches the query, best match first, and among
    /// equal matches the most recently added first.
    pub fn filtered_download_items(&self) -> (r: Vec<DownloadItem>)
        requires
            scorable_query(self.filter_query@),
            !blank_query(self.filter_query@) ==> scorable_titles(self.download_items@),
        ensures
            r@.to_multiset() == self.download_items@.filter(title_matches(self.filter_query@)).to_multiset(),
            listing_sorted(self.filter_query@, r@),
            blank_query(self.filter_query@) ==> r@.to_multiset() == self.download_items@.to_multiset(),
            blank_query(self.filter_query@) ==> forall|i: int, j: int|
                0 <= i < j < r@.len() ==> !later_than(
                    #[trigger] r@[j].item_date_added,
                    #[trigger] r@[i].item_date_added,
                ),
            forall|i: int| 0 <= i < r@.len() ==> fuzzy_title_score(self.filter_query@, #[trigger] r@[i].title@) is Some,
            forall|i: int, j: int|
                0 <= i < j < r@.len() ==> fuzzy_title_score(self.filter_query@, #[trigger] r@[i].title@)->0
                    >= fuzzy_title_score(self.filter_query@, #[trigger] r@[j].title@)->0,
            forall|i: int, j: int|
                0 <= i < j < r@.len() && fuzzy_title_score(self.filter_query@, #[trigger] r@[i].title@)
                    == fuzzy_title_score(self.filter_query@, #[trigger] r@[j].title@) ==> !later_than(
                    r@[j].item_date_added,
                    r@[i].item_date_added,
                ),
    {
        broadcast use vstd::seq_lib::group_to_multiset_ensures;

        let ghost q = self.filter_query@;
        let ghost items = self.download_items@;
        let mut out: Vec<DownloadItem> = Vec::new();
        let mut scores: Vec<u32> = Vec::new();
        let mut i: usize = 0;
        while i < self.download_items.len()
            invariant
                0 <= i <= items.len(),
                items == self.download_items@,
                !blank_query(self.filter_query@) ==> scorable_titles(items),
                q == self.filter_query@,
                scorable_query(q),
                scores@.len() == out@.len(),
                forall|k: int| 0 <= k < out@.len() ==> fuzzy_title_score(q, #[trigger] out@[k].title@) == Some(scores@[k]),
                listing_sorted(q, out@),
                out@.to_multiset() == items.take(i as int).filter(title_matches(q)).to_multiset(),
                blank_query(q) ==> items.take(i as int).filter(title_matches(q)) == items.take(i as int),
                blank_query(q) ==> forall|k: int| 0 <= k < scores@.len() ==> scores@[k] == 0,
            decreases items.len() - i,
        {
            let item = &self.download_items[i];
            let ghost pred = title_matches(q);
            let ghost prev = items.take(i as int).filter(pred);
            proof {
                assert(items.take(i + 1).drop_last() =~= items.take(i as int));
                assert(items.take(i + 1).last() == items[i as int]);
                assert(items.take(i + 1).filter(pred) == if pred(items[i as int]) {
                    prev.push(items[i as int])
                } else {
                    prev
                }) by {
                    reveal(Seq::filter);
                }
            }
            match pattern_score(self.filter_query.as_str(), item.title.as_str()) {
                Some(score) => {
                    let copy = item.clone();
                    let mut p: usize = 0;
                    while p < out.len() && (scores[p] > score || (scores[p] == score
                        && !copy.item_date_added.is_later_than(&out[p].item_date_added)))
                        invariant
                            0 <= p <= out@.len(),
                            scores@.len() == out@.len(),
                            listing_sorted(q, out@),
                            out@.to_multiset() == items.take(i as int).filter(title_matches(q)).to_multiset(),
                            copy == items[i as int],
                            blank_query(q) ==> score == 0,
                            blank_query(q) ==> forall|k: int| 0 <= k < scores@.len() ==> scores@[k] == 0,
                            fuzzy_title_score(q, copy.title@) == Some(score),
                            forall|k: int| 0 <= k < out@.len() ==> fuzzy_title_score(q, #[trigger] out@[k].title@) == Some(scores@[k]),
                            forall|k: int| 0 <= k < p ==> !listed_before(q, copy, #[trigger] out@[k]),
                        decreases out@.len() - p,
                    {
                        p += 1;
                    }
                    let ghost before = out@;
                    proof {
                        if p < out@.len() {
                            assert(listed_before(q, copy, before[p as int]));
                            assert forall|j: int| p <= j < before.len() implies !listed_before(
                                q,
                                #[trigger] before[j],
                                copy,
                            ) by {
                                assert(fuzzy_title_score(q, before[j].title@) == Some(scores@[j]));
                                if j > p {
                                    assert(!listed_before(q, before[j], before[p as int]));
                                }
                            }
                        }
                    }
                    out.insert(p, copy);
                    scores.insert(p, score);
                    proof {
                        vstd::seq_lib::to_multiset_insert(before, p as int, copy);
                        assert forall|a: int, b: int| 0 <= a < b < out@.len() implies !listed_before(
                            q,
                            #[trigger] out@[b],
                            #[trigger] out@[a],
                        ) by {
                            if b < p {
                                assert(out@[a] == before[a] && out@[b] == before[b]);
                            } else if b == p {
                                assert(out@[a] == before[a]);
                            } else if a < p {
                                assert(out@[a] == before[a] && out@[b] == before[b - 1]);
                            } else if a == p {
                                assert(out@[b] == before[b - 1]);
                            } else {
                                assert(out@[a] == before[a - 1] && out@[b] == before[b - 1]);
                            }
                        }
                        assert forall|k: int| 0 <= k < out@.len() implies fuzzy_title_score(
                            q,
                            #[trigger] out@[k].title@,
                        ) == Some(scores@[k]) by {
                            if k < p {
                                assert(out@[k] == before[k]);
                            } else if k > p {
                                assert(out@[k] == before[k - 1]);
                            }
                        }
                        assert(copy == items[i as int]);
                        assert(pred(items[i as int]));
                        vstd::seq_lib::to_multiset_build(prev, copy);
                    }
                },
                None => {},
            }
            i += 1;
        }
        proof {
            assert(items.take(i as int) =~= items);
            assert forall|k: int| 0 <= k < out@.len() implies fuzzy_title_score(q, #[trigger] out@[k].title@) is Some by {
                assert(fuzzy_title_score(q, out@[k].title@) == Some(scores@[k]));
            }
            sorted_listing_puts_best_match_first(q, out@);
            if blank_query(q) {
                assert forall|a: int, b: int| 0 <= a < b < out@.len() implies !later_than(
                    #[trigger] out@[b].item_date_added,
                    #[trigger] out@[a].item_date_added,
                ) by {
                    assert(fuzzy_title_score(q, out@[a].title@) == Some(scores@[a]));
                    assert(fuzzy_title_score(q, out@[b].title@) == Some(scores@[b]));
                    assert(!listed_before(q, out@[b], out@[a]));
                }
            }
        }
        out
    }
}

/// A listing in order lists the best matches first: of two matching items,
/// the one listed first scores at least as high as the other, and where
/// both score the same it was not added before the other.
pub proof fn sorted_listing_puts_best_match_first(q: Seq<char>, s: Seq<DownloadItem>)
    requires
        listing_sorted(q, s),
        forall|i: int| 0 <= i < s.len() ==> fuzzy_title_score(q, #[trigger] s[i].title@) is Some,
    ensures
        forall|i: int, j: int|
            0 <= i < j < s.len() ==> fuzzy_title_score(q, #[trigger] s[i].title@)->0 >= fuzzy_title_score(
                q,
                #[trigger] s[j].title@,
            )->0,
        forall|i: int, j: int|
            0 <= i < j < s.len() && fuzzy_title_score(q, #[trigger] s[i].title@) == fuzzy_title_score(
                q,
                #[trigger] s[j].title@,
            ) ==> !later_than(s[j].item_date_added, s[i].item_date_added),
{
    assert forall|i: int, j: int| 0 <= i < j < s.len() implies fuzzy_title_score(q, #[trigger] s[i].title@)->0
        >= fuzzy_title_score(q, #[trigger] s[j].title@)->0 by {
        assert(!listed_before(q, s[j], s[i]));
        assert(fuzzy_title_score(q, s[i].title@) is Some);
        assert(fuzzy_title_score(q, s[j].title@) is Some);
    }
    assert forall|i: int, j: int|
        0 <= i < j < s.len() && fuzzy_title_score(q, #[trigger] s[i].title@) == fuzzy_title_score(
            q,
            #[trigger] s[j].title@,
        ) implies !later_than(s[j].item_date_added, s[i].item_date_added) by {
        assert(!listed_before(q, s[j], s[i]));
    }
}

} // verus!
