//! Full-text search: the list of matches and the walk through it.

use vstd::prelude::*;
use vstd::string::StringSliceAdditionalSpecFns;
use crate::backend::{
    ensure_page_text, extends, no_hits, read_from, DocumentBackend, TextCache,
};
use crate::geometry::{append_rects, clamp_and_filter, tier, usable_rects, Highlights, Marked, NormalizedRect};
use crate::model::EngineError;
use crate::text::PageText;
use crate::unicode::{lowercased, str_to_lowercase};

verus! {

/// One place where the query occurs. `rects` is empty where the match
/// was found in the text alone.
#[derive(Debug)]
pub struct SearchMatch {
    pub page: usize,
    pub rects: Vec<NormalizedRect>,
}

impl Clone for SearchMatch {
    fn clone(&self) -> (r: Self)
        ensures
            r.page == self.page,
            r.rects@ == self.rects@,
    {
        SearchMatch { page: self.page, rects: self.rects.clone() }
    }
}

/// A search in progress.
#[derive(Debug)]
pub struct SearchState {
    pub query: String,
    pub matches: Vec<SearchMatch>,
    pub current_index: Option<usize>,
}

impl SearchState {
    /// Whether the current match, if there is one, is one of the
    /// matches.
    pub open spec fn settled(self) -> bool {
        self.current_index matches Some(index) ==> index < self.matches@.len()
    }
}

/// What a search found, in numbers.
#[derive(Debug, Clone)]
pub struct SearchSummary {
    pub query: String,
    pub total: usize,
    pub current_index: Option<usize>,
}

/// Which way to step through a list.
#[derive(Debug, Clone, Copy, PartialEq, Eq, Structural)]
pub enum SearchDirection {
    Forward,
    Backward,
}

/// The pages and rectangles of `matches`.
pub open spec fn marked(matches: Seq<SearchMatch>) -> Seq<Marked> {
    matches.map_values(|m: SearchMatch| (m.page, m.rects@))
}

/// Whether `needle` stands in `hay` at byte `at`.
pub open spec fn occurs_at(hay: Seq<u8>, needle: Seq<u8>, at: int) -> bool {
    0 <= at && at + needle.len() <= hay.len() && hay.subrange(at, at + needle.len()) == needle
}

/// The first byte at or behind `from` where `needle` stands in `hay`,
/// or -1 where it stands nowhere there.
pub open spec fn first_occurrence(hay: Seq<u8>, needle: Seq<u8>, from: int) -> int
    decreases hay.len() - from + 1,
{
    if from < 0 || from + needle.len() > hay.len() {
        -1
    } else if occurs_at(hay, needle, from) {
        from
    } else {
        first_occurrence(hay, needle, from + 1)
    }
}

/// How far the scan moves on behind a match: the length of the needle,
/// and one byte for an empty needle.
pub open spec fn stride(needle: Seq<u8>) -> int {
    if needle.len() < 1 {
        1
    } else {
        needle.len() as int
    }
}

/// How often `needle` is found in `hay` from byte `from` on, where each
/// search starts behind the match before it.
pub open spec fn occurrences(hay: Seq<u8>, needle: Seq<u8>, from: int) -> nat
    decreases
        (if from < hay.len() {
            hay.len() - from
        } else {
            0
        }),
{
    if from < 0 || from >= hay.len() {
        0
    } else {
        let at = first_occurrence(hay, needle, from);
        if at < from {
            0
        } else {
            1 + occurrences(hay, needle, at + stride(needle))
        }
    }
}

/// Where the first occurrence is found, it is one, and none lies before it.
pub proof fn lemma_first_occurrence(hay: Seq<u8>, needle: Seq<u8>, from: int)
    requires
        0 <= from,
    ensures
        ({
            let at = first_occurrence(hay, needle, from);
            &&& at == -1 || (from <= at && occurs_at(hay, needle, at))
            &&& forall|i: int|
                from <= i && (i < at || at == -1) ==> !occurs_at(hay, needle, i)
        }),
    decreases hay.len() - from + 1,
{
    if from + needle.len() > hay.len() {
    } else if occurs_at(hay, needle, from) {
    } else {
        lemma_first_occurrence(hay, needle, from + 1);
    }
}

/// Whether `needle` stands in `hay` at byte `at`.
fn bytes_match_at(hay: &[u8], needle: &[u8], at: usize) -> (r: bool)
    requires
        at + needle@.len() <= hay@.len(),
    ensures
        r == occurs_at(hay@, needle@, at as int),
{
    let hay_len: usize = hay.len();
    let mut k: usize = 0;
    while k < needle.len()
        invariant
            k <= needle.len(),
            hay_len == hay@.len(),
            at + needle@.len() <= hay@.len(),
            forall|j: int| 0 <= j < k ==> hay@[at + j] == needle@[j],
        decreases needle.len() - k,
    {
        if hay[at + k] != needle[k] {
            assert(hay@.subrange(at as int, at + needle@.len())[k as int] != needle@[k as int]);
            return false;
        }
        k += 1;
    }
    assert(hay@.subrange(at as int, at + needle@.len()) =~= needle@);
    true
}

/// The first byte at or behind `from` where `needle` stands in `hay`.
pub fn find_from(hay: &[u8], needle: &[u8], from: usize) -> (r: Option<usize>)
    ensures
        match r {
            Some(at) => at == first_occurrence(hay@, needle@, from as int),
            None => first_occurrence(hay@, needle@, from as int) == -1,
        },
{
    if needle.len() > hay.len() || from > hay.len() - needle.len() {
        return None;
    }
    let last: usize = hay.len() - needle.len();
    let mut at: usize = from;
    loop
        invariant
            from <= at <= last,
            last == hay@.len() - needle@.len(),
            first_occurrence(hay@, needle@, from as int) == first_occurrence(
                hay@,
                needle@,
                at as int,
            ),
        decreases last - at,
    {
        if bytes_match_at(hay, needle, at) {
            return Some(at);
        }
        if at == last {
            assert(first_occurrence(hay@, needle@, at + 1) == -1);
            return None;
        }
        at += 1;
    }
}

/// How often `needle` is found in `hay`, each search starting behind
/// the match before it.
pub fn count_occurrences(hay: &[u8], needle: &[u8]) -> (r: usize)
    ensures
        r == occurrences(hay@, needle@, 0),
{
    let step: usize = if needle.len() < 1 {
        1
    } else {
        needle.len()
    };
    let mut count: usize = 0;
    let mut offset: usize = 0;
    while offset < hay.len()
        invariant
            step == stride(needle@),
            count <= offset,
            count + occurrences(hay@, needle@, offset as int) == occurrences(hay@, needle@, 0),
        decreases
            (if offset < hay.len() {
                hay.len() - offset
            } else {
                0
            }),
    {
        match find_from(hay, needle, offset) {
            Some(at) => {
                proof {
                    lemma_first_occurrence(hay@, needle@, offset as int);
                }
                count += 1;
                if at > usize::MAX - step {
                    assert(occurrences(hay@, needle@, at + step) == 0);
                    return count;
                }
                offset = at + step;
            },
            None => {
                return count;
            },
        }
    }
    count
}

/// One match on `page` for each set of rectangles, with the rectangles
/// that survive clamping to the page.
pub open spec fn hits_as_marked(page: usize, hits: Seq<Vec<NormalizedRect>>) -> Seq<Marked> {
    hits.map_values(|set: Vec<NormalizedRect>| (page, usable_rects(set@)))
}

/// Turns what a backend found on `page` into matches: one for each set
/// of rectangles, also where none of its rectangles survives.
pub fn matches_from_hits(page: usize, hits: &Vec<Vec<NormalizedRect>>) -> (r: Vec<SearchMatch>)
    ensures
        marked(r@) == hits_as_marked(page, hits@),
        forall|i: int| 0 <= i < r.len() ==> (#[trigger] r[i]).page == page,
        forall|i: int, k: int|
            0 <= i < r.len() && 0 <= k < r[i].rects@.len() ==> (#[trigger] r[i].rects@[k]).valid()
                && r[i].rects@[k].on_page(),
{
    let mut out: Vec<SearchMatch> = Vec::new();
    let mut i: usize = 0;
    while i < hits.len()
        invariant
            i <= hits.len(),
            marked(out@) == hits_as_marked(page, hits@).take(i as int),
            forall|j: int| 0 <= j < out.len() ==> (#[trigger] out[j]).page == page,
            forall|j: int, k: int|
                0 <= j < out.len() && 0 <= k < out[j].rects@.len() ==> (
                #[trigger] out[j].rects@[k]).valid() && out[j].rects@[k].on_page(),
        decreases hits.len() - i,
    {
        let rects = clamp_and_filter(&hits[i]);
        let ghost before = marked(out@);
        let ghost earlier = out@;
        let ghost added = rects@;
        out.push(SearchMatch { page, rects });
        assert(marked(out@) =~= before.push((page, usable_rects(hits@[i as int]@))));
        assert forall|j: int, k: int| 0 <= j < out.len() && 0 <= k < out[j].rects@.len() implies (
        #[trigger] out[j].rects@[k]).valid() && out[j].rects@[k].on_page() by {
            if j < earlier.len() {
                assert(out[j] == earlier[j]);
            } else {
                assert(out[j].rects@ == added);
            }
        }
        i += 1;
        assert(marked(out@) =~= hits_as_marked(page, hits@).take(i as int));
    }
    assert(hits_as_marked(page, hits@).take(hits.len() as int) =~= hits_as_marked(page, hits@));
    out
}

/// `count` matches on `page` without rectangles.
pub open spec fn bare_matches(page: usize, count: nat) -> Seq<Marked> {
    Seq::new(count, |i: int| (page, Seq::<NormalizedRect>::empty()))
}

/// The matches that a scan of a page's text gives: one without
/// rectangles for each place where the lower-case query is found in the
/// lower-case text.
pub fn matches_from_text(page: usize, text: &str, query_lower: &str) -> (r: Vec<SearchMatch>)
    ensures
        marked(r@) == bare_matches(
            page,
            if text@.len() == 0 {
                0
            } else {
                occurrences(
                    vstd::utf8::encode_utf8(lowercased(text@)),
                    query_lower.spec_bytes(),
                    0,
                )
            },
        ),
{
    let mut out: Vec<SearchMatch> = Vec::new();
    if text.is_empty() {
        assert(marked(out@) =~= bare_matches(page, 0));
        return out;
    }
    let lower = str_to_lowercase(text);
    let count: usize = count_occurrences(lower.as_str().as_bytes(), query_lower.as_bytes());
    let mut i: usize = 0;
    assert(marked(out@) =~= bare_matches(page, 0));
    while i < count
        invariant
            i <= count,
            marked(out@) == bare_matches(page, i as nat),
        decreases count - i,
    {
        let ghost before = marked(out@);
        out.push(SearchMatch { page, rects: Vec::new() });
        assert(marked(out@) =~= before.push((page, Seq::<NormalizedRect>::empty())));
        i += 1;
        assert(marked(out@) =~= bare_matches(page, i as nat));
    }
    out
}

/// Whether the matches stand in page order, each on a page of the
/// document and with rectangles that have an area and lie on the page.
pub open spec fn matches_in_order(matches: Seq<SearchMatch>, page_count: usize) -> bool {
    &&& forall|i: int, j: int|
        0 <= i <= j < matches.len() ==> (#[trigger] matches[i]).page <= (#[trigger] matches[j]).page
    &&& forall|i: int| 0 <= i < matches.len() ==> (#[trigger] matches[i]).page < page_count
    &&& forall|i: int, k: int|
        0 <= i < matches.len() && 0 <= k < matches[i].rects@.len() ==> (
        #[trigger] matches[i].rects@[k]).valid() && matches[i].rects@[k].on_page()
}

/// The matches that a scan of the text `text` of `page` gives for the
/// lower-case query `needle`: one without rectangles for each place
/// where the query is found in the lower-case text.
pub open spec fn text_marks(page: usize, text: Seq<char>, needle: Seq<char>) -> Seq<Marked> {
    bare_matches(
        page,
        if text.len() == 0 {
            0
        } else {
            occurrences(
                vstd::utf8::encode_utf8(lowercased(text)),
                vstd::utf8::encode_utf8(needle),
                0,
            )
        },
    )
}

/// The matches of one page, given what the backend's search found on it
/// and the page's text, if it can be had. Where the backend found
/// something, that is taken; else the page's text is scanned; a page
/// without a text gives nothing.
pub open spec fn page_marks(
    page: usize,
    hits: Seq<Vec<NormalizedRect>>,
    text: Option<PageText>,
    needle: Seq<char>,
) -> Seq<Marked> {
    if hits.len() > 0 {
        hits_as_marked(page, hits)
    } else {
        match text {
            Some(text) => text_marks(page, text.chars(), needle),
            None => Seq::empty(),
        }
    }
}

/// The matches of one page, from what the backend's search found on it
/// and from the page's text, if it can be had: the backend's hits come
/// first, and the text is scanned for the lower-case query only where
/// there are none.
pub fn page_matches(
    page: usize,
    hits: &Vec<Vec<NormalizedRect>>,
    text: Option<&PageText>,
    query_lower: &str,
) -> (r: Vec<SearchMatch>)
    ensures
        marked(r@) == page_marks(
            page,
            hits@,
            match text {
                Some(text) => Some(*text),
                None => None,
            },
            query_lower@,
        ),
        forall|i: int| 0 <= i < r.len() ==> (#[trigger] r[i]).page == page,
        forall|i: int, k: int|
            0 <= i < r.len() && 0 <= k < r[i].rects@.len() ==> (#[trigger] r[i].rects@[k]).valid()
                && r[i].rects@[k].on_page(),
{
    if hits.len() > 0 {
        return matches_from_hits(page, hits);
    }
    match text {
        Some(text) => {
            let found = matches_from_text(page, text.text(), query_lower);
            proof {
                assert forall|i: int| 0 <= i < found.len() implies (#[trigger] found[i]).page == page
                    && found[i].rects@.len() == 0 by {
                    let n = marked(found@).len();
                    assert(marked(found@)[i] == bare_matches(page, n)[i]);
                    assert(marked(found@)[i] == (found[i].page, found[i].rects@));
                }
            }
            found
        },
        None => {
            let found: Vec<SearchMatch> = Vec::new();
            assert(marked(found@) =~= Seq::<Marked>::empty());
            found
        },
    }
}

/// What the backend's search found, given its answer: nothing where it
/// failed.
pub open spec fn hits_of(answer: Result<Vec<Vec<NormalizedRect>>, EngineError>) -> Seq<
    Vec<NormalizedRect>,
> {
    match answer {
        Ok(hits) => hits@,
        Err(_) => Seq::empty(),
    }
}

/// Whether `answer` can be what `backend` gives when it is asked to
/// search page `page` for `query`.
pub open spec fn searched<B: DocumentBackend>(
    backend: &B,
    page: usize,
    query: Seq<char>,
    answer: Result<Vec<Vec<NormalizedRect>>, EngineError>,
) -> bool {
    backend.finds(page, query, answer) || no_hits(answer)
}

/// The text of `page` in `texts`, if it is there.
pub open spec fn text_in(texts: Map<usize, PageText>, page: usize) -> Option<PageText> {
    if texts.contains_key(page) {
        Some(texts[page])
    } else {
        None
    }
}

/// The matches of the first `n` pages, page by page, given the
/// backend's answers and the cached page texts.
pub open spec fn all_marks(
    answers: Seq<Result<Vec<Vec<NormalizedRect>>, EngineError>>,
    texts: Map<usize, PageText>,
    needle: Seq<char>,
    n: int,
) -> Seq<Marked>
    decreases n,
{
    if n <= 0 {
        Seq::empty()
    } else {
        all_marks(answers, texts, needle, n - 1) + page_marks(
            (n - 1) as usize,
            hits_of(answers[n - 1]),
            text_in(texts, (n - 1) as usize),
            needle,
        )
    }
}

/// The matches of the first `n` pages depend on the answers for those
/// pages and on their cached texts alone.
pub proof fn lemma_all_marks_agree(
    answers: Seq<Result<Vec<Vec<NormalizedRect>>, EngineError>>,
    others: Seq<Result<Vec<Vec<NormalizedRect>>, EngineError>>,
    texts: Map<usize, PageText>,
    other_texts: Map<usize, PageText>,
    needle: Seq<char>,
    n: int,
)
    requires
        0 <= n <= usize::MAX,
        forall|i: int| 0 <= i < n ==> answers[i] == others[i],
        forall|p: usize| p < n ==> #[trigger] text_in(texts, p) == text_in(other_texts, p),
    ensures
        all_marks(answers, texts, needle, n) == all_marks(others, other_texts, needle, n),
    decreases n,
{
    if n > 0 {
        lemma_all_marks_agree(answers, others, texts, other_texts, needle, n - 1);
        assert(text_in(texts, (n - 1) as usize) == text_in(other_texts, (n - 1) as usize));
    }
}

/// Whether `matches` are what the search on one page gives, where
/// `answer` is what the backend's search gave for the page and `query`:
/// the page's text is read only where the backend found nothing, and
/// the matches are those of the hits and of the text that is cached
/// afterwards.
pub open spec fn page_searched<B: DocumentBackend>(
    backend: &B,
    matches: Seq<SearchMatch>,
    page: usize,
    query: Seq<char>,
    answer: Result<Vec<Vec<NormalizedRect>>, EngineError>,
    before: Map<usize, PageText>,
    after: Map<usize, PageText>,
    needle: Seq<char>,
) -> bool {
    &&& searched(backend, page, query, answer)
    &&& marked(matches) == page_marks(page, hits_of(answer), text_in(after, page), needle)
    &&& hits_of(answer).len() > 0 ==> after == before
}

/// The matches of one page. The backend's search is asked first; where
/// it finds something, that is taken; where it finds nothing or fails,
/// the page's text is read through the cache and scanned; a page whose
/// text cannot be had gives nothing.
fn search_page_matches<B: DocumentBackend>(
    page: usize,
    query: &str,
    query_lower: &str,
    page_count: usize,
    backend: &B,
    cache: &mut TextCache,
) -> (r: Vec<SearchMatch>)
    requires
        page < page_count,
    ensures
        extends(old(cache)@, final(cache)@),
        read_from(backend, old(cache)@, final(cache)@),
        forall|p: usize|
            final(cache)@.contains_key(p) ==> old(cache)@.contains_key(p) || p == page,
        forall|i: int| 0 <= i < r.len() ==> (#[trigger] r[i]).page == page,
        forall|i: int, k: int|
            0 <= i < r.len() && 0 <= k < r[i].rects@.len() ==> (#[trigger] r[i].rects@[k]).valid()
                && r[i].rects@[k].on_page(),
        exists|answer: Result<Vec<Vec<NormalizedRect>>, EngineError>| #[trigger]
            page_searched(backend, r@, page, query@, answer, old(cache)@, final(cache)@, query_lower@),
{
    let answer = backend.search_page(page, query);
    let ghost given = answer;
    let hits: Vec<Vec<NormalizedRect>> = match answer {
        Ok(sets) => sets,
        Err(_) => Vec::new(),
    };
    assert(hits@ == hits_of(given));
    if hits.len() == 0 {
        let _ = ensure_page_text(page, page_count, backend, cache);
    }
    let found = page_matches(page, &hits, cache.get(&page), query_lower);
    assert(page_searched(backend, found@, page, query@, given, old(cache)@, cache@, query_lower@));
    found
}

/// Whether `matches` are what a search of `page_count` pages for `query`
/// gives, where `answers` holds what the backend's search gave page by
/// page, `after` holds the page texts that are cached afterwards and
/// `needle` is the query in lower case.
pub open spec fn searched_all<B: DocumentBackend>(
    backend: &B,
    matches: Seq<SearchMatch>,
    page_count: usize,
    query: Seq<char>,
    answers: Seq<Result<Vec<Vec<NormalizedRect>>, EngineError>>,
    after: Map<usize, PageText>,
    needle: Seq<char>,
) -> bool {
    &&& answers.len() == page_count
    &&& forall|p: int| 0 <= p < page_count ==> searched(backend, p as usize, query, #[trigger] answers[p])
    &&& marked(matches) == all_marks(answers, after, needle, page_count as int)
}

/// Searches every page for `query`, in page order. On each page the
/// backend's search is asked once, for the query as it came; what it
/// finds is taken, and where it finds nothing or fails, the page's text
/// is read through the cache and scanned for the query, letter case
/// aside. The matches are those that the backend's answers and the
/// cached page texts give, and a text that enters the cache is the
/// backend's. An empty query finds nothing and asks the backend nothing.
pub fn build_search_matches<B: DocumentBackend>(
    query: &str,
    page_count: usize,
    backend: &B,
    cache: &mut TextCache,
) -> (r: Vec<SearchMatch>)
    ensures
        extends(old(cache)@, final(cache)@),
        read_from(backend, old(cache)@, final(cache)@),
        forall|p: usize|
            final(cache)@.contains_key(p) ==> old(cache)@.contains_key(p) || p < page_count,
        query@.len() == 0 ==> r@.len() == 0 && final(cache)@ == old(cache)@,
        matches_in_order(r@, page_count),
        query@.len() > 0 ==> exists|answers: Seq<Result<Vec<Vec<NormalizedRect>>, EngineError>>| #[trigger]
            searched_all(backend, r@, page_count, query@, answers, final(cache)@, lowercased(query@)),
{
    let mut matches: Vec<SearchMatch> = Vec::new();
    if query.is_empty() {
        return matches;
    }
    let query_lower = str_to_lowercase(query);
    let ghost needle = lowercased(query@);
    let ghost mut answers: Seq<Result<Vec<Vec<NormalizedRect>>, EngineError>> = Seq::empty();
    let mut page: usize = 0;
    assert(marked(matches@) =~= Seq::<Marked>::empty());
    while page < page_count
        invariant
            page <= page_count,
            extends(old(cache)@, cache@),
            read_from(backend, old(cache)@, cache@),
            matches_in_order(matches@, page_count),
            forall|i: int| 0 <= i < matches.len() ==> (#[trigger] matches[i]).page < page,
            needle == lowercased(query@),
            query_lower@ == needle,
            answers.len() == page,
            forall|p: int| 0 <= p < page ==> searched(backend, p as usize, query@, #[trigger] answers[p]),
            marked(matches@) == all_marks(answers, cache@, needle, page as int),
            forall|p: usize| cache@.contains_key(p) ==> old(cache)@.contains_key(p) || p < page,
        decreases page_count - page,
    {
        let ghost texts_before = cache@;
        let mut found = search_page_matches(
            page,
            query,
            query_lower.as_str(),
            page_count,
            backend,
            cache,
        );
        let ghost before = matches@;
        let ghost added = found@;
        matches.append(&mut found);
        proof {
            let answer = choose|answer: Result<Vec<Vec<NormalizedRect>>, EngineError>| #[trigger]
                page_searched(backend, added, page, query@, answer, texts_before, cache@, needle);
            let longer = answers.push(answer);
            assert forall|p: usize| p < page implies #[trigger] text_in(texts_before, p) == text_in(
                cache@,
                p,
            ) by {
                if cache@.contains_key(p) {
                    assert(texts_before.contains_key(p) || p == page);
                }
            }
            lemma_all_marks_agree(answers, longer, texts_before, cache@, needle, page as int);
            assert(longer[page as int] == answer);
            assert(marked(matches@) =~= marked(before) + marked(added));
            assert forall|p: int| 0 <= p < page + 1 implies searched(
                backend,
                p as usize,
                query@,
                #[trigger] longer[p],
            ) by {
                if p < page {
                    assert(longer[p] == answers[p]);
                }
            }
            answers = longer;
        }
        proof {
            assert forall|i: int| 0 <= i < matches.len() implies (#[trigger] matches[i]).page <= page
                && (i < before.len() ==> matches[i].page < page) && (forall|k: int|
                0 <= k < matches[i].rects@.len() ==> (#[trigger] matches[i].rects@[k]).valid()
                    && matches[i].rects@[k].on_page()) by {
                if i < before.len() {
                    assert(matches[i] == before[i]);
                } else {
                    assert(matches[i] == added[i - before.len()]);
                }
            }
            assert forall|i: int, j: int| 0 <= i <= j < matches.len() implies (
            #[trigger] matches[i]).page <= (#[trigger] matches[j]).page by {
                if j < before.len() {
                    assert(matches[i] == before[i]);
                    assert(matches[j] == before[j]);
                } else {
                    assert(matches[j] == added[j - before.len()]);
                }
            }
        }
        page += 1;
    }
    assert(searched_all(backend, matches@, page_count, query@, answers, cache@, needle));
    matches
}

/// The index of the first match on or behind `start_page`; 0 where all
/// matches lie before it, so that the search wraps to the top.
pub open spec fn first_from(matches: Seq<SearchMatch>, start_page: usize, from: int) -> int
    decreases matches.len() - from,
{
    if from < 0 || from >= matches.len() {
        0
    } else if matches[from].page >= start_page {
        from
    } else {
        first_from(matches, start_page, from + 1)
    }
}

/// The index at which a search begins is one of the matches, where
/// there are any.
pub proof fn lemma_first_from_inside(matches: Seq<SearchMatch>, start_page: usize, from: int)
    requires
        matches.len() > 0,
    ensures
        0 <= first_from(matches, start_page, from) < matches.len(),
    decreases matches.len() - from,
{
    if 0 <= from < matches.len() && matches[from].page < start_page {
        lemma_first_from_inside(matches, start_page, from + 1);
    }
}

/// The index at which a search that starts on `start_page` begins.
pub fn first_match_from(matches: &Vec<SearchMatch>, start_page: usize) -> (r: usize)
    ensures
        r == first_from(matches@, start_page, 0),
        matches.len() > 0 ==> r < matches.len(),
        r == 0 || matches[r as int].page >= start_page,
        forall|i: int| 0 <= i < r ==> (#[trigger] matches[i]).page < start_page,
        r == 0 && matches.len() > 0 && matches[0].page < start_page ==> forall|i: int|
            0 <= i < matches.len() ==> (#[trigger] matches[i]).page < start_page,
{
    let mut i: usize = 0;
    while i < matches.len()
        invariant
            i <= matches.len(),
            first_from(matches@, start_page, 0) == first_from(matches@, start_page, i as int),
            forall|k: int| 0 <= k < i ==> (#[trigger] matches[k]).page < start_page,
        decreases matches.len() - i,
    {
        if matches[i].page >= start_page {
            return i;
        }
        i += 1;
    }
    0
}

/// The index `count` steps from `current` in a list of `total`, going
/// round at the ends. A count that is a multiple of `total` leaves the
/// index as it is.
pub open spec fn stepped(current: int, total: int, count: int, forward: bool) -> int {
    let steps = count % total;
    if steps == 0 {
        current
    } else if forward {
        (current + steps) % total
    } else {
        (current + total - steps) % total
    }
}

/// Stepping from an index of the list leads to an index of the list.
pub proof fn lemma_stepped_inside(current: int, total: int, count: int, forward: bool)
    requires
        0 <= current < total,
        0 <= count,
    ensures
        0 <= stepped(current, total, count, forward) < total,
{
    let steps = count % total;
    assert(0 <= steps < total) by (nonlinear_arith)
        requires
            steps == count % total,
            0 <= count,
            0 < total,
    ;
    assert(0 <= (current + steps) % total < total) by (nonlinear_arith)
        requires
            0 <= current + steps,
            0 < total,
    ;
    assert(0 <= (current + total - steps) % total < total) by (nonlinear_arith)
        requires
            0 <= current + total - steps,
            0 < total,
    ;
}

/// Steps an index through a list that is not empty.
pub fn step_index(current: usize, total: usize, count: usize, direction: SearchDirection) -> (r:
    usize)
    requires
        total > 0,
    ensures
        r == stepped(current as int, total as int, count as int, direction == SearchDirection::Forward),
        current < total ==> r < total,
{
    let steps: usize = count % total;
    if steps == 0 {
        return current;
    }
    let wide_total: u128 = total as u128;
    let target: u128 = match direction {
        SearchDirection::Forward => (current as u128 + steps as u128) % wide_total,
        SearchDirection::Backward => (current as u128 + wide_total - steps as u128) % wide_total,
    };
    target as usize
}

/// The highlights of `page`: the rectangles of the current match in one
/// tier, those of the page's other matches in the other.
pub fn match_highlights(matches: &Vec<SearchMatch>, current_index: Option<usize>, page: usize) -> (r:
    Option<Highlights>)
    ensures
        match r {
            Some(h) => {
                &&& h.current@ == tier(marked(matches@), page, current_index, true, matches.len() as int)
                &&& h.others@ == tier(marked(matches@), page, current_index, false, matches.len() as int)
                &&& h.current@.len() + h.others@.len() > 0
            },
            None => {
                &&& tier(marked(matches@), page, current_index, true, matches.len() as int).len() == 0
                &&& tier(marked(matches@), page, current_index, false, matches.len() as int).len()
                    == 0
            },
        },
{
    let mut current: Vec<NormalizedRect> = Vec::new();
    let mut others: Vec<NormalizedRect> = Vec::new();
    let mut i: usize = 0;
    while i < matches.len()
        invariant
            i <= matches.len(),
            current@ == tier(marked(matches@), page, current_index, true, i as int),
            others@ == tier(marked(matches@), page, current_index, false, i as int),
        decreases matches.len() - i,
    {
        assert(marked(matches@)[i as int] == (matches[i as int].page, matches[i as int].rects@));
        if matches[i].page == page {
            let is_current: bool = match current_index {
                Some(c) => c == i,
                None => false,
            };
            if is_current {
                append_rects(&mut current, &matches[i].rects);
            } else {
                append_rects(&mut others, &matches[i].rects);
            }
        }
        i += 1;
    }
    if current.len() == 0 && others.len() == 0 {
        None
    } else {
        Some(Highlights { current, others })
    }
}

} // verus!
