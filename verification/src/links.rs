//! Links: what a backend reports, and the list a reader steps through.

use vstd::prelude::*;
use crate::backend::{no_links, DocumentBackend};
use crate::model::EngineError;
use crate::geometry::{append_rects, clamp_and_filter, tier, usable_rects, Highlights, Marked, NormalizedRect};

verus! {

/// What following a link does.
#[derive(Debug)]
pub enum LinkAction {
    GoTo { page: usize },
    Uri { uri: String },
    Unsupported,
}

impl Clone for LinkAction {
    fn clone(&self) -> (r: Self)
        ensures
            r == *self,
    {
        match self {
            LinkAction::GoTo { page } => LinkAction::GoTo { page: *page },
            LinkAction::Uri { uri } => LinkAction::Uri { uri: uri.clone() },
            LinkAction::Unsupported => LinkAction::Unsupported,
        }
    }
}

/// A link as a backend reports it.
#[derive(Debug, Clone)]
pub struct LinkDefinition {
    pub rects: Vec<NormalizedRect>,
    pub action: LinkAction,
}

/// How many links there are and which one is current.
#[derive(Debug, Clone)]
pub struct LinkSummary {
    pub total: usize,
    pub current_index: Option<usize>,
}

/// A target outside the document.
#[derive(Debug, Clone)]
pub enum ExternalLink {
    Url(String),
    File(String),
}

/// What came of following the current link.
#[derive(Debug, Clone)]
pub enum LinkFollowResult {
    Navigated { page_changed: bool },
    External { target: ExternalLink },
    Unsupported,
    NoActiveLink,
}

/// A link that can be stepped to: its page, its rectangles on the page
/// and what following it does.
#[derive(Debug)]
pub struct LinkEntry {
    pub page: usize,
    pub rects: Vec<NormalizedRect>,
    pub action: LinkAction,
}

/// The links of a document and the one the reader is on.
#[derive(Debug)]
pub struct LinkState {
    pub links: Vec<LinkEntry>,
    pub current_index: Option<usize>,
}

/// A link as a triple of plain values.
pub type LinkView = (usize, Seq<NormalizedRect>, LinkAction);

/// The pages, rectangles and actions of `links`.
pub open spec fn link_views(links: Seq<LinkEntry>) -> Seq<LinkView> {
    links.map_values(|e: LinkEntry| (e.page, e.rects@, e.action))
}

/// The pages and rectangles of `links`.
pub open spec fn marked_links(links: Seq<LinkEntry>) -> Seq<Marked> {
    links.map_values(|e: LinkEntry| (e.page, e.rects@))
}

/// The links of `page` among its definitions: each with the rectangles
/// that survive clamping, and none that keeps no rectangle.
pub open spec fn usable_links(page: usize, definitions: Seq<LinkDefinition>) -> Seq<LinkView> {
    definitions.map_values(|d: LinkDefinition| (page, usable_rects(d.rects@), d.action)).filter(
        |v: LinkView| v.1.len() > 0,
    )
}

/// The links that can be stepped to among the definitions of one page.
pub fn entries_from_definitions(page: usize, definitions: &Vec<LinkDefinition>) -> (r: Vec<
    LinkEntry,
>)
    ensures
        link_views(r@) == usable_links(page, definitions@),
        forall|i: int| 0 <= i < r.len() ==> (#[trigger] r[i]).page == page && r[i].rects@.len() > 0,
        forall|i: int, k: int|
            0 <= i < r.len() && 0 <= k < r[i].rects@.len() ==> (#[trigger] r[i].rects@[k]).valid()
                && r[i].rects@[k].on_page(),
{
    let mut out: Vec<LinkEntry> = Vec::new();
    let ghost all = definitions@.map_values(
        |d: LinkDefinition| (page, usable_rects(d.rects@), d.action),
    );
    let ghost keep = |v: LinkView| v.1.len() > 0;
    let mut i: usize = 0;
    proof {
        assert(all.take(0) =~= Seq::<LinkView>::empty());
        assert(link_views(out@) =~= Seq::<LinkView>::empty());
    }
    while i < definitions.len()
        invariant
            i <= definitions.len(),
            all == definitions@.map_values(
                |d: LinkDefinition| (page, usable_rects(d.rects@), d.action),
            ),
            keep == (|v: LinkView| v.1.len() > 0),
            link_views(out@) == all.take(i as int).filter(keep),
            forall|j: int|
                0 <= j < out.len() ==> (#[trigger] out[j]).page == page && out[j].rects@.len() > 0,
            forall|j: int, k: int|
                0 <= j < out.len() && 0 <= k < out[j].rects@.len() ==> (
                #[trigger] out[j].rects@[k]).valid() && out[j].rects@[k].on_page(),
        decreases definitions.len() - i,
    {
        let rects = clamp_and_filter(&definitions[i].rects);
        proof {
            assert(all.take(i + 1) =~= all.take(i as int).push(all[i as int]));
            crate::geometry::lemma_filter_push(all.take(i as int), all[i as int], keep);
        }
        if rects.len() > 0 {
            let action = definitions[i].action.clone();
            let ghost before = link_views(out@);
            out.push(LinkEntry { page, rects, action });
            assert(link_views(out@) =~= before.push(all[i as int]));
        }
        i += 1;
    }
    proof {
        assert(all.take(definitions.len() as int) =~= all);
    }
    out
}

/// Whether the links stand in page order, each on a page of the document
/// and with at least one rectangle, all with an area and on the page.
pub open spec fn links_in_order(links: Seq<LinkEntry>, page_count: usize) -> bool {
    &&& forall|i: int, j: int|
        0 <= i <= j < links.len() ==> (#[trigger] links[i]).page <= (#[trigger] links[j]).page
    &&& forall|i: int|
        0 <= i < links.len() ==> (#[trigger] links[i]).page < page_count && links[i].rects@.len() > 0
    &&& forall|i: int, k: int|
        0 <= i < links.len() && 0 <= k < links[i].rects@.len() ==> (
        #[trigger] links[i].rects@[k]).valid() && links[i].rects@[k].on_page()
}

/// What a backend gives as the links of a page.
pub type LinkAnswer = Result<Vec<LinkDefinition>, EngineError>;

/// The definitions that an answer holds: none where the backend failed.
pub open spec fn definitions_of(answer: LinkAnswer) -> Seq<LinkDefinition> {
    match answer {
        Ok(definitions) => definitions@,
        Err(_) => Seq::empty(),
    }
}

/// Whether `answer` can be what `backend` gives when it is asked for
/// the links of page `page`.
pub open spec fn link_answer<B: DocumentBackend>(backend: &B, page: usize, answer: LinkAnswer) -> bool {
    backend.links_on(page, answer) || no_links(answer)
}

/// The links that the answers of a backend for the first `n` pages
/// give: page by page the links of the page among its definitions.
pub open spec fn collected_links(answers: Seq<LinkAnswer>, n: int) -> Seq<LinkView>
    decreases n,
{
    if n <= 0 {
        Seq::empty()
    } else {
        collected_links(answers, n - 1) + usable_links(
            (n - 1) as usize,
            definitions_of(answers[n - 1]),
        )
    }
}

/// The links of the first `n` pages depend on the answers for those
/// pages alone.
pub proof fn lemma_collected_links_agree(a: Seq<LinkAnswer>, b: Seq<LinkAnswer>, n: int)
    requires
        forall|i: int| 0 <= i < n ==> a[i] == b[i],
    ensures
        collected_links(a, n) == collected_links(b, n),
    decreases n,
{
    if n > 0 {
        lemma_collected_links_agree(a, b, n - 1);
    }
}

/// Whether `links` are what collecting the links of `page_count` pages
/// gives, where `answers` holds what the backend gave page by page: each
/// is an answer that the backend can give for its page, and the links
/// are the usable ones among the definitions, in page order.
pub open spec fn links_gathered<B: DocumentBackend>(
    backend: &B,
    links: Seq<LinkEntry>,
    page_count: usize,
    answers: Seq<LinkAnswer>,
) -> bool {
    &&& answers.len() == page_count
    &&& forall|p: int| 0 <= p < page_count ==> link_answer(backend, p as usize, #[trigger] answers[p])
    &&& link_views(links) == collected_links(answers, page_count as int)
}

/// Collects the links of every page, in page order: the backend is
/// asked for the definitions of each page once, and the links are those
/// that its answers give. A page whose links the backend fails to give
/// counts as a page without definitions, so that one bad page does not
/// hide the links of the others.
pub fn build_link_entries<B: DocumentBackend>(page_count: usize, backend: &B) -> (r: Vec<LinkEntry>)
    ensures
        links_in_order(r@, page_count),
        page_count == 0 ==> r@.len() == 0,
        exists|answers: Seq<LinkAnswer>| #[trigger] links_gathered(backend, r@, page_count, answers),
{
    let mut entries: Vec<LinkEntry> = Vec::new();
    let mut page: usize = 0;
    let ghost mut answers: Seq<LinkAnswer> = Seq::empty();
    assert(link_views(entries@) =~= Seq::<LinkView>::empty());
    while page < page_count
        invariant
            page <= page_count,
            links_in_order(entries@, page_count),
            page == 0 ==> entries@.len() == 0,
            forall|i: int| 0 <= i < entries.len() ==> (#[trigger] entries[i]).page < page,
            answers.len() == page,
            forall|p: int| 0 <= p < page ==> link_answer(backend, p as usize, #[trigger] answers[p]),
            link_views(entries@) == collected_links(answers, page as int),
        decreases page_count - page,
    {
        let answer = backend.page_links(page);
        let ghost given = answer;
        let definitions: Vec<LinkDefinition> = match answer {
            Ok(definitions) => definitions,
            Err(_) => Vec::new(),
        };
        assert(definitions@ == definitions_of(given));
        let mut found = entries_from_definitions(page, &definitions);
        let ghost before = entries@;
        let ghost added = found@;
        entries.append(&mut found);
        proof {
            let longer = answers.push(given);
            lemma_collected_links_agree(answers, longer, page as int);
            assert(longer[page as int] == given);
            assert(link_views(entries@) =~= link_views(before) + link_views(added));
            assert forall|p: int| 0 <= p < page + 1 implies link_answer(
                backend,
                p as usize,
                #[trigger] longer[p],
            ) by {
                if p < page {
                    assert(longer[p] == answers[p]);
                }
            }
            answers = longer;
        }
        proof {
            assert forall|i: int| 0 <= i < entries.len() implies (#[trigger] entries[i]).page <= page
                && (i < before.len() ==> entries[i].page < page) && entries[i].rects@.len() > 0 && (
            forall|k: int|
                0 <= k < entries[i].rects@.len() ==> (#[trigger] entries[i].rects@[k]).valid()
                    && entries[i].rects@[k].on_page()) by {
                if i < before.len() {
                    assert(entries[i] == before[i]);
                } else {
                    assert(entries[i] == added[i - before.len()]);
                }
            }
            assert forall|i: int, j: int| 0 <= i <= j < entries.len() implies (
            #[trigger] entries[i]).page <= (#[trigger] entries[j]).page by {
                if j < before.len() {
                    assert(entries[i] == before[i]);
                    assert(entries[j] == before[j]);
                } else {
                    assert(entries[j] == added[j - before.len()]);
                }
            }
        }
        page += 1;
    }
    assert(links_gathered(backend, entries@, page_count, answers));
    entries
}

/// Whether link `i` lies on `page`, or behind it where `behind` is set.
pub open spec fn link_suits(links: Seq<LinkEntry>, page: usize, behind: bool, i: int) -> bool {
    0 <= i < links.len() && if behind {
        links[i].page > page
    } else {
        links[i].page == page
    }
}

/// Whether `found` is the first link on `page`, or the first behind it
/// where `behind` is set; `None` where there is no such link.
pub open spec fn is_first_link(
    links: Seq<LinkEntry>,
    page: usize,
    behind: bool,
    found: Option<usize>,
) -> bool {
    match found {
        Some(at) => link_suits(links, page, behind, at as int) && forall|i: int|
            0 <= i < at ==> !link_suits(links, page, behind, i),
        None => forall|i: int| 0 <= i < links.len() ==> !link_suits(links, page, behind, i),
    }
}

/// The first link on `page`, or the first behind it where `behind` is set.
pub fn first_link(links: &Vec<LinkEntry>, page: usize, behind: bool) -> (r: Option<usize>)
    ensures
        is_first_link(links@, page, behind, r),
{
    let mut i: usize = 0;
    while i < links.len()
        invariant
            i <= links.len(),
            forall|k: int| 0 <= k < i ==> !link_suits(links@, page, behind, k),
        decreases links.len() - i,
    {
        let suits: bool = if behind {
            links[i].page > page
        } else {
            links[i].page == page
        };
        if suits {
            return Some(i);
        }
        i += 1;
    }
    None
}

/// Whether `seed` is the link to start from on `page`: the first link
/// on the page; where there is none, the first behind it; and link 0
/// where there is none either.
pub open spec fn is_seed(links: Seq<LinkEntry>, page: usize, seed: usize) -> bool {
    if exists|i: int| link_suits(links, page, false, i) {
        is_first_link(links, page, false, Some(seed))
    } else if exists|i: int| link_suits(links, page, true, i) {
        is_first_link(links, page, true, Some(seed))
    } else {
        seed == 0
    }
}

/// The link to start from when the reader is on `page`.
pub fn seed_index(links: &Vec<LinkEntry>, page: usize) -> (r: usize)
    ensures
        is_seed(links@, page, r),
        links.len() > 0 ==> r < links.len(),
{
    match first_link(links, page, false) {
        Some(at) => {
            assert(link_suits(links@, page, false, at as int));
            at
        },
        None => match first_link(links, page, true) {
            Some(at) => {
                assert(link_suits(links@, page, true, at as int));
                at
            },
            None => 0,
        },
    }
}

/// The highlights of `page`: the rectangles of the current link in one
/// tier, those of the page's other links in the other.
pub fn link_highlights(links: &Vec<LinkEntry>, current_index: Option<usize>, page: usize) -> (r:
    Option<Highlights>)
    ensures
        match r {
            Some(h) => {
                &&& h.current@ == tier(marked_links(links@), page, current_index, true, links.len() as int)
                &&& h.others@ == tier(
                    marked_links(links@),
                    page,
                    current_index,
                    false,
                    links.len() as int,
                )
                &&& h.current@.len() + h.others@.len() > 0
            },
            None => {
                &&& tier(marked_links(links@), page, current_index, true, links.len() as int).len()
                    == 0
                &&& tier(marked_links(links@), page, current_index, false, links.len() as int).len()
                    == 0
            },
        },
{
    let mut current: Vec<NormalizedRect> = Vec::new();
    let mut others: Vec<NormalizedRect> = Vec::new();
    let mut i: usize = 0;
    while i < links.len()
        invariant
            i <= links.len(),
            current@ == tier(marked_links(links@), page, current_index, true, i as int),
            others@ == tier(marked_links(links@), page, current_index, false, i as int),
        decreases links.len() - i,
    {
        assert(marked_links(links@)[i as int] == (links[i as int].page, links[i as int].rects@));
        if links[i].page == page {
            let is_current: bool = match current_index {
                Some(c) => c == i,
                None => false,
            };
            if is_current {
                append_rects(&mut current, &links[i].rects);
            } else {
                append_rects(&mut others, &links[i].rects);
            }
        }
        i += 1;
    }
    if current.len() == 0 && others.len() == 0 {
        None
    } else {
        Some(Highlights { current, others })
    }
}

} // verus!
