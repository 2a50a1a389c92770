//! What the engine asks of the program part that reads documents, and
//! the per-document cache of page texts that it fills from it.

use std::collections::HashMap;
use vstd::prelude::*;
use crate::cache::RenderImage;
use crate::geometry::NormalizedRect;
use crate::links::LinkDefinition;
use crate::model::{same_info, DocumentInfo, EngineError, OutlineItem, RenderRequest};
use crate::text::PageText;

verus! {

broadcast use vstd::std_specs::hash::group_hash_axioms;

/// What a backend without a table of contents gives as its outline.
pub open spec fn no_outline(answer: Result<Vec<OutlineItem>, EngineError>) -> bool {
    answer matches Ok(items) && items@.len() == 0
}

/// What a backend that does not offer texts gives as the text of a page.
pub open spec fn no_text(answer: Result<PageText, EngineError>) -> bool {
    answer matches Err(e) && e == EngineError::Unsupported
}

/// What a backend that cannot search gives when it is asked to.
pub open spec fn no_hits(answer: Result<Vec<Vec<NormalizedRect>>, EngineError>) -> bool {
    answer matches Ok(hits) && hits@.len() == 0
}

/// What a backend that does not offer links gives as the links of a page.
pub open spec fn no_links(answer: Result<Vec<LinkDefinition>, EngineError>) -> bool {
    answer matches Ok(links) && links@.len() == 0
}

/// The source of a document's pages. Only `info` and `render_page` must
/// be offered; the other capabilities have fallbacks. A backend may say
/// of itself what its answers can be; the engine is held to those
/// answers. A backend that says nothing can answer anything. For a
/// capability with a fallback, the fallback's answer is one that every
/// backend can give.
pub trait DocumentBackend {
    /// Whether `answer` can be what this backend gives when it is asked
    /// to render as `request` says.
    open spec fn renders(&self, request: RenderRequest, answer: Result<RenderImage, EngineError>) -> bool {
        true
    }

    /// Whether `answer` can be what this backend gives as its table of
    /// contents.
    open spec fn outlines(&self, answer: Result<Vec<OutlineItem>, EngineError>) -> bool {
        true
    }

    /// Whether `answer` can be what this backend gives as the text of
    /// page `page_index`.
    open spec fn reads(&self, page_index: usize, answer: Result<PageText, EngineError>) -> bool {
        true
    }

    /// Whether `answer` can be what this backend gives when it searches
    /// page `page_index` for `query`.
    open spec fn finds(
        &self,
        page_index: usize,
        query: Seq<char>,
        answer: Result<Vec<Vec<NormalizedRect>>, EngineError>,
    ) -> bool {
        true
    }

    /// Whether `answer` can be what this backend gives as the links on
    /// page `page_index`.
    open spec fn links_on(
        &self,
        page_index: usize,
        answer: Result<Vec<LinkDefinition>, EngineError>,
    ) -> bool {
        true
    }

    /// Whether `info` can be what this backend gives as the description
    /// of its document.
    open spec fn describes(&self, info: DocumentInfo) -> bool {
        true
    }

    /// The document that this backend reads.
    fn info(&self) -> (r: &DocumentInfo)
        ensures
            self.describes(*r),
    ;

    /// Renders one page.
    fn render_page(&self, request: RenderRequest) -> (r: Result<RenderImage, EngineError>)
        ensures
            self.renders(request, r),
    ;

    /// The table of contents. A backend that does not offer one has an
    /// empty outline.
    fn outline(&self) -> (r: Result<Vec<OutlineItem>, EngineError>)
        ensures
            self.outlines(r) || no_outline(r),
        default_ensures
            r matches Ok(items) && items@.len() == 0,
    {
        Ok(Vec::new())
    }

    /// The text of one page. A backend that does not offer texts says
    /// that this is not supported.
    fn page_text(&self, page_index: usize) -> (r: Result<PageText, EngineError>)
        ensures
            self.reads(page_index, r) || no_text(r),
        default_ensures
            r matches Err(e) && e == EngineError::Unsupported,
    {
        Err(EngineError::Unsupported)
    }

    /// For each place on the page where `query` occurs, the rectangles
    /// that cover it. A backend that cannot search finds nothing.
    fn search_page(&self, page_index: usize, query: &str) -> (r: Result<
        Vec<Vec<NormalizedRect>>,
        EngineError,
    >)
        ensures
            self.finds(page_index, query@, r) || no_hits(r),
        default_ensures
            r matches Ok(hits) && hits@.len() == 0,
    {
        Ok(Vec::new())
    }

    /// The links on one page. A backend that does not offer links has
    /// none on any page.
    fn page_links(&self, page_index: usize) -> (r: Result<Vec<LinkDefinition>, EngineError>)
        ensures
            self.links_on(page_index, r) || no_links(r),
        default_ensures
            r matches Ok(links) && links@.len() == 0,
    {
        Ok(Vec::new())
    }
}

/// The page texts that were read so far, by page.
pub type TextCache = HashMap<usize, PageText>;

/// Whether `after` holds every text of `before`, unchanged.
pub open spec fn extends(before: Map<usize, PageText>, after: Map<usize, PageText>) -> bool {
    forall|page: usize| #[trigger]
        before.contains_key(page) ==> after.contains_key(page) && after[page] == before[page]
}

/// Whether `info` is a copy of a description that `backend` can give of
/// its document.
pub open spec fn described_by<B: DocumentBackend>(backend: &B, info: DocumentInfo) -> bool {
    exists|described: DocumentInfo| backend.describes(described) && #[trigger] same_info(info, described)
}

/// Whether `outline` is what is taken as the outline of the document of
/// `backend`: one that the backend can give, or an empty one where it
/// has none or fails to give it.
pub open spec fn outlined_by<B: DocumentBackend>(backend: &B, outline: Vec<OutlineItem>) -> bool {
    outline@.len() > 0 ==> backend.outlines(Ok::<Vec<OutlineItem>, EngineError>(outline))
}

/// Whether `info` and `outline` are what `backend` gives of its
/// document.
pub open spec fn taken_from<B: DocumentBackend>(
    backend: &B,
    info: DocumentInfo,
    outline: Vec<OutlineItem>,
) -> bool {
    described_by(backend, info) && outlined_by(backend, outline)
}

/// A copy of the description that `backend` gives of its document.
pub fn description<B: DocumentBackend>(backend: &B) -> (r: DocumentInfo)
    ensures
        described_by(backend, r),
{
    let described = backend.info();
    let info = described.clone();
    assert(same_info(info, *described));
    info
}

/// The outline that `backend` gives of its document. A backend that
/// fails to give one counts as one without.
pub fn outline_of<B: DocumentBackend>(backend: &B) -> (r: Vec<OutlineItem>)
    ensures
        outlined_by(backend, r),
{
    match backend.outline() {
        Ok(outline) => outline,
        Err(_) => Vec::new(),
    }
}

/// Whether every text that `after` holds and `before` does not is one
/// that `backend` can give for its page.
pub open spec fn read_from<B: DocumentBackend>(
    backend: &B,
    before: Map<usize, PageText>,
    after: Map<usize, PageText>,
) -> bool {
    forall|page: usize|
        #![trigger after.contains_key(page)]
        after.contains_key(page) && !before.contains_key(page) ==> backend.reads(
            page,
            Ok::<PageText, EngineError>(after[page]),
        )
}

/// Makes sure that the text of `page_index` is in `cache`, asking the
/// backend where it is not. A page at or beyond `page_count` is out of
/// range whatever the cache holds; a text that is cached is never asked
/// for again. A text that enters the cache is the backend's answer for
/// that page, and a failure is the backend's own.
pub fn ensure_page_text<B: DocumentBackend>(
    page_index: usize,
    page_count: usize,
    backend: &B,
    cache: &mut TextCache,
) -> (r: Result<(), EngineError>)
    ensures
        extends(old(cache)@, final(cache)@),
        read_from(backend, old(cache)@, final(cache)@),
        page_index >= page_count ==> r == Err::<(), EngineError>(
            EngineError::OutOfRange { page: page_index },
        ),
        page_index < page_count && old(cache)@.contains_key(page_index) ==> r is Ok,
        match r {
            Ok(_) => {
                &&& page_index < page_count
                &&& final(cache)@.contains_key(page_index)
                &&& final(cache)@.dom() == old(cache)@.dom().insert(page_index)
                &&& !old(cache)@.contains_key(page_index) ==> backend.reads(
                    page_index,
                    Ok::<PageText, EngineError>(final(cache)@[page_index]),
                )
            },
            Err(e) => {
                &&& final(cache)@ == old(cache)@
                &&& page_index >= page_count ==> e == (EngineError::OutOfRange { page: page_index })
                &&& page_index < page_count ==> !old(cache)@.contains_key(page_index) && (
                backend.reads(page_index, Err::<PageText, EngineError>(e)) || e
                    == EngineError::Unsupported)
            },
        },
{
    if page_index >= page_count {
        return Err(EngineError::OutOfRange { page: page_index });
    }
    if cache.contains_key(&page_index) {
        assert(cache@.dom() =~= old(cache)@.dom().insert(page_index));
        return Ok(());
    }
    match backend.page_text(page_index) {
        Ok(text) => {
            cache.insert(page_index, text);
            assert(cache@.dom() =~= old(cache)@.dom().insert(page_index));
            Ok(())
        },
        Err(e) => Err(e),
    }
}

/// The cached text of a page.
pub fn cached_text(cache: &TextCache, page_index: usize) -> (r: &PageText)
    requires
        cache@.contains_key(page_index),
    ensures
        *r == cache@[page_index],
        r.well_formed(),
{
    let text = cache.get(&page_index).unwrap();
    text.note_well_formed();
    text
}

} // verus!
