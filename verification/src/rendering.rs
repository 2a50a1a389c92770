//! Rendering pages of a document through its cache, and its bookmarks.

use vstd::prelude::*;
use crate::backend::DocumentBackend;
use crate::cache::{
    distinct_keys, evicted, lookup, quantized, stored, CacheEntries, CacheKey, RenderImage,
    CACHE_CAPACITY,
};
use crate::document::{page_within, DocumentInstance};
use crate::marks::NamedMarks;
use crate::model::{EngineError, PersistedDocumentState, RenderRequest};

verus! {

/// What a backend gives when it is asked to render a page: the image, or
/// why there is none.
pub type Rendered = Result<RenderImage, EngineError>;

/// What holds of the page in view while its neighbours are rendered
/// ahead: the page, the number of pages, the zoom factor and the colours.
pub struct Surroundings {
    pub current_page: usize,
    pub page_count: usize,
    pub scale: u32,
    pub dark_mode: bool,
}

/// The key under which page `page` is cached when it is rendered ahead.
pub open spec fn neighbour_key(around: Surroundings, page: int) -> CacheKey {
    CacheKey {
        page_index: page as usize,
        scale_milli: quantized(around.scale),
        dark_mode: around.dark_mode,
    }
}

/// Whether every page of the document that lies up to `n` pages before
/// or behind the page in view is cached.
pub open spec fn neighbours_cached(cache: CacheEntries, around: Surroundings, n: int) -> bool {
    forall|page: int|
        around.current_page - n <= page <= around.current_page + n && page != around.current_page
            && 0 <= page < around.page_count ==> lookup(
            cache,
            #[trigger] neighbour_key(around, page),
        ) is Some
}

/// What is asked of the backend where page `page` is rendered ahead.
pub open spec fn neighbour_request(around: Surroundings, page: int) -> RenderRequest {
    RenderRequest { page_index: page as usize, scale: around.scale, dark_mode: around.dark_mode }
}

/// Whether `answer` can stand for what `backend` gives where page `page`
/// is rendered ahead with `cache` as the cache: for a page of the
/// document that is not cached the backend is asked, and the answer is
/// one that it can give; for any other page nothing is asked.
pub open spec fn given<B: DocumentBackend>(
    backend: &B,
    cache: CacheEntries,
    around: Surroundings,
    page: int,
    answer: Rendered,
) -> bool {
    0 <= page < around.page_count && lookup(cache, neighbour_key(around, page)) is None
        ==> backend.renders(neighbour_request(around, page), answer)
}

/// The cache, and the last failure so far, after page `page` is rendered
/// ahead with `answer` standing for what the backend gives. A page
/// outside the document is passed over, and so is one that is cached:
/// the backend's answer counts only for a page that is not. An image is
/// cached, with the page in view deciding what is evicted; a failure
/// leaves the cache alone and is remembered.
pub open spec fn fetched(
    state: (CacheEntries, Option<EngineError>),
    around: Surroundings,
    page: int,
    answer: Rendered,
) -> (CacheEntries, Option<EngineError>) {
    let key = neighbour_key(around, page);
    if 0 <= page < around.page_count && lookup(state.0, key) is None {
        match answer {
            Ok(image) => (
                evicted(stored(state.0, key, image@), around.current_page, CACHE_CAPACITY as nat),
                state.1,
            ),
            Err(e) => (state.0, Some(e)),
        }
    } else {
        state
    }
}

/// The cache, and the last failure, after the neighbours up to `n` pages
/// away are rendered ahead, nearest first and at each distance the page
/// before ahead of the page behind; `answers` holds what the backend
/// gives for the two pages at each distance.
pub open spec fn prefetched(
    cache: CacheEntries,
    around: Surroundings,
    answers: Seq<(Rendered, Rendered)>,
    n: int,
) -> (CacheEntries, Option<EngineError>)
    decreases n,
{
    if n <= 0 {
        (cache, None)
    } else {
        let nearer = prefetched(cache, around, answers, n - 1);
        let before = fetched(nearer, around, around.current_page - n, answers[n - 1].0);
        fetched(before, around, around.current_page + n, answers[n - 1].1)
    }
}

/// Whether `answers` can stand for what `backend` gives where the
/// neighbours up to `n` pages away are rendered ahead: each answer is one
/// that the backend can give for its page, asked with the cache as it
/// is by then.
pub open spec fn all_given<B: DocumentBackend>(
    backend: &B,
    cache: CacheEntries,
    around: Surroundings,
    answers: Seq<(Rendered, Rendered)>,
    n: int,
) -> bool
    decreases n,
{
    n <= 0 || {
        let nearer = prefetched(cache, around, answers, n - 1);
        let before = fetched(nearer, around, around.current_page - n, answers[n - 1].0);
        &&& all_given(backend, cache, around, answers, n - 1)
        &&& given(backend, nearer.0, around, around.current_page - n, answers[n - 1].0)
        &&& given(backend, before.0, around, around.current_page + n, answers[n - 1].1)
    }
}

/// What is rendered ahead up to `n` pages away depends on the backend's
/// answers for those pages alone.
pub proof fn lemma_prefetched_agree(
    cache: CacheEntries,
    around: Surroundings,
    answers: Seq<(Rendered, Rendered)>,
    others: Seq<(Rendered, Rendered)>,
    n: int,
)
    requires
        forall|i: int| 0 <= i < n ==> answers[i] == others[i],
    ensures
        prefetched(cache, around, answers, n) == prefetched(cache, around, others, n),
    decreases n,
{
    if n > 0 {
        lemma_prefetched_agree(cache, around, answers, others, n - 1);
    }
}

/// Whether the answers up to `n` pages away are ones that the backend
/// can give depends on those answers alone.
pub proof fn lemma_all_given_agree<B: DocumentBackend>(
    backend: &B,
    cache: CacheEntries,
    around: Surroundings,
    answers: Seq<(Rendered, Rendered)>,
    others: Seq<(Rendered, Rendered)>,
    n: int,
)
    requires
        forall|i: int| 0 <= i < n ==> answers[i] == others[i],
    ensures
        all_given(backend, cache, around, answers, n) == all_given(backend, cache, around, others, n),
    decreases n,
{
    if n > 0 {
        lemma_all_given_agree(backend, cache, around, answers, others, n - 1);
        lemma_prefetched_agree(cache, around, answers, others, n - 1);
    }
}

/// Where every neighbour is cached, rendering them ahead changes nothing
/// and cannot fail, whatever the backend would give.
pub proof fn lemma_prefetched_cached(
    cache: CacheEntries,
    around: Surroundings,
    answers: Seq<(Rendered, Rendered)>,
    n: int,
)
    requires
        neighbours_cached(cache, around, n),
    ensures
        prefetched(cache, around, answers, n) == (cache, None::<EngineError>),
    decreases n,
{
    if n > 0 {
        assert(neighbours_cached(cache, around, n - 1));
        lemma_prefetched_cached(cache, around, answers, n - 1);
    }
}

impl<B: DocumentBackend> DocumentInstance<B> {
    /// Whether `post` differs from `pre` in the cache of rendered pages
    /// at most.
    pub open spec fn rendered_more(pre: &Self, post: &Self) -> bool {
        *post == (DocumentInstance { render_cache: post.render_cache, ..*pre })
    }

    /// A copy of the page cached under `key`.
    pub fn try_get_cached(&self, key: &CacheKey) -> (r: Option<RenderImage>)
        ensures
            distinct_keys(self.render_cache@),
            match r {
                Some(image) => lookup(self.render_cache@, *key) == Some(image@),
                None => lookup(self.render_cache@, *key) is None,
            },
    {
        self.render_cache.get(key)
    }

    /// Caches a copy of `image` under `key` and evicts the pages
    /// farthest from `reference_page` beyond the cache's capacity.
    pub fn store_cached_render(&mut self, key: CacheKey, image: &RenderImage, reference_page: usize)
        ensures
            Self::rendered_more(old(self), final(self)),
            final(self).render_cache@ == evicted(
                stored(old(self).render_cache@, key, image@),
                reference_page,
                CACHE_CAPACITY as nat,
            ),
            distinct_keys(old(self).render_cache@),
            distinct_keys(final(self).render_cache@),
    {
        self.render_cache.put(key, image.clone(), reference_page);
    }

    /// Renders a page, from the cache where it is there. A page beyond
    /// the document is out of range; a cached page is never rendered
    /// again; for any other page the backend is asked for that page at
    /// `scale` in the colours wanted, and its answer is the result. A
    /// page that the backend renders is cached, with `reference_page`
    /// deciding what is evicted.
    pub fn render_page_internal(
        &mut self,
        page_index: usize,
        scale: u32,
        dark_mode: bool,
        reference_page: usize,
    ) -> (r: Result<RenderImage, EngineError>)
        ensures
            Self::rendered_more(old(self), final(self)),
            ({
                let key = CacheKey { page_index, scale_milli: crate::cache::quantized(scale), dark_mode };
                let before = old(self).render_cache@;
                &&& page_index < old(self).info.page_count && lookup(before, key) is None
                    ==> old(self).backend.renders(RenderRequest { page_index, scale, dark_mode }, r)
                &&& match r {
                    Ok(image) => {
                        &&& page_index < old(self).info.page_count
                        &&& final(self).render_cache@ == match lookup(before, key) {
                            Some(cached) => before,
                            None => evicted(
                                stored(before, key, image@),
                                reference_page,
                                CACHE_CAPACITY as nat,
                            ),
                        }
                        &&& lookup(before, key) matches Some(cached) ==> image@ == cached
                    },
                    Err(e) => {
                        &&& final(self).render_cache@ == before
                        &&& page_index >= old(self).info.page_count ==> e == (EngineError::OutOfRange {
                            page: page_index,
                        })
                        &&& page_index < old(self).info.page_count ==> lookup(before, key) is None
                    },
                }
            }),
    {
        if page_index >= self.info.page_count {
            return Err(EngineError::OutOfRange { page: page_index });
        }
        let key = CacheKey::new(page_index, scale, dark_mode);
        match self.try_get_cached(&key) {
            Some(image) => {
                return Ok(image);
            },
            None => {},
        }
        let request = RenderRequest { page_index, scale, dark_mode };
        match self.backend.render_page(request) {
            Ok(image) => {
                self.store_cached_render(key, &image, reference_page);
                Ok(image)
            },
            Err(e) => Err(e),
        }
    }

    /// What is asked of the backend where the page in view is rendered
    /// at the zoom factor `scale`.
    pub open spec fn view_request(&self, scale: u32) -> RenderRequest {
        RenderRequest {
            page_index: self.state.current_page,
            scale,
            dark_mode: self.state.dark_mode,
        }
    }

    /// Renders the page in view at the zoom factor `scale`. A page in
    /// view beyond the document is out of range, and the cache stays as
    /// it is. A cached page is the result. For any other page the
    /// backend is asked, and its answer is the result; an image is
    /// cached.
    pub fn render_with_scale(&mut self, scale: u32) -> (r: Result<RenderImage, EngineError>)
        ensures
            Self::rendered_more(old(self), final(self)),
            old(self).state.current_page >= old(self).info.page_count ==> r == Err::<
                RenderImage,
                EngineError,
            >(EngineError::OutOfRange { page: old(self).state.current_page })
                && final(self).render_cache@ == old(self).render_cache@,
            old(self).state.current_page < old(self).info.page_count ==> ({
                let key = CacheKey {
                    page_index: old(self).state.current_page,
                    scale_milli: crate::cache::quantized(scale),
                    dark_mode: old(self).state.dark_mode,
                };
                match lookup(old(self).render_cache@, key) {
                    Some(cached) => r matches Ok(image) && image@ == cached
                        && final(self).render_cache@ == old(self).render_cache@,
                    None => old(self).backend.renders(old(self).view_request(scale), r) && match r {
                        Ok(image) => final(self).render_cache@ == evicted(
                            stored(old(self).render_cache@, key, image@),
                            old(self).state.current_page,
                            CACHE_CAPACITY as nat,
                        ),
                        Err(_) => final(self).render_cache@ == old(self).render_cache@,
                    },
                }
            }),
    {
        let page: usize = self.state.current_page;
        let dark_mode: bool = self.state.dark_mode;
        self.render_page_internal(page, scale, dark_mode, page)
    }

    /// Renders the page in view at the zoom factor in use. A page in
    /// view beyond the document is out of range, and the cache stays as
    /// it is. A cached page is the result. For any other page the
    /// backend is asked, and its answer is the result; an image is
    /// cached.
    pub fn render(&mut self) -> (r: Result<RenderImage, EngineError>)
        ensures
            Self::rendered_more(old(self), final(self)),
            old(self).state.current_page >= old(self).info.page_count ==> r == Err::<
                RenderImage,
                EngineError,
            >(EngineError::OutOfRange { page: old(self).state.current_page })
                && final(self).render_cache@ == old(self).render_cache@,
            old(self).state.current_page < old(self).info.page_count ==> ({
                let key = CacheKey {
                    page_index: old(self).state.current_page,
                    scale_milli: crate::cache::quantized(old(self).state.scale),
                    dark_mode: old(self).state.dark_mode,
                };
                match lookup(old(self).render_cache@, key) {
                    Some(cached) => r matches Ok(image) && image@ == cached
                        && final(self).render_cache@ == old(self).render_cache@,
                    None => old(self).backend.renders(
                        old(self).view_request(old(self).state.scale),
                        r,
                    ) && match r {
                        Ok(image) => final(self).render_cache@ == evicted(
                            stored(old(self).render_cache@, key, image@),
                            old(self).state.current_page,
                            CACHE_CAPACITY as nat,
                        ),
                        Err(_) => final(self).render_cache@ == old(self).render_cache@,
                    },
                }
            }),
    {
        let scale: u32 = self.state.scale;
        self.render_with_scale(scale)
    }

    /// What surrounds the page in view when its neighbours are rendered
    /// ahead at the zoom factor `scale`.
    pub open spec fn surroundings(&self, scale: u32) -> Surroundings {
        Surroundings {
            current_page: self.state.current_page,
            page_count: self.info.page_count,
            scale,
            dark_mode: self.state.dark_mode,
        }
    }

    /// Whether `post` and `result` are what rendering the neighbours of
    /// the page in view ahead gives, up to `range` pages away, where
    /// `answers` holds what the backend gives for them: each is an
    /// answer that the backend can give for its page at `scale` in the
    /// colours in use, nothing but the cache changes, and the last
    /// failure is the result.
    pub open spec fn prefetch_done(
        pre: &Self,
        range: usize,
        scale: u32,
        answers: Seq<(Rendered, Rendered)>,
        post: &Self,
        result: Result<(), EngineError>,
    ) -> bool {
        let (cache, failure) = prefetched(
            pre.render_cache@,
            pre.surroundings(scale),
            answers,
            range as int,
        );
        &&& answers.len() == range
        &&& all_given(&pre.backend, pre.render_cache@, pre.surroundings(scale), answers, range as int)
        &&& Self::rendered_more(pre, post)
        &&& post.render_cache@ == cache
        &&& result == match failure {
            Some(e) => Err::<(), EngineError>(e),
            None => Ok(()),
        }
    }

    /// Renders one neighbour of the page in view ahead. `last_error`
    /// takes up the failure, where there is one.
    fn prefetch_page(&mut self, page: usize, scale: u32, last_error: &mut Option<EngineError>) -> (answer:
        Ghost<Rendered>)
        requires
            page < old(self).info.page_count,
        ensures
            Self::rendered_more(old(self), final(self)),
            given(
                &old(self).backend,
                old(self).render_cache@,
                old(self).surroundings(scale),
                page as int,
                answer@,
            ),
            (final(self).render_cache@, *final(last_error)) == fetched(
                (old(self).render_cache@, *old(last_error)),
                old(self).surroundings(scale),
                page as int,
                answer@,
            ),
    {
        let current_page: usize = self.state.current_page;
        let dark_mode: bool = self.state.dark_mode;
        match self.render_page_internal(page, scale, dark_mode, current_page) {
            Ok(image) => Ghost(Ok(image)),
            Err(e) => {
                *last_error = Some(e);
                Ghost(Err(e))
            },
        }
    }

    /// Renders the pages up to `range` pages before and behind the page
    /// in view, nearest first, so that they are cached. Every page is
    /// tried; the last failure is returned. A page that is cached
    /// already is not rendered again, and one outside the document is
    /// passed over: where every neighbour is cached, nothing changes and
    /// nothing fails.
    pub fn prefetch_neighbors(&mut self, range: usize, scale: u32) -> (r: Result<(), EngineError>)
        ensures
            Self::rendered_more(old(self), final(self)),
            range == 0 ==> r is Ok && final(self).render_cache@ == old(self).render_cache@,
            neighbours_cached(old(self).render_cache@, old(self).surroundings(scale), range as int)
                ==> r is Ok && final(self).render_cache@ == old(self).render_cache@,
            exists|answers: Seq<(Rendered, Rendered)>| #[trigger]
                Self::prefetch_done(old(self), range, scale, answers, final(self), r),
    {
        let current_page: usize = self.state.current_page;
        let mut last_error: Option<EngineError> = None;
        let ghost around = self.surroundings(scale);
        let ghost missing: Rendered = Err(EngineError::Unsupported);
        let ghost mut answers: Seq<(Rendered, Rendered)> = Seq::empty();
        let mut done: usize = 0;
        while done < range
            invariant
                done <= range,
                Self::rendered_more(old(self), self),
                around == old(self).surroundings(scale),
                current_page == around.current_page,
                missing == Err::<RenderImage, EngineError>(EngineError::Unsupported),
                answers.len() == done,
                (self.render_cache@, last_error) == prefetched(
                    old(self).render_cache@,
                    around,
                    answers,
                    done as int,
                ),
                all_given(&old(self).backend, old(self).render_cache@, around, answers, done as int),
            decreases range - done,
        {
            let offset: usize = done + 1;
            let ghost nearer = (self.render_cache@, last_error);
            let ghost mut first = missing;
            let ghost mut second = missing;
            if offset <= current_page {
                let prev: usize = current_page - offset;
                if prev < self.info.page_count {
                    let answer = self.prefetch_page(prev, scale, &mut last_error);
                    proof {
                        first = answer@;
                    }
                }
            }
            assert((self.render_cache@, last_error) == fetched(
                nearer,
                around,
                current_page - offset,
                first,
            ));
            assert(given(&old(self).backend, nearer.0, around, current_page - offset, first));
            let ghost before = (self.render_cache@, last_error);
            if offset <= usize::MAX - current_page {
                let next: usize = current_page + offset;
                if next < self.info.page_count {
                    let answer = self.prefetch_page(next, scale, &mut last_error);
                    proof {
                        second = answer@;
                    }
                }
            }
            assert((self.render_cache@, last_error) == fetched(
                before,
                around,
                current_page + offset,
                second,
            ));
            assert(given(&old(self).backend, before.0, around, current_page + offset, second));
            proof {
                let longer = answers.push((first, second));
                lemma_prefetched_agree(
                    old(self).render_cache@,
                    around,
                    answers,
                    longer,
                    done as int,
                );
                lemma_all_given_agree(
                    &old(self).backend,
                    old(self).render_cache@,
                    around,
                    answers,
                    longer,
                    done as int,
                );
                assert(longer[done as int] == (first, second));
                answers = longer;
            }
            done += 1;
        }
        let r = match last_error {
            Some(e) => Err(e),
            None => Ok(()),
        };
        proof {
            if neighbours_cached(old(self).render_cache@, around, range as int) {
                lemma_prefetched_cached(old(self).render_cache@, around, answers, range as int);
            }
            assert(Self::prefetch_done(old(self), range, scale, answers, self, r));
        }
        r
    }

    /// Whether `post` differs from `pre` in its marks at most.
    pub open spec fn marked(pre: &Self, post: &Self) -> bool {
        *post == (DocumentInstance {
            state: PersistedDocumentState {
                marks: post.state.marks,
                named_marks: post.state.named_marks,
                ..pre.state
            },
            ..*pre
        })
    }

    /// Remembers `page` under the character `mark`.
    pub fn add_mark(&mut self, mark: char, page: usize)
        ensures
            Self::marked(old(self), final(self)),
            final(self).state.named_marks == old(self).state.named_marks,
            final(self).state.marks@ == old(self).state.marks@.insert(mark, page),
    {
        self.state.marks.insert(mark, page);
    }

    /// The page remembered under the character `mark`.
    pub fn get_page_from_mark(&self, mark: char) -> (r: Option<usize>)
        ensures
            r == if self.state.marks@.contains_key(mark) {
                Some(self.state.marks@[mark])
            } else {
                None
            },
    {
        self.state.marks.get(mark)
    }

    /// Remembers `page` under `name`.
    pub fn add_named_mark(&mut self, name: String, page: usize)
        ensures
            Self::marked(old(self), final(self)),
            final(self).state.marks == old(self).state.marks,
            final(self).state.named_marks@ == old(self).state.named_marks@.insert(name@, page),
    {
        self.state.named_marks.insert(name, page);
    }

    /// The page remembered under `name`.
    pub fn named_mark_page(&self, name: &str) -> (r: Option<usize>)
        ensures
            r == if self.state.named_marks@.contains_key(name@) {
                Some(self.state.named_marks@[name@])
            } else {
                None
            },
    {
        self.state.named_marks.get(name)
    }

    /// The marks kept under names.
    pub fn named_marks(&self) -> (r: &NamedMarks)
        ensures
            *r == self.state.named_marks,
    {
        &self.state.named_marks
    }

    /// Remembers the page in view under `key`.
    pub fn put_mark(&mut self, key: char)
        ensures
            Self::marked(old(self), final(self)),
            final(self).state.named_marks == old(self).state.named_marks,
            final(self).state.marks@ == old(self).state.marks@.insert(
                key,
                old(self).state.current_page,
            ),
    {
        let page: usize = self.state.current_page;
        self.add_mark(key, page);
    }

    /// Remembers the page in view under `name`.
    pub fn save_named_mark(&mut self, name: String)
        ensures
            Self::marked(old(self), final(self)),
            final(self).state.marks == old(self).state.marks,
            final(self).state.named_marks@ == old(self).state.named_marks@.insert(
                name@,
                old(self).state.current_page,
            ),
    {
        let page: usize = self.state.current_page;
        self.add_named_mark(name, page);
    }

    /// The page that a jump to a remembered page lands on: the page
    /// itself, kept inside the document; the page in view where nothing
    /// is remembered.
    pub open spec fn mark_target(pre: &Self, remembered: Option<usize>) -> usize {
        match remembered {
            Some(page) => page_within(pre.info.page_count, page as int),
            None => pre.state.current_page,
        }
    }

    /// Jumps to the page remembered under `key`; an unknown key is
    /// passed over in silence.
    pub fn goto_mark(&mut self, key: char) -> (changed: bool)
        ensures
            Self::jumped(
                old(self),
                Self::mark_target(
                    old(self),
                    if old(self).state.marks@.contains_key(key) {
                        Some(old(self).state.marks@[key])
                    } else {
                        None
                    },
                ),
                false,
                final(self),
            ),
            changed == (final(self).state.current_page != old(self).state.current_page),
    {
        match self.get_page_from_mark(key) {
            Some(page) => self.goto_page(page),
            None => false,
        }
    }

    /// Jumps to the page remembered under `name`; an unknown name is
    /// passed over in silence.
    pub fn goto_named_mark(&mut self, name: &str) -> (changed: bool)
        ensures
            Self::jumped(
                old(self),
                Self::mark_target(
                    old(self),
                    if old(self).state.named_marks@.contains_key(name@) {
                        Some(old(self).state.named_marks@[name@])
                    } else {
                        None
                    },
                ),
                false,
                final(self),
            ),
            changed == (final(self).state.current_page != old(self).state.current_page),
    {
        match self.named_mark_page(name) {
            Some(page) => self.goto_page(page),
            None => false,
        }
    }
}

} // verus!
