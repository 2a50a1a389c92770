//! Searching a document and walking through what was found.

use vstd::prelude::*;
use crate::backend::{extends, read_from, DocumentBackend, TextCache};
use crate::document::{page_within, synced, travel, DocumentInstance, DocumentView};
use crate::history::{DocumentPosition, JumpHistoryView};
use crate::geometry::{tier, Highlights, NormalizedRect};
use crate::model::{DocumentInfo, EngineError};
use crate::search::{
    build_search_matches, first_from, first_match_from, marked, match_highlights, matches_in_order,
    searched_all, step_index, stepped, SearchDirection, SearchMatch, SearchState, SearchSummary,
};
use crate::unicode::{lowercased, str_trim, trimmed};

verus! {

/// What is needed to search a document apart from the document itself:
/// its description, its backend and a cache of page texts of its own.
pub struct DocumentSearchContext<'a, B: DocumentBackend> {
    pub info: &'a DocumentInfo,
    pub backend: &'a B,
    pub text_cache: TextCache,
}

impl<'a, B: DocumentBackend> DocumentSearchContext<'a, B> {
    /// Searches every page for `query`, in page order, and never fails.
    /// An empty query finds nothing and leaves the cache as it is. Else
    /// the matches are those that the backend's answers, page by page,
    /// and the page texts cached afterwards give; only texts of pages
    /// of the document are added to the cache.
    pub fn build_search_matches(&mut self, query: &str) -> (r: Result<Vec<SearchMatch>, EngineError>)
        ensures
            final(self).info == old(self).info,
            final(self).backend == old(self).backend,
            extends(old(self).text_cache@, final(self).text_cache@),
            forall|p: usize|
                final(self).text_cache@.contains_key(p) ==> old(self).text_cache@.contains_key(p)
                    || p < old(self).info.page_count,
            query@.len() == 0 ==> final(self).text_cache@ == old(self).text_cache@,
            read_from(old(self).backend, old(self).text_cache@, final(self).text_cache@),
            r is Ok,
            r matches Ok(found) ==> matches_in_order(found@, old(self).info.page_count) && (
            query@.len() == 0 ==> found@.len() == 0),
            r matches Ok(found) ==> (query@.len() > 0 ==> exists|
                answers: Seq<Result<Vec<Vec<NormalizedRect>>, EngineError>>,
            |
                #[trigger] searched_all(
                    old(self).backend,
                    found@,
                    old(self).info.page_count,
                    query@,
                    answers,
                    final(self).text_cache@,
                    lowercased(query@),
                )),
    {
        let count: usize = self.info.page_count;
        let backend: &B = self.backend;
        let matches = build_search_matches(query, count, backend, &mut self.text_cache);
        Ok(matches)
    }
}

/// Search, position and history once the results of a search are taken
/// up. An empty query ends the search. Else the search starts at the
/// first match on or behind `start_page`, or at the first match of all
/// where none lies there, and the reader jumps to that match; without
/// matches the reader stays. The history is told where the reader is.
pub open spec fn search_begun(
    page_count: usize,
    position: DocumentPosition,
    history: JumpHistoryView,
    query: String,
    matches: Vec<SearchMatch>,
    start_page: usize,
) -> (Option<SearchState>, DocumentPosition, JumpHistoryView) {
    if query@.len() == 0 {
        (None, position, synced(history, position))
    } else if matches@.len() == 0 {
        (
            Some(SearchState { query, matches, current_index: None }),
            position,
            synced(history, position),
        )
    } else {
        let first = first_from(matches@, page_within(page_count, start_page as int), 0);
        let (landed, recorded) = travel(
            position,
            history,
            page_within(page_count, matches@[first].page as int),
            true,
        );
        (Some(SearchState { query, matches, current_index: Some(first as usize) }), landed, recorded)
    }
}

impl<B: DocumentBackend> DocumentInstance<B> {
    /// Whether `post` differs from `pre` in position, jump history and
    /// search at most.
    pub open spec fn searched(pre: &Self, post: &Self) -> bool {
        &&& Self::same_document(pre, post)
        &&& post@ == (DocumentView { history: post@.history, search: post@.search, ..pre@ })
    }

    /// A context for searching this document elsewhere, while the
    /// document itself stays as it is; its cache of page texts is its
    /// own and starts empty.
    pub fn search_context(&self) -> (r: DocumentSearchContext<'_, B>)
        ensures
            *r.info == self.info,
            *r.backend == self.backend,
            r.text_cache@ == Map::<usize, crate::text::PageText>::empty(),
    {
        broadcast use vstd::std_specs::hash::group_hash_axioms;

        let context = DocumentSearchContext {
            info: &self.info,
            backend: &self.backend,
            text_cache: TextCache::new(),
        };
        assert(context.text_cache@ =~= Map::<usize, crate::text::PageText>::empty());
        context
    }

    /// What making match `index` the current one does. Without a search
    /// nothing happens. An index beyond the matches leaves the search
    /// without a current match. Else the reader jumps to the match's
    /// page, kept inside the document, and the history is told.
    pub open spec fn match_shown(pre: &Self, index: usize, post: &Self) -> bool {
        match pre.search_state {
            None => *post == *pre,
            Some(state) => {
                &&& Self::searched(pre, post)
                &&& if index >= state.matches@.len() {
                    &&& post.search_state == Some(SearchState { current_index: None, ..state })
                    &&& post.position() == pre.position()
                    &&& post@.history == pre@.history
                } else {
                    &&& post.search_state == Some(
                        SearchState { current_index: Some(index), ..state },
                    )
                    &&& Self::travelled(
                        pre,
                        page_within(pre.info.page_count, state.matches@[index as int].page as int),
                        true,
                        post,
                    )
                }
            },
        }
    }

    /// Makes match `index` the current one and reports whether the page
    /// in view changed.
    pub fn apply_search_index(&mut self, index: usize) -> (changed: bool)
        ensures
            Self::match_shown(old(self), index, final(self)),
            changed == (final(self).state.current_page != old(self).state.current_page),
    {
        let taken = self.search_state.take();
        match taken {
            None => false,
            Some(mut state) => {
                if index >= state.matches.len() {
                    state.current_index = None;
                    self.search_state = Some(state);
                    return false;
                }
                state.current_index = Some(index);
                let page: usize = state.matches[index].page;
                self.search_state = Some(state);
                let last: usize = self.last_page();
                let target: usize = if page > last {
                    last
                } else {
                    page
                };
                self.jump_to(target, true)
            },
        }
    }

    /// Whether `post` holds what taking up the results of a search
    /// leaves of search, position and history.
    pub open spec fn results_applied(
        pre: &Self,
        query: String,
        matches: Vec<SearchMatch>,
        start_page: usize,
        post: &Self,
    ) -> bool {
        (post.search_state, post.position(), post@.history) == search_begun(
            pre.info.page_count,
            pre.position(),
            pre@.history,
            query,
            matches,
            start_page,
        )
    }

    /// Takes up the results of a search for `query` and reports whether
    /// the page in view changed.
    pub fn apply_search_results(
        &mut self,
        query: String,
        matches: Vec<SearchMatch>,
        start_page: usize,
    ) -> (changed: bool)
        ensures
            Self::searched(old(self), final(self)),
            Self::results_applied(old(self), query, matches, start_page, final(self)),
            changed == (final(self).state.current_page != old(self).state.current_page),
    {
        if query.as_str().is_empty() {
            self.search_state = None;
            self.sync_jump_position();
            return false;
        }
        let last: usize = self.last_page();
        let start: usize = if start_page > last {
            last
        } else {
            start_page
        };
        if matches.len() == 0 {
            self.search_state = Some(SearchState { query, matches, current_index: None });
            self.sync_jump_position();
            return false;
        }
        let first: usize = first_match_from(&matches, start);
        self.search_state = Some(SearchState { query, matches, current_index: Some(first) });
        let ghost mid = *self;
        let changed = self.apply_search_index(first);
        proof {
            assert(Self::match_shown(&mid, first, self));
        }
        changed
    }

    /// Searches the document for `query` without the white space at its
    /// ends, and takes up what is found, starting from the page in view.
    /// A query of white space alone ends the search. The matches are
    /// those that the backend's answers, page by page, and the cached
    /// page texts give.
    pub fn perform_search(&mut self, query: String) -> (r: Result<bool, EngineError>)
        ensures
            Self::same_document(old(self), final(self)),
            final(self)@ == (DocumentView {
                history: final(self)@.history,
                search: final(self)@.search,
                texts: final(self)@.texts,
                ..old(self)@
            }),
            extends(old(self)@.texts, final(self)@.texts),
            r == Ok::<bool, EngineError>(
                final(self).state.current_page != old(self).state.current_page,
            ),
            trimmed(query@).len() == 0 ==> final(self).search_state is None && final(self).position()
                == old(self).position() && final(self)@.history == synced(
                old(self)@.history,
                old(self).position(),
            ) && final(self)@.texts == old(self)@.texts,
            final(self).state.scale == old(self).state.scale,
            old(self).state.current_page < old(self).info.page_count
                ==> final(self).state.current_page < old(self).info.page_count,
            trimmed(query@).len() > 0 ==> (final(self).search_state matches Some(state)
                && state.query@ == trimmed(query@) && matches_in_order(
                state.matches@,
                old(self).info.page_count,
            ) && Self::results_applied(
                old(self),
                state.query,
                state.matches,
                old(self).state.current_page,
                final(self),
            )),
            read_from(&old(self).backend, old(self)@.texts, final(self)@.texts),
            forall|p: usize|
                final(self)@.texts.contains_key(p) ==> old(self)@.texts.contains_key(p)
                    || p < old(self).info.page_count,
            trimmed(query@).len() > 0 ==> (final(self).search_state matches Some(state) && exists|
                answers: Seq<Result<Vec<Vec<NormalizedRect>>, EngineError>>,
            |
                #[trigger] searched_all(
                    &old(self).backend,
                    state.matches@,
                    old(self).info.page_count,
                    trimmed(query@),
                    answers,
                    final(self)@.texts,
                    lowercased(trimmed(query@)),
                )),
    {
        let wanted: String = str_trim(query.as_str()).to_owned();
        if wanted.as_str().is_empty() {
            self.search_state = None;
            self.sync_jump_position();
            return Ok(false);
        }
        let matches = build_search_matches(
            wanted.as_str(),
            self.info.page_count,
            &self.backend,
            &mut self.text_cache,
        );
        let ghost mid = *self;
        let ghost found = matches@;
        let ghost answers = choose|answers: Seq<Result<Vec<Vec<NormalizedRect>>, EngineError>>| #[trigger]
            searched_all(
                &mid.backend,
                found,
                mid.info.page_count,
                wanted@,
                answers,
                mid@.texts,
                lowercased(wanted@),
            );
        let start: usize = self.state.current_page;
        let changed = self.apply_search_results(wanted, matches, start);
        proof {
            assert(Self::results_applied(&mid, wanted, matches, start, self));
            assert(searched_all(
                &old(self).backend,
                found,
                old(self).info.page_count,
                trimmed(query@),
                answers,
                self@.texts,
                lowercased(trimmed(query@)),
            ));
        }
        Ok(changed)
    }

    /// What stepping through the matches does: nothing for a count of
    /// zero, without a search or without matches; else the match `count`
    /// steps from the current one, going round at the ends, is shown.
    pub open spec fn search_advanced(pre: &Self, forward: bool, count: usize, post: &Self) -> bool {
        match pre.search_state {
            Some(state) => if count > 0 && state.matches@.len() > 0 {
                Self::match_shown(
                    pre,
                    stepped(
                        match state.current_index {
                            Some(current) => current as int,
                            None => 0,
                        },
                        state.matches@.len() as int,
                        count as int,
                        forward,
                    ) as usize,
                    post,
                )
            } else {
                *post == *pre
            },
            None => *post == *pre,
        }
    }

    /// Steps `count` matches on or back. Returns `None` without a search,
    /// else whether the page in view changed.
    pub fn advance_search(&mut self, direction: SearchDirection, count: usize) -> (r: Option<bool>)
        ensures
            Self::search_advanced(
                old(self),
                direction == SearchDirection::Forward,
                count,
                final(self),
            ),
            r == if count == 0 {
                Some(false)
            } else if old(self).search_state is None {
                None
            } else {
                Some(final(self).state.current_page != old(self).state.current_page)
            },
    {
        if count == 0 {
            return Some(false);
        }
        let (total, current): (usize, usize) = match &self.search_state {
            Some(state) => (
                state.matches.len(),
                match state.current_index {
                    Some(current) => current,
                    None => 0,
                },
            ),
            None => {
                return None;
            },
        };
        if total == 0 {
            return Some(false);
        }
        let target: usize = step_index(current, total, count, direction);
        Some(self.apply_search_index(target))
    }

    /// Steps `count` matches on.
    pub fn next_search_match(&mut self, count: usize) -> (r: Option<bool>)
        ensures
            Self::search_advanced(old(self), true, count, final(self)),
            r == if count == 0 {
                Some(false)
            } else if old(self).search_state is None {
                None
            } else {
                Some(final(self).state.current_page != old(self).state.current_page)
            },
    {
        self.advance_search(SearchDirection::Forward, count)
    }

    /// Steps `count` matches back.
    pub fn previous_search_match(&mut self, count: usize) -> (r: Option<bool>)
        ensures
            Self::search_advanced(old(self), false, count, final(self)),
            r == if count == 0 {
                Some(false)
            } else if old(self).search_state is None {
                None
            } else {
                Some(final(self).state.current_page != old(self).state.current_page)
            },
    {
        self.advance_search(SearchDirection::Backward, count)
    }

    /// The search in numbers.
    pub fn search_summary(&self) -> (r: Option<SearchSummary>)
        ensures
            match (r, self.search_state) {
                (Some(summary), Some(state)) => summary.query@ == state.query@ && summary.total
                    == state.matches@.len() && summary.current_index == state.current_index,
                (None, None) => true,
                _ => false,
            },
    {
        match &self.search_state {
            Some(state) => Some(
                SearchSummary {
                    query: state.query.clone(),
                    total: state.matches.len(),
                    current_index: state.current_index,
                },
            ),
            None => None,
        }
    }

    /// The highlights of the search on the page in view: the rectangles
    /// of the current match in one tier, those of the page's other
    /// matches in the other; none without a search or without rectangles.
    pub fn search_highlights_for_current_page(&self) -> (r: Option<Highlights>)
        ensures
            match self.search_state {
                Some(state) => {
                    let items = marked(state.matches@);
                    let page = self.state.current_page;
                    let n = state.matches@.len() as int;
                    match r {
                        Some(h) => h.current@ == tier(items, page, state.current_index, true, n)
                            && h.others@ == tier(items, page, state.current_index, false, n)
                            && h.current@.len() + h.others@.len() > 0,
                        None => tier(items, page, state.current_index, true, n).len() == 0 && tier(
                            items,
                            page,
                            state.current_index,
                            false,
                            n,
                        ).len() == 0,
                    }
                },
                None => r is None,
            },
    {
        match &self.search_state {
            Some(state) => match_highlights(
                &state.matches,
                state.current_index,
                self.state.current_page,
            ),
            None => None,
        }
    }
}

} // verus!
