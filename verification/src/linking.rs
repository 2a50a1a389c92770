//! Stepping through the links of a document and following them.

use vstd::prelude::*;
use crate::backend::DocumentBackend;
use crate::document::{page_within, DocumentInstance, DocumentView};
use crate::geometry::{tier, Highlights};
use crate::links::{
    build_link_entries, first_link, is_first_link, is_seed, link_highlights, links_gathered,
    links_in_order, marked_links, seed_index, ExternalLink, LinkAction, LinkAnswer,
    LinkFollowResult, LinkState, LinkSummary,
};
use crate::model::EngineError;
use crate::search::{step_index, stepped, SearchDirection};

verus! {

/// What following the current link comes to, before anything is done.
enum Plan {
    Nothing,
    GoTo { page: usize },
    Open { uri: String },
    Unsupported,
}

impl<B: DocumentBackend> DocumentInstance<B> {
    /// Whether `post` differs from `pre` in position, jump history and
    /// links at most.
    pub open spec fn linked(pre: &Self, post: &Self) -> bool {
        &&& Self::same_document(pre, post)
        &&& post@ == (DocumentView { history: post@.history, links: post@.links, ..pre@ })
    }

    /// What collecting the links does: the links of the pages whose links
    /// the backend gives stand in page order, and the link to start from
    /// is the first on the page in view; there may be none.
    pub open spec fn links_collected(pre: &Self, post: &Self) -> bool {
        &&& *post == (DocumentInstance { link_state: post.link_state, ..*pre })
        &&& (post.link_state matches Some(state) && links_in_order(
            state.links@,
            pre.info.page_count,
        ) && is_first_link(state.links@, pre.state.current_page, false, state.current_index))
    }

    /// Collects the document's links for stepping through them. This
    /// always succeeds: a page whose links cannot be had has none. The
    /// links are the usable ones among those that the backend gives,
    /// page by page.
    pub fn start_link_mode(&mut self) -> (r: Result<(), EngineError>)
        ensures
            r is Ok,
            Self::links_collected(old(self), final(self)),
            final(self).link_state matches Some(state) ==> exists|answers: Seq<LinkAnswer>| #[trigger]
                links_gathered(&old(self).backend, state.links@, old(self).info.page_count, answers),
    {
        let entries = build_link_entries(self.info.page_count, &self.backend);
        let current_index = first_link(&entries, self.state.current_page, false);
        self.link_state = Some(LinkState { links: entries, current_index });
        Ok(())
    }

    /// Forgets the links.
    pub fn clear_link_state(&mut self)
        ensures
            *final(self) == (DocumentInstance { link_state: None, ..*old(self) }),
    {
        self.link_state = None;
    }

    /// What making link `index` the current one does. Without links
    /// nothing happens. An index beyond the links leaves no link
    /// current. Else the reader jumps to the link's page and the history
    /// is told.
    pub open spec fn link_shown(pre: &Self, index: usize, post: &Self) -> bool {
        match pre.link_state {
            None => *post == *pre,
            Some(state) => {
                &&& Self::linked(pre, post)
                &&& if index >= state.links@.len() {
                    &&& post.link_state == Some(LinkState { current_index: None, ..state })
                    &&& post.position() == pre.position()
                    &&& post@.history == pre@.history
                } else {
                    &&& post.link_state == Some(LinkState { current_index: Some(index), ..state })
                    &&& Self::travelled(
                        pre,
                        page_within(pre.info.page_count, state.links@[index as int].page as int),
                        true,
                        post,
                    )
                }
            },
        }
    }

    /// Makes link `index` the current one and reports whether the page
    /// in view changed.
    pub fn apply_link_index(&mut self, index: usize) -> (changed: bool)
        ensures
            Self::link_shown(old(self), index, final(self)),
            changed == (final(self).state.current_page != old(self).state.current_page),
    {
        let taken = self.link_state.take();
        match taken {
            None => false,
            Some(mut state) => {
                if index >= state.links.len() {
                    state.current_index = None;
                    self.link_state = Some(state);
                    return false;
                }
                state.current_index = Some(index);
                let page: usize = state.links[index].page;
                self.link_state = Some(state);
                let last: usize = self.last_page();
                let target: usize = if page > last {
                    last
                } else {
                    page
                };
                self.jump_to(target, true)
            },
        }
    }

    /// What stepping through the links does: nothing for a count of
    /// zero, without links collected or without links. Where no link is
    /// current yet, the step only picks the link to start from: the
    /// first on the page in view, else the first behind it, else the
    /// first of all. Else the link `count` steps from the current one,
    /// going round at the ends, is shown.
    pub open spec fn link_advanced(pre: &Self, forward: bool, count: usize, post: &Self) -> bool {
        match pre.link_state {
            Some(state) => if count > 0 && state.links@.len() > 0 {
                match state.current_index {
                    None => exists|seed: usize|
                        is_seed(state.links@, pre.state.current_page, seed) && Self::link_shown(
                            pre,
                            seed,
                            post,
                        ),
                    Some(current) => Self::link_shown(
                        pre,
                        stepped(
                            if current < state.links@.len() {
                                current as int
                            } else {
                                state.links@.len() - 1
                            },
                            state.links@.len() as int,
                            count as int,
                            forward,
                        ) as usize,
                        post,
                    ),
                }
            } else {
                *post == *pre
            },
            None => *post == *pre,
        }
    }

    /// Steps `count` links on or back. Returns `None` where no links
    /// were collected, else whether the page in view changed.
    pub fn advance_link(&mut self, direction: SearchDirection, count: usize) -> (r: Option<bool>)
        ensures
            Self::link_advanced(old(self), direction == SearchDirection::Forward, count, final(self)),
            r == if count == 0 {
                Some(false)
            } else if old(self).link_state is None {
                None
            } else {
                Some(final(self).state.current_page != old(self).state.current_page)
            },
    {
        if count == 0 {
            return Some(false);
        }
        let (total, current, seed): (usize, Option<usize>, usize) = match &self.link_state {
            Some(state) => (
                state.links.len(),
                state.current_index,
                seed_index(&state.links, self.state.current_page),
            ),
            None => {
                return None;
            },
        };
        if total == 0 {
            return Some(false);
        }
        match current {
            None => Some(self.apply_link_index(seed)),
            Some(index) => {
                let from: usize = if index < total {
                    index
                } else {
                    total - 1
                };
                let target: usize = step_index(from, total, count, direction);
                Some(self.apply_link_index(target))
            },
        }
    }

    /// Steps `count` links on.
    pub fn next_link(&mut self, count: usize) -> (r: Option<bool>)
        ensures
            Self::link_advanced(old(self), true, count, final(self)),
            r == if count == 0 {
                Some(false)
            } else if old(self).link_state is None {
                None
            } else {
                Some(final(self).state.current_page != old(self).state.current_page)
            },
    {
        self.advance_link(SearchDirection::Forward, count)
    }

    /// Steps `count` links back.
    pub fn previous_link(&mut self, count: usize) -> (r: Option<bool>)
        ensures
            Self::link_advanced(old(self), false, count, final(self)),
            r == if count == 0 {
                Some(false)
            } else if old(self).link_state is None {
                None
            } else {
                Some(final(self).state.current_page != old(self).state.current_page)
            },
    {
        self.advance_link(SearchDirection::Backward, count)
    }

    /// The links in numbers.
    pub fn link_summary(&self) -> (r: Option<LinkSummary>)
        ensures
            match (r, self.link_state) {
                (Some(summary), Some(state)) => summary.total == state.links@.len()
                    && summary.current_index == state.current_index,
                (None, None) => true,
                _ => false,
            },
    {
        match &self.link_state {
            Some(state) => Some(
                LinkSummary { total: state.links.len(), current_index: state.current_index },
            ),
            None => None,
        }
    }

    /// The highlights of the links on the page in view: the rectangles
    /// of the current link in one tier, those of the page's other links
    /// in the other; none where no links were collected or none lies on
    /// the page.
    pub fn link_highlights_for_current_page(&self) -> (r: Option<Highlights>)
        ensures
            match self.link_state {
                Some(state) => {
                    let items = marked_links(state.links@);
                    let page = self.state.current_page;
                    let n = state.links@.len() as int;
                    match r {
                        Some(h) => h.current@ == tier(items, page, state.current_index, true, n)
                            && h.others@ == tier(items, page, state.current_index, false, n)
                            && h.current@.len() + h.others@.len() > 0,
                        None => tier(items, page, state.current_index, true, n).len() == 0 && tier(
                            items,
                            page,
                            state.current_index,
                            false,
                            n,
                        ).len() == 0,
                    }
                },
                None => r is None,
            },
    {
        match &self.link_state {
            Some(state) => link_highlights(&state.links, state.current_index, self.state.current_page),
            None => None,
        }
    }

    /// The action of the current link.
    pub open spec fn current_action(&self) -> Option<LinkAction> {
        match self.link_state {
            Some(state) => match state.current_index {
                Some(index) => if index < state.links@.len() {
                    Some(state.links@[index as int].action)
                } else {
                    None
                },
                None => None,
            },
            None => None,
        }
    }

    /// What following the current link does and returns. A link into
    /// the document makes the reader jump to its page, kept inside the
    /// document, and the history is told; every other link, and no
    /// link, leaves the document as it is.
    pub open spec fn link_followed(pre: &Self, post: &Self, result: LinkFollowResult) -> bool {
        match pre.current_action() {
            Some(LinkAction::GoTo { page }) => {
                &&& Self::jumped(pre, page_within(pre.info.page_count, page as int), true, post)
                &&& result == (LinkFollowResult::Navigated {
                    page_changed: post.state.current_page != pre.state.current_page,
                })
            },
            Some(LinkAction::Uri { uri }) => {
                &&& *post == *pre
                &&& result matches LinkFollowResult::External { target: ExternalLink::Url(url) }
                &&& url@ == uri@
            },
            Some(LinkAction::Unsupported) => *post == *pre && result is Unsupported,
            None => *post == *pre && result is NoActiveLink,
        }
    }

    /// Follows the current link.
    pub fn activate_link(&mut self) -> (r: LinkFollowResult)
        ensures
            Self::link_followed(old(self), final(self), r),
    {
        let plan: Plan = match &self.link_state {
            Some(state) => match state.current_index {
                Some(index) => if index < state.links.len() {
                    match &state.links[index].action {
                        LinkAction::GoTo { page } => Plan::GoTo { page: *page },
                        LinkAction::Uri { uri } => Plan::Open { uri: uri.clone() },
                        LinkAction::Unsupported => Plan::Unsupported,
                    }
                } else {
                    Plan::Nothing
                },
                None => Plan::Nothing,
            },
            None => Plan::Nothing,
        };
        match plan {
            Plan::Nothing => LinkFollowResult::NoActiveLink,
            Plan::Unsupported => LinkFollowResult::Unsupported,
            Plan::Open { uri } => LinkFollowResult::External { target: ExternalLink::Url(uri) },
            Plan::GoTo { page } => {
                let last: usize = self.last_page();
                let target: usize = if page > last {
                    last
                } else {
                    page
                };
                let page_changed = self.jump_to(target, true);
                LinkFollowResult::Navigated { page_changed }
            },
        }
    }
}

} // verus!
