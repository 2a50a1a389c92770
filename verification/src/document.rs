//! One open document: its position, caches and engines.

use vstd::prelude::*;
use crate::backend::{extends, DocumentBackend, TextCache};
use crate::cache::{
    evicted, lookup, stored, CacheEntries, CacheKey, RenderCache, RenderImage, CACHE_CAPACITY,
};
use crate::geometry::{
    clamp_scale, clamp_scale_value, scale_product, scaled_by, ViewportOffset, SCALE_ONE, UNIT,
};
use crate::history::{DocumentPosition, JumpHistory, JumpHistoryView};
use crate::links::LinkState;
use crate::model::{DocumentInfo, EngineError, OutlineItem, PersistedDocumentState, RenderRequest};
use crate::points::{SelectionPoint, SelectionSnapshot, SelectionState};
use crate::search::SearchState;
use crate::selection::Texts;

verus! {

/// One open document.
pub struct DocumentInstance<B: DocumentBackend> {
    pub info: DocumentInfo,
    pub backend: B,
    pub state: PersistedDocumentState,
    pub render_cache: RenderCache,
    pub outline: Vec<OutlineItem>,
    pub jump_history: JumpHistory,
    pub text_cache: TextCache,
    pub search_state: Option<SearchState>,
    pub link_state: Option<LinkState>,
    pub selection_state: Option<SelectionState>,
    pub visual_cursor: Option<SelectionPoint>,
    pub last_selection: Option<SelectionSnapshot>,
    pub visual_column_hint: i32,
}

/// What a document's caches and engines hold.
pub struct DocumentView {
    /// The rendered pages in the cache.
    pub rendered: CacheEntries,
    /// The table of contents.
    pub outline: Seq<OutlineItem>,
    /// The jump history.
    pub history: JumpHistoryView,
    /// The page texts read so far.
    pub texts: Texts,
    /// The search in progress.
    pub search: Option<SearchState>,
    /// The links, while the reader steps through them.
    pub links: Option<LinkState>,
    /// The selection in the making.
    pub selection: Option<SelectionState>,
    /// The cursor of the selection mode.
    pub cursor: Option<SelectionPoint>,
    /// The selection that was last cleared.
    pub remembered: Option<SelectionSnapshot>,
    /// The horizontal place the cursor was last seen at.
    pub column_hint: i32,
}

impl<B: DocumentBackend> View for DocumentInstance<B> {
    type V = DocumentView;

    open spec fn view(&self) -> DocumentView {
        DocumentView {
            rendered: self.render_cache@,
            outline: self.outline@,
            history: self.jump_history@,
            texts: self.text_cache@,
            search: self.search_state,
            links: self.link_state,
            selection: self.selection_state,
            cursor: self.visual_cursor,
            remembered: self.last_selection,
            column_hint: self.visual_column_hint,
        }
    }
}

/// The last page of a document of `page_count` pages; page 0 for an
/// empty document.
pub open spec fn last_of(page_count: usize) -> usize {
    if page_count == 0 {
        0
    } else {
        (page_count - 1) as usize
    }
}

/// `page`, or the last page where `page` lies beyond it.
pub open spec fn page_within(page_count: usize, page: int) -> usize {
    if page < 0 {
        0
    } else if page > last_of(page_count) {
        last_of(page_count)
    } else {
        page as usize
    }
}

/// The history with `position` as the position last heard of.
pub open spec fn synced(history: JumpHistoryView, position: DocumentPosition) -> JumpHistoryView {
    JumpHistoryView { last_known: Some(position), ..history }
}

/// The position with the page replaced and the viewport reset.
pub open spec fn on_page(position: DocumentPosition, page: usize) -> DocumentPosition {
    DocumentPosition { page, viewport: ViewportOffset::origin(), ..position }
}

/// Position and history after a jump to page `target`: on another page
/// the reader lands there with the viewport reset and the move recorded
/// as a jump; on the page in view nothing moves. With `sync` the history
/// is then told where the reader is.
pub open spec fn travel(
    position: DocumentPosition,
    history: JumpHistoryView,
    target: usize,
    sync: bool,
) -> (DocumentPosition, JumpHistoryView) {
    let landed = if target != position.page {
        on_page(position, target)
    } else {
        position
    };
    let recorded = if target != position.page {
        history.record_navigation(position, landed)
    } else {
        history
    };
    (
        landed,
        if sync {
            synced(recorded, landed)
        } else {
            recorded
        },
    )
}

/// The viewport that goes with a zoom factor: the top-left corner at or
/// below natural size, else the given viewport brought onto the page.
pub open spec fn fitted(scale: u32, viewport: ViewportOffset) -> ViewportOffset {
    if scale <= SCALE_ONE {
        ViewportOffset::origin()
    } else {
        viewport.clamped()
    }
}

/// Whether zoom factor and viewport are as the engine keeps them: the
/// factor in its range, the viewport on the page, and at the top-left
/// corner at or below natural size.
pub open spec fn view_settled(scale: u32, viewport: ViewportOffset) -> bool {
    &&& crate::geometry::SCALE_MIN <= scale <= crate::geometry::SCALE_MAX
    &&& viewport.in_bounds()
    &&& scale <= SCALE_ONE ==> viewport == ViewportOffset::origin()
}

impl<B: DocumentBackend> DocumentInstance<B> {
    /// Where the reader is.
    pub open spec fn position(&self) -> DocumentPosition {
        DocumentPosition {
            page: self.state.current_page,
            scale: self.state.scale,
            viewport: self.state.viewport,
        }
    }

    /// Whether `post` is the document `pre` with the same backend, colour
    /// mode and marks.
    pub open spec fn same_document(pre: &Self, post: &Self) -> bool {
        &&& post.info == pre.info
        &&& post.backend == pre.backend
        &&& post.state.dark_mode == pre.state.dark_mode
        &&& post.state.marks == pre.state.marks
        &&& post.state.named_marks == pre.state.named_marks
    }

    /// Whether `post` differs from `pre` in position and jump history at most.
    pub open spec fn moved(pre: &Self, post: &Self) -> bool {
        &&& Self::same_document(pre, post)
        &&& post@ == (DocumentView { history: post@.history, ..pre@ })
    }

    /// Whether `post` differs from `pre` in the cached page texts at
    /// most, of which it holds every one that `pre` holds.
    pub open spec fn read_more(pre: &Self, post: &Self) -> bool {
        &&& Self::same_document(pre, post)
        &&& post.state == pre.state
        &&& post@ == (DocumentView { texts: post@.texts, ..pre@ })
        &&& extends(pre@.texts, post@.texts)
    }

    /// Whether `doc` is a document as it is when it was opened with the
    /// state `state` kept of it: the caches are empty, there is neither
    /// search nor links nor selection, and the history knows where the
    /// reader is and nothing else.
    pub open spec fn opened(
        doc: &Self,
        info: DocumentInfo,
        backend: B,
        state: PersistedDocumentState,
        outline: Vec<OutlineItem>,
    ) -> bool {
        &&& doc.info == info
        &&& doc.backend == backend
        &&& doc.state == state
        &&& doc@.rendered.len() == 0
        &&& doc@.outline == outline@
        &&& doc@.history == (JumpHistoryView {
            back: Seq::empty(),
            forward: Seq::empty(),
            last_known: Some(doc.position()),
        })
        &&& doc@.texts == Map::<usize, crate::text::PageText>::empty()
        &&& doc@.search is None
        &&& doc@.links is None
        &&& doc@.selection is None
        &&& doc@.cursor is None
        &&& doc@.remembered is None
        &&& doc@.column_hint == UNIT / 2
    }

    /// Opens a document with the state kept of it.
    pub fn new(
        info: DocumentInfo,
        backend: B,
        state: PersistedDocumentState,
        outline: Vec<OutlineItem>,
    ) -> (r: Self)
        ensures
            Self::opened(&r, info, backend, state, outline),
    {
        broadcast use vstd::std_specs::hash::group_hash_axioms;

        let initial = DocumentPosition {
            page: state.current_page,
            scale: state.scale,
            viewport: state.viewport,
        };
        let mut jump_history = JumpHistory::new();
        jump_history.record_initial(initial);
        let instance = DocumentInstance {
            info,
            backend,
            state,
            render_cache: RenderCache::new(),
            outline,
            jump_history,
            text_cache: TextCache::new(),
            search_state: None,
            link_state: None,
            selection_state: None,
            visual_cursor: None,
            last_selection: None,
            visual_column_hint: UNIT / 2,
        };
        assert(instance@.history.back =~= Seq::empty());
        assert(instance@.history.forward =~= Seq::empty());
        assert(instance@.texts =~= Map::<usize, crate::text::PageText>::empty());
        instance
    }

    /// The page in view.
    pub fn current_page(&self) -> (r: usize)
        ensures
            r == self.state.current_page,
    {
        self.state.current_page
    }

    /// The table of contents.
    pub fn outline(&self) -> (r: &Vec<OutlineItem>)
        ensures
            r@ == self@.outline,
    {
        &self.outline
    }

    /// Where the reader is.
    pub fn current_position(&self) -> (r: DocumentPosition)
        ensures
            r == self.position(),
    {
        DocumentPosition {
            page: self.state.current_page,
            scale: self.state.scale,
            viewport: self.state.viewport,
        }
    }

    /// The last page, or page 0 of an empty document.
    pub fn last_page(&self) -> (r: usize)
        ensures
            r == last_of(self.info.page_count),
    {
        if self.info.page_count == 0 {
            0
        } else {
            self.info.page_count - 1
        }
    }

    /// Records the move from `previous` to where the reader is now as a jump.
    pub fn record_jump_from(&mut self, previous: DocumentPosition)
        ensures
            Self::moved(old(self), final(self)),
            final(self).position() == old(self).position(),
            final(self)@.history == old(self)@.history.record_navigation(
                previous,
                old(self).position(),
            ),
    {
        let current = self.current_position();
        self.jump_history.record_navigation(previous, current);
    }

    /// Tells the history where the reader is, without recording a jump.
    pub fn sync_jump_position(&mut self)
        ensures
            Self::moved(old(self), final(self)),
            final(self).position() == old(self).position(),
            final(self)@.history == synced(old(self)@.history, old(self).position()),
    {
        let current = self.current_position();
        self.jump_history.record_current(current);
    }

    /// What a jump to `target` does: on another page the reader lands
    /// there with the viewport reset and the move recorded as a jump; on
    /// the page in view nothing moves. With `sync` the history is then
    /// told where the reader is.
    pub open spec fn jumped(pre: &Self, target: usize, sync: bool, post: &Self) -> bool {
        Self::moved(pre, post) && Self::travelled(pre, target, sync, post)
    }

    /// Where a jump to `target` leaves position and history.
    pub open spec fn travelled(pre: &Self, target: usize, sync: bool, post: &Self) -> bool {
        (post.position(), post@.history) == travel(pre.position(), pre@.history, target, sync)
    }

    /// Jumps to page `target` and reports whether the page changed.
    pub fn jump_to(&mut self, target: usize, sync: bool) -> (changed: bool)
        ensures
            Self::jumped(old(self), target, sync, final(self)),
            changed == (target != old(self).state.current_page),
    {
        let previous = self.current_position();
        let changed = if target != self.state.current_page {
            self.state.current_page = target;
            self.state.viewport.reset();
            self.record_jump_from(previous);
            true
        } else {
            false
        };
        if sync {
            self.sync_jump_position();
        }
        changed
    }

    /// What a page step to `target` does: as a jump where the page in
    /// view is more than one page away; else the reader moves there
    /// without a jump being recorded.
    pub open spec fn stepped_to(pre: &Self, target: usize, post: &Self) -> bool {
        &&& Self::moved(pre, post)
        &&& post.position() == if target != pre.state.current_page {
            on_page(pre.position(), target)
        } else {
            pre.position()
        }
        &&& post@.history == if target == pre.state.current_page {
            pre@.history
        } else if target > pre.state.current_page + 1 || target + 1 < pre.state.current_page {
            pre@.history.record_navigation(pre.position(), post.position())
        } else {
            synced(pre@.history, post.position())
        }
    }

    /// Steps to page `target`, which lies in the document.
    fn step_to(&mut self, target: usize) -> (changed: bool)
        ensures
            Self::stepped_to(old(self), target, final(self)),
            changed == (target != old(self).state.current_page),
    {
        let previous = self.current_position();
        if target == self.state.current_page {
            return false;
        }
        let far: bool = if target > previous.page {
            target - previous.page > 1
        } else {
            previous.page - target > 1
        };
        self.state.current_page = target;
        self.state.viewport.reset();
        if far {
            self.record_jump_from(previous);
        } else {
            self.sync_jump_position();
        }
        true
    }

    /// Goes `count` pages on, at most to the last page. A step of more
    /// than one page is recorded as a jump.
    pub fn next_page(&mut self, count: usize) -> (changed: bool)
        ensures
            Self::stepped_to(
                old(self),
                page_within(old(self).info.page_count, old(self).state.current_page + count),
                final(self),
            ),
            changed == (final(self).state.current_page != old(self).state.current_page),
    {
        let last: usize = self.last_page();
        let current: usize = self.state.current_page;
        let target: usize = if current > last || count > last - current {
            last
        } else {
            current + count
        };
        self.step_to(target)
    }

    /// Goes `count` pages back, at most to the first page. A step of
    /// more than one page is recorded as a jump.
    pub fn prev_page(&mut self, count: usize) -> (changed: bool)
        ensures
            Self::stepped_to(
                old(self),
                if count >= old(self).state.current_page {
                    0
                } else {
                    (old(self).state.current_page - count) as usize
                },
                final(self),
            ),
            changed == (final(self).state.current_page != old(self).state.current_page),
    {
        let current: usize = self.state.current_page;
        let target: usize = if count >= current {
            0
        } else {
            current - count
        };
        self.step_to(target)
    }

    /// Goes to `page`, or to the last page where `page` lies beyond it,
    /// and records the move as a jump.
    pub fn goto_page(&mut self, page: usize) -> (changed: bool)
        ensures
            Self::jumped(
                old(self),
                page_within(old(self).info.page_count, page as int),
                false,
                final(self),
            ),
            changed == (final(self).state.current_page != old(self).state.current_page),
    {
        let last: usize = self.last_page();
        let target: usize = if page > last {
            last
        } else {
            page
        };
        self.jump_to(target, false)
    }

    /// Brings zoom factor and viewport to what the engine keeps, and
    /// reports whether either changed.
    pub fn settle_view(&mut self) -> (changed: bool)
        ensures
            Self::moved(old(self), final(self)),
            final(self)@.history == old(self)@.history,
            final(self).state.current_page == old(self).state.current_page,
            final(self).state.scale == clamp_scale(old(self).state.scale as int),
            final(self).state.viewport == fitted(final(self).state.scale, old(self).state.viewport),
            view_settled(final(self).state.scale, final(self).state.viewport),
            changed == (final(self).position() != old(self).position()),
            view_settled(old(self).state.scale, old(self).state.viewport) ==> !changed,
    {
        let before = self.current_position();
        self.state.scale = clamp_scale_value(self.state.scale as u64);
        if self.state.scale <= SCALE_ONE {
            self.state.viewport.reset();
        } else {
            self.state.viewport.clamp();
        }
        let after = self.current_position();
        before != after
    }

    /// What zooming by `factor` does: the zoom factor is multiplied and
    /// clamped, the viewport fitted to it, and the history told.
    pub open spec fn scaled(pre: &Self, factor: u32, post: &Self) -> bool {
        &&& Self::moved(pre, post)
        &&& post.state.current_page == pre.state.current_page
        &&& post.state.scale == clamp_scale(scale_product(pre.state.scale as int, factor as int))
        &&& post.state.viewport == fitted(post.state.scale, pre.state.viewport)
        &&& post@.history == if post.position() != pre.position() {
            synced(pre@.history, post.position())
        } else {
            pre@.history
        }
        &&& view_settled(post.state.scale, post.state.viewport)
    }

    /// Multiplies the zoom factor by `factor` thousandths.
    pub fn scale_by(&mut self, factor: u32) -> (changed: bool)
        ensures
            Self::scaled(old(self), factor, final(self)),
            changed == (final(self).position() != old(self).position()),
    {
        let before = self.current_position();
        self.state.scale = scaled_by(self.state.scale, factor);
        if self.state.scale <= SCALE_ONE {
            self.state.viewport.reset();
        } else {
            self.state.viewport.clamp();
        }
        let after = self.current_position();
        let changed = before != after;
        if changed {
            self.sync_jump_position();
        }
        changed
    }

    /// After every zoom and after every pan the zoom factor lies in its
    /// range, and at or below natural size the viewport stands at the
    /// top-left corner, whatever the document was like before.
    pub proof fn lemma_zoom_and_pan_settle(
        pre: &Self,
        post: &Self,
        factor: u32,
        delta_x: i32,
        delta_y: i32,
    )
        requires
            Self::scaled(pre, factor, post) || Self::panned(pre, delta_x, delta_y, post),
        ensures
            crate::geometry::SCALE_MIN <= post.state.scale <= crate::geometry::SCALE_MAX,
            post.state.scale <= SCALE_ONE ==> post.state.viewport == ViewportOffset::origin(),
            post.state.viewport.in_bounds(),
    {
    }

    /// What resetting the zoom does: natural size, the viewport at the
    /// top-left corner, and the history told.
    pub open spec fn scale_reset(pre: &Self, post: &Self) -> bool {
        &&& Self::moved(pre, post)
        &&& post.position() == (DocumentPosition {
            page: pre.state.current_page,
            scale: SCALE_ONE,
            viewport: ViewportOffset::origin(),
        })
        &&& post@.history == synced(pre@.history, post.position())
    }

    /// Shows the page at its natural size again.
    pub fn reset_scale(&mut self) -> (changed: bool)
        ensures
            Self::scale_reset(old(self), final(self)),
            changed == (final(self).position() != old(self).position()),
    {
        let before = self.current_position();
        self.state.scale = SCALE_ONE;
        self.state.viewport.reset();
        self.sync_jump_position();
        let after = self.current_position();
        before != after
    }

    /// What panning does: zoom factor and viewport are first brought to
    /// what the engine keeps; above natural size the viewport then moves
    /// by the deltas, staying on the page.
    pub open spec fn panned(pre: &Self, delta_x: i32, delta_y: i32, post: &Self) -> bool {
        &&& Self::moved(pre, post)
        &&& post.state.current_page == pre.state.current_page
        &&& post.state.scale == clamp_scale(pre.state.scale as int)
        &&& post.state.viewport == if post.state.scale <= SCALE_ONE {
            ViewportOffset::origin()
        } else {
            pre.state.viewport.clamped().adjusted(delta_x as int, delta_y as int)
        }
        &&& post@.history == if post.position() != pre.position() {
            synced(pre@.history, post.position())
        } else {
            pre@.history
        }
        &&& view_settled(post.state.scale, post.state.viewport)
    }

    /// Pans the viewport.
    pub fn adjust_viewport(&mut self, delta_x: i32, delta_y: i32) -> (changed: bool)
        ensures
            Self::panned(old(self), delta_x, delta_y, final(self)),
            changed == (final(self).position() != old(self).position()),
    {
        let before = self.current_position();
        self.settle_view();
        if self.state.scale > SCALE_ONE {
            self.state.viewport.adjust(delta_x, delta_y);
        }
        let after = self.current_position();
        let changed = before != after;
        if changed {
            self.sync_jump_position();
        }
        changed
    }

    /// Switches between the page's own colours and their inverse.
    pub fn toggle_dark_mode(&mut self)
        ensures
            final(self).info == old(self).info,
            final(self).backend == old(self).backend,
            final(self)@ == old(self)@,
            final(self).state == (PersistedDocumentState {
                dark_mode: !old(self).state.dark_mode,
                ..old(self).state
            }),
    {
        self.state.dark_mode = !self.state.dark_mode;
    }

    /// What returning to `position` does: the reader goes to its page,
    /// kept inside the document, takes its zoom factor, clamped, and its
    /// viewport, fitted to the zoom factor; the history is told.
    pub open spec fn returned(pre: &Self, position: DocumentPosition, post: &Self) -> bool {
        &&& Self::moved(pre, post)
        &&& post.state.current_page == page_within(pre.info.page_count, position.page as int)
        &&& post.state.scale == clamp_scale(position.scale as int)
        &&& post.state.viewport == fitted(post.state.scale, position.viewport)
        &&& post@.history == synced(pre@.history, post.position())
    }

    /// Returns to a recorded position and reports whether anything changed.
    pub fn apply_document_position(&mut self, position: DocumentPosition) -> (changed: bool)
        ensures
            Self::returned(old(self), position, final(self)),
            changed == (final(self).position() != old(self).position()),
    {
        let before = self.current_position();
        let last: usize = self.last_page();
        self.state.current_page = if position.page > last {
            last
        } else {
            position.page
        };
        self.state.scale = clamp_scale_value(position.scale as u64);
        self.state.viewport = position.viewport;
        if self.state.scale <= SCALE_ONE {
            self.state.viewport.reset();
        } else {
            self.state.viewport.clamp();
        }
        self.sync_jump_position();
        let after = self.current_position();
        before != after
    }

    /// What a jump back does: the history steps back from where the
    /// reader is, and the reader returns to where it lands.
    pub open spec fn jumped_back(pre: &Self, post: &Self) -> bool {
        let (history, landed) = pre@.history.jump_backward(pre.position());
        match landed {
            Some(position) => {
                &&& Self::moved(pre, post)
                &&& post.state.current_page == page_within(pre.info.page_count, position.page as int)
                &&& post.state.scale == clamp_scale(position.scale as int)
                &&& post.state.viewport == fitted(post.state.scale, position.viewport)
                &&& post@.history == synced(history, post.position())
            },
            None => {
                &&& Self::moved(pre, post)
                &&& post.position() == pre.position()
                &&& post@.history == history
            },
        }
    }

    /// Jumps back in the history.
    pub fn jump_backward(&mut self) -> (changed: bool)
        ensures
            Self::jumped_back(old(self), final(self)),
            changed == (final(self).position() != old(self).position()),
    {
        let current = self.current_position();
        match self.jump_history.jump_backward(current) {
            Some(position) => self.apply_document_position(position),
            None => false,
        }
    }

    /// What a jump forward does: the history steps forward from where
    /// the reader is, and the reader returns to where it lands.
    pub open spec fn jumped_forward(pre: &Self, post: &Self) -> bool {
        let (history, landed) = pre@.history.jump_forward(pre.position());
        match landed {
            Some(position) => {
                &&& Self::moved(pre, post)
                &&& post.state.current_page == page_within(pre.info.page_count, position.page as int)
                &&& post.state.scale == clamp_scale(position.scale as int)
                &&& post.state.viewport == fitted(post.state.scale, position.viewport)
                &&& post@.history == synced(history, post.position())
            },
            None => {
                &&& Self::moved(pre, post)
                &&& post.position() == pre.position()
                &&& post@.history == history
            },
        }
    }

    /// Jumps forward in the history.
    pub fn jump_forward(&mut self) -> (changed: bool)
        ensures
            Self::jumped_forward(old(self), final(self)),
            changed == (final(self).position() != old(self).position()),
    {
        let current = self.current_position();
        match self.jump_history.jump_forward(current) {
            Some(position) => self.apply_document_position(position),
            None => false,
        }
    }
}

} // verus!
