//! The commands a document takes, and what each does to it.

use vstd::prelude::*;
use crate::backend::{extends, read_from, DocumentBackend};
use crate::document::{fitted, page_within, synced, DocumentInstance, DocumentView};
use crate::geometry::{NormalizedRect, UNIT};
use crate::history::DocumentPosition;
use crate::links::{ExternalLink, LinkFollowResult};
use crate::marks::marks_below;
use crate::model::{DocumentId, DocumentInfo, EngineError, OutlineItem};
use crate::points::{SelectionMotion, SelectionState};
use crate::search::{matches_in_order, searched_all};
use crate::searching::search_begun;
use crate::selection::{at_least_one, motion_moves};
use crate::selecting::hint_for;
use crate::unicode::{lowercased, trimmed};

verus! {

/// What a reader can ask of a session. Zoom factors are counts of
/// thousandths, viewport deltas counts of millionths of the page.
#[derive(Debug)]
pub enum Command {
    NextPage { count: usize },
    PrevPage { count: usize },
    GotoPage { page: usize },
    ScaleBy { factor: u32 },
    ResetScale,
    AdjustViewport { delta_x: i32, delta_y: i32 },
    PutMark { key: char },
    GotoMark { key: char },
    SaveNamedMark { name: String },
    GotoNamedMark { name: String },
    Search { query: String },
    SearchNext { count: usize },
    SearchPrev { count: usize },
    EnterVisualMode,
    StartSelection,
    MoveVisualCursor { motion: SelectionMotion, count: usize },
    ClearSelection,
    LeaveVisualMode,
    RestoreSelection,
    SwapVisualCursor,
    EnterLinkMode,
    LeaveLinkMode,
    LinkNext { count: usize },
    LinkPrev { count: usize },
    ActivateLink,
    ToggleDarkMode,
    SwitchDocument { index: usize },
    CloseDocument { index: usize },
    OpenDocument { path: String },
    JumpBackward,
    JumpForward,
}

impl Command {
    /// Whether the program draws again after this command whatever the
    /// session tells: every command does but those that set or follow
    /// marks by name or set marks by character, those of the selection
    /// mode, and the opening of a document.
    pub open spec fn redraws_always(self) -> bool {
        !(self is PutMark || self is SaveNamedMark || self is GotoNamedMark
            || self is EnterVisualMode || self is StartSelection || self is MoveVisualCursor
            || self is ClearSelection || self is LeaveVisualMode || self is RestoreSelection
            || self is SwapVisualCursor || self is OpenDocument)
    }

    /// Whether the program draws again after this command whatever the
    /// session tells.
    pub fn forces_redraw(&self) -> (r: bool)
        ensures
            r == self.redraws_always(),
    {
        match self {
            Command::GotoPage { .. }
            | Command::NextPage { .. }
            | Command::PrevPage { .. }
            | Command::ScaleBy { .. }
            | Command::ResetScale
            | Command::AdjustViewport { .. }
            | Command::GotoMark { .. }
            | Command::ToggleDarkMode
            | Command::Search { .. }
            | Command::SearchNext { .. }
            | Command::SearchPrev { .. }
            | Command::EnterLinkMode
            | Command::LeaveLinkMode
            | Command::LinkNext { .. }
            | Command::LinkPrev { .. }
            | Command::ActivateLink
            | Command::JumpBackward
            | Command::JumpForward
            | Command::SwitchDocument { .. }
            | Command::CloseDocument { .. } => true,
            _ => false,
        }
    }

    /// Whether this command puts another document in front or takes one
    /// away, so that what is shown over the document no longer belongs
    /// to it.
    pub open spec fn changes_front(self) -> bool {
        self is CloseDocument || self is SwitchDocument
    }

    /// Whether an overlay over the document is closed by this command.
    pub fn resets_overlay(&self) -> (r: bool)
        ensures
            r == self.changes_front(),
    {
        match self {
            Command::CloseDocument { .. } | Command::SwitchDocument { .. } => true,
            _ => false,
        }
    }
}

/// What a session tells the program around it.
#[derive(Debug)]
pub enum SessionEvent {
    DocumentOpened(DocumentId),
    DocumentClosed(DocumentId),
    ActiveDocumentChanged(DocumentId),
    RedrawNeeded(DocumentId),
    FollowExternalLink { target: ExternalLink },
}

/// What a command asks of the program around the engine.
#[derive(Debug)]
pub struct Outcome {
    /// Whether the document must be drawn again.
    pub redraw: bool,
    /// A target outside the document to open.
    pub follow: Option<ExternalLink>,
}

/// The outcome that asks for nothing, or for a redraw alone.
pub open spec fn redraw_if(redraw: bool) -> Outcome {
    Outcome { redraw, follow: None }
}

/// The outcome of following a link.
pub open spec fn follow_outcome(result: LinkFollowResult) -> Outcome {
    match result {
        LinkFollowResult::Navigated { page_changed } => redraw_if(true),
        LinkFollowResult::External { target } => Outcome { redraw: true, follow: Some(target) },
        _ => redraw_if(false),
    }
}

impl<B: DocumentBackend> DocumentInstance<B> {
    /// What putting another version of a document in its place does.
    /// Both caches and everything of link and selection mode are dropped;
    /// the page in view is kept inside the new document and the viewport
    /// fitted to the zoom factor; marks beyond the new document are
    /// forgotten; a search that was under way is made again in the new
    /// document, from the page in view. Afterwards the cache of page
    /// texts holds nothing but texts that the new backend gave for pages
    /// of the new document while the search was made again, and the
    /// matches are those that the new backend's answers and these texts
    /// give.
    pub open spec fn reloaded(
        pre: &Self,
        info: DocumentInfo,
        backend: B,
        outline: Vec<OutlineItem>,
        post: &Self,
    ) -> bool {
        let kept = DocumentPosition {
            page: page_within(info.page_count, pre.state.current_page as int),
            scale: pre.state.scale,
            viewport: fitted(pre.state.scale, pre.state.viewport),
        };
        let again = match pre.search_state {
            Some(state) => trimmed(state.query@).len() > 0,
            None => false,
        };
        &&& post.info == info
        &&& post.backend == backend
        &&& post.outline@ == outline@
        &&& post.render_cache@.len() == 0
        &&& post.link_state is None
        &&& post.selection_state is None
        &&& post.visual_cursor is None
        &&& post.last_selection is None
        &&& post.visual_column_hint == UNIT / 2
        &&& post.state.dark_mode == pre.state.dark_mode
        &&& post.state.scale == pre.state.scale
        &&& post.state.marks@ == marks_below(pre.state.marks@, info.page_count)
        &&& post.state.named_marks@ == marks_below(pre.state.named_marks@, info.page_count)
        &&& read_from(&backend, Map::<usize, crate::text::PageText>::empty(), post@.texts)
        &&& forall|p: usize| post@.texts.contains_key(p) ==> p < info.page_count
        &&& if again {
            &&& post.search_state matches Some(state)
            &&& state.query@ == trimmed(pre.search_state->0.query@)
            &&& matches_in_order(state.matches@, info.page_count)
            &&& exists|answers: Seq<Result<Vec<Vec<NormalizedRect>>, EngineError>>| #[trigger]
                searched_all(
                    &backend,
                    state.matches@,
                    info.page_count,
                    state.query@,
                    answers,
                    post@.texts,
                    lowercased(state.query@),
                )
            &&& ({
                let (search, landed, recorded) = search_begun(
                    info.page_count,
                    kept,
                    pre@.history,
                    state.query,
                    state.matches,
                    kept.page,
                );
                &&& post.search_state == search
                &&& post.position() == landed
                &&& post@.history == synced(recorded, landed)
            })
        } else {
            &&& post.search_state is None
            &&& post.position() == kept
            &&& post@.history == synced(pre@.history, kept)
            &&& post@.texts == Map::<usize, crate::text::PageText>::empty()
        }
    }

    /// Puts another version of the document in place of this one.
    pub fn reload(&mut self, info: DocumentInfo, backend: B, outline: Vec<OutlineItem>)
        ensures
            Self::reloaded(old(self), info, backend, outline, final(self)),
    {
        let previous_query: Option<String> = match &self.search_state {
            Some(state) => Some(state.query.clone()),
            None => None,
        };
        self.info = info;
        self.backend = backend;
        self.outline = outline;
        self.render_cache.clear();
        self.text_cache.clear();
        self.search_state = None;
        self.link_state = None;
        self.selection_state = None;
        self.visual_cursor = None;
        self.visual_column_hint = UNIT / 2;
        self.last_selection = None;
        let last: usize = self.last_page();
        if self.state.current_page > last {
            self.state.current_page = last;
        }
        self.state.marks.retain_below(self.info.page_count);
        self.state.named_marks.retain_below(self.info.page_count);
        if self.state.scale <= crate::geometry::SCALE_ONE {
            self.state.viewport.reset();
        } else {
            self.state.viewport.clamp();
        }
        match previous_query {
            Some(query) => {
                let _ = self.perform_search(query);
            },
            None => {},
        }
        self.sync_jump_position();
    }

    /// What `command` does to a document and asks of the program around
    /// it. The three commands that open, close and switch documents are
    /// not for a document and pass it by.
    pub open spec fn command_applied(
        pre: &Self,
        command: Command,
        post: &Self,
        result: Result<Outcome, EngineError>,
    ) -> bool {
        let page_changed = post.state.current_page != pre.state.current_page;
        let moved = post.position() != pre.position();
        match command {
            Command::NextPage { count } => Self::stepped_to(
                pre,
                page_within(pre.info.page_count, pre.state.current_page + count),
                post,
            ) && result == Ok::<Outcome, EngineError>(redraw_if(page_changed)),
            Command::PrevPage { count } => Self::stepped_to(
                pre,
                if count >= pre.state.current_page {
                    0
                } else {
                    (pre.state.current_page - count) as usize
                },
                post,
            ) && result == Ok::<Outcome, EngineError>(redraw_if(page_changed)),
            Command::GotoPage { page } => Self::jumped(
                pre,
                page_within(pre.info.page_count, page as int),
                false,
                post,
            ) && result == Ok::<Outcome, EngineError>(redraw_if(page_changed)),
            Command::ScaleBy { factor } => Self::scaled(pre, factor, post) && result == Ok::<
                Outcome,
                EngineError,
            >(redraw_if(moved)),
            Command::ResetScale => Self::scale_reset(pre, post) && result == Ok::<
                Outcome,
                EngineError,
            >(redraw_if(moved)),
            Command::AdjustViewport { delta_x, delta_y } => Self::panned(
                pre,
                delta_x,
                delta_y,
                post,
            ) && result == Ok::<Outcome, EngineError>(redraw_if(moved)),
            Command::PutMark { key } => {
                &&& Self::marked(pre, post)
                &&& post.state.named_marks == pre.state.named_marks
                &&& post.state.marks@ == pre.state.marks@.insert(key, pre.state.current_page)
                &&& result == Ok::<Outcome, EngineError>(redraw_if(false))
            },
            Command::GotoMark { key } => Self::jumped(
                pre,
                Self::mark_target(
                    pre,
                    if pre.state.marks@.contains_key(key) {
                        Some(pre.state.marks@[key])
                    } else {
                        None
                    },
                ),
                false,
                post,
            ) && result == Ok::<Outcome, EngineError>(redraw_if(page_changed)),
            Command::SaveNamedMark { name } => {
                &&& Self::marked(pre, post)
                &&& post.state.marks == pre.state.marks
                &&& post.state.named_marks@ == pre.state.named_marks@.insert(
                    name@,
                    pre.state.current_page,
                )
                &&& result == Ok::<Outcome, EngineError>(redraw_if(false))
            },
            Command::GotoNamedMark { name } => Self::jumped(
                pre,
                Self::mark_target(
                    pre,
                    if pre.state.named_marks@.contains_key(name@) {
                        Some(pre.state.named_marks@[name@])
                    } else {
                        None
                    },
                ),
                false,
                post,
            ) && result == Ok::<Outcome, EngineError>(redraw_if(page_changed)),
            Command::Search { query } => Self::search_performed(pre, query, post) && result == Ok::<
                Outcome,
                EngineError,
            >(redraw_if(true)),
            Command::SearchNext { count } => Self::search_advanced(
                pre,
                true,
                at_least_one(count) as usize,
                post,
            ) && result == Ok::<Outcome, EngineError>(redraw_if(pre.search_state is Some)),
            Command::SearchPrev { count } => Self::search_advanced(
                pre,
                false,
                at_least_one(count) as usize,
                post,
            ) && result == Ok::<Outcome, EngineError>(redraw_if(pre.search_state is Some)),
            Command::EnterVisualMode => match result {
                Ok(outcome) => Self::cursor_ensured(pre, post) && outcome == redraw_if(
                    post.visual_cursor != pre.visual_cursor,
                ),
                Err(_) => Self::read_more(pre, post) && !Self::cursor_loaded(pre, pre@.texts),
            },
            Command::StartSelection => if pre.selection_state is Some {
                *post == *pre && result == Ok::<Outcome, EngineError>(redraw_if(false))
            } else {
                match result {
                    Ok(outcome) => {
                        &&& Self::cursor_ensured(
                            pre,
                            &(DocumentInstance { selection_state: None, ..*post }),
                        )
                        &&& post.selection_state == match post.visual_cursor {
                            Some(point) => Some(SelectionState { anchor: point, head: point }),
                            None => None,
                        }
                        &&& outcome == redraw_if(post.visual_cursor is Some)
                    },
                    Err(_) => Self::read_more(pre, post) && !Self::cursor_loaded(pre, pre@.texts),
                }
            },
            Command::MoveVisualCursor { motion, count } => match result {
                Ok(outcome) => {
                    &&& Self::cursor_moved(pre, motion, at_least_one(count) as usize, post)
                    &&& outcome == redraw_if(
                        pre.info.page_count > 0 && motion_moves(
                            post@.texts,
                            pre.info.page_count,
                            motion,
                            at_least_one(count) as usize,
                            Self::ensured_cursor(pre, post@.texts)->0,
                        ),
                    )
                },
                Err(_) => {
                    &&& *post == (DocumentInstance {
                        text_cache: post.text_cache,
                        visual_cursor: post.visual_cursor,
                        visual_column_hint: post.visual_column_hint,
                        ..*pre
                    })
                    &&& extends(pre@.texts, post@.texts)
                    &&& !Self::move_loaded(pre, motion, at_least_one(count) as usize, pre@.texts)
                    &&& Self::cursor_ensured(pre, post) || (post.visual_cursor == pre.visual_cursor
                        && post.visual_column_hint == pre.visual_column_hint)
                },
            },
            Command::ClearSelection => Self::selection_cleared(pre, true, post) && result == Ok::<
                Outcome,
                EngineError,
            >(redraw_if(pre.selection_state is Some)),
            Command::LeaveVisualMode => {
                &&& Self::selection_cleared(
                    pre,
                    true,
                    &(DocumentInstance {
                        visual_cursor: match pre.selection_state {
                            Some(selection) => Some(selection.head),
                            None => pre.visual_cursor,
                        },
                        ..*post
                    }),
                )
                &&& post.visual_cursor is None
                &&& result == Ok::<Outcome, EngineError>(
                    redraw_if(pre.selection_state is Some || pre.visual_cursor is Some),
                )
            },
            Command::RestoreSelection => match result {
                Ok(outcome) => Self::selection_restored(pre, post) && outcome == redraw_if(
                    pre.last_selection is Some,
                ),
                Err(_) => Self::read_more(pre, post) && !Self::restore_loaded(pre, pre@.texts),
            },
            Command::SwapVisualCursor => match pre.selection_state {
                Some(selection) => {
                    &&& *post == (DocumentInstance {
                        text_cache: post.text_cache,
                        selection_state: Some(selection.swapped()),
                        visual_cursor: Some(selection.anchor),
                        visual_column_hint: hint_for(
                            post@.texts,
                            pre.info.page_count,
                            selection.anchor,
                            pre.visual_column_hint,
                        ),
                        ..*pre
                    })
                    &&& extends(pre@.texts, post@.texts)
                    &&& result == Ok::<Outcome, EngineError>(redraw_if(true))
                },
                None => *post == *pre && result == Ok::<Outcome, EngineError>(redraw_if(false)),
            },
            Command::EnterLinkMode => Self::links_collected(pre, post) && result == Ok::<
                Outcome,
                EngineError,
            >(redraw_if(true)),
            Command::LeaveLinkMode => *post == (DocumentInstance { link_state: None, ..*pre })
                && result == Ok::<Outcome, EngineError>(redraw_if(true)),
            Command::LinkNext { count } => Self::link_advanced(
                pre,
                true,
                at_least_one(count) as usize,
                post,
            ) && result == Ok::<Outcome, EngineError>(redraw_if(pre.link_state is Some)),
            Command::LinkPrev { count } => Self::link_advanced(
                pre,
                false,
                at_least_one(count) as usize,
                post,
            ) && result == Ok::<Outcome, EngineError>(redraw_if(pre.link_state is Some)),
            Command::ActivateLink => match result {
                Ok(outcome) => exists|followed: LinkFollowResult|
                    Self::link_followed(pre, post, followed) && outcome == follow_outcome(followed),
                Err(_) => false,
            },
            Command::ToggleDarkMode => {
                &&& post.info == pre.info
                &&& post.backend == pre.backend
                &&& post@ == pre@
                &&& post.state == (crate::model::PersistedDocumentState {
                    dark_mode: !pre.state.dark_mode,
                    ..pre.state
                })
                &&& result == Ok::<Outcome, EngineError>(redraw_if(true))
            },
            Command::JumpBackward => Self::jumped_back(pre, post) && result == Ok::<
                Outcome,
                EngineError,
            >(redraw_if(moved)),
            Command::JumpForward => Self::jumped_forward(pre, post) && result == Ok::<
                Outcome,
                EngineError,
            >(redraw_if(moved)),
            Command::SwitchDocument { .. } | Command::CloseDocument { .. } | Command::OpenDocument {
                ..
            } => *post == *pre && result == Ok::<Outcome, EngineError>(redraw_if(false)),
        }
    }

    /// What a search for `query` does: see `perform_search`.
    pub open spec fn search_performed(pre: &Self, query: String, post: &Self) -> bool {
        &&& Self::same_document(pre, post)
        &&& post@ == (DocumentView {
            history: post@.history,
            search: post@.search,
            texts: post@.texts,
            ..pre@
        })
        &&& extends(pre@.texts, post@.texts)
        &&& post.state.scale == pre.state.scale
        &&& if trimmed(query@).len() == 0 {
            &&& post.search_state is None
            &&& post.position() == pre.position()
            &&& post@.history == synced(pre@.history, pre.position())
            &&& post@.texts == pre@.texts
        } else {
            &&& post.search_state matches Some(state)
            &&& state.query@ == trimmed(query@)
            &&& matches_in_order(state.matches@, pre.info.page_count)
            &&& Self::results_applied(pre, state.query, state.matches, pre.state.current_page, post)
        }
    }

    /// Applies a command to the document.
    pub fn apply_command(&mut self, command: Command) -> (r: Result<Outcome, EngineError>)
        ensures
            Self::command_applied(old(self), command, final(self), r),
    {
        match command {
            Command::NextPage { count } => {
                let redraw = self.next_page(count);
                Ok(Outcome { redraw, follow: None })
            },
            Command::PrevPage { count } => {
                let redraw = self.prev_page(count);
                Ok(Outcome { redraw, follow: None })
            },
            Command::GotoPage { page } => {
                let redraw = self.goto_page(page);
                Ok(Outcome { redraw, follow: None })
            },
            Command::ScaleBy { factor } => {
                let redraw = self.scale_by(factor);
                Ok(Outcome { redraw, follow: None })
            },
            Command::ResetScale => {
                let redraw = self.reset_scale();
                Ok(Outcome { redraw, follow: None })
            },
            Command::AdjustViewport { delta_x, delta_y } => {
                let redraw = self.adjust_viewport(delta_x, delta_y);
                Ok(Outcome { redraw, follow: None })
            },
            Command::PutMark { key } => {
                self.put_mark(key);
                Ok(Outcome { redraw: false, follow: None })
            },
            Command::GotoMark { key } => {
                let redraw = self.goto_mark(key);
                Ok(Outcome { redraw, follow: None })
            },
            Command::SaveNamedMark { name } => {
                self.save_named_mark(name);
                Ok(Outcome { redraw: false, follow: None })
            },
            Command::GotoNamedMark { name } => {
                let redraw = self.goto_named_mark(name.as_str());
                Ok(Outcome { redraw, follow: None })
            },
            Command::Search { query } => {
                let _ = self.perform_search(query);
                Ok(Outcome { redraw: true, follow: None })
            },
            Command::SearchNext { count } => {
                let steps: usize = if count < 1 {
                    1
                } else {
                    count
                };
                let redraw = self.next_search_match(steps).is_some();
                Ok(Outcome { redraw, follow: None })
            },
            Command::SearchPrev { count } => {
                let steps: usize = if count < 1 {
                    1
                } else {
                    count
                };
                let redraw = self.previous_search_match(steps).is_some();
                Ok(Outcome { redraw, follow: None })
            },
            Command::EnterVisualMode => {
                let redraw = self.ensure_visual_cursor()?;
                Ok(Outcome { redraw, follow: None })
            },
            Command::StartSelection => {
                let redraw = self.start_selection()?;
                Ok(Outcome { redraw, follow: None })
            },
            Command::MoveVisualCursor { motion, count } => {
                let steps: usize = if count < 1 {
                    1
                } else {
                    count
                };
                let redraw = self.move_visual_cursor(motion, steps)?;
                Ok(Outcome { redraw, follow: None })
            },
            Command::ClearSelection => {
                let redraw = self.clear_selection_state(true);
                Ok(Outcome { redraw, follow: None })
            },
            Command::LeaveVisualMode => {
                let redraw = self.leave_visual_mode(true);
                Ok(Outcome { redraw, follow: None })
            },
            Command::RestoreSelection => {
                let redraw = self.restore_last_selection()?;
                Ok(Outcome { redraw, follow: None })
            },
            Command::SwapVisualCursor => {
                let redraw = self.swap_visual_cursor();
                Ok(Outcome { redraw, follow: None })
            },
            Command::EnterLinkMode => {
                let _ = self.start_link_mode();
                Ok(Outcome { redraw: true, follow: None })
            },
            Command::LeaveLinkMode => {
                self.clear_link_state();
                Ok(Outcome { redraw: true, follow: None })
            },
            Command::LinkNext { count } => {
                let steps: usize = if count < 1 {
                    1
                } else {
                    count
                };
                let redraw = self.next_link(steps).is_some();
                Ok(Outcome { redraw, follow: None })
            },
            Command::LinkPrev { count } => {
                let steps: usize = if count < 1 {
                    1
                } else {
                    count
                };
                let redraw = self.previous_link(steps).is_some();
                Ok(Outcome { redraw, follow: None })
            },
            Command::ActivateLink => {
                let followed = self.activate_link();
                let ghost seen = followed;
                let outcome = match followed {
                    LinkFollowResult::Navigated { .. } => Outcome { redraw: true, follow: None },
                    LinkFollowResult::External { target } => Outcome {
                        redraw: true,
                        follow: Some(target),
                    },
                    LinkFollowResult::Unsupported | LinkFollowResult::NoActiveLink => Outcome {
                        redraw: false,
                        follow: None,
                    },
                };
                assert(outcome == follow_outcome(seen));
                Ok(outcome)
            },
            Command::ToggleDarkMode => {
                self.toggle_dark_mode();
                Ok(Outcome { redraw: true, follow: None })
            },
            Command::JumpBackward => {
                let redraw = self.jump_backward();
                Ok(Outcome { redraw, follow: None })
            },
            Command::JumpForward => {
                let redraw = self.jump_forward();
                Ok(Outcome { redraw, follow: None })
            },
            Command::SwitchDocument { .. } | Command::CloseDocument { .. } | Command::OpenDocument {
                ..
            } => Ok(Outcome { redraw: false, follow: None }),
        }
    }
}

} // verus!
