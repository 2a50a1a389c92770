//! The selection mode of a document: its cursor and its selection.

use vstd::prelude::*;
use crate::backend::{cached_text, ensure_page_text, extends, DocumentBackend};
use crate::document::{DocumentInstance, DocumentView};
use crate::geometry::{Highlights, NormalizedRect, ViewportOffset};
use crate::model::{EngineError, PersistedDocumentState};
use crate::points::{SelectionMotion, SelectionPoint, SelectionSnapshot, SelectionState};
use crate::selection::{
    at_least_one, build_selection_highlights, clamp_point, clamped_page, extract_selection_text,
    glyphs_on, inside, lemma_motion_inside, loaded, motion_end, motion_loaded, motion_moves,
    lemma_selected_text_extends, move_point, selected_text, selection_rects, span_loaded,
    texts_well_formed, within, Texts,
};
use crate::text::{glyph_near_point, lemma_pick_exists, picked_glyph, PageText};

verus! {

/// The glyph whose rectangle stands for a cursor at `glyph_index`: that
/// glyph, or the last one for a cursor behind it.
pub open spec fn cursor_glyph(text: PageText, glyph_index: usize) -> int {
    if glyph_index < text.glyph_seq().len() - 1 {
        glyph_index as int
    } else {
        text.glyph_seq().len() - 1
    }
}

/// The rectangle that stands for a cursor at `p`: none where the text of
/// its page is not in `texts`, where the page has no glyph, or where the
/// glyph's rectangle has no area.
pub open spec fn cursor_rect(texts: Texts, page_count: usize, p: SelectionPoint) -> Option<
    NormalizedRect,
> {
    if loaded(texts, page_count, p.page as int) && glyphs_on(texts, p.page) > 0 {
        let rect = texts[p.page].glyph_seq()[cursor_glyph(texts[p.page], p.glyph_index)].rect;
        if rect.valid() {
            Some(rect)
        } else {
            None
        }
    } else {
        None
    }
}

/// The column hint once the cursor was seen at `p`: the horizontal
/// middle of the cursor's rectangle, or the hint as it was where the
/// cursor has none.
pub open spec fn hint_for(texts: Texts, page_count: usize, p: SelectionPoint, hint: i32) -> i32 {
    match cursor_rect(texts, page_count, p) {
        Some(rect) => rect.center_x() as i32,
        None => hint,
    }
}

/// `p` brought into the document.
pub open spec fn clamped_point(texts: Texts, page_count: usize, p: SelectionPoint) -> SelectionPoint {
    if page_count == 0 {
        SelectionPoint { page: 0, glyph_index: 0 }
    } else {
        SelectionPoint {
            page: clamped_page(page_count, p.page),
            glyph_index: within(texts, clamped_page(page_count, p.page), p.glyph_index),
        }
    }
}

/// Whether `texts` holds what bringing `p` into the document reads.
pub open spec fn clamp_loaded(texts: Texts, page_count: usize, p: SelectionPoint) -> bool {
    page_count == 0 || texts.contains_key(clamped_page(page_count, p.page))
}

/// Where the cursor first appears: on the page in view, at the glyph
/// that the viewport's corner picks.
pub open spec fn first_cursor(
    texts: Texts,
    page_count: usize,
    current_page: usize,
    viewport: ViewportOffset,
) -> SelectionPoint {
    let page = clamped_page(page_count, current_page);
    SelectionPoint {
        page,
        glyph_index: if glyphs_on(texts, page) == 0 {
            0
        } else {
            picked_glyph(texts[page].glyph_seq(), viewport.x as int, viewport.y as int) as usize
        },
    }
}

impl<B: DocumentBackend> DocumentInstance<B> {
    /// Whether `post` differs from `pre` at most in what the selection
    /// mode changes: the cursor and its column hint, the selection and
    /// the remembered one, the page in view with its viewport, and the
    /// cached page texts, of which none is lost.
    pub open spec fn selecting(pre: &Self, post: &Self) -> bool {
        &&& Self::same_document(pre, post)
        &&& post.state.scale == pre.state.scale
        &&& post@ == (DocumentView {
            texts: post@.texts,
            selection: post@.selection,
            cursor: post@.cursor,
            remembered: post@.remembered,
            column_hint: post@.column_hint,
            ..pre@
        })
        &&& extends(pre@.texts, post@.texts)
    }

    /// The cursor that the selection mode works with: the cursor there
    /// is, brought into the document; else, unless the document is
    /// empty, the cursor where it first appears.
    pub open spec fn ensured_cursor(pre: &Self, texts: Texts) -> Option<SelectionPoint> {
        match pre.visual_cursor {
            Some(p) => Some(clamped_point(texts, pre.info.page_count, p)),
            None => if pre.info.page_count == 0 {
                None
            } else {
                Some(
                    first_cursor(
                        texts,
                        pre.info.page_count,
                        pre.state.current_page,
                        pre.state.viewport,
                    ),
                )
            },
        }
    }

    /// Whether `texts` holds what finding that cursor reads.
    pub open spec fn cursor_loaded(pre: &Self, texts: Texts) -> bool {
        match pre.visual_cursor {
            Some(p) => clamp_loaded(texts, pre.info.page_count, p),
            None => pre.info.page_count == 0 || texts.contains_key(
                clamped_page(pre.info.page_count, pre.state.current_page),
            ),
        }
    }

    /// The column hint after the cursor was found.
    pub open spec fn ensured_hint(pre: &Self, texts: Texts) -> i32 {
        if Self::ensured_cursor(pre, texts) != pre.visual_cursor {
            hint_for(
                texts,
                pre.info.page_count,
                Self::ensured_cursor(pre, texts)->0,
                pre.visual_column_hint,
            )
        } else {
            pre.visual_column_hint
        }
    }

    /// Notes the column at which the cursor is seen at `point`.
    pub fn update_column_hint(&mut self, point: SelectionPoint)
        ensures
            *final(self) == (DocumentInstance {
                text_cache: final(self).text_cache,
                visual_column_hint: final(self).visual_column_hint,
                ..*old(self)
            }),
            extends(old(self)@.texts, final(self)@.texts),
            old(self)@.texts.contains_key(point.page) ==> final(self)@.texts == old(self)@.texts,
            final(self).visual_column_hint == hint_for(
                final(self)@.texts,
                old(self).info.page_count,
                point,
                old(self).visual_column_hint,
            ),
    {
        match ensure_page_text(point.page, self.info.page_count, &self.backend, &mut self.text_cache) {
            Ok(_) => {},
            Err(_) => {
                return ;
            },
        }
        proof {
            if old(self)@.texts.contains_key(point.page) {
                assert(self.text_cache@ =~= old(self).text_cache@);
            }
        }
        let text = cached_text(&self.text_cache, point.page);
        let glyph_count: usize = text.glyph_count();
        if glyph_count == 0 {
            return ;
        }
        let index: usize = if point.glyph_index < glyph_count - 1 {
            point.glyph_index
        } else {
            glyph_count - 1
        };
        let rect = text.glyphs()[index].rect;
        if rect.is_valid() {
            let (x, _) = rect.center();
            self.visual_column_hint = x;
        }
    }

    /// What finding the cursor does: the cursor becomes the one that the
    /// selection mode works with, and where that changes it, the column
    /// hint follows.
    pub open spec fn cursor_ensured(pre: &Self, post: &Self) -> bool {
        &&& *post == (DocumentInstance {
            text_cache: post.text_cache,
            visual_cursor: post.visual_cursor,
            visual_column_hint: post.visual_column_hint,
            ..*pre
        })
        &&& extends(pre@.texts, post@.texts)
        &&& Self::cursor_loaded(pre, post@.texts)
        &&& post.visual_cursor == Self::ensured_cursor(pre, post@.texts)
        &&& post.visual_column_hint == Self::ensured_hint(pre, post@.texts)
    }

    /// Makes sure that there is a cursor and that it lies in the
    /// document. Returns whether the cursor changed. Where a page text
    /// that this needs cannot be had, only the cache of page texts may
    /// have grown.
    pub fn ensure_visual_cursor(&mut self) -> (r: Result<bool, EngineError>)
        ensures
            match r {
                Ok(changed) => Self::cursor_ensured(old(self), final(self)) && changed == (
                final(self).visual_cursor != old(self).visual_cursor),
                Err(_) => *final(self) == (DocumentInstance {
                    text_cache: final(self).text_cache,
                    ..*old(self)
                }) && extends(old(self)@.texts, final(self)@.texts) && !Self::cursor_loaded(
                    old(self),
                    old(self)@.texts,
                ),
            },
    {
        match self.visual_cursor {
            Some(point) => {
                let clamped = clamp_point(
                    point,
                    self.info.page_count,
                    &self.backend,
                    &mut self.text_cache,
                )?;
                if clamped != point {
                    self.visual_cursor = Some(clamped);
                    self.update_column_hint(clamped);
                    return Ok(true);
                }
                Ok(false)
            },
            None => {
                if self.info.page_count == 0 {
                    return Ok(false);
                }
                let page: usize = if self.state.current_page >= self.info.page_count {
                    self.info.page_count - 1
                } else {
                    self.state.current_page
                };
                ensure_page_text(page, self.info.page_count, &self.backend, &mut self.text_cache)?;
                let text = cached_text(&self.text_cache, page);
                let glyph_index: usize = if text.glyph_count() == 0 {
                    0
                } else {
                    glyph_near_point(text, self.state.viewport.x, self.state.viewport.y)
                };
                let point = SelectionPoint { page, glyph_index };
                self.visual_cursor = Some(point);
                self.update_column_hint(point);
                Ok(true)
            },
        }
    }

    /// Starts a selection at the cursor. Returns whether one was
    /// started: none is where one is under way, or in an empty document.
    pub fn start_selection(&mut self) -> (r: Result<bool, EngineError>)
        ensures
            old(self).selection_state is Some ==> *final(self) == *old(self) && r == Ok::<
                bool,
                EngineError,
            >(false),
            old(self).selection_state is None ==> match r {
                Ok(started) => {
                    &&& Self::cursor_ensured(
                        old(self),
                        &(DocumentInstance { selection_state: None, ..*final(self) }),
                    )
                    &&& started == final(self).visual_cursor is Some
                    &&& final(self).selection_state == match final(self).visual_cursor {
                        Some(point) => Some(SelectionState { anchor: point, head: point }),
                        None => None,
                    }
                },
                Err(_) => *final(self) == (DocumentInstance {
                    text_cache: final(self).text_cache,
                    ..*old(self)
                }) && extends(old(self)@.texts, final(self)@.texts) && !Self::cursor_loaded(
                    old(self),
                    old(self)@.texts,
                ),
            },
    {
        if self.selection_state.is_some() {
            return Ok(false);
        }
        self.ensure_visual_cursor()?;
        match self.visual_cursor {
            Some(point) => {
                self.selection_state = Some(SelectionState { anchor: point, head: point });
                Ok(true)
            },
            None => Ok(false),
        }
    }

    /// What giving up the selection does: the cursor stays at the
    /// selection's head, the column hint follows it, and with `remember`
    /// the span is kept for later.
    pub open spec fn selection_cleared(pre: &Self, remember: bool, post: &Self) -> bool {
        match pre.selection_state {
            Some(selection) => {
                &&& *post == (DocumentInstance {
                    text_cache: post.text_cache,
                    selection_state: None,
                    visual_cursor: Some(selection.head),
                    last_selection: if remember {
                        Some(selection.spec_normalized())
                    } else {
                        pre.last_selection
                    },
                    visual_column_hint: hint_for(
                        post@.texts,
                        pre.info.page_count,
                        selection.head,
                        pre.visual_column_hint,
                    ),
                    ..*pre
                })
                &&& extends(pre@.texts, post@.texts)
            },
            None => *post == *pre,
        }
    }

    /// Gives up the selection and reports whether there was one.
    pub fn clear_selection_state(&mut self, remember: bool) -> (changed: bool)
        ensures
            Self::selection_cleared(old(self), remember, final(self)),
            changed == old(self).selection_state is Some,
    {
        match self.selection_state {
            Some(selection) => {
                if remember {
                    self.last_selection = Some(selection.normalized());
                }
                self.selection_state = None;
                self.visual_cursor = Some(selection.head);
                self.update_column_hint(selection.head);
                true
            },
            None => false,
        }
    }

    /// Keeps the span of the selection for later.
    pub fn remember_selection(&mut self)
        ensures
            *final(self) == (DocumentInstance {
                last_selection: match old(self).selection_state {
                    Some(selection) => Some(selection.spec_normalized()),
                    None => old(self).last_selection,
                },
                ..*old(self)
            }),
    {
        match self.selection_state {
            Some(selection) => {
                self.last_selection = Some(selection.normalized());
            },
            None => {},
        }
    }

    /// Leaves the selection mode: gives up the selection, then the
    /// cursor. Returns whether there was either.
    pub fn leave_visual_mode(&mut self, remember: bool) -> (changed: bool)
        ensures
            Self::selection_cleared(
                old(self),
                remember,
                &(DocumentInstance {
                    visual_cursor: match old(self).selection_state {
                        Some(selection) => Some(selection.head),
                        None => old(self).visual_cursor,
                    },
                    ..*final(self)
                }),
            ),
            final(self).visual_cursor is None,
            changed == (old(self).selection_state is Some || old(self).visual_cursor is Some),
    {
        let mut changed = self.clear_selection_state(remember);
        if self.visual_cursor.is_some() {
            self.visual_cursor = None;
            changed = true;
        }
        changed
    }

    /// What taking up the remembered selection does: its ends, brought
    /// into the document, become anchor and head, and the cursor stands
    /// at the head.
    pub open spec fn selection_restored(pre: &Self, post: &Self) -> bool {
        match pre.last_selection {
            Some(span) => {
                let start = clamped_point(post@.texts, pre.info.page_count, span.start);
                let end = clamped_point(post@.texts, pre.info.page_count, span.end);
                &&& clamp_loaded(post@.texts, pre.info.page_count, span.start)
                &&& clamp_loaded(post@.texts, pre.info.page_count, span.end)
                &&& *post == (DocumentInstance {
                    text_cache: post.text_cache,
                    selection_state: Some(SelectionState { anchor: start, head: end }),
                    visual_cursor: Some(end),
                    visual_column_hint: hint_for(
                        post@.texts,
                        pre.info.page_count,
                        end,
                        pre.visual_column_hint,
                    ),
                    ..*pre
                })
                &&& extends(pre@.texts, post@.texts)
            },
            None => *post == *pre,
        }
    }

    /// Whether `texts` holds every page text that taking up the
    /// remembered selection reads: those of the pages of its two ends,
    /// brought into the document.
    pub open spec fn restore_loaded(pre: &Self, texts: Texts) -> bool {
        match pre.last_selection {
            Some(span) => clamp_loaded(texts, pre.info.page_count, span.start) && clamp_loaded(
                texts,
                pre.info.page_count,
                span.end,
            ),
            None => true,
        }
    }

    /// Takes up the selection that was last given up. Returns whether
    /// there was one. This succeeds whenever the page texts that it
    /// reads are cached, and where no selection is remembered; where it
    /// fails, only the cache of page texts may have grown.
    pub fn restore_last_selection(&mut self) -> (r: Result<bool, EngineError>)
        ensures
            Self::restore_loaded(old(self), old(self)@.texts) ==> r is Ok,
            match r {
                Ok(restored) => Self::selection_restored(old(self), final(self)) && restored == old(self).last_selection is Some,
                Err(_) => *final(self) == (DocumentInstance {
                    text_cache: final(self).text_cache,
                    ..*old(self)
                }) && extends(old(self)@.texts, final(self)@.texts),
            },
    {
        let span = match self.last_selection {
            Some(span) => span,
            None => {
                return Ok(false);
            },
        };
        let start = clamp_point(span.start, self.info.page_count, &self.backend, &mut self.text_cache)?;
        let ghost mid = self.text_cache@;
        assert(Self::restore_loaded(old(self), old(self)@.texts) ==> clamp_loaded(
            mid,
            self.info.page_count,
            span.end,
        ));
        let end = clamp_point(span.end, self.info.page_count, &self.backend, &mut self.text_cache)?;
        proof {
            if self.info.page_count > 0 {
                assert(self.text_cache@[start.page] == mid[start.page]);
            }
        }
        self.selection_state = Some(SelectionState { anchor: start, head: end });
        self.visual_cursor = Some(end);
        let ghost before_hint = self.text_cache@;
        self.update_column_hint(end);
        proof {
            if self.info.page_count > 0 {
                assert(self.text_cache@[start.page] == before_hint[start.page]);
                assert(self.text_cache@[end.page] == before_hint[end.page]);
            }
        }
        Ok(true)
    }

    /// Exchanges anchor and head of the selection; the cursor follows
    /// the head. Returns whether there is a selection.
    pub fn swap_visual_cursor(&mut self) -> (changed: bool)
        ensures
            match old(self).selection_state {
                Some(selection) => {
                    &&& *final(self) == (DocumentInstance {
                        text_cache: final(self).text_cache,
                        selection_state: Some(selection.swapped()),
                        visual_cursor: Some(selection.anchor),
                        visual_column_hint: hint_for(
                            final(self)@.texts,
                            old(self).info.page_count,
                            selection.anchor,
                            old(self).visual_column_hint,
                        ),
                        ..*old(self)
                    })
                    &&& extends(old(self)@.texts, final(self)@.texts)
                    &&& changed
                },
                None => *final(self) == *old(self) && !changed,
            },
    {
        match self.selection_state {
            Some(selection) => {
                let head = selection.anchor;
                self.selection_state = Some(SelectionState { anchor: selection.head, head });
                self.visual_cursor = Some(head);
                self.update_column_hint(head);
                true
            },
            None => false,
        }
    }

    /// What moving the cursor does. In an empty document nothing
    /// happens. Else the cursor is found first; the motion starts from
    /// it, `count` times and at least once for the motions that repeat.
    /// Where the motion moves the cursor, the column hint and the head of
    /// the selection follow it, and a cursor on another page brings that
    /// page into view with the viewport reset.
    pub open spec fn cursor_moved(
        pre: &Self,
        motion: SelectionMotion,
        count: usize,
        post: &Self,
    ) -> bool {
        let texts = post@.texts;
        let pages = pre.info.page_count;
        let steps = at_least_one(count) as usize;
        if pages == 0 {
            *post == *pre
        } else {
            let from = Self::ensured_cursor(pre, texts)->0;
            let moves = motion_moves(texts, pages, motion, steps, from);
            let end = motion_end(texts, pages, motion, steps, from);
            &&& Self::selecting(pre, post)
            &&& Self::cursor_loaded(pre, texts)
            &&& motion_loaded(texts, pages, motion, steps, from)
            &&& post.last_selection == pre.last_selection
            &&& post.state.current_page == if moves {
                end.page
            } else {
                pre.state.current_page
            }
            &&& post.state.viewport == if moves && end.page != pre.state.current_page {
                ViewportOffset::origin()
            } else {
                pre.state.viewport
            }
            &&& post.visual_cursor == if moves {
                Some(end)
            } else {
                Some(from)
            }
            &&& post.visual_column_hint == if moves {
                hint_for(texts, pages, end, Self::ensured_hint(pre, texts))
            } else {
                Self::ensured_hint(pre, texts)
            }
            &&& post.selection_state == match pre.selection_state {
                Some(selection) => Some(
                    SelectionState {
                        head: if moves {
                            end
                        } else {
                            selection.head
                        },
                        ..selection
                    },
                ),
                None => None,
            }
        }
    }

    /// Whether `texts` holds every page text that moving the cursor
    /// reads: what finding the cursor reads, and what the motion reads
    /// from there.
    pub open spec fn move_loaded(
        pre: &Self,
        motion: SelectionMotion,
        count: usize,
        texts: Texts,
    ) -> bool {
        pre.info.page_count == 0 || (Self::cursor_loaded(pre, texts) && motion_loaded(
            texts,
            pre.info.page_count,
            motion,
            at_least_one(count) as usize,
            Self::ensured_cursor(pre, texts)->0,
        ))
    }

    /// Moves the cursor and reports whether it moved. This succeeds
    /// whenever the page texts that it reads are cached, and in an empty
    /// document. Where a page text that it needs cannot be had, the
    /// cursor may have been found, and nothing else has changed.
    pub fn move_visual_cursor(&mut self, motion: SelectionMotion, count: usize) -> (r: Result<
        bool,
        EngineError,
    >)
        ensures
            Self::move_loaded(old(self), motion, count, old(self)@.texts) ==> r is Ok,
            match r {
                Ok(changed) => {
                    &&& Self::cursor_moved(old(self), motion, count, final(self))
                    &&& changed == (old(self).info.page_count > 0 && motion_moves(
                        final(self)@.texts,
                        old(self).info.page_count,
                        motion,
                        at_least_one(count) as usize,
                        Self::ensured_cursor(old(self), final(self)@.texts)->0,
                    ))
                },
                Err(_) => {
                    &&& *final(self) == (DocumentInstance {
                        text_cache: final(self).text_cache,
                        visual_cursor: final(self).visual_cursor,
                        visual_column_hint: final(self).visual_column_hint,
                        ..*old(self)
                    })
                    &&& extends(old(self)@.texts, final(self)@.texts)
                    &&& Self::cursor_ensured(old(self), final(self)) || (final(self).visual_cursor
                        == old(self).visual_cursor
                        && final(self).visual_column_hint == old(self).visual_column_hint)
                },
            },
    {
        if self.info.page_count == 0 {
            return Ok(false);
        }
        self.ensure_visual_cursor()?;
        let ghost found = *self;
        let cursor = match self.visual_cursor {
            Some(point) => point,
            None => {
                return Ok(false);
            },
        };
        let (changed, end) = match move_point(
            motion,
            count,
            cursor,
            self.info.page_count,
            &self.backend,
            &mut self.text_cache,
        ) {
            Ok(moved) => moved,
            Err(e) => {
                proof {
                    Self::lemma_cursor_extends(old(self), found@.texts, self.text_cache@);
                    if Self::move_loaded(old(self), motion, count, old(self)@.texts) {
                        Self::lemma_cursor_extends(old(self), old(self)@.texts, found@.texts);
                        crate::selection::lemma_motion_extends(
                            old(self)@.texts,
                            found@.texts,
                            self.info.page_count,
                            motion,
                            at_least_one(count) as usize,
                            cursor,
                        );
                    }
                }
                return Err(e);
            },
        };
        let ghost moved_texts = self.text_cache@;
        proof {
            Self::lemma_cursor_extends(old(self), found@.texts, moved_texts);
        }
        if changed {
            self.visual_cursor = Some(end);
            self.update_column_hint(end);
            if self.state.current_page != end.page {
                self.state.current_page = end.page;
                self.state.viewport.reset();
            }
            match self.selection_state {
                Some(selection) => {
                    self.selection_state = Some(
                        SelectionState { anchor: selection.anchor, head: end },
                    );
                },
                None => {},
            }
        }
        proof {
            Self::lemma_cursor_extends(old(self), moved_texts, self.text_cache@);
            crate::selection::lemma_motion_extends(
                moved_texts,
                self.text_cache@,
                self.info.page_count,
                motion,
                at_least_one(count) as usize,
                cursor,
            );
        }
        Ok(changed)
    }

    /// In a document with pages, the cursor that the selection mode
    /// works with lies inside the document.
    pub proof fn lemma_cursor_inside(pre: &Self, texts: Texts)
        requires
            pre.info.page_count > 0,
            Self::cursor_loaded(pre, texts),
        ensures
            Self::ensured_cursor(pre, texts) matches Some(cursor) && inside(
                texts,
                pre.info.page_count,
                cursor,
            ),
    {
        if pre.visual_cursor is None {
            let page = clamped_page(pre.info.page_count, pre.state.current_page);
            lemma_pick_exists(
                texts[page].glyph_seq(),
                pre.state.viewport.x as int,
                pre.state.viewport.y as int,
            );
        }
    }

    /// A cursor that was moved lies inside the document: on one of its
    /// pages and, where the page's text is cached, at one of its glyphs
    /// or behind the last.
    pub proof fn lemma_moved_cursor_inside(
        pre: &Self,
        motion: SelectionMotion,
        count: usize,
        post: &Self,
    )
        requires
            pre.info.page_count > 0,
            texts_well_formed(post@.texts),
            Self::cursor_moved(pre, motion, count, post),
        ensures
            post.visual_cursor matches Some(cursor) && inside(
                post@.texts,
                pre.info.page_count,
                cursor,
            ),
    {
        let texts = post@.texts;
        Self::lemma_cursor_inside(pre, texts);
        lemma_motion_inside(
            texts,
            pre.info.page_count,
            motion,
            at_least_one(count) as usize,
            Self::ensured_cursor(pre, texts)->0,
        );
    }

    /// The text of a selection does not depend on which of its ends is
    /// the anchor. Two documents of as many pages, one with the selection
    /// of the other turned round, give the same text wherever both give
    /// one and the page texts that the two have read for the pages of
    /// the selection are the same.
    pub proof fn lemma_selection_text_ignores_direction(
        first: &Self,
        first_after: &Self,
        first_text: Option<String>,
        second: &Self,
        second_after: &Self,
        second_text: Option<String>,
    )
        requires
            Self::selection_read(first, first_after, first_text),
            Self::selection_read(second, second_after, second_text),
            first.info.page_count == second.info.page_count,
            first.selection_state matches Some(selection) && second.selection_state == Some(
                selection.swapped(),
            ),
            forall|page: usize|
                first_after@.texts.contains_key(page) && second_after@.texts.contains_key(page)
                    ==> #[trigger] first_after@.texts[page] == second_after@.texts[page],
        ensures
            first_text is Some && second_text is Some ==> first_text->0@ == second_text->0@,
    {
        let selection = first.selection_state->0;
        crate::points::lemma_normalized_ignores_direction(selection);
        let span = selection.spec_normalized();
        let upto = span.end.page as int;
        let one = first_after@.texts;
        let other = second_after@.texts;
        if first_text is Some && second_text is Some {
            let both = Map::<usize, PageText>::new(
                |page: usize| one.contains_key(page) && other.contains_key(page),
                |page: usize| one[page],
            );
            assert(extends(both, one));
            assert(extends(both, other)) by {
                assert forall|page: usize| #[trigger] both.contains_key(page) implies other.contains_key(
                    page,
                ) && other[page] == both[page] by {
                    assert(one[page] == other[page]);
                }
            }
            assert(span_loaded(both, first.info.page_count, span, upto)) by {
                assert forall|page: int| span.start.page <= page <= upto implies #[trigger] loaded(
                    both,
                    first.info.page_count,
                    page,
                ) by {
                    assert(loaded(one, first.info.page_count, page));
                    assert(loaded(other, first.info.page_count, page));
                }
            }
            lemma_selected_text_extends(both, one, first.info.page_count, span, upto);
            lemma_selected_text_extends(both, other, first.info.page_count, span, upto);
        }
    }

    /// Where the page texts of a selection are cached, its text is had,
    /// and the same text is had with the selection turned round.
    pub proof fn lemma_cached_selection_text(
        first: &Self,
        first_after: &Self,
        first_text: Option<String>,
        second: &Self,
        second_after: &Self,
        second_text: Option<String>,
    )
        requires
            Self::selection_read(first, first_after, first_text),
            Self::selection_read(second, second_after, second_text),
            first.selection_state matches Some(selection) && *second == (DocumentInstance {
                selection_state: Some(selection.swapped()),
                ..*first
            }),
            span_loaded(
                first@.texts,
                first.info.page_count,
                first.selection_state->0.spec_normalized(),
                first.selection_state->0.spec_normalized().end.page as int,
            ),
        ensures
            first_text matches Some(one) && second_text matches Some(other) && one@ == other@,
    {
        let selection = first.selection_state->0;
        crate::points::lemma_normalized_ignores_direction(selection);
        let span = selection.spec_normalized();
        let upto = span.end.page as int;
        let pages = first.info.page_count;
        assert(second@.texts == first@.texts);
        lemma_selected_text_extends(first@.texts, first_after@.texts, pages, span, upto);
        lemma_selected_text_extends(first@.texts, second_after@.texts, pages, span, upto);
    }

    /// Once the text of a selection was had, it is had again, and is
    /// the same, from a document whose cache of page texts has not lost
    /// any: with the same selection, or with the selection turned round
    /// as after the two ends were exchanged.
    pub proof fn lemma_selection_text_stays(
        first: &Self,
        first_after: &Self,
        first_text: Option<String>,
        second: &Self,
        second_after: &Self,
        second_text: Option<String>,
    )
        requires
            Self::selection_read(first, first_after, first_text),
            Self::selection_read(second, second_after, second_text),
            first.info.page_count == second.info.page_count,
            first.selection_state matches Some(selection) && (second.selection_state == Some(
                selection,
            ) || second.selection_state == Some(selection.swapped())),
            extends(first_after@.texts, second@.texts),
            first_text is Some,
        ensures
            second_text matches Some(other) && other@ == first_text->0@,
    {
        let selection = first.selection_state->0;
        crate::points::lemma_normalized_ignores_direction(selection);
        let span = selection.spec_normalized();
        let upto = span.end.page as int;
        let pages = first.info.page_count;
        lemma_selected_text_extends(first_after@.texts, second@.texts, pages, span, upto);
        lemma_selected_text_extends(second@.texts, second_after@.texts, pages, span, upto);
    }

    /// Finding the cursor reads the same from a cache that has grown.
    pub proof fn lemma_cursor_extends(pre: &Self, before: Texts, after: Texts)
        requires
            extends(before, after),
            Self::cursor_loaded(pre, before),
        ensures
            Self::cursor_loaded(pre, after),
            Self::ensured_cursor(pre, after) == Self::ensured_cursor(pre, before),
            Self::ensured_hint(pre, after) == Self::ensured_hint(pre, before) || (
            Self::ensured_cursor(pre, before) matches Some(p) && !before.contains_key(p.page)),
    {
        let pages = pre.info.page_count;
        if pages > 0 {
            match pre.visual_cursor {
                Some(p) => {
                    assert(after[clamped_page(pages, p.page)] == before[clamped_page(pages, p.page)]);
                },
                None => {
                    let page = clamped_page(pages, pre.state.current_page);
                    assert(after[page] == before[page]);
                },
            }
        }
    }

    /// The highlights of the selection on the page in view.
    pub fn selection_highlights_for_current_page(&mut self) -> (r: Option<Highlights>)
        ensures
            *final(self) == (DocumentInstance {
                text_cache: final(self).text_cache,
                ..*old(self)
            }),
            extends(old(self)@.texts, final(self)@.texts),
            match old(self).selection_state {
                Some(selection) => {
                    let span = selection.spec_normalized();
                    let page = old(self).state.current_page;
                    match r {
                        Some(h) => {
                            &&& loaded(final(self)@.texts, old(self).info.page_count, page as int)
                            &&& h.current@ == selection_rects(final(self)@.texts[page], span, page)
                            &&& h.current@.len() > 0
                            &&& h.others@.len() == 0
                        },
                        None => {
                            ||| page < span.start.page
                            ||| page > span.end.page
                            ||| !loaded(old(self)@.texts, old(self).info.page_count, page as int)
                            ||| (loaded(final(self)@.texts, old(self).info.page_count, page as int)
                                && selection_rects(final(self)@.texts[page], span, page).len() == 0)
                        },
                    }
                },
                None => r is None && final(self)@.texts == old(self)@.texts,
            },
    {
        match self.selection_state {
            Some(selection) => {
                let span = selection.normalized();
                build_selection_highlights(
                    &span,
                    self.state.current_page,
                    self.info.page_count,
                    &self.backend,
                    &mut self.text_cache,
                )
            },
            None => None,
        }
    }

    /// What reading the selected text does and gives: the text that the
    /// selection, its ends in order, covers in the page texts that are
    /// cached afterwards; none without a selection or where the text of
    /// one of its pages cannot be had. Only the cache of page texts grows.
    pub open spec fn selection_read(pre: &Self, post: &Self, text: Option<String>) -> bool {
        &&& *post == (DocumentInstance { text_cache: post.text_cache, ..*pre })
        &&& extends(pre@.texts, post@.texts)
        &&& match pre.selection_state {
            Some(selection) => {
                let span = selection.spec_normalized();
                match text {
                    Some(found) => span_loaded(
                        post@.texts,
                        pre.info.page_count,
                        span,
                        span.end.page as int,
                    ) && found@ == selected_text(post@.texts, span, span.end.page as int),
                    None => !span_loaded(
                        pre@.texts,
                        pre.info.page_count,
                        span,
                        span.end.page as int,
                    ),
                }
            },
            None => text is None && post@.texts == pre@.texts,
        }
    }

    /// The text that the selection covers.
    pub fn selection_text(&mut self) -> (r: Option<String>)
        ensures
            Self::selection_read(old(self), final(self), r),
    {
        match self.selection_state {
            Some(selection) => {
                let span = selection.normalized();
                match extract_selection_text(
                    &span,
                    self.info.page_count,
                    &self.backend,
                    &mut self.text_cache,
                ) {
                    Ok(text) => Some(text),
                    Err(_) => None,
                }
            },
            None => None,
        }
    }

    /// The rectangle to draw the cursor in: none while a selection is
    /// under way, where the cursor is on another page than the one in
    /// view, or where the cursor has no rectangle.
    pub fn visual_cursor_highlight(&mut self) -> (r: Option<NormalizedRect>)
        ensures
            *final(self) == (DocumentInstance {
                text_cache: final(self).text_cache,
                ..*old(self)
            }),
            extends(old(self)@.texts, final(self)@.texts),
            r == match old(self).visual_cursor {
                Some(point) => if old(self).selection_state is Some || point.page != old(self).state.current_page {
                    None
                } else {
                    cursor_rect(final(self)@.texts, old(self).info.page_count, point)
                },
                None => None,
            },
    {
        if self.selection_state.is_some() {
            return None;
        }
        let point = match self.visual_cursor {
            Some(point) => point,
            None => {
                return None;
            },
        };
        if point.page != self.state.current_page {
            return None;
        }
        match ensure_page_text(point.page, self.info.page_count, &self.backend, &mut self.text_cache) {
            Ok(_) => {},
            Err(_) => {
                return None;
            },
        }
        let text = cached_text(&self.text_cache, point.page);
        let glyph_count: usize = text.glyph_count();
        if glyph_count == 0 {
            return None;
        }
        let index: usize = if point.glyph_index < glyph_count - 1 {
            point.glyph_index
        } else {
            glyph_count - 1
        };
        let rect = text.glyphs()[index].rect;
        if rect.is_valid() {
            Some(rect)
        } else {
            None
        }
    }
}

} // verus!
