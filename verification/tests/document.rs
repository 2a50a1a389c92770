//! Documents: zoom, viewport, rendering, reload and the selection mode.

use std::cell::Cell;
use termpdf::backend::DocumentBackend;
use termpdf::cache::{CacheKey, RenderImage};
use termpdf::commands::{Command, Outcome};
use termpdf::document::DocumentInstance;
use termpdf::geometry::{NormalizedRect, ViewportOffset};
use termpdf::history::DocumentPosition;
use termpdf::links::{LinkAction, LinkDefinition, LinkFollowResult};
use termpdf::model::{
    DocumentInfo, DocumentMetadata, EngineError, OutlineItem, PersistedDocumentState, RenderRequest,
};
use termpdf::points::{SelectionMotion, SelectionPoint, SelectionSnapshot, SelectionState};
use termpdf::search::SearchMatch;
use termpdf::text::{PageText, Span, TextGlyph};

/// Counts the pages it renders; pages from `broken_from` on fail.
struct CountingBackend {
    info: DocumentInfo,
    rendered: Cell<usize>,
    broken_from: usize,
    words: &'static str,
}

fn counting(page_count: usize) -> CountingBackend {
    CountingBackend {
        info: DocumentInfo {
            id: 99,
            path: "/tmp/count.pdf".to_string(),
            page_count,
            metadata: DocumentMetadata::default(),
        },
        rendered: Cell::new(0),
        broken_from: usize::MAX,
        words: "one two",
    }
}

impl DocumentBackend for CountingBackend {
    fn info(&self) -> &DocumentInfo {
        &self.info
    }

    fn render_page(&self, request: RenderRequest) -> Result<RenderImage, EngineError> {
        if request.page_index >= self.broken_from {
            return Err(EngineError::BackendFailure { message: "cannot render".to_string() });
        }
        self.rendered.set(self.rendered.get() + 1);
        Ok(RenderImage {
            width: 1,
            height: 1,
            pixels: vec![request.page_index as u8, (request.scale / 100) as u8, request.dark_mode as u8, 255],
        })
    }

    fn page_text(&self, page_index: usize) -> Result<PageText, EngineError> {
        if page_index >= self.broken_from {
            return Err(EngineError::BackendFailure { message: "cannot read".to_string() });
        }
        let mut glyphs = Vec::new();
        for (i, _) in self.words.char_indices() {
            glyphs.push(TextGlyph {
                range: Span { start: i, end: i + 1 },
                rect: NormalizedRect {
                    left: i as i32 * 100_000,
                    top: 100_000,
                    right: i as i32 * 100_000 + 80_000,
                    bottom: 200_000,
                },
            });
        }
        Ok(PageText::new(self.words.to_string(), glyphs))
    }

    fn page_links(&self, page_index: usize) -> Result<Vec<LinkDefinition>, EngineError> {
        if page_index >= self.broken_from {
            return Err(EngineError::BackendFailure { message: "no links".to_string() });
        }
        Ok(vec![
            LinkDefinition {
                rects: vec![NormalizedRect { left: 0, top: 0, right: 0, bottom: 0 }],
                action: LinkAction::GoTo { page: 0 },
            },
            LinkDefinition {
                rects: vec![NormalizedRect { left: -50, top: 0, right: 100, bottom: 100 }],
                action: if page_index % 2 == 0 {
                    LinkAction::GoTo { page: page_index + 7 }
                } else {
                    LinkAction::Unsupported
                },
            },
        ])
    }
}

fn document(page_count: usize) -> DocumentInstance<CountingBackend> {
    let backend = counting(page_count);
    let info = backend.info.clone();
    DocumentInstance::new(info, backend, PersistedDocumentState::default(), Vec::new())
}

fn at(page: usize, glyph_index: usize) -> SelectionPoint {
    SelectionPoint { page, glyph_index }
}

#[test]
fn a_new_document_knows_where_it_is() {
    let doc = document(5);
    assert_eq!(doc.current_page(), 0);
    assert_eq!(doc.last_page(), 4);
    assert_eq!(
        doc.current_position(),
        DocumentPosition { page: 0, scale: 1000, viewport: ViewportOffset { x: 0, y: 0 } }
    );
    assert_eq!(doc.jump_history.last_known(), Some(doc.current_position()));
    assert_eq!(doc.visual_column_hint, 500_000);
    assert!(doc.search_summary().is_none());
    assert!(doc.link_summary().is_none());
    assert_eq!(document(0).last_page(), 0);
}

#[test]
fn zoom_and_pan_keep_scale_and_viewport_settled() {
    let mut doc = document(5);
    let commands: Vec<(u32, i32, i32)> = vec![
        (1100, 0, 0),
        (0, 100_000, 0),
        (0, 2_000_000, -5),
        (900, 0, 0),
        (0, 300_000, 300_000),
        (900, 0, 0),
        (100, 0, 0),
        (0, -100_000, 700_000),
        (9000, 0, 0),
        (9000, 0, 0),
        (0, i32::MAX, i32::MIN),
        (1, 0, 0),
    ];
    for (factor, dx, dy) in commands {
        if factor > 0 {
            doc.scale_by(factor);
        } else {
            doc.adjust_viewport(dx, dy);
        }
        assert!(doc.state.scale >= 250 && doc.state.scale <= 4000);
        assert!(doc.state.viewport.x >= 0 && doc.state.viewport.x <= 1_000_000);
        assert!(doc.state.viewport.y >= 0 && doc.state.viewport.y <= 1_000_000);
        if doc.state.scale <= 1000 {
            assert_eq!(doc.state.viewport, ViewportOffset { x: 0, y: 0 });
        }
    }
}

#[test]
fn zoom_multiplies_and_clamps() {
    let mut doc = document(5);
    assert!(doc.scale_by(1100));
    assert_eq!(doc.state.scale, 1100);
    assert!(doc.adjust_viewport(100_000, 200_000));
    assert_eq!(doc.state.viewport, ViewportOffset { x: 100_000, y: 200_000 });
    assert!(!doc.adjust_viewport(0, 0));
    assert!(doc.scale_by(900));
    assert_eq!(doc.state.scale, 990);
    assert_eq!(doc.state.viewport, ViewportOffset { x: 0, y: 0 });
    assert!(!doc.adjust_viewport(100_000, 0));
    assert_eq!(doc.state.viewport, ViewportOffset { x: 0, y: 0 });
    assert!(!doc.scale_by(1000));
    assert!(doc.scale_by(100_000));
    assert_eq!(doc.state.scale, 4000);
    assert!(!doc.scale_by(2000));
    assert!(doc.scale_by(1));
    assert_eq!(doc.state.scale, 250);
    assert!(doc.reset_scale());
    assert_eq!(doc.state.scale, 1000);
    assert!(!doc.reset_scale());
    assert_eq!(doc.jump_history.back_len(), 0);
    assert_eq!(doc.jump_history.last_known(), Some(doc.current_position()));
}

#[test]
fn a_state_that_is_not_settled_is_settled_by_zoom_and_pan() {
    let mut doc = document(5);
    doc.state.scale = 9000;
    doc.state.viewport = ViewportOffset { x: -4, y: 2_000_000 };
    assert!(doc.adjust_viewport(10, 0));
    assert_eq!(doc.state.scale, 4000);
    assert_eq!(doc.state.viewport, ViewportOffset { x: 10, y: 1_000_000 });
    doc.state.scale = 1000;
    doc.state.viewport = ViewportOffset { x: 5, y: 5 };
    assert!(doc.scale_by(1000));
    assert_eq!(doc.state.viewport, ViewportOffset { x: 0, y: 0 });
    doc.state.scale = 3;
    assert!(doc.settle_view());
    assert_eq!(doc.state.scale, 250);
    assert!(!doc.settle_view());
}

#[test]
fn page_steps_of_one_are_no_jumps() {
    let mut doc = document(10);
    assert!(doc.next_page(1));
    assert!(doc.next_page(1));
    assert_eq!(doc.state.current_page, 2);
    assert_eq!(doc.jump_history.back_len(), 0);
    assert!(doc.next_page(2));
    assert_eq!(doc.jump_history.back_len(), 1);
    assert!(doc.prev_page(1));
    assert_eq!(doc.jump_history.back_len(), 1);
    assert!(doc.next_page(usize::MAX));
    assert_eq!(doc.state.current_page, 9);
    assert!(!doc.next_page(1));
    assert!(doc.prev_page(usize::MAX));
    assert_eq!(doc.state.current_page, 0);
    assert!(!doc.prev_page(3));
    assert!(!doc.next_page(0));
    assert!(!doc.goto_page(0));
    assert!(doc.goto_page(1));
    assert_eq!(doc.jump_history.back_len(), 4);
}

#[test]
fn page_steps_reset_the_viewport() {
    let mut doc = document(10);
    doc.scale_by(2000);
    doc.adjust_viewport(500_000, 500_000);
    assert!(doc.next_page(1));
    assert_eq!(doc.state.viewport, ViewportOffset { x: 0, y: 0 });
    assert_eq!(doc.state.scale, 2000);
    doc.adjust_viewport(1, 2);
    assert!(doc.goto_page(7));
    assert_eq!(doc.state.viewport, ViewportOffset { x: 0, y: 0 });
    assert!(doc.jump_backward());
    assert_eq!(doc.state.current_page, 1);
    assert_eq!(doc.state.viewport, ViewportOffset { x: 1, y: 2 });
    assert!(doc.jump_forward());
    assert_eq!(doc.state.current_page, 7);
    assert!(!doc.jump_forward());
}

#[test]
fn returning_to_a_position_fits_it_to_the_document() {
    let mut doc = document(3);
    let far = DocumentPosition { page: 50, scale: 9000, viewport: ViewportOffset { x: -1, y: 2_000_000 } };
    assert!(doc.apply_document_position(far));
    assert_eq!(
        doc.current_position(),
        DocumentPosition { page: 2, scale: 4000, viewport: ViewportOffset { x: 0, y: 1_000_000 } }
    );
    let small = DocumentPosition { page: 2, scale: 10, viewport: ViewportOffset { x: 7, y: 7 } };
    assert!(doc.apply_document_position(small));
    assert_eq!(
        doc.current_position(),
        DocumentPosition { page: 2, scale: 250, viewport: ViewportOffset { x: 0, y: 0 } }
    );
    assert!(!doc.apply_document_position(small));
}

#[test]
fn rendering_goes_through_the_cache() {
    let mut doc = document(30);
    let first = doc.render().unwrap();
    assert_eq!(first.pixels, vec![0, 10, 0, 255]);
    doc.render().unwrap();
    assert_eq!(doc.backend.rendered.get(), 1);
    doc.render_with_scale(2000).unwrap();
    assert_eq!(doc.backend.rendered.get(), 2);
    doc.toggle_dark_mode();
    assert_eq!(doc.render().unwrap().pixels, vec![0, 10, 1, 255]);
    assert_eq!(doc.backend.rendered.get(), 3);
    assert_eq!(doc.render_cache.len(), 3);
    let key = CacheKey::new(0, 1000, true);
    assert!(doc.try_get_cached(&key).is_some());
    assert!(doc.try_get_cached(&CacheKey::new(0, 1000, false)).is_some());
    assert!(doc.try_get_cached(&CacheKey::new(1, 1000, false)).is_none());
    doc.store_cached_render(
        CacheKey::new(1, 1000, false),
        &RenderImage { width: 1, height: 1, pixels: vec![9, 9, 9, 9] },
        1,
    );
    assert_eq!(doc.render_page_internal(1, 1000, false, 1).unwrap().pixels, vec![9, 9, 9, 9]);
    assert_eq!(doc.backend.rendered.get(), 3);
}

#[test]
fn rendering_a_page_beyond_the_document_is_out_of_range() {
    let mut doc = document(3);
    assert!(matches!(
        doc.render_page_internal(3, 1000, false, 0),
        Err(EngineError::OutOfRange { page: 3 })
    ));
    doc.state.current_page = 8;
    assert!(matches!(doc.render(), Err(EngineError::OutOfRange { page: 8 })));
    let mut empty = document(0);
    assert!(matches!(empty.render(), Err(EngineError::OutOfRange { page: 0 })));
    assert_eq!(doc.backend.rendered.get(), 0);
    doc.backend.broken_from = 1;
    assert!(matches!(
        doc.render_page_internal(2, 1000, false, 0),
        Err(EngineError::BackendFailure { .. })
    ));
    assert_eq!(doc.render_cache.len(), 0);
}

#[test]
fn prefetching_renders_the_neighbours() {
    let mut doc = document(30);
    doc.goto_page(10);
    doc.prefetch_neighbors(0, 1000).unwrap();
    assert_eq!(doc.backend.rendered.get(), 0);
    doc.prefetch_neighbors(2, 1000).unwrap();
    assert_eq!(doc.backend.rendered.get(), 4);
    for page in [8, 9, 11, 12] {
        assert!(doc.try_get_cached(&CacheKey::new(page, 1000, false)).is_some());
    }
    assert!(doc.try_get_cached(&CacheKey::new(10, 1000, false)).is_none());
    doc.prefetch_neighbors(2, 1000).unwrap();
    assert_eq!(doc.backend.rendered.get(), 4);
    doc.prefetch_neighbors(8, 1000).unwrap();
    assert_eq!(doc.render_cache.len(), 10);
    for page in [5, 6, 7, 8, 9, 11, 12, 13, 14, 15] {
        assert!(doc.try_get_cached(&CacheKey::new(page, 1000, false)).is_some(), "page {}", page);
    }
    let mut edge = document(3);
    edge.prefetch_neighbors(5, 1000).unwrap();
    assert_eq!(edge.backend.rendered.get(), 2);
    edge.backend.broken_from = 2;
    edge.render_cache.clear();
    assert!(matches!(edge.prefetch_neighbors(5, 1000), Err(EngineError::BackendFailure { .. })));
    assert!(edge.try_get_cached(&CacheKey::new(1, 1000, false)).is_some());
    edge.state.current_page = usize::MAX;
    edge.prefetch_neighbors(3, 1000).unwrap();
}

#[test]
fn links_are_collected_with_their_usable_rects() {
    let mut doc = document(4);
    doc.goto_page(1);
    doc.start_link_mode().unwrap();
    let summary = doc.link_summary().unwrap();
    assert_eq!(summary.total, 4);
    assert_eq!(summary.current_index, Some(1));
    let state = doc.link_state.as_ref().unwrap();
    assert_eq!(state.links.iter().map(|l| l.page).collect::<Vec<_>>(), vec![0, 1, 2, 3]);
    assert_eq!(state.links[0].rects, vec![NormalizedRect { left: 0, top: 0, right: 100, bottom: 100 }]);
    let highlights = doc.link_highlights_for_current_page().unwrap();
    assert_eq!(highlights.current.len(), 1);
    assert!(highlights.others.is_empty());
    assert!(matches!(doc.activate_link(), LinkFollowResult::Unsupported));
    assert_eq!(doc.next_link(1), Some(true));
    assert_eq!(doc.state.current_page, 2);
    match doc.activate_link() {
        LinkFollowResult::Navigated { page_changed } => assert!(page_changed),
        other => panic!("unexpected result: {:?}", other),
    }
    assert_eq!(doc.state.current_page, 3);
    assert_eq!(doc.previous_link(3), Some(false));
    assert_eq!(doc.link_summary().unwrap().current_index, Some(3));
    assert_eq!(doc.next_link(4), Some(false));
    assert_eq!(doc.next_link(0), Some(false));
    assert_eq!(doc.next_link(1), Some(true));
    assert_eq!(doc.state.current_page, 0);
    assert!(!doc.apply_link_index(9));
    assert!(matches!(doc.activate_link(), LinkFollowResult::NoActiveLink));
    doc.clear_link_state();
    assert!(doc.link_summary().is_none());
    assert!(doc.link_highlights_for_current_page().is_none());
    assert_eq!(doc.next_link(1), None);
    assert_eq!(doc.previous_link(1), None);
    assert!(matches!(doc.activate_link(), LinkFollowResult::NoActiveLink));
}

#[test]
fn link_mode_passes_over_pages_whose_links_cannot_be_had() {
    let mut doc = document(4);
    doc.backend.broken_from = 2;
    doc.start_link_mode().unwrap();
    let summary = doc.link_summary().unwrap();
    assert_eq!(summary.total, 2);
    assert_eq!(summary.current_index, Some(0));
    doc.backend.broken_from = 0;
    doc.start_link_mode().unwrap();
    assert_eq!(doc.link_summary().unwrap().total, 0);
    let mut empty = document(0);
    empty.start_link_mode().unwrap();
    assert_eq!(empty.link_summary().unwrap().total, 0);
    assert_eq!(empty.next_link(1), Some(false));
}

#[test]
fn the_cursor_appears_at_the_glyph_under_the_viewport_corner() {
    let mut doc = document(3);
    doc.goto_page(1);
    assert_eq!(doc.ensure_visual_cursor().unwrap(), true);
    assert_eq!(doc.visual_cursor, Some(at(1, 0)));
    assert_eq!(doc.visual_column_hint, 40_000);
    assert_eq!(doc.ensure_visual_cursor().unwrap(), false);
    assert_eq!(
        doc.visual_cursor_highlight(),
        Some(NormalizedRect { left: 0, top: 100_000, right: 80_000, bottom: 200_000 })
    );
    doc.visual_cursor = Some(at(9, 99));
    assert_eq!(doc.ensure_visual_cursor().unwrap(), true);
    assert_eq!(doc.visual_cursor, Some(at(2, 7)));
    assert_eq!(doc.visual_column_hint, 640_000);
    assert_eq!(doc.visual_cursor_highlight(), None);
    let mut zoomed = document(3);
    zoomed.scale_by(2000);
    zoomed.adjust_viewport(350_000, 150_000);
    zoomed.ensure_visual_cursor().unwrap();
    assert_eq!(zoomed.visual_cursor, Some(at(0, 3)));
    let mut empty = document(0);
    assert_eq!(empty.ensure_visual_cursor().unwrap(), false);
    assert_eq!(empty.visual_cursor, None);
    assert_eq!(empty.start_selection().unwrap(), false);
    assert_eq!(empty.move_visual_cursor(SelectionMotion::Right, 1).unwrap(), false);
}

#[test]
fn the_selection_follows_the_cursor() {
    let mut doc = document(3);
    assert_eq!(doc.start_selection().unwrap(), true);
    assert_eq!(doc.start_selection().unwrap(), false);
    assert_eq!(doc.selection_state, Some(SelectionState { anchor: at(0, 0), head: at(0, 0) }));
    assert_eq!(doc.selection_text().as_deref(), Some(""));
    assert!(doc.selection_highlights_for_current_page().is_none());
    assert_eq!(doc.visual_cursor_highlight(), None);
    assert_eq!(doc.move_visual_cursor(SelectionMotion::WordForward, 1).unwrap(), true);
    assert_eq!(doc.selection_text().as_deref(), Some("one"));
    assert_eq!(doc.selection_highlights_for_current_page().unwrap().current.len(), 3);
    assert_eq!(doc.visual_column_hint, 340_000);
    assert_eq!(doc.move_visual_cursor(SelectionMotion::Left, 0).unwrap(), true);
    assert_eq!(doc.selection_text().as_deref(), Some("on"));
    assert_eq!(doc.move_visual_cursor(SelectionMotion::PageForward, 2).unwrap(), true);
    assert_eq!(doc.state.current_page, 2);
    assert_eq!(doc.selection_text().as_deref(), Some("one two\none two\non"));
    assert_eq!(doc.jump_history.back_len(), 0);
    assert!(doc.swap_visual_cursor());
    assert_eq!(doc.visual_cursor, Some(at(0, 0)));
    assert_eq!(doc.state.current_page, 2);
    assert_eq!(doc.move_visual_cursor(SelectionMotion::DocumentStart, 1).unwrap(), false);
    assert_eq!(doc.move_visual_cursor(SelectionMotion::Right, 1).unwrap(), true);
    assert_eq!(doc.state.current_page, 0);
    assert_eq!(doc.selection_state, Some(SelectionState { anchor: at(2, 2), head: at(0, 1) }));
    assert!(doc.clear_selection_state(true));
    assert!(!doc.clear_selection_state(true));
    assert_eq!(doc.selection_state, None);
    assert_eq!(doc.visual_cursor, Some(at(0, 1)));
    assert_eq!(doc.last_selection, Some(SelectionSnapshot { start: at(0, 1), end: at(2, 2) }));
    assert!(doc.selection_text().is_none());
    assert!(!doc.swap_visual_cursor());
    assert!(doc.leave_visual_mode(true));
    assert!(!doc.leave_visual_mode(true));
    assert_eq!(doc.visual_cursor, None);
    assert_eq!(doc.restore_last_selection().unwrap(), true);
    assert_eq!(doc.selection_state, Some(SelectionState { anchor: at(0, 1), head: at(2, 2) }));
    assert_eq!(doc.visual_cursor, Some(at(2, 2)));
    doc.remember_selection();
    assert!(doc.leave_visual_mode(false));
    assert_eq!(doc.last_selection, Some(SelectionSnapshot { start: at(0, 1), end: at(2, 2) }));
    let mut fresh = document(3);
    assert_eq!(fresh.restore_last_selection().unwrap(), false);
}

#[test]
fn the_selection_mode_fails_where_a_page_text_cannot_be_had() {
    let mut doc = document(3);
    doc.backend.broken_from = 1;
    assert_eq!(doc.start_selection().unwrap(), true);
    assert!(matches!(
        doc.move_visual_cursor(SelectionMotion::PageForward, 1),
        Err(EngineError::BackendFailure { .. })
    ));
    assert_eq!(doc.visual_cursor, Some(at(0, 0)));
    assert_eq!(doc.state.current_page, 0);
    assert_eq!(doc.move_visual_cursor(SelectionMotion::LineEnd, 1).unwrap(), true);
    assert_eq!(doc.visual_cursor, Some(at(0, 7)));
    doc.selection_state = Some(SelectionState { anchor: at(0, 0), head: at(1, 0) });
    assert!(doc.selection_text().is_none());
    doc.last_selection = Some(SelectionSnapshot { start: at(0, 0), end: at(2, 0) });
    assert!(matches!(doc.restore_last_selection(), Err(EngineError::BackendFailure { .. })));
    doc.backend.broken_from = 0;
    let mut blind = document(2);
    blind.backend.broken_from = 0;
    assert!(matches!(blind.ensure_visual_cursor(), Err(EngineError::BackendFailure { .. })));
    assert!(matches!(blind.start_selection(), Err(EngineError::BackendFailure { .. })));
    assert_eq!(blind.visual_cursor, None);
    assert!(matches!(
        blind.apply_command(Command::EnterVisualMode),
        Err(EngineError::BackendFailure { .. })
    ));
}

#[test]
fn reload_keeps_what_still_fits() {
    let mut doc = document(30);
    doc.goto_page(20);
    doc.put_mark('a');
    doc.add_mark('b', 3);
    doc.add_named_mark("far".to_string(), 29);
    doc.save_named_mark("here".to_string());
    doc.scale_by(2000);
    doc.adjust_viewport(500_000, 0);
    doc.render().unwrap();
    doc.start_link_mode().unwrap();
    doc.start_selection().unwrap();
    doc.toggle_dark_mode();
    let backend = counting(10);
    let info = backend.info.clone();
    let outline = vec![OutlineItem { title: "New".to_string(), page_index: 0, depth: 1 }];
    doc.reload(info, backend, outline);
    assert_eq!(doc.info.page_count, 10);
    assert_eq!(doc.state.current_page, 9);
    assert_eq!(doc.state.scale, 2000);
    assert!(doc.state.dark_mode);
    assert_eq!(doc.state.viewport, ViewportOffset { x: 500_000, y: 0 });
    assert_eq!(doc.get_page_from_mark('a'), None);
    assert_eq!(doc.get_page_from_mark('b'), Some(3));
    assert_eq!(doc.named_mark_page("far"), None);
    assert_eq!(doc.named_mark_page("here"), None);
    assert_eq!(doc.render_cache.len(), 0);
    assert!(doc.text_cache.is_empty());
    assert!(doc.link_summary().is_none());
    assert_eq!(doc.selection_state, None);
    assert_eq!(doc.visual_cursor, None);
    assert_eq!(doc.last_selection, None);
    assert_eq!(doc.visual_column_hint, 500_000);
    assert_eq!(doc.outline().len(), 1);
    assert_eq!(doc.jump_history.last_known(), Some(doc.current_position()));
    let empty = counting(0);
    let info = empty.info.clone();
    doc.reload(info, empty, Vec::new());
    assert_eq!(doc.state.current_page, 0);
    assert_eq!(doc.get_page_from_mark('b'), None);
}

#[test]
fn reload_makes_the_search_again() {
    let mut doc = document(30);
    doc.goto_page(20);
    assert_eq!(doc.perform_search("TWO".to_string()).unwrap(), false);
    assert_eq!(doc.search_summary().unwrap().total, 30);
    assert_eq!(doc.search_summary().unwrap().current_index, Some(20));
    let mut backend = counting(10);
    backend.words = "two two";
    let info = backend.info.clone();
    doc.reload(info, backend, Vec::new());
    let summary = doc.search_summary().unwrap();
    assert_eq!(summary.query, "TWO");
    assert_eq!(summary.total, 20);
    assert_eq!(summary.current_index, Some(18));
    assert_eq!(doc.state.current_page, 9);
    let mut gone = counting(4);
    gone.words = "nothing";
    let info = gone.info.clone();
    doc.reload(info, gone, Vec::new());
    let summary = doc.search_summary().unwrap();
    assert_eq!(summary.total, 0);
    assert_eq!(summary.current_index, None);
    assert_eq!(doc.state.current_page, 3);
}

#[test]
fn commands_report_what_they_ask_for() {
    let mut doc = document(8);
    let quiet = |outcome: Outcome| !outcome.redraw && outcome.follow.is_none();
    let redraw = |outcome: Outcome| outcome.redraw && outcome.follow.is_none();
    assert!(redraw(doc.apply_command(Command::NextPage { count: 3 }).unwrap()));
    assert!(quiet(doc.apply_command(Command::NextPage { count: 0 }).unwrap()));
    assert!(redraw(doc.apply_command(Command::ScaleBy { factor: 1100 }).unwrap()));
    assert!(quiet(doc.apply_command(Command::ScaleBy { factor: 1000 }).unwrap()));
    assert!(redraw(doc.apply_command(Command::AdjustViewport { delta_x: 5, delta_y: 0 }).unwrap()));
    assert!(quiet(doc.apply_command(Command::AdjustViewport { delta_x: 0, delta_y: 0 }).unwrap()));
    assert!(redraw(doc.apply_command(Command::ResetScale).unwrap()));
    assert!(quiet(doc.apply_command(Command::ResetScale).unwrap()));
    assert!(redraw(doc.apply_command(Command::Search { query: "zzz".to_string() }).unwrap()));
    assert!(redraw(doc.apply_command(Command::SearchPrev { count: 0 }).unwrap()));
    assert!(redraw(doc.apply_command(Command::EnterLinkMode).unwrap()));
    assert!(redraw(doc.apply_command(Command::LinkPrev { count: 1 }).unwrap()));
    assert!(redraw(doc.apply_command(Command::ActivateLink).unwrap()));
    assert!(redraw(doc.apply_command(Command::LeaveLinkMode).unwrap()));
    assert!(quiet(doc.apply_command(Command::ActivateLink).unwrap()));
    assert!(redraw(doc.apply_command(Command::EnterVisualMode).unwrap()));
    assert!(quiet(doc.apply_command(Command::EnterVisualMode).unwrap()));
    assert!(redraw(doc.apply_command(Command::StartSelection).unwrap()));
    assert!(quiet(doc.apply_command(Command::StartSelection).unwrap()));
    assert!(redraw(
        doc.apply_command(Command::MoveVisualCursor { motion: SelectionMotion::Right, count: 0 })
            .unwrap()
    ));
    assert!(redraw(
        doc.apply_command(Command::MoveVisualCursor { motion: SelectionMotion::LineStart, count: 1 })
            .unwrap()
    ));
    assert!(quiet(
        doc.apply_command(Command::MoveVisualCursor { motion: SelectionMotion::LineStart, count: 1 })
            .unwrap()
    ));
    assert!(redraw(doc.apply_command(Command::SwapVisualCursor).unwrap()));
    assert!(redraw(doc.apply_command(Command::ClearSelection).unwrap()));
    assert!(quiet(doc.apply_command(Command::ClearSelection).unwrap()));
    assert!(quiet(doc.apply_command(Command::SwapVisualCursor).unwrap()));
    assert!(redraw(doc.apply_command(Command::RestoreSelection).unwrap()));
    assert!(redraw(doc.apply_command(Command::LeaveVisualMode).unwrap()));
    assert!(quiet(doc.apply_command(Command::LeaveVisualMode).unwrap()));
    assert!(redraw(doc.apply_command(Command::JumpBackward).unwrap()));
    assert!(redraw(doc.apply_command(Command::JumpForward).unwrap()));
    assert!(quiet(doc.apply_command(Command::JumpForward).unwrap()));
    assert!(quiet(doc.apply_command(Command::SwitchDocument { index: 0 }).unwrap()));
    assert!(quiet(doc.apply_command(Command::CloseDocument { index: 0 }).unwrap()));
    assert!(quiet(doc.apply_command(Command::OpenDocument { path: "x".to_string() }).unwrap()));
}

#[test]
fn search_results_can_be_taken_up_by_hand() {
    let mut doc = document(8);
    let matches = vec![SearchMatch {
        page: 6,
        rects: vec![NormalizedRect { left: 1, top: 1, right: 2, bottom: 2 }],
    }];
    assert!(doc.apply_search_results("six".to_string(), matches, 0));
    assert_eq!(doc.state.current_page, 6);
    let highlights = doc.search_highlights_for_current_page().unwrap();
    assert_eq!(highlights.current.len(), 1);
    assert!(highlights.others.is_empty());
    doc.goto_page(2);
    assert!(doc.search_highlights_for_current_page().is_none());
}

#[test]
fn the_selection_mode_works_from_cached_texts_alone() {
    let mut doc = document(3);
    assert_eq!(doc.start_selection().unwrap(), true);
    assert_eq!(doc.move_visual_cursor(SelectionMotion::PageForward, 1).unwrap(), true);
    assert_eq!(doc.visual_cursor.unwrap().page, 1);
    doc.backend.broken_from = 0;
    assert_eq!(doc.move_visual_cursor(SelectionMotion::PageBackward, 1).unwrap(), true);
    assert_eq!(doc.visual_cursor.unwrap().page, 0);
    assert_eq!(doc.state.current_page, 0);
    doc.last_selection = Some(SelectionSnapshot { start: at(0, 0), end: at(1, 3) });
    assert_eq!(doc.restore_last_selection().unwrap(), true);
    assert_eq!(doc.selection_state, Some(SelectionState { anchor: at(0, 0), head: at(1, 3) }));
    assert_eq!(doc.visual_cursor, Some(at(1, 3)));
    doc.last_selection = Some(SelectionSnapshot { start: at(0, 0), end: at(2, 0) });
    assert!(matches!(doc.restore_last_selection(), Err(EngineError::BackendFailure { .. })));
    assert_eq!(doc.visual_cursor, Some(at(1, 3)));

    let mut blind = document(2);
    blind.backend.broken_from = 0;
    assert_eq!(blind.restore_last_selection().unwrap(), false);
    assert_eq!(blind.visual_cursor, None);

    let mut empty = document(0);
    empty.backend.broken_from = 0;
    assert_eq!(empty.move_visual_cursor(SelectionMotion::Right, 1).unwrap(), false);
    assert_eq!(empty.visual_cursor, None);
}

#[test]
fn reload_reads_the_texts_of_the_new_document() {
    let mut doc = document(5);
    assert_eq!(doc.perform_search("two".to_string()).unwrap(), false);
    assert_eq!(doc.search_summary().unwrap().total, 5);
    assert_eq!(doc.text_cache.len(), 5);
    doc.render().unwrap();
    assert_eq!(doc.render_cache.len(), 1);
    let mut backend = counting(3);
    backend.words = "two and two";
    let info = backend.info.clone();
    doc.reload(info, backend, Vec::new());
    assert_eq!(doc.render_cache.len(), 0);
    assert_eq!(doc.text_cache.len(), 3);
    for page in 0..3 {
        assert_eq!(doc.text_cache.get(&page).unwrap().text(), "two and two");
    }
    assert_eq!(doc.search_summary().unwrap().total, 6);
    let mut blind = counting(4);
    blind.broken_from = 0;
    let info = blind.info.clone();
    doc.reload(info, blind, Vec::new());
    assert!(doc.text_cache.is_empty());
    assert_eq!(doc.search_summary().unwrap().total, 0);
    assert_eq!(doc.search_summary().unwrap().query, "two");
}

#[test]
fn rendering_asks_the_backend_for_what_is_in_view() {
    let mut doc = document(9);
    doc.goto_page(7);
    doc.state.dark_mode = true;
    let image = doc.render_with_scale(1530).unwrap();
    assert_eq!(image.pixels, vec![7, 15, 1, 255]);
    assert!(doc.try_get_cached(&CacheKey::new(7, 1530, true)).is_some());
    assert!(doc.try_get_cached(&CacheKey::new(7, 1530, false)).is_none());
    doc.state.scale = 2000;
    doc.state.dark_mode = false;
    let image = doc.render().unwrap();
    assert_eq!(image.pixels, vec![7, 20, 0, 255]);
    let image = doc.render_page_internal(3, 250, true, 7).unwrap();
    assert_eq!(image.pixels, vec![3, 2, 1, 255]);
    assert_eq!(doc.backend.rendered.get(), 3);
    doc.prefetch_neighbors(1, 4000).unwrap();
    let before = doc.try_get_cached(&CacheKey::new(6, 4000, false)).unwrap();
    assert_eq!(before.pixels, vec![6, 40, 0, 255]);
    let behind = doc.try_get_cached(&CacheKey::new(8, 4000, false)).unwrap();
    assert_eq!(behind.pixels, vec![8, 40, 0, 255]);
}

#[test]
fn exchanging_the_ends_keeps_the_text_of_the_selection() {
    let mut doc = document(3);
    doc.selection_state = Some(SelectionState { anchor: at(0, 4), head: at(2, 3) });
    doc.visual_cursor = Some(at(2, 3));
    let text = doc.selection_text();
    assert_eq!(text.as_deref(), Some("two\none two\none"));
    assert!(doc.swap_visual_cursor());
    assert_eq!(doc.selection_state, Some(SelectionState { anchor: at(2, 3), head: at(0, 4) }));
    assert_eq!(doc.visual_cursor, Some(at(0, 4)));
    assert_eq!(doc.selection_text(), text);
    doc.backend.broken_from = 0;
    assert_eq!(doc.selection_text(), text);
    assert!(doc.swap_visual_cursor());
    assert_eq!(doc.selection_state, Some(SelectionState { anchor: at(0, 4), head: at(2, 3) }));
    assert_eq!(doc.visual_cursor, Some(at(2, 3)));
    assert_eq!(doc.selection_text(), text);

    let mut other = document(3);
    other.selection_state = Some(SelectionState { anchor: at(2, 3), head: at(0, 4) });
    assert_eq!(other.selection_text(), text);

    let mut none = document(3);
    assert!(!none.swap_visual_cursor());
    assert_eq!(none.selection_state, None);
    assert_eq!(none.visual_cursor, None);
    assert!(none.selection_text().is_none());
}

#[test]
fn commands_of_the_selection_mode_fail_only_where_a_text_cannot_be_had() {
    let mut doc = document(3);
    assert!(doc.apply_command(Command::StartSelection).is_ok());
    assert!(doc
        .apply_command(Command::MoveVisualCursor { motion: SelectionMotion::PageForward, count: 1 })
        .is_ok());
    doc.backend.broken_from = 0;
    assert!(doc
        .apply_command(Command::MoveVisualCursor { motion: SelectionMotion::PageBackward, count: 1 })
        .is_ok());
    assert!(doc
        .apply_command(Command::MoveVisualCursor { motion: SelectionMotion::DocumentEnd, count: 1 })
        .is_err());
    doc.last_selection = Some(SelectionSnapshot { start: at(0, 0), end: at(1, 1) });
    assert!(doc.apply_command(Command::RestoreSelection).is_ok());
    doc.last_selection = Some(SelectionSnapshot { start: at(0, 0), end: at(2, 1) });
    assert!(doc.apply_command(Command::RestoreSelection).is_err());
    doc.last_selection = None;
    assert!(doc.apply_command(Command::RestoreSelection).is_ok());
}
