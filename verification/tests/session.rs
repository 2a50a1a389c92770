//! Sessions: commands, events and the state they leave.

use termpdf::backend::DocumentBackend;
use termpdf::cache::RenderImage;
use termpdf::commands::{Command, SessionEvent};
use termpdf::document::DocumentInstance;
use termpdf::geometry::{NormalizedRect, ViewportOffset};
use termpdf::identity::document_id_for_path;
use termpdf::links::{ExternalLink, LinkAction, LinkDefinition, LinkFollowResult};
use termpdf::model::{
    DocumentInfo, DocumentMetadata, EngineError, OutlineItem, PersistedDocumentState, RenderRequest,
};
use termpdf::session::{MemoryStateStore, Session, StateStore};
use termpdf::text::{PageText, Span, TextGlyph};

struct FakeBackend {
    info: DocumentInfo,
}

fn page_content(page_index: usize) -> String {
    format!("This is sample page {} with keyword", page_index)
}

impl DocumentBackend for FakeBackend {
    fn info(&self) -> &DocumentInfo {
        &self.info
    }

    fn render_page(&self, request: RenderRequest) -> Result<RenderImage, EngineError> {
        Ok(RenderImage { width: 1, height: 1, pixels: vec![request.page_index as u8] })
    }

    fn page_text(&self, page_index: usize) -> Result<PageText, EngineError> {
        let content = page_content(page_index);
        let mut offset = 0;
        let mut glyphs = Vec::new();
        for ch in content.chars() {
            let start = offset;
            offset += ch.len_utf8();
            glyphs.push(TextGlyph {
                range: Span { start, end: offset },
                rect: NormalizedRect { left: 0, top: 0, right: 0, bottom: 0 },
            });
        }
        Ok(PageText::new(content, glyphs))
    }

    fn search_page(
        &self,
        page_index: usize,
        query: &str,
    ) -> Result<Vec<Vec<NormalizedRect>>, EngineError> {
        if query.trim().is_empty() {
            return Ok(Vec::new());
        }
        let text = page_content(page_index);
        if text.to_lowercase().contains(&query.to_lowercase()) {
            Ok(vec![vec![NormalizedRect {
                left: 100_000,
                top: 100_000,
                right: 900_000,
                bottom: 200_000,
            }]])
        } else {
            Ok(Vec::new())
        }
    }

    fn page_links(&self, _page_index: usize) -> Result<Vec<LinkDefinition>, EngineError> {
        Ok(Vec::new())
    }
}

fn fake_backend(path: &str, page_count: usize) -> FakeBackend {
    FakeBackend {
        info: DocumentInfo {
            id: document_id_for_path(path),
            path: path.to_string(),
            page_count,
            metadata: DocumentMetadata::default(),
        },
    }
}

fn open_session() -> Session<FakeBackend, MemoryStateStore> {
    let mut session = Session::new(MemoryStateStore::new());
    session.open_with(fake_backend("/tmp/example.pdf", 100)).unwrap();
    session
}

fn page_of(session: &Session<FakeBackend, MemoryStateStore>) -> usize {
    session.active().unwrap().state.current_page
}

#[test]
fn session_navigation_updates_state() {
    let mut session = open_session();

    session.apply(Command::NextPage { count: 10 }).unwrap();
    assert_eq!(session.active().unwrap().state.current_page, 10);
    session.apply(Command::PrevPage { count: 5 }).unwrap();
    assert_eq!(session.active().unwrap().state.current_page, 5);
    session.apply(Command::GotoPage { page: 99 }).unwrap();
    assert_eq!(session.active().unwrap().state.current_page, 99);
    session.apply(Command::GotoPage { page: 150 }).unwrap();
    assert_eq!(session.active().unwrap().state.current_page, 99);

    session.persist().unwrap();
    let info = session.active().unwrap().info.clone();
    let stored = session.store.load(&info).unwrap().unwrap();
    assert_eq!(stored.current_page, 99);
}

#[test]
fn session_jump_history_tracks_positions() {
    let mut session = open_session();

    session.apply(Command::NextPage { count: 12 }).unwrap();
    assert_eq!(session.active().unwrap().state.current_page, 12);

    session.apply(Command::JumpBackward).unwrap();
    assert_eq!(session.active().unwrap().state.current_page, 0);

    session.apply(Command::JumpForward).unwrap();
    assert_eq!(session.active().unwrap().state.current_page, 12);

    session.apply(Command::GotoPage { page: 25 }).unwrap();
    assert_eq!(session.active().unwrap().state.current_page, 25);

    session.apply(Command::PrevPage { count: 5 }).unwrap();
    assert_eq!(session.active().unwrap().state.current_page, 20);

    session.apply(Command::JumpBackward).unwrap();
    assert_eq!(session.active().unwrap().state.current_page, 25);

    session.apply(Command::JumpBackward).unwrap();
    assert_eq!(session.active().unwrap().state.current_page, 12);

    session.apply(Command::JumpBackward).unwrap();
    assert_eq!(session.active().unwrap().state.current_page, 0);

    session.apply(Command::JumpForward).unwrap();
    assert_eq!(session.active().unwrap().state.current_page, 12);

    session.apply(Command::JumpForward).unwrap();
    assert_eq!(session.active().unwrap().state.current_page, 25);

    session.apply(Command::JumpForward).unwrap();
    assert_eq!(session.active().unwrap().state.current_page, 20);

    session.apply(Command::GotoPage { page: 40 }).unwrap();
    assert_eq!(session.active().unwrap().state.current_page, 40);

    session.apply(Command::JumpForward).unwrap();
    assert_eq!(session.active().unwrap().state.current_page, 40);
}

#[test]
fn session_search_navigates_matches() {
    let mut session = open_session();

    session.apply(Command::Search { query: "KEYWORD".to_string() }).unwrap();
    {
        let doc = session.active().unwrap();
        assert_eq!(doc.state.current_page, 0);
        let summary = doc.search_summary().unwrap();
        assert_eq!(summary.total, doc.info.page_count);
        assert_eq!(summary.current_index, Some(0));
        let highlights = doc.search_highlights_for_current_page().unwrap();
        assert!(!highlights.current.is_empty() || !highlights.others.is_empty());
    }

    session.apply(Command::GotoPage { page: 5 }).unwrap();
    session.apply(Command::Search { query: "keyword".to_string() }).unwrap();
    {
        let doc = session.active().unwrap();
        assert_eq!(doc.state.current_page, 5);
        let summary = doc.search_summary().unwrap();
        assert_eq!(summary.current_index, Some(5));
        let highlights = doc.search_highlights_for_current_page().unwrap();
        assert!(!highlights.current.is_empty());
    }

    session.apply(Command::SearchNext { count: 1 }).unwrap();
    {
        let doc = session.active().unwrap();
        assert_eq!(doc.state.current_page, 6);
        let summary = doc.search_summary().unwrap();
        assert_eq!(summary.current_index, Some(6));
        let highlights = doc.search_highlights_for_current_page().unwrap();
        assert!(!highlights.current.is_empty());
    }

    session.apply(Command::SearchPrev { count: 2 }).unwrap();
    {
        let doc = session.active().unwrap();
        assert_eq!(doc.state.current_page, 4);
        let summary = doc.search_summary().unwrap();
        assert_eq!(summary.current_index, Some(4));
        let highlights = doc.search_highlights_for_current_page().unwrap();
        assert!(!highlights.current.is_empty());
    }

    session.apply(Command::Search { query: "missing".to_string() }).unwrap();
    {
        let doc = session.active().unwrap();
        let summary = doc.search_summary().unwrap();
        assert_eq!(summary.total, 0);
        assert!(summary.current_index.is_none());
        assert!(doc.search_highlights_for_current_page().is_none());
    }
}

struct LinkBackend {
    info: DocumentInfo,
    links: Vec<Vec<LinkDefinition>>,
}

impl LinkBackend {
    fn new(info: DocumentInfo, links: Vec<Vec<LinkDefinition>>) -> Self {
        Self { info, links }
    }
}

impl DocumentBackend for LinkBackend {
    fn info(&self) -> &DocumentInfo {
        &self.info
    }

    fn render_page(&self, _request: RenderRequest) -> Result<RenderImage, EngineError> {
        Ok(RenderImage { width: 1, height: 1, pixels: vec![0, 0, 0, 0] })
    }

    fn page_text(&self, _page_index: usize) -> Result<PageText, EngineError> {
        Ok(PageText::new(String::new(), Vec::new()))
    }

    fn search_page(
        &self,
        _page_index: usize,
        _query: &str,
    ) -> Result<Vec<Vec<NormalizedRect>>, EngineError> {
        Ok(Vec::new())
    }

    fn page_links(&self, page_index: usize) -> Result<Vec<LinkDefinition>, EngineError> {
        Ok(self.links.get(page_index).cloned().unwrap_or_default())
    }
}

fn link_info(path: &str) -> DocumentInfo {
    DocumentInfo {
        id: document_id_for_path(path),
        path: path.to_string(),
        page_count: 3,
        metadata: DocumentMetadata::default(),
    }
}

#[test]
fn link_mode_navigation_and_activation() {
    let info = link_info("/tmp/link-test.pdf");

    let links = vec![
        vec![LinkDefinition {
            rects: vec![NormalizedRect {
                left: 100_000,
                top: 100_000,
                right: 300_000,
                bottom: 200_000,
            }],
            action: LinkAction::GoTo { page: 1 },
        }],
        vec![LinkDefinition {
            rects: vec![NormalizedRect {
                left: 200_000,
                top: 200_000,
                right: 400_000,
                bottom: 300_000,
            }],
            action: LinkAction::Uri { uri: "https://example.com".to_string() },
        }],
        Vec::new(),
    ];

    let backend = LinkBackend::new(info.clone(), links);
    let mut instance =
        DocumentInstance::new(info, backend, PersistedDocumentState::default(), Vec::new());

    assert!(instance.link_summary().is_none());

    instance.start_link_mode().expect("link mode");

    let summary = instance.link_summary().expect("link summary present");
    assert_eq!(summary.total, 2);
    assert_eq!(summary.current_index, Some(0));

    let highlights =
        instance.link_highlights_for_current_page().expect("highlights on current page");
    assert!(!highlights.current.is_empty());

    match instance.activate_link() {
        LinkFollowResult::Navigated { page_changed } => assert!(page_changed),
        other => panic!("unexpected activation result: {:?}", other),
    }
    assert_eq!(instance.state.current_page, 1);

    assert!(instance.next_link(1).is_some());

    match instance.activate_link() {
        LinkFollowResult::External { target } => match target {
            ExternalLink::Url(url) => assert_eq!(url, "https://example.com"),
            other => panic!("unexpected external target: {:?}", other),
        },
        other => panic!("unexpected activation result: {:?}", other),
    }
}

#[test]
fn link_mode_skips_links_before_current_page() {
    let info = link_info("/tmp/link-skip.pdf");

    let links = vec![
        vec![LinkDefinition {
            rects: vec![NormalizedRect {
                left: 100_000,
                top: 100_000,
                right: 200_000,
                bottom: 200_000,
            }],
            action: LinkAction::GoTo { page: 0 },
        }],
        Vec::new(),
        vec![LinkDefinition {
            rects: vec![NormalizedRect {
                left: 300_000,
                top: 300_000,
                right: 400_000,
                bottom: 400_000,
            }],
            action: LinkAction::GoTo { page: 2 },
        }],
    ];

    let backend = LinkBackend::new(info.clone(), links);
    let mut state = PersistedDocumentState::default();
    state.current_page = 1;
    let mut instance = DocumentInstance::new(info, backend, state, Vec::new());

    instance.start_link_mode().expect("link mode");
    let summary = instance.link_summary().expect("link summary present");
    assert_eq!(summary.current_index, None);

    let result = instance.next_link(1).expect("advance link");
    assert!(result);
    assert_eq!(instance.state.current_page, 2);
}

#[test]
fn document_id_is_stable_for_same_path() {
    let first = document_id_for_path("/tmp/sample.pdf");
    let second = document_id_for_path("/tmp/sample.pdf");

    assert_eq!(first, second);
}

#[test]
fn document_id_is_the_name_based_identifier() {
    assert_eq!(document_id_for_path("/tmp/example.pdf"), 0xe3d7055067b85a4487dacd2b16bdf6cc);
    assert_eq!(document_id_for_path("/tmp/link-test.pdf"), 0x4d6cbf3546935aed96aaf5f098270021);
    assert_eq!(document_id_for_path(""), 0x95df9a329fa551c7b0fbad712b8f8509);
}

#[test]
fn opening_a_document_tells_so() {
    let mut session = open_session();
    let id = session.active().unwrap().info.id;
    let events = session.drain_events();
    assert_eq!(events.len(), 2);
    assert!(matches!(events[0], SessionEvent::DocumentOpened(opened) if opened == id));
    assert!(matches!(events[1], SessionEvent::ActiveDocumentChanged(opened) if opened == id));
    assert!(session.events().is_empty());
    assert!(session.contains_document(id));
    assert!(!session.contains_document(id ^ 1));
    assert_eq!(session.document_path(id).as_deref(), Some("/tmp/example.pdf"));
    assert!(session.document_path(id ^ 1).is_none());
}

#[test]
fn commands_ask_for_redraw_only_where_something_changed() {
    let mut session = open_session();
    let id = session.active().unwrap().info.id;
    session.drain_events();

    session.apply(Command::PrevPage { count: 1 }).unwrap();
    assert!(session.drain_events().is_empty());

    session.apply(Command::NextPage { count: 1 }).unwrap();
    let events = session.drain_events();
    assert_eq!(events.len(), 1);
    assert!(matches!(events[0], SessionEvent::RedrawNeeded(doc) if doc == id));

    session.apply(Command::PutMark { key: 'a' }).unwrap();
    assert!(session.drain_events().is_empty());

    session.apply(Command::GotoMark { key: 'z' }).unwrap();
    assert!(session.drain_events().is_empty());
    assert_eq!(page_of(&session), 1);

    session.apply(Command::ToggleDarkMode).unwrap();
    assert_eq!(session.drain_events().len(), 1);
    assert!(session.active().unwrap().state.dark_mode);

    session.apply(Command::SearchNext { count: 1 }).unwrap();
    assert!(session.drain_events().is_empty());

    session.apply(Command::LinkNext { count: 1 }).unwrap();
    assert!(session.drain_events().is_empty());

    session.apply(Command::ActivateLink).unwrap();
    assert!(session.drain_events().is_empty());
}

#[test]
fn marks_bring_the_reader_back() {
    let mut session = open_session();
    session.apply(Command::GotoPage { page: 7 }).unwrap();
    session.apply(Command::PutMark { key: 'a' }).unwrap();
    session.apply(Command::SaveNamedMark { name: "intro".to_string() }).unwrap();
    session.apply(Command::GotoPage { page: 50 }).unwrap();
    session.apply(Command::SaveNamedMark { name: "middle".to_string() }).unwrap();
    session.apply(Command::GotoMark { key: 'a' }).unwrap();
    assert_eq!(page_of(&session), 7);
    session.apply(Command::GotoNamedMark { name: "middle".to_string() }).unwrap();
    assert_eq!(page_of(&session), 50);
    session.apply(Command::GotoNamedMark { name: "intro".to_string() }).unwrap();
    assert_eq!(page_of(&session), 7);
    session.apply(Command::GotoNamedMark { name: "nowhere".to_string() }).unwrap();
    assert_eq!(page_of(&session), 7);
    session.apply(Command::JumpBackward).unwrap();
    assert_eq!(page_of(&session), 50);

    let doc = session.active().unwrap();
    assert_eq!(doc.get_page_from_mark('a'), Some(7));
    assert_eq!(doc.get_page_from_mark('b'), None);
    assert_eq!(doc.named_mark_page("middle"), Some(50));
    assert_eq!(doc.named_marks().len(), 2);
    assert_eq!(doc.named_marks().get("intro"), Some(7));
}

#[test]
fn opening_by_command_is_not_supported() {
    let mut session = open_session();
    let result = session.apply(Command::OpenDocument { path: "/tmp/other.pdf".to_string() });
    assert!(matches!(result, Err(EngineError::Unsupported)));
    assert_eq!(session.documents.len(), 1);
}

#[test]
fn commands_without_a_document_do_nothing() {
    let mut session: Session<FakeBackend, MemoryStateStore> = Session::new(MemoryStateStore::new());
    assert!(session.active().is_none());
    session.apply(Command::NextPage { count: 3 }).unwrap();
    session.apply(Command::Search { query: "x".to_string() }).unwrap();
    session.apply(Command::CloseDocument { index: 0 }).unwrap();
    session.apply(Command::SwitchDocument { index: 0 }).unwrap();
    assert!(session.drain_events().is_empty());
    assert!(session.selection_text().is_none());
}

#[test]
fn closing_saves_state_and_moves_the_front() {
    let mut session = Session::new(MemoryStateStore::new());
    session.open_with(fake_backend("/tmp/a.pdf", 10)).unwrap();
    session.open_with(fake_backend("/tmp/b.pdf", 20)).unwrap();
    let first = session.documents[0].info.id;
    let second = session.documents[1].info.id;
    assert_eq!(session.active, 1);
    session.apply(Command::GotoPage { page: 4 }).unwrap();
    session.drain_events();

    session.apply(Command::SwitchDocument { index: 0 }).unwrap();
    assert_eq!(session.active, 0);
    session.apply(Command::SwitchDocument { index: 5 }).unwrap();
    assert_eq!(session.active, 0);
    let events = session.drain_events();
    assert_eq!(events.len(), 1);
    assert!(matches!(events[0], SessionEvent::ActiveDocumentChanged(doc) if doc == first));

    session.apply(Command::SwitchDocument { index: 1 }).unwrap();
    session.drain_events();
    let info = session.documents[1].info.clone();
    session.apply(Command::CloseDocument { index: 1 }).unwrap();
    assert_eq!(session.documents.len(), 1);
    assert_eq!(session.active, 0);
    let events = session.drain_events();
    assert_eq!(events.len(), 2);
    assert!(matches!(events[0], SessionEvent::DocumentClosed(doc) if doc == second));
    assert!(matches!(events[1], SessionEvent::ActiveDocumentChanged(doc) if doc == first));
    let stored = session.store.load(&info).unwrap().unwrap();
    assert_eq!(stored.current_page, 4);

    session.apply(Command::CloseDocument { index: 0 }).unwrap();
    assert!(session.documents.is_empty());
    assert_eq!(session.active, 0);
    assert_eq!(session.drain_events().len(), 1);
}

#[test]
fn reopening_restores_the_stored_state() {
    let mut store = MemoryStateStore::new();
    let backend = fake_backend("/tmp/example.pdf", 100);
    let mut state = PersistedDocumentState::default();
    state.current_page = 42;
    state.scale = 1500;
    state.dark_mode = true;
    state.marks.insert('a', 1);
    state.named_marks.insert("foo".to_string(), 2);
    state.viewport = ViewportOffset { x: 250_000, y: 0 };
    store.save(backend.info(), &state).unwrap();

    let mut session = Session::new(store);
    session.open_with(backend).unwrap();
    let doc = session.active().unwrap();
    assert_eq!(doc.state.current_page, 42);
    assert_eq!(doc.state.scale, 1500);
    assert!(doc.state.dark_mode);
    assert_eq!(doc.state.marks.get('a'), Some(1));
    assert_eq!(doc.state.named_marks.get("foo"), Some(2));
    assert_eq!(doc.state.viewport, ViewportOffset { x: 250_000, y: 0 });
    assert_eq!(doc.current_page(), 42);
}

#[test]
fn outline_is_kept_with_the_document() {
    let info = link_info("/tmp/outline.pdf");
    let outline = vec![OutlineItem { title: "One".to_string(), page_index: 0, depth: 0 }];
    let doc = DocumentInstance::new(
        info.clone(),
        LinkBackend::new(info, Vec::new()),
        PersistedDocumentState::default(),
        outline,
    );
    assert_eq!(doc.outline().len(), 1);
    assert_eq!(doc.outline()[0].title, "One");
}

/// A store that keeps nothing: it counts what it is asked, fails to load
/// where it is told to, and fails to save from a given save on.
struct CountingStore {
    saved: Vec<String>,
    fail_load: bool,
    fail_save_from: usize,
}

impl CountingStore {
    fn new(fail_load: bool, fail_save_from: usize) -> Self {
        CountingStore { saved: Vec::new(), fail_load, fail_save_from }
    }
}

impl StateStore for CountingStore {
    fn load(&self, _doc: &DocumentInfo) -> Result<Option<PersistedDocumentState>, EngineError> {
        if self.fail_load {
            Err(EngineError::Unsupported)
        } else {
            Ok(None)
        }
    }

    fn save(&mut self, doc: &DocumentInfo, _state: &PersistedDocumentState) -> Result<(), EngineError> {
        self.saved.push(doc.path.clone());
        if self.saved.len() > self.fail_save_from {
            Err(EngineError::Unsupported)
        } else {
            Ok(())
        }
    }
}

#[test]
fn persisting_without_documents_asks_the_store_nothing() {
    let mut session: Session<FakeBackend, CountingStore> = Session::new(CountingStore::new(false, 0));
    assert!(session.persist().is_ok());
    assert!(session.store.saved.is_empty());
    assert!(session.events().is_empty());
}

#[test]
fn persisting_saves_every_document_in_order() {
    let mut session = Session::new(CountingStore::new(false, 10));
    session.open_with(fake_backend("/tmp/a.pdf", 10)).unwrap();
    session.open_with(fake_backend("/tmp/b.pdf", 10)).unwrap();
    session.open_with(fake_backend("/tmp/c.pdf", 10)).unwrap();
    session.drain_events();
    assert!(session.persist().is_ok());
    assert_eq!(session.store.saved, vec!["/tmp/a.pdf", "/tmp/b.pdf", "/tmp/c.pdf"]);
    assert_eq!(session.documents.len(), 3);
    assert_eq!(session.active, 2);
    assert!(session.events().is_empty());
}

#[test]
fn persisting_stops_at_the_first_failure() {
    let mut session = Session::new(CountingStore::new(false, 1));
    session.open_with(fake_backend("/tmp/a.pdf", 10)).unwrap();
    session.open_with(fake_backend("/tmp/b.pdf", 10)).unwrap();
    session.open_with(fake_backend("/tmp/c.pdf", 10)).unwrap();
    session.drain_events();
    assert!(matches!(session.persist(), Err(EngineError::Unsupported)));
    assert_eq!(session.store.saved, vec!["/tmp/a.pdf", "/tmp/b.pdf"]);
    assert_eq!(session.documents.len(), 3);
    assert_eq!(session.active, 2);
    assert!(session.events().is_empty());
}

#[test]
fn persisting_keeps_the_state_of_each_document() {
    let mut session = Session::new(MemoryStateStore::new());
    session.open_with(fake_backend("/tmp/a.pdf", 10)).unwrap();
    session.apply(Command::GotoPage { page: 3 }).unwrap();
    session.open_with(fake_backend("/tmp/b.pdf", 20)).unwrap();
    session.apply(Command::GotoPage { page: 7 }).unwrap();
    assert!(session.persist().is_ok());
    let first = session.documents[0].info.clone();
    let second = session.documents[1].info.clone();
    assert_eq!(session.store.load(&first).unwrap().unwrap().current_page, 3);
    assert_eq!(session.store.load(&second).unwrap().unwrap().current_page, 7);
}

#[test]
fn opening_fails_where_the_store_fails() {
    let mut session = Session::new(CountingStore::new(true, 0));
    let result = session.open_with(fake_backend("/tmp/a.pdf", 10));
    assert!(matches!(result, Err(EngineError::Unsupported)));
    assert!(session.documents.is_empty());
    assert_eq!(session.active, 0);
    assert!(session.events().is_empty());
    assert!(session.active().is_none());
}

#[test]
fn opening_without_a_stored_state_starts_from_the_default() {
    let mut session = Session::new(CountingStore::new(false, 0));
    session.open_with(fake_backend("/tmp/a.pdf", 10)).unwrap();
    let doc = session.active().unwrap();
    assert_eq!(doc.state.current_page, 0);
    assert_eq!(doc.state.scale, 1000);
    assert!(!doc.state.dark_mode);
    assert_eq!(doc.state.marks.len(), 0);
    assert_eq!(doc.state.viewport, ViewportOffset { x: 0, y: 0 });
    assert_eq!(session.events().len(), 2);
}

#[test]
fn closing_closes_the_document_even_where_the_store_fails() {
    let mut session = Session::new(CountingStore::new(false, 0));
    session.open_with(fake_backend("/tmp/a.pdf", 10)).unwrap();
    session.drain_events();
    let result = session.apply(Command::CloseDocument { index: 0 });
    assert!(matches!(result, Err(EngineError::Unsupported)));
    assert!(session.documents.is_empty());
    assert_eq!(session.store.saved, vec!["/tmp/a.pdf"]);
    assert!(session.events().is_empty());
}

#[test]
fn the_description_of_a_document_is_copied_whole() {
    let mut backend = fake_backend("/tmp/described.pdf", 12);
    backend.info.metadata = DocumentMetadata {
        title: Some("A title".to_string()),
        author: None,
        keywords: vec!["one".to_string(), "two".to_string()],
    };
    let copy = backend.info.metadata.clone();
    assert_eq!(copy.title, Some("A title".to_string()));
    assert_eq!(copy.author, None);
    assert_eq!(copy.keywords, vec!["one".to_string(), "two".to_string()]);
    let mut session = Session::new(MemoryStateStore::new());
    session.open_with(backend).unwrap();
    let info = &session.active().unwrap().info;
    assert_eq!(info.id, document_id_for_path("/tmp/described.pdf"));
    assert_eq!(info.path, "/tmp/described.pdf");
    assert_eq!(info.page_count, 12);
    assert_eq!(info.metadata.title, Some("A title".to_string()));
    assert_eq!(info.metadata.author, None);
    assert_eq!(info.metadata.keywords, vec!["one".to_string(), "two".to_string()]);
}

#[test]
fn commands_that_show_something_else_force_a_redraw() {
    assert!(Command::GotoPage { page: 1 }.forces_redraw());
    assert!(Command::NextPage { count: 1 }.forces_redraw());
    assert!(Command::ScaleBy { factor: 1100 }.forces_redraw());
    assert!(Command::GotoMark { key: 'a' }.forces_redraw());
    assert!(Command::Search { query: "x".to_string() }.forces_redraw());
    assert!(Command::ActivateLink.forces_redraw());
    assert!(Command::JumpBackward.forces_redraw());
    assert!(Command::SwitchDocument { index: 0 }.forces_redraw());
    assert!(Command::CloseDocument { index: 0 }.forces_redraw());
    assert!(!Command::PutMark { key: 'a' }.forces_redraw());
    assert!(!Command::SaveNamedMark { name: "n".to_string() }.forces_redraw());
    assert!(!Command::GotoNamedMark { name: "n".to_string() }.forces_redraw());
    assert!(!Command::EnterVisualMode.forces_redraw());
    assert!(!Command::SwapVisualCursor.forces_redraw());
    assert!(!Command::OpenDocument { path: "p".to_string() }.forces_redraw());
    assert!(Command::SwitchDocument { index: 0 }.resets_overlay());
    assert!(Command::CloseDocument { index: 3 }.resets_overlay());
    assert!(!Command::GotoPage { page: 1 }.resets_overlay());
    assert!(!Command::OpenDocument { path: "p".to_string() }.resets_overlay());
}
