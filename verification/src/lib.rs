//! Stateful engine of a terminal viewer for paginated documents.
//!
//! The crate tracks the reading position of each open document, keeps a
//! bounded cache of rendered pages, searches text, follows links, keeps a
//! back/forward history of jumps and drives a glyph-addressed selection
//! cursor. Lengths on a page are held in fixed point: a coordinate is a
//! count of millionths of the page's width or height, a zoom factor a count
//! of thousandths.

pub mod backend;
pub mod cache;
pub mod commands;
pub mod document;
pub mod geometry;
pub mod history;
pub mod identity;
pub mod imaging;
pub mod input;
pub mod kitty;
pub mod labels;
pub mod linking;
pub mod links;
pub mod marks;
pub mod model;
pub mod points;
pub mod rendering;
pub mod search;
pub mod searching;
pub mod selecting;
pub mod selection;
pub mod session;
pub mod text;
pub mod toc;
pub mod unicode;

pub use backend::{DocumentBackend, TextCache};
pub use cache::{CacheKey, RenderCache, RenderImage};
pub use commands::{Command, Outcome, SessionEvent};
pub use document::DocumentInstance;
pub use geometry::{Highlights, LinkHighlights, NormalizedRect, SearchHighlights, ViewportOffset};
pub use history::{DocumentPosition, JumpHistory};
pub use identity::document_id_for_path;
pub use input::{EventMapper, InputEvent, InputMode, KeyCode, KeyInput, KeyModifiers, UiEvent};
pub use kitty::{write_status_line, DrawParams, KittyRenderer};
pub use links::{
    ExternalLink, LinkAction, LinkDefinition, LinkEntry, LinkFollowResult, LinkState, LinkSummary,
};
pub use model::{
    DocumentId, DocumentInfo, DocumentMetadata, EngineError, OutlineItem, PersistedDocumentState,
    RenderRequest,
};
pub use points::{
    compare_points, SelectionMotion, SelectionPoint, SelectionSnapshot, SelectionState,
};
pub use search::{SearchMatch, SearchState, SearchSummary};
pub use searching::DocumentSearchContext;
pub use session::{MemoryStateStore, Session, StateStore};
pub use text::{PageLine, PageText, TextGlyph};
pub use toc::TocWindow;
pub use unicode::is_word_char;
