//! The plain data that describes a document and its persisted state.

use vstd::prelude::*;
use crate::geometry::{ViewportOffset, SCALE_ONE};
use crate::marks::{CharMarks, NamedMarks};

verus! {

/// The stable identity of a document: 128 bits derived from its path.
pub type DocumentId = u128;

/// Why an operation of the engine failed.
#[derive(Debug, Clone)]
pub enum EngineError {
    /// The page index is not below the number of pages.
    OutOfRange { page: usize },
    /// The backend reported a failure.
    BackendFailure { message: String },
    /// The backend does not offer what was asked of it.
    Unsupported,
    /// The state store reported a failure.
    PersistenceFailure { message: String },
}

/// What a document says about itself.
#[derive(Debug)]
pub struct DocumentMetadata {
    pub title: Option<String>,
    pub author: Option<String>,
    pub keywords: Vec<String>,
}

/// The characters of a text that may be missing.
pub open spec fn chars_of(text: Option<String>) -> Option<Seq<char>> {
    match text {
        Some(text) => Some(text@),
        None => None,
    }
}

/// Whether two descriptions say the same: the same title, the same
/// author and the same keywords in the same order.
pub open spec fn same_metadata(a: DocumentMetadata, b: DocumentMetadata) -> bool {
    &&& chars_of(a.title) == chars_of(b.title)
    &&& chars_of(a.author) == chars_of(b.author)
    &&& a.keywords@.len() == b.keywords@.len()
    &&& forall|i: int| 0 <= i < a.keywords@.len() ==> (#[trigger] a.keywords@[i])@ == b.keywords@[i]@
}

/// A copy of a text that may be missing.
fn copy_of(text: &Option<String>) -> (r: Option<String>)
    ensures
        chars_of(r) == chars_of(*text),
{
    match text {
        Some(text) => Some(text.clone()),
        None => None,
    }
}

impl Clone for DocumentMetadata {
    fn clone(&self) -> (r: Self)
        ensures
            same_metadata(r, *self),
    {
        let mut keywords: Vec<String> = Vec::new();
        let mut i: usize = 0;
        while i < self.keywords.len()
            invariant
                i <= self.keywords@.len(),
                keywords@.len() == i,
                forall|j: int| 0 <= j < i ==> (#[trigger] keywords@[j])@ == self.keywords@[j]@,
            decreases self.keywords.len() - i,
        {
            keywords.push(self.keywords[i].clone());
            i += 1;
        }
        DocumentMetadata { title: copy_of(&self.title), author: copy_of(&self.author), keywords }
    }
}

impl Default for DocumentMetadata {
    fn default() -> (r: Self)
        ensures
            r.title is None,
            r.author is None,
            r.keywords@.len() == 0,
    {
        DocumentMetadata { title: None, author: None, keywords: Vec::new() }
    }
}

/// One entry of a document's table of contents.
#[derive(Debug, Clone)]
pub struct OutlineItem {
    pub title: String,
    pub page_index: usize,
    pub depth: usize,
}

/// A document as the engine knows it.
#[derive(Debug)]
pub struct DocumentInfo {
    pub id: DocumentId,
    pub path: String,
    pub page_count: usize,
    pub metadata: DocumentMetadata,
}

/// Whether two descriptions of a document say the same.
pub open spec fn same_info(a: DocumentInfo, b: DocumentInfo) -> bool {
    &&& a.id == b.id
    &&& a.path@ == b.path@
    &&& a.page_count == b.page_count
    &&& same_metadata(a.metadata, b.metadata)
}

impl Clone for DocumentInfo {
    fn clone(&self) -> (r: Self)
        ensures
            same_info(r, *self),
    {
        DocumentInfo {
            id: self.id,
            path: self.path.clone(),
            page_count: self.page_count,
            metadata: self.metadata.clone(),
        }
    }
}

/// What a backend is asked to render: a page, a zoom factor in
/// thousandths and whether to invert the colours.
#[derive(Debug, Clone, Copy, PartialEq, Eq, Structural)]
pub struct RenderRequest {
    pub page_index: usize,
    pub scale: u32,
    pub dark_mode: bool,
}

impl Default for RenderRequest {
    fn default() -> (r: Self)
        ensures
            r == (RenderRequest { page_index: 0, scale: SCALE_ONE, dark_mode: false }),
    {
        RenderRequest { page_index: 0, scale: SCALE_ONE, dark_mode: false }
    }
}

/// What is kept of a document between sessions.
#[derive(Debug)]
pub struct PersistedDocumentState {
    pub current_page: usize,
    pub scale: u32,
    pub dark_mode: bool,
    pub marks: CharMarks,
    pub named_marks: NamedMarks,
    pub viewport: ViewportOffset,
}

impl Default for PersistedDocumentState {
    fn default() -> (r: Self)
        ensures
            r.current_page == 0,
            r.scale == SCALE_ONE,
            !r.dark_mode,
            r.marks@ == Map::<char, usize>::empty(),
            r.named_marks@ == Map::<Seq<char>, usize>::empty(),
            r.viewport == ViewportOffset::origin(),
    {
        PersistedDocumentState {
            current_page: 0,
            scale: SCALE_ONE,
            dark_mode: false,
            marks: CharMarks::new(),
            named_marks: NamedMarks::new(),
            viewport: ViewportOffset { x: 0, y: 0 },
        }
    }
}

impl Clone for PersistedDocumentState {
    fn clone(&self) -> (r: Self)
        ensures
            r.current_page == self.current_page,
            r.scale == self.scale,
            r.dark_mode == self.dark_mode,
            r.marks@ == self.marks@,
            r.named_marks@ == self.named_marks@,
            r.viewport == self.viewport,
    {
        PersistedDocumentState {
            current_page: self.current_page,
            scale: self.scale,
            dark_mode: self.dark_mode,
            marks: self.marks.clone(),
            named_marks: self.named_marks.clone(),
            viewport: self.viewport,
        }
    }
}

} // verus!
