//! A session: the open documents, the one in front, and the events that
//! commands give rise to.

use std::collections::HashMap;
use vstd::prelude::*;
use crate::backend::{described_by, description, outline_of, taken_from, DocumentBackend};
use crate::commands::{Command, Outcome, SessionEvent};
use crate::document::DocumentInstance;
use crate::model::{DocumentId, DocumentInfo, EngineError, OutlineItem, PersistedDocumentState};
use crate::search::SearchMatch;

verus! {

broadcast use vstd::std_specs::hash::group_hash_axioms;

/// Where the state of documents is kept between sessions. A store may
/// say of itself what its answers can be; the session is held to those
/// answers and to nothing else. A store that says nothing can answer
/// anything.
pub trait StateStore {
    /// Whether `answer` can be what this store gives when it is asked
    /// for the state kept of `doc`.
    open spec fn loads(
        &self,
        doc: DocumentInfo,
        answer: Result<Option<PersistedDocumentState>, EngineError>,
    ) -> bool {
        true
    }

    /// Whether keeping `state` as the state of `doc` can turn this store
    /// into `after` with the answer `answer`.
    open spec fn saves(
        &self,
        doc: DocumentInfo,
        state: PersistedDocumentState,
        after: &Self,
        answer: Result<(), EngineError>,
    ) -> bool {
        true
    }

    /// The state kept of `doc`, if any.
    fn load(&self, doc: &DocumentInfo) -> (r: Result<Option<PersistedDocumentState>, EngineError>)
        ensures
            self.loads(*doc, r),
    ;

    /// Keeps `state` as the state of `doc`.
    fn save(&mut self, doc: &DocumentInfo, state: &PersistedDocumentState) -> (r: Result<
        (),
        EngineError,
    >)
        ensures
            old(self).saves(*doc, *state, final(self), r),
    ;
}

/// Whether two states hold the same.
pub open spec fn same_state(a: PersistedDocumentState, b: PersistedDocumentState) -> bool {
    &&& a.current_page == b.current_page
    &&& a.scale == b.scale
    &&& a.dark_mode == b.dark_mode
    &&& a.marks@ == b.marks@
    &&& a.named_marks@ == b.named_marks@
    &&& a.viewport == b.viewport
}

/// Whether `state` is that of a document that is opened for the first
/// time: its first page at the natural size, in light colours, without
/// marks.
pub open spec fn fresh(state: PersistedDocumentState) -> bool {
    &&& state.current_page == 0
    &&& state.scale == crate::geometry::SCALE_ONE
    &&& !state.dark_mode
    &&& state.marks@ == Map::<char, usize>::empty()
    &&& state.named_marks@ == Map::<Seq<char>, usize>::empty()
    &&& state.viewport == crate::geometry::ViewportOffset::origin()
}

/// A state store that lives as long as the program.
pub struct MemoryStateStore {
    inner: HashMap<DocumentId, PersistedDocumentState>,
}

impl MemoryStateStore {
    /// The states that the store holds, by document.
    pub closed spec fn view(&self) -> Map<DocumentId, PersistedDocumentState> {
        self.inner@
    }

    /// A store without states.
    pub fn new() -> (r: Self)
        ensures
            r@ == Map::<DocumentId, PersistedDocumentState>::empty(),
    {
        MemoryStateStore { inner: HashMap::new() }
    }
}

impl Default for MemoryStateStore {
    fn default() -> (r: Self)
        ensures
            r@ == Map::<DocumentId, PersistedDocumentState>::empty(),
    {
        MemoryStateStore::new()
    }
}

impl StateStore for MemoryStateStore {
    /// The store never fails: it gives the state that it holds of the
    /// document, or none.
    open spec fn loads(
        &self,
        doc: DocumentInfo,
        answer: Result<Option<PersistedDocumentState>, EngineError>,
    ) -> bool {
        match answer {
            Ok(Some(state)) => self@.contains_key(doc.id) && same_state(state, self@[doc.id]),
            Ok(None) => !self@.contains_key(doc.id),
            Err(_) => false,
        }
    }

    /// The store never fails: afterwards it holds `state` for the
    /// document, and for every other document what it held.
    open spec fn saves(
        &self,
        doc: DocumentInfo,
        state: PersistedDocumentState,
        after: &Self,
        answer: Result<(), EngineError>,
    ) -> bool {
        &&& answer is Ok
        &&& after@.dom() == self@.dom().insert(doc.id)
        &&& same_state(after@[doc.id], state)
        &&& forall|id: DocumentId|
            id != doc.id && self@.contains_key(id) ==> after@[id] == self@[id]
    }

    fn load(&self, doc: &DocumentInfo) -> (r: Result<Option<PersistedDocumentState>, EngineError>) {
        match self.inner.get(&doc.id) {
            Some(state) => Ok(Some(state.clone())),
            None => Ok(None),
        }
    }

    fn save(&mut self, doc: &DocumentInfo, state: &PersistedDocumentState) -> (r: Result<
        (),
        EngineError,
    >) {
        self.inner.insert(doc.id, state.clone());
        assert(self@.dom() =~= old(self)@.dom().insert(doc.id));
        Ok(())
    }
}

/// The events that the outcome of a command on document `id` gives rise to.
pub open spec fn events_of(id: DocumentId, outcome: Outcome) -> Seq<SessionEvent> {
    if outcome.redraw {
        match outcome.follow {
            Some(target) => seq![
                SessionEvent::RedrawNeeded(id),
                SessionEvent::FollowExternalLink { target },
            ],
            None => seq![SessionEvent::RedrawNeeded(id)],
        }
    } else {
        Seq::empty()
    }
}

/// The open documents of one reader.
pub struct Session<B: DocumentBackend, S: StateStore> {
    pub documents: Vec<DocumentInstance<B>>,
    pub active: usize,
    pub store: S,
    pub events: Vec<SessionEvent>,
}

impl<B: DocumentBackend, S: StateStore> Session<B, S> {
    /// A session without documents.
    pub fn new(store: S) -> (r: Self)
        ensures
            r.documents@.len() == 0,
            r.active == 0,
            r.store == store,
            r.events@.len() == 0,
    {
        Session { documents: Vec::new(), active: 0, store, events: Vec::new() }
    }

    /// The events that wait to be taken.
    pub fn events(&self) -> (r: &Vec<SessionEvent>)
        ensures
            r@ == self.events@,
    {
        &self.events
    }

    /// Takes every event that waits.
    pub fn drain_events(&mut self) -> (r: Vec<SessionEvent>)
        ensures
            r@ == old(self).events@,
            *final(self) == (Session { events: final(self).events, ..*old(self) }),
            final(self).events@.len() == 0,
    {
        let mut taken: Vec<SessionEvent> = Vec::new();
        core::mem::swap(&mut taken, &mut self.events);
        taken
    }

    /// The document in front.
    pub fn active(&self) -> (r: Option<&DocumentInstance<B>>)
        ensures
            match r {
                Some(doc) => self.active < self.documents@.len() && *doc == self.documents@[self.active as int],
                None => self.active >= self.documents@.len(),
            },
    {
        if self.active < self.documents.len() {
            Some(&self.documents[self.active])
        } else {
            None
        }
    }

    /// Whether `found` is where the first document with identity
    /// `doc_id` stands.
    pub open spec fn is_place_of(&self, doc_id: DocumentId, found: Option<usize>) -> bool {
        match found {
            Some(at) => at < self.documents@.len() && self.documents@[at as int].info.id == doc_id
                && forall|i: int| 0 <= i < at ==> (#[trigger] self.documents@[i]).info.id != doc_id,
            None => forall|i: int|
                0 <= i < self.documents@.len() ==> (#[trigger] self.documents@[i]).info.id
                    != doc_id,
        }
    }

    /// Where the first document with identity `doc_id` stands.
    pub fn place_of(&self, doc_id: DocumentId) -> (r: Option<usize>)
        ensures
            self.is_place_of(doc_id, r),
    {
        let mut i: usize = 0;
        while i < self.documents.len()
            invariant
                i <= self.documents.len(),
                forall|k: int| 0 <= k < i ==> (#[trigger] self.documents@[k]).info.id != doc_id,
            decreases self.documents.len() - i,
        {
            if self.documents[i].info.id == doc_id {
                return Some(i);
            }
            i += 1;
        }
        None
    }

    /// Whether a document with identity `doc_id` is open.
    pub fn contains_document(&self, doc_id: DocumentId) -> (r: bool)
        ensures
            r == exists|i: int|
                0 <= i < self.documents@.len() && (#[trigger] self.documents@[i]).info.id == doc_id,
    {
        self.place_of(doc_id).is_some()
    }

    /// The path of the open document with identity `doc_id`.
    pub fn document_path(&self, doc_id: DocumentId) -> (r: Option<String>)
        ensures
            match r {
                Some(path) => exists|at: usize|
                    self.is_place_of(doc_id, Some(at)) && path@ == self.documents@[at as int].info.path@,
                None => self.is_place_of(doc_id, None),
            },
    {
        match self.place_of(doc_id) {
            Some(at) => Some(self.documents[at].info.path.clone()),
            None => None,
        }
    }

    /// Whether `post` differs from `pre` at most in the document at
    /// `at` and in the events.
    pub open spec fn touched(pre: &Self, at: usize, post: &Self) -> bool {
        &&& post.active == pre.active
        &&& post.store == pre.store
        &&& post.documents@.len() == pre.documents@.len()
        &&& forall|i: int|
            0 <= i < pre.documents@.len() && i != at ==> post.documents@[i] == pre.documents@[i]
    }

    /// Takes up the results of a search in the document with identity
    /// `doc_id`, and asks for a redraw. Without such a document nothing
    /// happens.
    pub fn apply_search_results(
        &mut self,
        doc_id: DocumentId,
        query: String,
        matches: Vec<SearchMatch>,
        start_page: usize,
    ) -> (r: Result<bool, EngineError>)
        ensures
            match old(self).place_of_spec(doc_id) {
                Some(at) => {
                    let before = &old(self).documents@[at as int];
                    let after = &final(self).documents@[at as int];
                    &&& Self::touched(old(self), at, final(self))
                    &&& DocumentInstance::searched(before, after)
                    &&& DocumentInstance::results_applied(before, query, matches, start_page, after)
                    &&& final(self).events@ == old(self).events@.push(
                        SessionEvent::RedrawNeeded(doc_id),
                    )
                    &&& r == Ok::<bool, EngineError>(
                        after.state.current_page != before.state.current_page,
                    )
                },
                None => *final(self) == *old(self) && r == Ok::<bool, EngineError>(false),
            },
    {
        let at: usize = match self.place_of(doc_id) {
            Some(at) => at,
            None => {
                proof {
                    old(self).lemma_place(doc_id, None);
                }
                return Ok(false);
            },
        };
        proof {
            old(self).lemma_place(doc_id, Some(at));
        }
        let mut doc = self.documents.remove(at);
        let changed = doc.apply_search_results(query, matches, start_page);
        self.documents.insert(at, doc);
        self.events.push(SessionEvent::RedrawNeeded(doc_id));
        Ok(changed)
    }

    /// Where the first document with identity `doc_id` stands.
    pub open spec fn place_of_spec(&self, doc_id: DocumentId) -> Option<usize> {
        if exists|at: usize| self.is_place_of(doc_id, Some(at)) {
            Some(choose|at: usize| self.is_place_of(doc_id, Some(at)))
        } else {
            None
        }
    }

    /// A document stands first in one place only.
    pub proof fn lemma_place(&self, doc_id: DocumentId, found: Option<usize>)
        requires
            self.is_place_of(doc_id, found),
        ensures
            self.place_of_spec(doc_id) == found,
    {
        match found {
            Some(at) => {
                let other = choose|other: usize| self.is_place_of(doc_id, Some(other));
                if other < at {
                    assert(self.documents@[other as int].info.id != doc_id);
                } else if at < other {
                    assert(self.documents@[at as int].info.id != doc_id);
                }
            },
            None => {
                if exists|at: usize| self.is_place_of(doc_id, Some(at)) {
                    let at = choose|at: usize| self.is_place_of(doc_id, Some(at));
                    assert(self.documents@[at as int].info.id != doc_id);
                }
            },
        }
    }

    /// The text that the selection in the document in front covers;
    /// none without a document in front.
    pub fn selection_text(&mut self) -> (r: Option<String>)
        ensures
            old(self).active >= old(self).documents@.len() ==> r is None && *final(self) == *old(self),
            old(self).active < old(self).documents@.len() ==> Self::touched(
                old(self),
                old(self).active,
                final(self),
            ) && final(self).events@ == old(self).events@ && DocumentInstance::selection_read(
                &old(self).documents@[old(self).active as int],
                &final(self).documents@[old(self).active as int],
                r,
            ),
    {
        if self.active >= self.documents.len() {
            return None;
        }
        let at: usize = self.active;
        let mut doc = self.documents.remove(at);
        let text = doc.selection_text();
        self.documents.insert(at, doc);
        text
    }

    /// Whether `doc` is the document that comes of opening what
    /// `backend` reads where the store answered `loaded` when it was
    /// asked for the state kept of `info`: description and outline are
    /// the backend's, and the document starts from the state that was
    /// kept, or from the default state where none was.
    pub open spec fn opening(
        pre: &Self,
        backend: B,
        info: DocumentInfo,
        loaded: Option<PersistedDocumentState>,
        outline: Vec<OutlineItem>,
        doc: &DocumentInstance<B>,
    ) -> bool {
        &&& taken_from(&backend, info, outline)
        &&& pre.store.loads(info, Ok::<Option<PersistedDocumentState>, EngineError>(loaded))
        &&& DocumentInstance::opened(doc, info, backend, doc.state, outline)
        &&& match loaded {
            Some(kept) => doc.state == kept,
            None => fresh(doc.state),
        }
    }

    /// Whether the store can have failed with `e` when it was asked for
    /// the state kept of `info`, the description that `backend` gave.
    pub open spec fn load_failed(pre: &Self, backend: B, info: DocumentInfo, e: EngineError) -> bool {
        &&& described_by(&backend, info)
        &&& pre.store.loads(info, Err::<Option<PersistedDocumentState>, EngineError>(e))
    }

    /// Opens the document that `backend` reads, with the state that the
    /// store keeps of it, puts it in front and tells so. The store is
    /// asked once. Where it fails, its error is returned and nothing
    /// changes; else the document is opened, with the default state
    /// where the store keeps none.
    pub fn open_with(&mut self, backend: B) -> (r: Result<(), EngineError>)
        ensures
            final(self).store == old(self).store,
            match r {
                Ok(_) => {
                    let opened = final(self).documents@.last();
                    &&& final(self).documents@.len() == old(self).documents@.len() + 1
                    &&& final(self).documents@.drop_last() == old(self).documents@
                    &&& final(self).active == old(self).documents@.len()
                    &&& exists|info: DocumentInfo, loaded: Option<PersistedDocumentState>, outline: Vec<OutlineItem>| #[trigger]
                        Self::opening(old(self), backend, info, loaded, outline, &opened)
                    &&& final(self).events@ == old(self).events@.push(
                        SessionEvent::DocumentOpened(opened.info.id),
                    ).push(SessionEvent::ActiveDocumentChanged(opened.info.id))
                },
                Err(e) => *final(self) == *old(self) && exists|info: DocumentInfo| #[trigger]
                    Self::load_failed(old(self), backend, info, e),
            },
    {
        let info = description(&backend);
        let loaded = match self.store.load(&info) {
            Ok(loaded) => loaded,
            Err(e) => {
                assert(Self::load_failed(old(self), backend, info, e));
                return Err(e);
            },
        };
        let outline = outline_of(&backend);
        let ghost answer = loaded;
        let state = match loaded {
            Some(state) => state,
            None => PersistedDocumentState::default(),
        };
        let id: DocumentId = info.id;
        let doc = DocumentInstance::new(info, backend, state, outline);
        let ghost made = doc;
        self.documents.push(doc);
        self.active = self.documents.len() - 1;
        self.events.push(SessionEvent::DocumentOpened(id));
        self.events.push(SessionEvent::ActiveDocumentChanged(id));
        assert(self.documents@.drop_last() =~= old(self).documents@);
        assert(Self::opening(old(self), backend, info, answer, outline, &made));
        Ok(())
    }

    /// Whether `after` is what putting the document that `backend` reads
    /// in the place of `before` gives, where `info` and `outline` are
    /// what the backend gave of its document.
    pub open spec fn replaced(
        before: &DocumentInstance<B>,
        info: DocumentInfo,
        backend: B,
        outline: Vec<OutlineItem>,
        after: &DocumentInstance<B>,
    ) -> bool {
        taken_from(&backend, info, outline) && DocumentInstance::reloaded(
            before,
            info,
            backend,
            outline,
            after,
        )
    }

    /// Puts what `backend` reads in place of the open document with
    /// identity `doc_id`, and asks for a redraw. Returns whether such a
    /// document is open.
    pub fn reload_document(&mut self, doc_id: DocumentId, backend: B) -> (r: bool)
        ensures
            match old(self).place_of_spec(doc_id) {
                Some(at) => {
                    &&& Self::touched(old(self), at, final(self))
                    &&& exists|info: DocumentInfo, outline: Vec<OutlineItem>| #[trigger]
                        Self::replaced(
                            &old(self).documents@[at as int],
                            info,
                            backend,
                            outline,
                            &final(self).documents@[at as int],
                        )
                    &&& final(self).events@ == old(self).events@.push(
                        SessionEvent::RedrawNeeded(doc_id),
                    )
                    &&& r
                },
                None => *final(self) == *old(self) && !r,
            },
    {
        let at: usize = match self.place_of(doc_id) {
            Some(at) => at,
            None => {
                proof {
                    old(self).lemma_place(doc_id, None);
                }
                return false;
            },
        };
        proof {
            old(self).lemma_place(doc_id, Some(at));
        }
        let info = description(&backend);
        let outline = outline_of(&backend);
        let mut doc = self.documents.remove(at);
        let ghost before = doc;
        let ghost seen_info = info;
        let ghost seen_outline = outline;
        doc.reload(info, backend, outline);
        let ghost after = doc;
        self.documents.insert(at, doc);
        self.events.push(SessionEvent::RedrawNeeded(doc_id));
        proof {
            assert(self.documents@[at as int] == after);
            assert(old(self).documents@[at as int] == before);
            assert(Self::replaced(&before, seen_info, backend, seen_outline, &after));
        }
        true
    }

    /// What `command` does to a session. Opening a document is not a
    /// command that a session takes. Closing a document saves its state
    /// and tells so; a document behind the one in front moves up; where
    /// the store fails, the document is closed all the same, and the
    /// store's error is the result. The other commands go to the
    /// document in front, and what comes of them is told in events;
    /// without a document in front they do nothing.
    pub open spec fn applied(
        pre: &Self,
        command: Command,
        post: &Self,
        result: Result<(), EngineError>,
    ) -> bool {
        match command {
            Command::OpenDocument { .. } => *post == *pre && result == Err::<(), EngineError>(
                EngineError::Unsupported,
            ),
            Command::CloseDocument { index } => if index >= pre.documents@.len() {
                *post == *pre && result is Ok
            } else {
                let rest = pre.documents@.remove(index as int);
                let closed = pre.documents@[index as int].info.id;
                &&& post.documents@ == rest
                &&& pre.store.saves(
                    pre.documents@[index as int].info,
                    pre.documents@[index as int].state,
                    &post.store,
                    result,
                )
                &&& match result {
                    Ok(_) => if rest.len() == 0 {
                        &&& post.active == 0
                        &&& post.events@ == pre.events@.push(SessionEvent::DocumentClosed(closed))
                    } else if pre.active >= rest.len() {
                        &&& post.active == rest.len() - 1
                        &&& post.events@ == pre.events@.push(
                            SessionEvent::DocumentClosed(closed),
                        ).push(SessionEvent::ActiveDocumentChanged(rest.last().info.id))
                    } else {
                        &&& post.active == pre.active
                        &&& post.events@ == pre.events@.push(SessionEvent::DocumentClosed(closed))
                    },
                    Err(_) => post.active == pre.active && post.events@ == pre.events@,
                }
            },
            Command::SwitchDocument { index } => if index < pre.documents@.len() {
                *post == (Session {
                    active: index,
                    events: post.events,
                    ..*pre
                }) && post.events@ == pre.events@.push(
                    SessionEvent::ActiveDocumentChanged(pre.documents@[index as int].info.id),
                ) && result is Ok
            } else {
                *post == *pre && result is Ok
            },
            _ => if pre.active < pre.documents@.len() {
                let before = &pre.documents@[pre.active as int];
                let after = &post.documents@[pre.active as int];
                &&& Self::touched(pre, pre.active, post)
                &&& match result {
                    Ok(_) => exists|outcome: Outcome|
                        DocumentInstance::command_applied(
                            before,
                            command,
                            after,
                            Ok::<Outcome, EngineError>(outcome),
                        ) && post.events@ == pre.events@ + events_of(before.info.id, outcome),
                    Err(e) => DocumentInstance::command_applied(
                        before,
                        command,
                        after,
                        Err::<Outcome, EngineError>(e),
                    ) && post.events@ == pre.events@,
                }
            } else {
                *post == *pre && result is Ok
            },
        }
    }

    /// Applies a command.
    pub fn apply(&mut self, command: Command) -> (r: Result<(), EngineError>)
        ensures
            Self::applied(old(self), command, final(self), r),
    {
        match command {
            Command::OpenDocument { .. } => Err(EngineError::Unsupported),
            Command::CloseDocument { index } => {
                if index >= self.documents.len() {
                    return Ok(());
                }
                let doc = self.documents.remove(index);
                match self.store.save(&doc.info, &doc.state) {
                    Ok(unit) => {
                        assert(unit == ());
                    },
                    Err(e) => {
                        return Err(e);
                    },
                }
                self.events.push(SessionEvent::DocumentClosed(doc.info.id));
                if self.documents.len() == 0 {
                    self.active = 0;
                } else if self.active >= self.documents.len() {
                    self.active = self.documents.len() - 1;
                    let id: DocumentId = self.documents[self.active].info.id;
                    self.events.push(SessionEvent::ActiveDocumentChanged(id));
                }
                Ok(())
            },
            Command::SwitchDocument { index } => {
                if index < self.documents.len() {
                    self.active = index;
                    let id: DocumentId = self.documents[index].info.id;
                    self.events.push(SessionEvent::ActiveDocumentChanged(id));
                }
                Ok(())
            },
            other => {
                if self.active >= self.documents.len() {
                    return Ok(());
                }
                let at: usize = self.active;
                let mut doc = self.documents.remove(at);
                let id: DocumentId = doc.info.id;
                let ghost before = doc;
                let result = doc.apply_command(other);
                let ghost after = doc;
                self.documents.insert(at, doc);
                assert(self.documents@[at as int] == after);
                match result {
                    Ok(outcome) => {
                        let ghost seen = outcome;
                        if outcome.redraw {
                            self.events.push(SessionEvent::RedrawNeeded(id));
                            match outcome.follow {
                                Some(target) => {
                                    self.events.push(SessionEvent::FollowExternalLink { target });
                                },
                                None => {},
                            }
                        }
                        proof {
                            assert(self.events@ =~= old(self).events@ + events_of(id, seen));
                            assert(DocumentInstance::command_applied(
                                &before,
                                command,
                                &after,
                                Ok::<Outcome, EngineError>(seen),
                            ));
                        }
                        Ok(())
                    },
                    Err(e) => Err(e),
                }
            },
        }
    }

    /// The store as it is before the state of document `i` is saved,
    /// where `stores` holds the store as it was after each save.
    pub open spec fn store_before(pre: &Self, stores: Seq<S>, i: int) -> S {
        if i <= 0 {
            pre.store
        } else {
            stores[i - 1]
        }
    }

    /// Whether saving the state of document `i` can have turned the
    /// store into `stores[i]` with the answer `answer`.
    pub open spec fn saved(pre: &Self, stores: Seq<S>, i: int, answer: Result<(), EngineError>) -> bool {
        Self::store_before(pre, stores, i).saves(
            pre.documents@[i].info,
            pre.documents@[i].state,
            &stores[i],
            answer,
        )
    }

    /// Whether save `i` of a run that ended with `result` can have gone
    /// as `stores` says: the last save gave the result, and every save
    /// before it succeeded.
    pub open spec fn saved_in_run(
        pre: &Self,
        stores: Seq<S>,
        i: int,
        result: Result<(), EngineError>,
    ) -> bool {
        Self::saved(
            pre,
            stores,
            i,
            if i == stores.len() - 1 {
                result
            } else {
                Ok(())
            },
        )
    }

    /// Whether `post` and `result` come of saving the states of the open
    /// documents in their order, where `stores` holds the store as it
    /// was after each save. Every save but the last succeeded; the last
    /// gave the result. After a failure nothing more is saved; without
    /// one, every document's state is. Nothing but the store changes.
    pub open spec fn persisted(
        pre: &Self,
        stores: Seq<S>,
        post: &Self,
        result: Result<(), EngineError>,
    ) -> bool {
        &&& post.documents == pre.documents
        &&& post.active == pre.active
        &&& post.events == pre.events
        &&& post.store == Self::store_before(pre, stores, stores.len() as int)
        &&& stores.len() <= pre.documents@.len()
        &&& forall|i: int| 0 <= i < stores.len() ==> #[trigger] Self::saved_in_run(pre, stores, i, result)
        &&& match result {
            Ok(_) => stores.len() == pre.documents@.len(),
            Err(_) => stores.len() > 0,
        }
    }

    /// Saves the state of every open document, in their order. The
    /// first failure of the store ends the run with its error. Without
    /// an open document the store is not asked, and nothing fails.
    pub fn persist(&mut self) -> (r: Result<(), EngineError>)
        ensures
            final(self).documents == old(self).documents,
            final(self).active == old(self).active,
            final(self).events == old(self).events,
            old(self).documents@.len() == 0 ==> r is Ok && final(self).store == old(self).store,
            exists|stores: Seq<S>| #[trigger] Self::persisted(old(self), stores, final(self), r),
    {
        let ghost mut stores: Seq<S> = Seq::empty();
        let mut i: usize = 0;
        while i < self.documents.len()
            invariant
                i <= self.documents.len(),
                self.documents == old(self).documents,
                self.active == old(self).active,
                self.events == old(self).events,
                stores.len() == i,
                self.store == Self::store_before(old(self), stores, i as int),
                forall|j: int|
                    0 <= j < i ==> #[trigger] Self::saved(old(self), stores, j, Ok::<(), EngineError>(())),
            decreases self.documents.len() - i,
        {
            let ghost earlier = stores;
            let answer = self.store.save(&self.documents[i].info, &self.documents[i].state);
            proof {
                stores = earlier.push(self.store);
                assert(Self::saved(old(self), stores, i as int, answer));
                assert forall|j: int| 0 <= j < i implies #[trigger] Self::saved(
                    old(self),
                    stores,
                    j,
                    Ok::<(), EngineError>(()),
                ) by {
                    assert(Self::saved(old(self), earlier, j, Ok::<(), EngineError>(())));
                    assert(Self::store_before(old(self), stores, j) == Self::store_before(
                        old(self),
                        earlier,
                        j,
                    ));
                    assert(stores[j] == earlier[j]);
                }
            }
            match answer {
                Ok(unit) => {
                    assert(unit == ());
                    assert(answer == Ok::<(), EngineError>(()));
                },
                Err(e) => {
                    assert(Self::persisted(old(self), stores, self, Err::<(), EngineError>(e)));
                    return Err(e);
                },
            }
            i += 1;
        }
        assert(Self::persisted(old(self), stores, self, Ok::<(), EngineError>(())));
        Ok(())
    }
}

/// Whether none of the documents behind document `i` among the first
/// `n` of `docs` has its identity.
pub open spec fn last_of_identity<B: DocumentBackend>(
    docs: Seq<DocumentInstance<B>>,
    n: int,
    i: int,
) -> bool {
    forall|j: int| i < j < n ==> (#[trigger] docs[j]).info.id != docs[i].info.id
}

/// Whether none of the first `n` of `docs` has the identity `id`.
pub open spec fn none_of_identity<B: DocumentBackend>(
    docs: Seq<DocumentInstance<B>>,
    n: int,
    id: DocumentId,
) -> bool {
    forall|i: int| 0 <= i < n ==> (#[trigger] docs[i]).info.id != id
}

/// Whether the states `after` are what a store that lives in memory
/// holds once it has kept, from the states `before`, the states of the
/// first `n` of `docs` in their order: a state for each of them, which
/// is the document's own unless a later one has the same identity, and
/// for every other document what was held before.
pub open spec fn kept_in_memory<B: DocumentBackend>(
    before: Map<DocumentId, PersistedDocumentState>,
    docs: Seq<DocumentInstance<B>>,
    n: int,
    after: Map<DocumentId, PersistedDocumentState>,
) -> bool {
    &&& forall|i: int| 0 <= i < n ==> after.contains_key((#[trigger] docs[i]).info.id)
    &&& forall|i: int|
        0 <= i < n && #[trigger] last_of_identity(docs, n, i) ==> same_state(
            after[docs[i].info.id],
            docs[i].state,
        )
    &&& forall|id: DocumentId|
        before.contains_key(id) && #[trigger] none_of_identity(docs, n, id) ==> after.contains_key(id)
            && after[id] == before[id]
}

/// In a run of saves into a store that lives in memory, every save
/// succeeds, and before save `k` the store holds the states of the
/// documents before it.
proof fn lemma_saves_in_memory<B: DocumentBackend>(
    pre: &Session<B, MemoryStateStore>,
    stores: Seq<MemoryStateStore>,
    result: Result<(), EngineError>,
    k: int,
)
    requires
        0 <= k <= stores.len() <= pre.documents@.len(),
        forall|i: int| 0 <= i < stores.len() ==> #[trigger] Session::saved_in_run(pre, stores, i, result),
    ensures
        kept_in_memory(pre.store@, pre.documents@, k, Session::store_before(pre, stores, k)@),
        stores.len() > 0 ==> result is Ok,
    decreases k,
{
    if stores.len() > 0 {
        assert(Session::saved_in_run(pre, stores, stores.len() - 1, result));
    }
    if k > 0 {
        lemma_saves_in_memory(pre, stores, result, k - 1);
        assert(Session::saved_in_run(pre, stores, k - 1, result));
        let docs = pre.documents@;
        let earlier = Session::store_before(pre, stores, k - 1)@;
        let later = Session::store_before(pre, stores, k)@;
        let id = docs[k - 1].info.id;
        assert(later.dom() == earlier.dom().insert(id));
        assert(same_state(later[id], docs[k - 1].state));
        assert forall|i: int| 0 <= i < k implies later.contains_key((#[trigger] docs[i]).info.id) by {
            if i < k - 1 {
                assert(earlier.contains_key(docs[i].info.id));
            }
        }
        assert forall|i: int| 0 <= i < k && #[trigger] last_of_identity(docs, k, i) implies same_state(
            later[docs[i].info.id],
            docs[i].state,
        ) by {
            if i < k - 1 {
                assert(docs[k - 1].info.id != docs[i].info.id);
                assert(earlier.contains_key(docs[i].info.id));
                assert(last_of_identity(docs, k - 1, i));
                assert(later[docs[i].info.id] == earlier[docs[i].info.id]);
            }
        }
        assert forall|other: DocumentId|
            pre.store@.contains_key(other) && #[trigger] none_of_identity(
                docs,
                k,
                other,
            ) implies later.contains_key(other) && later[other] == pre.store@[other] by {
            assert(docs[k - 1].info.id != other);
            assert(none_of_identity(docs, k - 1, other));
            assert(earlier.contains_key(other));
            assert(later[other] == earlier[other]);
        }
    }
}

/// Saving the states of the open documents into a store that lives in
/// memory never fails, and afterwards the store holds the state of every
/// open document.
pub proof fn lemma_persisted_in_memory<B: DocumentBackend>(
    pre: &Session<B, MemoryStateStore>,
    stores: Seq<MemoryStateStore>,
    post: &Session<B, MemoryStateStore>,
    result: Result<(), EngineError>,
)
    requires
        Session::persisted(pre, stores, post, result),
    ensures
        result is Ok,
        kept_in_memory(pre.store@, pre.documents@, pre.documents@.len() as int, post.store@),
{
    lemma_saves_in_memory(pre, stores, result, stores.len() as int);
}

} // verus!
