//! Motions of the selection cursor over the glyphs of a document.
//!
//! A motion reads the text of every page it passes. Texts come from the
//! backend through the document's cache, so a motion is described over
//! the texts that are cached when it ends: what it reads is then there.

use vstd::prelude::*;
use crate::backend::{cached_text, ensure_page_text, extends, DocumentBackend, TextCache};
use crate::geometry::{Highlights, NormalizedRect};
use crate::model::EngineError;
use crate::points::{SelectionMotion, SelectionPoint, SelectionSnapshot, SelectionState};
use crate::text::{slice_text, PageText, TextGlyph};
use vstd::string::StringExecFns;
use vstd::utf8::decode_utf8;
use crate::geometry::lemma_filter_push;
use crate::text::sliceable;
use crate::unicode::{is_word_char, word_char};

verus! {

/// The page texts a motion can read.
pub type Texts = Map<usize, PageText>;

/// One step of the cursor.
#[derive(Debug, Clone, Copy, PartialEq, Eq, Structural)]
pub enum StepKind {
    /// To the next glyph boundary, or onto the next page.
    Right,
    /// To the previous glyph boundary, or onto the previous page.
    Left,
    /// To the start of the next line, or to the start of the next page.
    Down,
    /// To the start of the previous line, or to the start of the
    /// previous page.
    Up,
    /// Right over a glyph whose being part of a word equals `word`.
    SkipForward { word: bool },
    /// Left over a glyph whose being part of a word equals `word`.
    SkipBackward { word: bool },
}

/// How many glyphs `page` has.
pub open spec fn glyphs_on(texts: Texts, page: usize) -> nat {
    texts[page].glyph_seq().len()
}

/// The line that a cursor at `glyph_index` stands on: the line of that
/// glyph, or of the last glyph for a cursor behind it.
pub open spec fn line_at(text: PageText, glyph_index: usize) -> int {
    let n = text.glyph_seq().len();
    if glyph_index < n {
        text.line_indices()[glyph_index as int] as int
    } else {
        text.line_indices()[n - 1] as int
    }
}

/// Where a step to the right leads.
pub open spec fn right_of(texts: Texts, page_count: usize, p: SelectionPoint) -> Option<
    SelectionPoint,
> {
    if p.glyph_index < glyphs_on(texts, p.page) {
        Some(SelectionPoint { page: p.page, glyph_index: (p.glyph_index + 1) as usize })
    } else if p.page + 1 < page_count {
        Some(SelectionPoint { page: (p.page + 1) as usize, glyph_index: 0 })
    } else {
        None
    }
}

/// Where a step to the left leads.
pub open spec fn left_of(texts: Texts, p: SelectionPoint) -> Option<SelectionPoint> {
    if p.glyph_index > 0 {
        Some(SelectionPoint { page: p.page, glyph_index: (p.glyph_index - 1) as usize })
    } else if p.page == 0 {
        None
    } else {
        Some(
            SelectionPoint {
                page: (p.page - 1) as usize,
                glyph_index: glyphs_on(texts, (p.page - 1) as usize) as usize,
            },
        )
    }
}

/// The first glyph of the next page, where there is one.
pub open spec fn next_page_start(page_count: usize, p: SelectionPoint) -> Option<SelectionPoint> {
    if p.page + 1 >= page_count {
        None
    } else {
        Some(SelectionPoint { page: (p.page + 1) as usize, glyph_index: 0 })
    }
}

/// Where a step down leads.
pub open spec fn below(texts: Texts, page_count: usize, p: SelectionPoint) -> Option<
    SelectionPoint,
> {
    let text = texts[p.page];
    if text.lines().len() == 0 {
        next_page_start(page_count, p)
    } else {
        let line = line_at(text, p.glyph_index);
        if line + 1 < text.lines().len() {
            Some(SelectionPoint { page: p.page, glyph_index: text.lines()[line + 1].glyph_range.start })
        } else {
            next_page_start(page_count, p)
        }
    }
}

/// The first glyph of the previous page, where there is one.
pub open spec fn previous_page_start(p: SelectionPoint) -> Option<SelectionPoint> {
    if p.page == 0 {
        None
    } else {
        Some(SelectionPoint { page: (p.page - 1) as usize, glyph_index: 0 })
    }
}

/// Where a step up leads.
pub open spec fn above(texts: Texts, p: SelectionPoint) -> Option<SelectionPoint> {
    let text = texts[p.page];
    if text.lines().len() == 0 {
        previous_page_start(p)
    } else {
        let line = line_at(text, p.glyph_index);
        if line > 0 {
            Some(SelectionPoint { page: p.page, glyph_index: text.lines()[line - 1].glyph_range.start })
        } else {
            previous_page_start(p)
        }
    }
}

/// Whether the glyph at `index` lets a skip over glyphs of kind `word` go on.
pub open spec fn skippable(text: PageText, index: int, word: bool) -> bool {
    match text.char_at(index) {
        Some(ch) => word_char(ch) == word,
        None => false,
    }
}

/// Where one step of kind `kind` leads from `p`; `None` where the
/// cursor cannot go on.
pub open spec fn step(texts: Texts, page_count: usize, kind: StepKind, p: SelectionPoint) -> Option<
    SelectionPoint,
> {
    match kind {
        StepKind::Right => right_of(texts, page_count, p),
        StepKind::Left => left_of(texts, p),
        StepKind::Down => below(texts, page_count, p),
        StepKind::Up => above(texts, p),
        StepKind::SkipForward { word } => {
            if p.glyph_index >= glyphs_on(texts, p.page) || skippable(
                texts[p.page],
                p.glyph_index as int,
                word,
            ) {
                right_of(texts, page_count, p)
            } else {
                None
            }
        },
        StepKind::SkipBackward { word } => {
            if p.glyph_index == 0 || skippable(texts[p.page], p.glyph_index - 1, word) {
                left_of(texts, p)
            } else {
                None
            }
        },
    }
}

/// Whether `page` is a page of the document whose text is in `texts`.
pub open spec fn loaded(texts: Texts, page_count: usize, page: int) -> bool {
    0 <= page < page_count && texts.contains_key(page as usize)
}

/// Whether `texts` holds every page that the step reads.
pub open spec fn step_loaded(texts: Texts, page_count: usize, kind: StepKind, p: SelectionPoint) -> bool {
    match kind {
        StepKind::Right => loaded(texts, page_count, p.page as int),
        StepKind::Left => p.glyph_index > 0 || p.page == 0 || loaded(texts, page_count, p.page - 1),
        StepKind::Down => loaded(texts, page_count, p.page as int),
        StepKind::Up => loaded(texts, page_count, p.page as int),
        StepKind::SkipForward { word } => loaded(texts, page_count, p.page as int),
        StepKind::SkipBackward { word } => loaded(texts, page_count, p.page as int) && (p.glyph_index
            == 0 && p.page > 0 ==> loaded(texts, page_count, p.page - 1)),
    }
}

/// Where `n` steps lead: the cursor stays where it cannot go on.
pub open spec fn walk(
    texts: Texts,
    page_count: usize,
    kind: StepKind,
    p: SelectionPoint,
    n: nat,
) -> SelectionPoint
    decreases n,
{
    if n == 0 {
        p
    } else {
        let q = walk(texts, page_count, kind, p, (n - 1) as nat);
        match step(texts, page_count, kind, q) {
            Some(r) => r,
            None => q,
        }
    }
}

/// Whether `texts` holds every page that the first `n` steps read.
pub open spec fn walk_loaded(
    texts: Texts,
    page_count: usize,
    kind: StepKind,
    p: SelectionPoint,
    n: nat,
) -> bool
    decreases n,
{
    n == 0 || (walk_loaded(texts, page_count, kind, p, (n - 1) as nat) && step_loaded(
        texts,
        page_count,
        kind,
        walk(texts, page_count, kind, p, (n - 1) as nat),
    ))
}

/// Whether each of the first `n` steps moves the cursor.
pub open spec fn all_move(
    texts: Texts,
    page_count: usize,
    kind: StepKind,
    p: SelectionPoint,
    n: nat,
) -> bool
    decreases n,
{
    n == 0 || (all_move(texts, page_count, kind, p, (n - 1) as nat) && step(
        texts,
        page_count,
        kind,
        walk(texts, page_count, kind, p, (n - 1) as nat),
    ) is Some)
}

/// A step reads the same from a cache that has grown.
pub proof fn lemma_step_extends(
    before: Texts,
    after: Texts,
    page_count: usize,
    kind: StepKind,
    p: SelectionPoint,
)
    requires
        extends(before, after),
        step_loaded(before, page_count, kind, p),
    ensures
        step_loaded(after, page_count, kind, p),
        step(after, page_count, kind, p) == step(before, page_count, kind, p),
{
    if p.page < page_count && before.contains_key(p.page) {
        assert(after[p.page] == before[p.page]);
    }
    if p.page > 0 && before.contains_key((p.page - 1) as usize) {
        assert(after[(p.page - 1) as usize] == before[(p.page - 1) as usize]);
    }
}

/// The pages read by `n` steps include those read by fewer.
pub proof fn lemma_walk_loaded_prefix(
    texts: Texts,
    page_count: usize,
    kind: StepKind,
    p: SelectionPoint,
    m: nat,
    n: nat,
)
    requires
        m <= n,
        walk_loaded(texts, page_count, kind, p, n),
    ensures
        walk_loaded(texts, page_count, kind, p, m),
    decreases n,
{
    if m < n {
        lemma_walk_loaded_prefix(texts, page_count, kind, p, m, (n - 1) as nat);
    }
}

/// A walk reads the same from a cache that has grown.
pub proof fn lemma_walk_extends(
    before: Texts,
    after: Texts,
    page_count: usize,
    kind: StepKind,
    p: SelectionPoint,
    n: nat,
)
    requires
        extends(before, after),
        walk_loaded(before, page_count, kind, p, n),
    ensures
        walk_loaded(after, page_count, kind, p, n),
        walk(after, page_count, kind, p, n) == walk(before, page_count, kind, p, n),
        all_move(after, page_count, kind, p, n) == all_move(before, page_count, kind, p, n),
    decreases n,
{
    if n > 0 {
        lemma_walk_extends(before, after, page_count, kind, p, (n - 1) as nat);
        lemma_step_extends(
            before,
            after,
            page_count,
            kind,
            walk(before, page_count, kind, p, (n - 1) as nat),
        );
    }
}

/// Once the cursor cannot go on, it stays: more steps read nothing new
/// and lead nowhere else.
pub proof fn lemma_walk_stuck(
    texts: Texts,
    page_count: usize,
    kind: StepKind,
    p: SelectionPoint,
    m: nat,
    n: nat,
)
    requires
        m <= n,
        walk_loaded(texts, page_count, kind, p, m + 1),
        step(texts, page_count, kind, walk(texts, page_count, kind, p, m)) is None,
    ensures
        walk_loaded(texts, page_count, kind, p, n + 1),
        walk(texts, page_count, kind, p, n) == walk(texts, page_count, kind, p, m),
    decreases n,
{
    if m < n {
        lemma_walk_stuck(texts, page_count, kind, p, m, (n - 1) as nat);
    }
}

/// Where the first step fails no later step moves the cursor.
pub proof fn lemma_first_step(
    texts: Texts,
    page_count: usize,
    kind: StepKind,
    p: SelectionPoint,
    n: nat,
)
    requires
        n > 0,
    ensures
        step(texts, page_count, kind, p) is None ==> walk(texts, page_count, kind, p, n) == p,
        walk(texts, page_count, kind, p, 1) == match step(texts, page_count, kind, p) {
            Some(r) => r,
            None => p,
        },
    decreases n,
{
    reveal_with_fuel(walk, 2);
    if n > 1 {
        lemma_first_step(texts, page_count, kind, p, (n - 1) as nat);
    }
}

/// The first glyph of the page after `p`, where there is one.
fn next_page(page_count: usize, p: SelectionPoint) -> (r: Option<SelectionPoint>)
    requires
        p.page < page_count,
    ensures
        r == next_page_start(page_count, p),
{
    if p.page + 1 >= page_count {
        None
    } else {
        Some(SelectionPoint { page: p.page + 1, glyph_index: 0 })
    }
}

/// The line of `text` that a cursor at `glyph_index` stands on.
fn line_under(text: &PageText, glyph_index: usize) -> (r: usize)
    requires
        text.well_formed(),
        text.lines().len() > 0,
    ensures
        r == line_at(*text, glyph_index),
        r < text.lines().len(),
{
    let glyph_count: usize = text.glyph_count();
    let idx: usize = if glyph_index < glyph_count {
        glyph_index
    } else {
        glyph_count - 1
    };
    match text.line_index_for_glyph(idx) {
        Some(line) => line,
        None => 0,
    }
}

/// The first glyph of line `line` of `text`.
fn line_start(text: &PageText, line: usize) -> (r: usize)
    requires
        line < text.lines().len(),
    ensures
        r == text.lines()[line as int].glyph_range.start,
{
    match text.line(line) {
        Some(found) => found.glyph_range.start,
        None => 0,
    }
}

/// Whether `next` lies one glyph or one page from `p` in the direction
/// of the step.
pub open spec fn neighbours(kind: StepKind, p: SelectionPoint, next: SelectionPoint) -> bool {
    match kind {
        StepKind::Right | StepKind::SkipForward { .. } => (next.page == p.page && next.glyph_index
            == p.glyph_index + 1) || (next.page == p.page + 1 && next.glyph_index == 0),
        StepKind::Left | StepKind::SkipBackward { .. } => (next.page == p.page && next.glyph_index
            + 1 == p.glyph_index) || next.page + 1 == p.page,
        _ => true,
    }
}

/// Takes one step from `p`, reading page texts through the cache.
/// The step succeeds whenever the pages it reads are cached.
pub fn take_step<B: DocumentBackend>(
    kind: StepKind,
    p: SelectionPoint,
    page_count: usize,
    backend: &B,
    cache: &mut TextCache,
) -> (r: Result<Option<SelectionPoint>, EngineError>)
    ensures
        extends(old(cache)@, final(cache)@),
        match r {
            Ok(next) => {
                &&& step_loaded(final(cache)@, page_count, kind, p)
                &&& next == step(final(cache)@, page_count, kind, p)
                &&& next matches Some(q) ==> neighbours(kind, p, q)
                &&& next is Some && kind is SkipForward ==> next->0.page < page_count && (
                next->0.page == p.page ==> p.glyph_index < glyphs_on(final(cache)@, p.page)
                    <= usize::MAX)
            },
            Err(_) => !step_loaded(old(cache)@, page_count, kind, p),
        },
{
    match kind {
        StepKind::Right => {
            ensure_page_text(p.page, page_count, backend, cache)?;
            let glyph_count: usize = cached_text(cache, p.page).glyph_count();
            if p.glyph_index < glyph_count {
                Ok(Some(SelectionPoint { page: p.page, glyph_index: p.glyph_index + 1 }))
            } else {
                Ok(next_page(page_count, p))
            }
        },
        StepKind::Left => {
            if p.glyph_index > 0 {
                return Ok(Some(SelectionPoint { page: p.page, glyph_index: p.glyph_index - 1 }));
            }
            if p.page == 0 {
                return Ok(None);
            }
            ensure_page_text(p.page - 1, page_count, backend, cache)?;
            let glyph_count: usize = cached_text(cache, p.page - 1).glyph_count();
            Ok(Some(SelectionPoint { page: p.page - 1, glyph_index: glyph_count }))
        },
        StepKind::Down => {
            ensure_page_text(p.page, page_count, backend, cache)?;
            let text = cached_text(cache, p.page);
            let line_count: usize = text.line_count();
            if line_count == 0 {
                return Ok(next_page(page_count, p));
            }
            let line: usize = line_under(text, p.glyph_index);
            if line + 1 < line_count {
                Ok(Some(SelectionPoint { page: p.page, glyph_index: line_start(text, line + 1) }))
            } else {
                Ok(next_page(page_count, p))
            }
        },
        StepKind::Up => {
            ensure_page_text(p.page, page_count, backend, cache)?;
            let text = cached_text(cache, p.page);
            let line_count: usize = text.line_count();
            let line: usize = if line_count == 0 {
                0
            } else {
                line_under(text, p.glyph_index)
            };
            if line > 0 {
                return Ok(
                    Some(SelectionPoint { page: p.page, glyph_index: line_start(text, line - 1) }),
                );
            }
            if p.page == 0 {
                return Ok(None);
            }
            Ok(Some(SelectionPoint { page: p.page - 1, glyph_index: 0 }))
        },
        StepKind::SkipForward { word } => {
            ensure_page_text(p.page, page_count, backend, cache)?;
            let text = cached_text(cache, p.page);
            let glyph_count: usize = text.glyph_count();
            if p.glyph_index >= glyph_count {
                return Ok(next_page(page_count, p));
            }
            match text.glyph_char(p.glyph_index) {
                Some(ch) => {
                    if is_word_char(ch) == word {
                        Ok(Some(SelectionPoint { page: p.page, glyph_index: p.glyph_index + 1 }))
                    } else {
                        Ok(None)
                    }
                },
                None => Ok(None),
            }
        },
        StepKind::SkipBackward { word } => {
            ensure_page_text(p.page, page_count, backend, cache)?;
            let ghost mid = cache@;
            if p.glyph_index == 0 {
                if p.page == 0 {
                    return Ok(None);
                }
                ensure_page_text(p.page - 1, page_count, backend, cache)?;
                let glyph_count: usize = cached_text(cache, p.page - 1).glyph_count();
                return Ok(Some(SelectionPoint { page: p.page - 1, glyph_index: glyph_count }));
            }
            let text = cached_text(cache, p.page);
            match text.glyph_char(p.glyph_index - 1) {
                Some(ch) => {
                    if is_word_char(ch) == word {
                        Ok(Some(SelectionPoint { page: p.page, glyph_index: p.glyph_index - 1 }))
                    } else {
                        Ok(None)
                    }
                },
                None => Ok(None),
            }
        },
    }
}

/// Takes up to `n` steps from `p` and stops early where the cursor
/// cannot go on. Returns where the cursor ends and whether it moved.
pub fn walk_steps<B: DocumentBackend>(
    kind: StepKind,
    n: usize,
    p: SelectionPoint,
    page_count: usize,
    backend: &B,
    cache: &mut TextCache,
) -> (r: Result<(bool, SelectionPoint), EngineError>)
    ensures
        extends(old(cache)@, final(cache)@),
        match r {
            Ok((moved, end)) => {
                &&& walk_loaded(final(cache)@, page_count, kind, p, n as nat)
                &&& end == walk(final(cache)@, page_count, kind, p, n as nat)
                &&& moved == (n > 0 && step(final(cache)@, page_count, kind, p) is Some)
            },
            Err(_) => !walk_loaded(old(cache)@, page_count, kind, p, n as nat),
        },
{
    let mut point = p;
    let mut moved = false;
    let mut i: usize = 0;
    while i < n
        invariant
            i <= n,
            extends(old(cache)@, cache@),
            walk_loaded(cache@, page_count, kind, p, i as nat),
            point == walk(cache@, page_count, kind, p, i as nat),
            all_move(cache@, page_count, kind, p, i as nat),
            moved == (i > 0),
        decreases n - i,
    {
        let ghost before = cache@;
        match take_step(kind, point, page_count, backend, cache) {
            Ok(Some(next)) => {
                proof {
                    lemma_walk_extends(before, cache@, page_count, kind, p, i as nat);
                }
                point = next;
                moved = true;
                i += 1;
            },
            Ok(None) => {
                proof {
                    lemma_walk_extends(before, cache@, page_count, kind, p, i as nat);
                    lemma_walk_stuck(cache@, page_count, kind, p, i as nat, n as nat);
                    lemma_walk_loaded_prefix(cache@, page_count, kind, p, n as nat, (n + 1) as nat);
                    if i == 0 {
                        lemma_first_step(cache@, page_count, kind, p, n as nat);
                    } else {
                        lemma_all_move_first(cache@, page_count, kind, p, i as nat);
                    }
                }
                return Ok((moved, point));
            },
            Err(e) => {
                proof {
                    if walk_loaded(old(cache)@, page_count, kind, p, n as nat) {
                        lemma_walk_loaded_prefix(
                            old(cache)@,
                            page_count,
                            kind,
                            p,
                            (i + 1) as nat,
                            n as nat,
                        );
                        lemma_walk_extends(
                            old(cache)@,
                            before,
                            page_count,
                            kind,
                            p,
                            (i + 1) as nat,
                        );
                    }
                }
                return Err(e);
            },
        }
    }
    proof {
        if n > 0 {
            lemma_all_move_first(cache@, page_count, kind, p, n as nat);
        }
    }
    Ok((moved, point))
}

/// Where every one of the first `n` steps moves, the first does.
pub proof fn lemma_all_move_first(
    texts: Texts,
    page_count: usize,
    kind: StepKind,
    p: SelectionPoint,
    n: nat,
)
    requires
        n > 0,
        all_move(texts, page_count, kind, p, n),
    ensures
        step(texts, page_count, kind, p) is Some,
    decreases n,
{
    if n > 1 {
        lemma_all_move_first(texts, page_count, kind, p, (n - 1) as nat);
    }
}

/// Where every one of the first `n` steps moves, so does step `m` below `n`.
pub proof fn lemma_all_move_at(
    texts: Texts,
    page_count: usize,
    kind: StepKind,
    p: SelectionPoint,
    m: nat,
    n: nat,
)
    requires
        m < n,
        all_move(texts, page_count, kind, p, n),
    ensures
        step(texts, page_count, kind, walk(texts, page_count, kind, p, m)) is Some,
        all_move(texts, page_count, kind, p, m),
    decreases n,
{
    if m + 1 < n {
        lemma_all_move_at(texts, page_count, kind, p, m, (n - 1) as nat);
    }
}

/// Whether the cursor moves `n` times from `p` and then cannot go on,
/// with every page read on the way in `texts`.
pub open spec fn stops_after(
    texts: Texts,
    page_count: usize,
    kind: StepKind,
    p: SelectionPoint,
    n: nat,
) -> bool {
    &&& walk_loaded(texts, page_count, kind, p, n + 1)
    &&& all_move(texts, page_count, kind, p, n)
    &&& step(texts, page_count, kind, walk(texts, page_count, kind, p, n)) is None
}

/// Whether the cursor comes to a stop, with every page read on the way
/// in `texts`.
pub open spec fn runs_out(texts: Texts, page_count: usize, kind: StepKind, p: SelectionPoint) -> bool {
    exists|n: nat| stops_after(texts, page_count, kind, p, n)
}

/// How many steps the cursor takes before it stops.
pub open spec fn stop_count(texts: Texts, page_count: usize, kind: StepKind, p: SelectionPoint) -> nat {
    choose|n: nat| stops_after(texts, page_count, kind, p, n)
}

/// Where the cursor stops.
pub open spec fn run_end(
    texts: Texts,
    page_count: usize,
    kind: StepKind,
    p: SelectionPoint,
) -> SelectionPoint {
    walk(texts, page_count, kind, p, stop_count(texts, page_count, kind, p))
}

/// The cursor stops after one number of steps only.
pub proof fn lemma_stop_unique(
    texts: Texts,
    page_count: usize,
    kind: StepKind,
    p: SelectionPoint,
    a: nat,
    b: nat,
)
    requires
        stops_after(texts, page_count, kind, p, a),
        stops_after(texts, page_count, kind, p, b),
    ensures
        a == b,
{
    if a < b {
        lemma_all_move_at(texts, page_count, kind, p, a, b);
    } else if b < a {
        lemma_all_move_at(texts, page_count, kind, p, b, a);
    }
}

/// A cursor that stops after `n` steps in a cache stops there in every
/// cache grown from it.
pub proof fn lemma_run_extends(
    before: Texts,
    after: Texts,
    page_count: usize,
    kind: StepKind,
    p: SelectionPoint,
)
    requires
        extends(before, after),
        runs_out(before, page_count, kind, p),
    ensures
        runs_out(after, page_count, kind, p),
        stop_count(after, page_count, kind, p) == stop_count(before, page_count, kind, p),
        run_end(after, page_count, kind, p) == run_end(before, page_count, kind, p),
{
    let n = stop_count(before, page_count, kind, p);
    lemma_walk_extends(before, after, page_count, kind, p, n + 1);
    lemma_walk_loaded_prefix(before, page_count, kind, p, n, n + 1);
    lemma_walk_extends(before, after, page_count, kind, p, n);
    lemma_step_extends(before, after, page_count, kind, walk(before, page_count, kind, p, n));
    assert(stops_after(after, page_count, kind, p, n));
    lemma_stop_unique(after, page_count, kind, p, n, stop_count(after, page_count, kind, p));
}

/// Steps from `p` until the cursor cannot go on. Returns where it stops
/// and whether it moved.
pub fn run_steps<B: DocumentBackend>(
    forward: bool,
    word: bool,
    p: SelectionPoint,
    page_count: usize,
    backend: &B,
    cache: &mut TextCache,
) -> (r: Result<(bool, SelectionPoint), EngineError>)
    ensures
        extends(old(cache)@, final(cache)@),
        match r {
            Ok((moved, end)) => {
                &&& runs_out(final(cache)@, page_count, skip_kind(forward, word), p)
                &&& end == run_end(final(cache)@, page_count, skip_kind(forward, word), p)
                &&& moved == (stop_count(final(cache)@, page_count, skip_kind(forward, word), p) > 0)
            },
            Err(_) => !runs_out(old(cache)@, page_count, skip_kind(forward, word), p),
        },
{
    let kind = if forward {
        StepKind::SkipForward { word }
    } else {
        StepKind::SkipBackward { word }
    };
    let mut point = p;
    let mut moved = false;
    let ghost mut count: nat = 0;
    loop
        invariant
            kind == skip_kind(forward, word),
            extends(old(cache)@, cache@),
            walk_loaded(cache@, page_count, kind, p, count),
            all_move(cache@, page_count, kind, p, count),
            point == walk(cache@, page_count, kind, p, count),
            moved == (count > 0),
        decreases
            (if forward {
                page_count - point.page
            } else {
                point.page as int
            }),
            (if forward {
                if cache@.contains_key(point.page) {
                    glyphs_on(cache@, point.page) - point.glyph_index
                } else {
                    usize::MAX + 1
                }
            } else {
                point.glyph_index as int
            }),
    {
        let ghost before = cache@;
        match take_step(kind, point, page_count, backend, cache) {
            Ok(Some(next)) => {
                proof {
                    lemma_walk_extends(before, cache@, page_count, kind, p, count);
                    if before.contains_key(point.page) {
                        assert(cache@[point.page] == before[point.page]);
                    }
                    count = count + 1;
                }
                point = next;
                moved = true;
            },
            Ok(None) => {
                proof {
                    lemma_walk_extends(before, cache@, page_count, kind, p, count);
                    assert(stops_after(cache@, page_count, kind, p, count));
                    lemma_stop_unique(
                        cache@,
                        page_count,
                        kind,
                        p,
                        count,
                        stop_count(cache@, page_count, kind, p),
                    );
                }
                return Ok((moved, point));
            },
            Err(e) => {
                proof {
                    if runs_out(old(cache)@, page_count, kind, p) {
                        let n = stop_count(old(cache)@, page_count, kind, p);
                        lemma_run_extends(old(cache)@, before, page_count, kind, p);
                        let m = stop_count(before, page_count, kind, p);
                        assert(stops_after(before, page_count, kind, p, m));
                        if count <= m {
                            lemma_walk_loaded_prefix(before, page_count, kind, p, count + 1, m + 1);
                        } else {
                            lemma_all_move_at(before, page_count, kind, p, m, count);
                        }
                    }
                }
                return Err(e);
            },
        }
    }
}

/// The step that skips glyphs in one direction.
pub open spec fn skip_kind(forward: bool, word: bool) -> StepKind {
    if forward {
        StepKind::SkipForward { word }
    } else {
        StepKind::SkipBackward { word }
    }
}

/// Whether `texts` holds what one word step from `p` reads.
#[verifier::opaque]
pub open spec fn word_step_loaded(
    texts: Texts,
    page_count: usize,
    forward: bool,
    p: SelectionPoint,
) -> bool {
    &&& runs_out(texts, page_count, skip_kind(forward, false), p)
    &&& runs_out(
        texts,
        page_count,
        skip_kind(forward, true),
        run_end(texts, page_count, skip_kind(forward, false), p),
    )
}

/// Where one word step leads: over the glyphs that are no part of a
/// word, then over those that are.
#[verifier::opaque]
pub open spec fn word_step_end(
    texts: Texts,
    page_count: usize,
    forward: bool,
    p: SelectionPoint,
) -> SelectionPoint {
    run_end(
        texts,
        page_count,
        skip_kind(forward, true),
        run_end(texts, page_count, skip_kind(forward, false), p),
    )
}

/// Whether one word step moves the cursor.
#[verifier::opaque]
pub open spec fn word_step_moves(
    texts: Texts,
    page_count: usize,
    forward: bool,
    p: SelectionPoint,
) -> bool {
    stop_count(texts, page_count, skip_kind(forward, false), p) > 0 || stop_count(
        texts,
        page_count,
        skip_kind(forward, true),
        run_end(texts, page_count, skip_kind(forward, false), p),
    ) > 0
}

/// Where `n` word steps lead.
pub open spec fn word_walk(
    texts: Texts,
    page_count: usize,
    forward: bool,
    p: SelectionPoint,
    n: nat,
) -> SelectionPoint
    decreases n,
{
    if n == 0 {
        p
    } else {
        word_step_end(
            texts,
            page_count,
            forward,
            word_walk(texts, page_count, forward, p, (n - 1) as nat),
        )
    }
}

/// Whether `texts` holds what `n` word steps read.
pub open spec fn word_walk_loaded(
    texts: Texts,
    page_count: usize,
    forward: bool,
    p: SelectionPoint,
    n: nat,
) -> bool
    decreases n,
{
    n == 0 || (word_walk_loaded(texts, page_count, forward, p, (n - 1) as nat) && word_step_loaded(
        texts,
        page_count,
        forward,
        word_walk(texts, page_count, forward, p, (n - 1) as nat),
    ))
}

/// Whether any of `n` word steps moves the cursor.
pub open spec fn word_walk_moves(
    texts: Texts,
    page_count: usize,
    forward: bool,
    p: SelectionPoint,
    n: nat,
) -> bool
    decreases n,
{
    n > 0 && (word_walk_moves(texts, page_count, forward, p, (n - 1) as nat) || word_step_moves(
        texts,
        page_count,
        forward,
        word_walk(texts, page_count, forward, p, (n - 1) as nat),
    ))
}

/// Word steps read the same from a cache that has grown.
pub proof fn lemma_word_walk_extends(
    before: Texts,
    after: Texts,
    page_count: usize,
    forward: bool,
    p: SelectionPoint,
    n: nat,
)
    requires
        extends(before, after),
        word_walk_loaded(before, page_count, forward, p, n),
    ensures
        word_walk_loaded(after, page_count, forward, p, n),
        word_walk(after, page_count, forward, p, n) == word_walk(before, page_count, forward, p, n),
        word_walk_moves(after, page_count, forward, p, n) == word_walk_moves(
            before,
            page_count,
            forward,
            p,
            n,
        ),
    decreases n,
{
    if n > 0 {
        lemma_word_walk_extends(before, after, page_count, forward, p, (n - 1) as nat);
        let q = word_walk(before, page_count, forward, p, (n - 1) as nat);
        lemma_word_step_extends(before, after, page_count, forward, q);
    }
}

/// The pages read by `n` word steps include those read by fewer.
pub proof fn lemma_word_walk_loaded_prefix(
    texts: Texts,
    page_count: usize,
    forward: bool,
    p: SelectionPoint,
    m: nat,
    n: nat,
)
    requires
        m <= n,
        word_walk_loaded(texts, page_count, forward, p, n),
    ensures
        word_walk_loaded(texts, page_count, forward, p, m),
    decreases n,
{
    if m < n {
        lemma_word_walk_loaded_prefix(texts, page_count, forward, p, m, (n - 1) as nat);
    }
}

/// A word step reads the same from a cache that has grown.
pub proof fn lemma_word_step_extends(
    before: Texts,
    after: Texts,
    page_count: usize,
    forward: bool,
    p: SelectionPoint,
)
    requires
        extends(before, after),
        word_step_loaded(before, page_count, forward, p),
    ensures
        word_step_loaded(after, page_count, forward, p),
        word_step_end(after, page_count, forward, p) == word_step_end(
            before,
            page_count,
            forward,
            p,
        ),
        word_step_moves(after, page_count, forward, p) == word_step_moves(
            before,
            page_count,
            forward,
            p,
        ),
{
    reveal(word_step_loaded);
    reveal(word_step_end);
    reveal(word_step_moves);
    lemma_run_extends(before, after, page_count, skip_kind(forward, false), p);
    lemma_run_extends(
        before,
        after,
        page_count,
        skip_kind(forward, true),
        run_end(before, page_count, skip_kind(forward, false), p),
    );
}

/// Moves the cursor over one word: over the glyphs that are no part of a
/// word, then over those that are.
pub fn word_step<B: DocumentBackend>(
    forward: bool,
    p: SelectionPoint,
    page_count: usize,
    backend: &B,
    cache: &mut TextCache,
) -> (r: Result<(bool, SelectionPoint), EngineError>)
    ensures
        extends(old(cache)@, final(cache)@),
        match r {
            Ok((moved, end)) => {
                &&& word_step_loaded(final(cache)@, page_count, forward, p)
                &&& end == word_step_end(final(cache)@, page_count, forward, p)
                &&& moved == word_step_moves(final(cache)@, page_count, forward, p)
            },
            Err(_) => !word_step_loaded(old(cache)@, page_count, forward, p),
        },
{
    proof {
        reveal(word_step_loaded);
        reveal(word_step_end);
        reveal(word_step_moves);
    }
    let first = run_steps(forward, false, p, page_count, backend, cache);
    let ghost mid = cache@;
    let (moved_first, after_first) = match first {
        Ok(pair) => pair,
        Err(e) => {
            return Err(e);
        },
    };
    let second = run_steps(forward, true, after_first, page_count, backend, cache);
    let (moved_second, after_second) = match second {
        Ok(pair) => pair,
        Err(e) => {
            proof {
                if word_step_loaded(old(cache)@, page_count, forward, p) {
                    lemma_run_extends(old(cache)@, mid, page_count, skip_kind(forward, false), p);
                    lemma_run_extends(
                        old(cache)@,
                        mid,
                        page_count,
                        skip_kind(forward, true),
                        run_end(old(cache)@, page_count, skip_kind(forward, false), p),
                    );
                }
            }
            return Err(e);
        },
    };
    proof {
        lemma_run_extends(mid, cache@, page_count, skip_kind(forward, false), p);
    }
    Ok((moved_first || moved_second, after_second))
}

/// Moves the cursor over `count` words, at least one.
pub fn move_word<B: DocumentBackend>(
    count: usize,
    forward: bool,
    p: SelectionPoint,
    page_count: usize,
    backend: &B,
    cache: &mut TextCache,
) -> (r: Result<(bool, SelectionPoint), EngineError>)
    ensures
        extends(old(cache)@, final(cache)@),
        match r {
            Ok((moved, end)) => {
                &&& word_walk_loaded(final(cache)@, page_count, forward, p, at_least_one(count))
                &&& end == word_walk(final(cache)@, page_count, forward, p, at_least_one(count))
                &&& moved == word_walk_moves(
                    final(cache)@,
                    page_count,
                    forward,
                    p,
                    at_least_one(count),
                )
            },
            Err(_) => !word_walk_loaded(old(cache)@, page_count, forward, p, at_least_one(count)),
        },
{
    let steps: usize = if count < 1 {
        1
    } else {
        count
    };
    let mut point = p;
    let mut moved = false;
    let mut i: usize = 0;
    while i < steps
        invariant
            i <= steps,
            steps == at_least_one(count),
            extends(old(cache)@, cache@),
            word_walk_loaded(cache@, page_count, forward, p, i as nat),
            point == word_walk(cache@, page_count, forward, p, i as nat),
            moved == word_walk_moves(cache@, page_count, forward, p, i as nat),
        decreases steps - i,
    {
        let ghost before = cache@;
        match word_step(forward, point, page_count, backend, cache) {
            Ok((stepped, next)) => {
                proof {
                    lemma_word_walk_extends(before, cache@, page_count, forward, p, i as nat);
                }
                point = next;
                moved = moved || stepped;
                i += 1;
            },
            Err(e) => {
                proof {
                    if word_walk_loaded(old(cache)@, page_count, forward, p, steps as nat) {
                        lemma_word_walk_loaded_prefix(
                            old(cache)@,
                            page_count,
                            forward,
                            p,
                            (i + 1) as nat,
                            steps as nat,
                        );
                        lemma_word_walk_extends(
                            old(cache)@,
                            before,
                            page_count,
                            forward,
                            p,
                            (i + 1) as nat,
                        );
                    }
                }
                return Err(e);
            },
        }
    }
    Ok((moved, point))
}

/// A count of steps, where none counts as one.
pub open spec fn at_least_one(count: usize) -> nat {
    if count < 1 {
        1
    } else {
        count as nat
    }
}

/// The glyph boundary at one end of the line that a cursor at
/// `glyph_index` stands on; the cursor's own place on a page without lines.
pub open spec fn line_boundary(text: PageText, glyph_index: usize, to_start: bool) -> usize {
    if text.lines().len() == 0 {
        glyph_index
    } else {
        let range = text.lines()[line_at(text, glyph_index)].glyph_range;
        if to_start {
            range.start
        } else if range.end <= text.glyph_seq().len() {
            range.end
        } else {
            text.glyph_seq().len() as usize
        }
    }
}

/// Moves the cursor to the start or the end of its line.
pub fn move_to_line_boundary<B: DocumentBackend>(
    to_start: bool,
    p: SelectionPoint,
    page_count: usize,
    backend: &B,
    cache: &mut TextCache,
) -> (r: Result<(bool, SelectionPoint), EngineError>)
    ensures
        extends(old(cache)@, final(cache)@),
        match r {
            Ok((moved, end)) => {
                &&& loaded(final(cache)@, page_count, p.page as int)
                &&& end == (SelectionPoint {
                    page: p.page,
                    glyph_index: line_boundary(final(cache)@[p.page], p.glyph_index, to_start),
                })
                &&& moved == (end != p)
            },
            Err(_) => !loaded(old(cache)@, page_count, p.page as int),
        },
{
    ensure_page_text(p.page, page_count, backend, cache)?;
    let text = cached_text(cache, p.page);
    if text.line_count() == 0 {
        return Ok((false, p));
    }
    let glyph_count: usize = text.glyph_count();
    let line: usize = line_under(text, p.glyph_index);
    let target: usize = match text.line(line) {
        Some(found) => {
            if to_start {
                found.glyph_range.start
            } else if found.glyph_range.end <= glyph_count {
                found.glyph_range.end
            } else {
                glyph_count
            }
        },
        None => p.glyph_index,
    };
    if p.glyph_index == target {
        return Ok((false, p));
    }
    Ok((true, SelectionPoint { page: p.page, glyph_index: target }))
}

/// The page that lies `steps` pages from `page`, kept inside the document.
pub open spec fn page_target(page_count: usize, page: usize, forward: bool, steps: usize) -> int {
    let wanted = if forward {
        page + steps
    } else {
        page - steps
    };
    if wanted < 0 {
        0
    } else if wanted > page_count - 1 {
        page_count - 1
    } else {
        wanted
    }
}

/// The smaller of a glyph index and the number of glyphs on a page.
pub open spec fn within(texts: Texts, page: usize, glyph_index: usize) -> usize {
    if glyph_index <= glyphs_on(texts, page) {
        glyph_index
    } else {
        glyphs_on(texts, page) as usize
    }
}

/// Moves the cursor by whole pages.
pub fn move_pages<B: DocumentBackend>(
    forward: bool,
    steps: usize,
    p: SelectionPoint,
    page_count: usize,
    backend: &B,
    cache: &mut TextCache,
) -> (r: Result<(bool, SelectionPoint), EngineError>)
    ensures
        extends(old(cache)@, final(cache)@),
        steps == 0 || page_count == 0 || page_target(page_count, p.page, forward, steps) == p.page
            ==> r == Ok::<(bool, SelectionPoint), EngineError>((false, p)),
        steps > 0 && page_count > 0 && page_target(page_count, p.page, forward, steps) != p.page
            ==> match r {
            Ok((moved, end)) => {
                &&& moved
                &&& end.page == page_target(page_count, p.page, forward, steps)
                &&& loaded(final(cache)@, page_count, end.page as int)
                &&& end.glyph_index == within(final(cache)@, end.page, p.glyph_index)
            },
            Err(_) => !old(cache)@.contains_key(
                page_target(page_count, p.page, forward, steps) as usize,
            ),
        },
{
    if steps == 0 || page_count == 0 {
        return Ok((false, p));
    }
    let last: usize = page_count - 1;
    let target: usize = if forward {
        if steps > last || p.page > last - steps {
            last
        } else {
            p.page + steps
        }
    } else {
        if steps > p.page {
            0
        } else if p.page - steps > last {
            last
        } else {
            p.page - steps
        }
    };
    if target == p.page {
        return Ok((false, p));
    }
    ensure_page_text(target, page_count, backend, cache)?;
    let glyph_count: usize = cached_text(cache, target).glyph_count();
    let glyph_index: usize = if p.glyph_index <= glyph_count {
        p.glyph_index
    } else {
        glyph_count
    };
    Ok((true, SelectionPoint { page: target, glyph_index }))
}

/// The page a point is clamped to.
pub open spec fn clamped_page(page_count: usize, page: usize) -> usize {
    if page_count == 0 {
        0
    } else if page >= page_count {
        (page_count - 1) as usize
    } else {
        page
    }
}

/// Brings a point into the document: onto its last page where it lies
/// beyond, and to the end of the page where it lies behind the glyphs.
pub fn clamp_point<B: DocumentBackend>(
    p: SelectionPoint,
    page_count: usize,
    backend: &B,
    cache: &mut TextCache,
) -> (r: Result<SelectionPoint, EngineError>)
    ensures
        extends(old(cache)@, final(cache)@),
        page_count == 0 ==> r == Ok::<SelectionPoint, EngineError>(
            SelectionPoint { page: 0, glyph_index: 0 },
        ),
        page_count > 0 ==> match r {
            Ok(end) => {
                &&& end.page == clamped_page(page_count, p.page)
                &&& loaded(final(cache)@, page_count, end.page as int)
                &&& end.glyph_index == within(final(cache)@, end.page, p.glyph_index)
            },
            Err(_) => !old(cache)@.contains_key(clamped_page(page_count, p.page)),
        },
{
    if page_count == 0 {
        return Ok(SelectionPoint { page: 0, glyph_index: 0 });
    }
    let page: usize = if p.page >= page_count {
        page_count - 1
    } else {
        p.page
    };
    ensure_page_text(page, page_count, backend, cache)?;
    let glyph_count: usize = cached_text(cache, page).glyph_count();
    let glyph_index: usize = if p.glyph_index <= glyph_count {
        p.glyph_index
    } else {
        glyph_count
    };
    Ok(SelectionPoint { page, glyph_index })
}

/// The page that a jump to the start of the document lands on: the
/// first, or page `steps` counted from one where `steps` is above one.
pub open spec fn start_page(page_count: usize, steps: usize) -> usize {
    if steps > 1 {
        if page_count == 0 {
            0
        } else if steps - 1 < page_count - 1 {
            (steps - 1) as usize
        } else {
            (page_count - 1) as usize
        }
    } else {
        0
    }
}

/// The last page of the document.
pub open spec fn last_page(page_count: usize) -> usize {
    if page_count == 0 {
        0
    } else {
        (page_count - 1) as usize
    }
}

/// Whether `texts` holds what the motion reads.
pub open spec fn motion_loaded(
    texts: Texts,
    page_count: usize,
    motion: SelectionMotion,
    steps: usize,
    p: SelectionPoint,
) -> bool {
    match motion {
        SelectionMotion::Left => walk_loaded(texts, page_count, StepKind::Left, p, steps as nat),
        SelectionMotion::Right => walk_loaded(texts, page_count, StepKind::Right, p, steps as nat),
        SelectionMotion::Up => walk_loaded(texts, page_count, StepKind::Up, p, steps as nat),
        SelectionMotion::Down => walk_loaded(texts, page_count, StepKind::Down, p, steps as nat),
        SelectionMotion::WordForward => word_walk_loaded(texts, page_count, true, p, steps as nat),
        SelectionMotion::WordBackward => word_walk_loaded(texts, page_count, false, p, steps as nat),
        SelectionMotion::LineStart | SelectionMotion::LineEnd => loaded(
            texts,
            page_count,
            p.page as int,
        ),
        SelectionMotion::DocumentStart => true,
        SelectionMotion::DocumentEnd => loaded(texts, page_count, last_page(page_count) as int),
        SelectionMotion::PageForward => page_count == 0 || page_target(
            page_count,
            p.page,
            true,
            steps,
        ) == p.page || texts.contains_key(page_target(page_count, p.page, true, steps) as usize),
        SelectionMotion::PageBackward => page_count == 0 || page_target(
            page_count,
            p.page,
            false,
            steps,
        ) == p.page || texts.contains_key(page_target(page_count, p.page, false, steps) as usize),
    }
}

/// Where the motion leads, `steps` being at least one.
pub open spec fn motion_end(
    texts: Texts,
    page_count: usize,
    motion: SelectionMotion,
    steps: usize,
    p: SelectionPoint,
) -> SelectionPoint {
    match motion {
        SelectionMotion::Left => walk(texts, page_count, StepKind::Left, p, steps as nat),
        SelectionMotion::Right => walk(texts, page_count, StepKind::Right, p, steps as nat),
        SelectionMotion::Up => walk(texts, page_count, StepKind::Up, p, steps as nat),
        SelectionMotion::Down => walk(texts, page_count, StepKind::Down, p, steps as nat),
        SelectionMotion::WordForward => word_walk(texts, page_count, true, p, steps as nat),
        SelectionMotion::WordBackward => word_walk(texts, page_count, false, p, steps as nat),
        SelectionMotion::LineStart => SelectionPoint {
            page: p.page,
            glyph_index: line_boundary(texts[p.page], p.glyph_index, true),
        },
        SelectionMotion::LineEnd => SelectionPoint {
            page: p.page,
            glyph_index: line_boundary(texts[p.page], p.glyph_index, false),
        },
        SelectionMotion::DocumentStart => SelectionPoint {
            page: start_page(page_count, steps),
            glyph_index: 0,
        },
        SelectionMotion::DocumentEnd => SelectionPoint {
            page: last_page(page_count),
            glyph_index: glyphs_on(texts, last_page(page_count)) as usize,
        },
        SelectionMotion::PageForward => page_motion_end(texts, page_count, true, steps, p),
        SelectionMotion::PageBackward => page_motion_end(texts, page_count, false, steps, p),
    }
}

/// Where a motion by whole pages leads.
pub open spec fn page_motion_end(
    texts: Texts,
    page_count: usize,
    forward: bool,
    steps: usize,
    p: SelectionPoint,
) -> SelectionPoint {
    let target = page_target(page_count, p.page, forward, steps);
    if page_count == 0 || target == p.page {
        p
    } else {
        SelectionPoint {
            page: target as usize,
            glyph_index: within(texts, target as usize, p.glyph_index),
        }
    }
}

/// Whether the motion counts as having moved the cursor.
pub open spec fn motion_moves(
    texts: Texts,
    page_count: usize,
    motion: SelectionMotion,
    steps: usize,
    p: SelectionPoint,
) -> bool {
    match motion {
        SelectionMotion::Left => step(texts, page_count, StepKind::Left, p) is Some,
        SelectionMotion::Right => step(texts, page_count, StepKind::Right, p) is Some,
        SelectionMotion::Up => step(texts, page_count, StepKind::Up, p) is Some,
        SelectionMotion::Down => step(texts, page_count, StepKind::Down, p) is Some,
        SelectionMotion::WordForward => word_walk_moves(texts, page_count, true, p, steps as nat),
        SelectionMotion::WordBackward => word_walk_moves(texts, page_count, false, p, steps as nat),
        SelectionMotion::PageForward => page_count > 0 && page_target(
            page_count,
            p.page,
            true,
            steps,
        ) != p.page,
        SelectionMotion::PageBackward => page_count > 0 && page_target(
            page_count,
            p.page,
            false,
            steps,
        ) != p.page,
        _ => motion_end(texts, page_count, motion, steps, p) != p,
    }
}

/// A motion reads the same from a cache that has grown.
pub proof fn lemma_motion_extends(
    before: Texts,
    after: Texts,
    page_count: usize,
    motion: SelectionMotion,
    steps: usize,
    p: SelectionPoint,
)
    requires
        extends(before, after),
        steps > 0,
        motion_loaded(before, page_count, motion, steps, p),
    ensures
        motion_loaded(after, page_count, motion, steps, p),
        motion_end(after, page_count, motion, steps, p) == motion_end(
            before,
            page_count,
            motion,
            steps,
            p,
        ),
        motion_moves(after, page_count, motion, steps, p) == motion_moves(
            before,
            page_count,
            motion,
            steps,
            p,
        ),
{
    match motion {
        SelectionMotion::Left => {
            lemma_walk_extends(before, after, page_count, StepKind::Left, p, steps as nat);
            lemma_walk_loaded_prefix(before, page_count, StepKind::Left, p, 1, steps as nat);
            lemma_step_extends(before, after, page_count, StepKind::Left, p);
        },
        SelectionMotion::Right => {
            lemma_walk_extends(before, after, page_count, StepKind::Right, p, steps as nat);
            lemma_walk_loaded_prefix(before, page_count, StepKind::Right, p, 1, steps as nat);
            lemma_step_extends(before, after, page_count, StepKind::Right, p);
        },
        SelectionMotion::Up => {
            lemma_walk_extends(before, after, page_count, StepKind::Up, p, steps as nat);
            lemma_walk_loaded_prefix(before, page_count, StepKind::Up, p, 1, steps as nat);
            lemma_step_extends(before, after, page_count, StepKind::Up, p);
        },
        SelectionMotion::Down => {
            lemma_walk_extends(before, after, page_count, StepKind::Down, p, steps as nat);
            lemma_walk_loaded_prefix(before, page_count, StepKind::Down, p, 1, steps as nat);
            lemma_step_extends(before, after, page_count, StepKind::Down, p);
        },
        SelectionMotion::WordForward => {
            lemma_word_walk_extends(before, after, page_count, true, p, steps as nat);
        },
        SelectionMotion::WordBackward => {
            lemma_word_walk_extends(before, after, page_count, false, p, steps as nat);
        },
        SelectionMotion::LineStart | SelectionMotion::LineEnd => {
            assert(after[p.page] == before[p.page]);
        },
        SelectionMotion::DocumentStart => {},
        SelectionMotion::DocumentEnd => {
            assert(after[last_page(page_count)] == before[last_page(page_count)]);
        },
        SelectionMotion::PageForward => {
            let target = page_target(page_count, p.page, true, steps);
            if page_count > 0 && target != p.page {
                assert(after[target as usize] == before[target as usize]);
            }
        },
        SelectionMotion::PageBackward => {
            let target = page_target(page_count, p.page, false, steps);
            if page_count > 0 && target != p.page {
                assert(after[target as usize] == before[target as usize]);
            }
        },
    }
}

/// Moves a cursor: `count` times, at least once, for the motions that
/// repeat. Returns where the cursor ends and whether it moved. The
/// motion succeeds whenever the pages it reads are cached.
pub fn move_point<B: DocumentBackend>(
    motion: SelectionMotion,
    count: usize,
    p: SelectionPoint,
    page_count: usize,
    backend: &B,
    cache: &mut TextCache,
) -> (r: Result<(bool, SelectionPoint), EngineError>)
    ensures
        extends(old(cache)@, final(cache)@),
        match r {
            Ok((moved, end)) => {
                &&& motion_loaded(final(cache)@, page_count, motion, at_least_one(count) as usize, p)
                &&& end == motion_end(
                    final(cache)@,
                    page_count,
                    motion,
                    at_least_one(count) as usize,
                    p,
                )
                &&& moved == motion_moves(
                    final(cache)@,
                    page_count,
                    motion,
                    at_least_one(count) as usize,
                    p,
                )
            },
            Err(_) => !motion_loaded(
                old(cache)@,
                page_count,
                motion,
                at_least_one(count) as usize,
                p,
            ),
        },
{
    let steps: usize = if count < 1 {
        1
    } else {
        count
    };
    match motion {
        SelectionMotion::Left => walk_steps(StepKind::Left, steps, p, page_count, backend, cache),
        SelectionMotion::Right => walk_steps(StepKind::Right, steps, p, page_count, backend, cache),
        SelectionMotion::Up => walk_steps(StepKind::Up, steps, p, page_count, backend, cache),
        SelectionMotion::Down => walk_steps(StepKind::Down, steps, p, page_count, backend, cache),
        SelectionMotion::WordForward => move_word(steps, true, p, page_count, backend, cache),
        SelectionMotion::WordBackward => move_word(steps, false, p, page_count, backend, cache),
        SelectionMotion::LineStart => move_to_line_boundary(true, p, page_count, backend, cache),
        SelectionMotion::LineEnd => move_to_line_boundary(false, p, page_count, backend, cache),
        SelectionMotion::DocumentStart => {
            let last: usize = if page_count == 0 {
                0
            } else {
                page_count - 1
            };
            let target: usize = if steps > 1 {
                if steps - 1 < last {
                    steps - 1
                } else {
                    last
                }
            } else {
                0
            };
            let end = SelectionPoint { page: target, glyph_index: 0 };
            Ok((p.page != target || p.glyph_index != 0, end))
        },
        SelectionMotion::DocumentEnd => {
            let target: usize = if page_count == 0 {
                0
            } else {
                page_count - 1
            };
            ensure_page_text(target, page_count, backend, cache)?;
            let glyph_count: usize = cached_text(cache, target).glyph_count();
            let end = SelectionPoint { page: target, glyph_index: glyph_count };
            Ok((p.page != target || p.glyph_index != glyph_count, end))
        },
        SelectionMotion::PageForward => move_pages(true, steps, p, page_count, backend, cache),
        SelectionMotion::PageBackward => move_pages(false, steps, p, page_count, backend, cache),
    }
}

/// The glyphs of `text` that the selection covers on `page`, as a pair
/// of glyph boundaries.
pub open spec fn span_on(text: PageText, selection: SelectionSnapshot, page: usize) -> (int, int) {
    let n = text.glyph_seq().len() as int;
    let first = if page == selection.start.page {
        if selection.start.glyph_index <= n {
            selection.start.glyph_index as int
        } else {
            n
        }
    } else {
        0
    };
    let last = if page == selection.end.page {
        if selection.end.glyph_index <= n {
            selection.end.glyph_index as int
        } else {
            n
        }
    } else {
        n
    };
    (first, last)
}

/// The selected text of one page: the bytes between the two glyph
/// boundaries, where they are not empty and can be taken out of the text.
pub open spec fn fragment(text: PageText, selection: SelectionSnapshot, page: usize) -> Option<
    Seq<char>,
> {
    let (first, last) = span_on(text, selection, page);
    let from = text.offset_at(first);
    let to = text.offset_at(last);
    if first < last && from < to && sliceable(text.bytes(), from, to) {
        Some(decode_utf8(text.bytes().subrange(from, to)))
    } else {
        None
    }
}

/// `so_far` with one more page's text: a line feed stands between two
/// pages' texts.
pub open spec fn joined(so_far: Seq<char>, more: Option<Seq<char>>) -> Seq<char> {
    match more {
        Some(part) => if so_far.len() > 0 {
            so_far + seq!['\n'] + part
        } else {
            part
        },
        None => so_far,
    }
}

/// The selected text of the pages up to `upto`.
pub open spec fn selected_text(texts: Texts, selection: SelectionSnapshot, upto: int) -> Seq<char>
    decreases upto - selection.start.page + 1,
{
    if upto < selection.start.page {
        Seq::empty()
    } else {
        joined(
            selected_text(texts, selection, upto - 1),
            fragment(texts[upto as usize], selection, upto as usize),
        )
    }
}

/// Whether `texts` holds the pages of the selection up to `upto`.
pub open spec fn span_loaded(
    texts: Texts,
    page_count: usize,
    selection: SelectionSnapshot,
    upto: int,
) -> bool {
    forall|page: int| selection.start.page <= page <= upto ==> #[trigger] loaded(texts, page_count, page)
}

/// The selected text reads the same from a cache that has grown.
pub proof fn lemma_selected_text_extends(
    before: Texts,
    after: Texts,
    page_count: usize,
    selection: SelectionSnapshot,
    upto: int,
)
    requires
        extends(before, after),
        span_loaded(before, page_count, selection, upto),
    ensures
        span_loaded(after, page_count, selection, upto),
        selected_text(after, selection, upto) == selected_text(before, selection, upto),
    decreases upto - selection.start.page + 1,
{
    if upto >= selection.start.page {
        assert(span_loaded(before, page_count, selection, upto - 1)) by {
            assert forall|page: int| selection.start.page <= page <= upto - 1 implies #[trigger] loaded(
                before,
                page_count,
                page,
            ) by {}
        }
        lemma_selected_text_extends(before, after, page_count, selection, upto - 1);
        assert(loaded(before, page_count, upto));
        assert(after[upto as usize] == before[upto as usize]);
    }
    assert forall|page: int| selection.start.page <= page <= upto implies #[trigger] loaded(
        after,
        page_count,
        page,
    ) by {
        assert(loaded(before, page_count, page));
    }
}

/// The selection ends that the glyphs of `text` allow on `page`.
fn span_of(text: &PageText, selection: &SelectionSnapshot, page: usize) -> (r: (usize, usize))
    ensures
        r.0 == span_on(*text, *selection, page).0,
        r.1 == span_on(*text, *selection, page).1,
        r.0 <= text.glyph_seq().len(),
        r.1 <= text.glyph_seq().len(),
{
    let glyph_count: usize = text.glyph_count();
    let first: usize = if page == selection.start.page {
        if selection.start.glyph_index <= glyph_count {
            selection.start.glyph_index
        } else {
            glyph_count
        }
    } else {
        0
    };
    let last: usize = if page == selection.end.page {
        if selection.end.glyph_index <= glyph_count {
            selection.end.glyph_index
        } else {
            glyph_count
        }
    } else {
        glyph_count
    };
    (first, last)
}

/// The selected text of one page.
fn page_fragment<'a>(text: &'a PageText, selection: &SelectionSnapshot, page: usize) -> (r: Option<
    &'a str,
>)
    ensures
        match r {
            Some(part) => fragment(*text, *selection, page) == Some(part@),
            None => fragment(*text, *selection, page) is None,
        },
{
    let (first, last) = span_of(text, selection, page);
    if first >= last {
        return None;
    }
    let from: usize = text.boundary_offset(first);
    let to: usize = text.boundary_offset(last);
    if to <= from {
        return None;
    }
    slice_text(text.text(), from, to)
}

/// The text that a selection covers: what it covers of each page from
/// its first to its last, with a line feed between the texts of two
/// pages. A page gives nothing where the selection covers no glyph of it
/// or no byte, or where its bytes cannot be taken out of the page's text.
pub fn extract_selection_text<B: DocumentBackend>(
    selection: &SelectionSnapshot,
    page_count: usize,
    backend: &B,
    cache: &mut TextCache,
) -> (r: Result<String, EngineError>)
    ensures
        extends(old(cache)@, final(cache)@),
        match r {
            Ok(text) => {
                &&& span_loaded(final(cache)@, page_count, *selection, selection.end.page as int)
                &&& text@ == selected_text(final(cache)@, *selection, selection.end.page as int)
            },
            Err(_) => !span_loaded(old(cache)@, page_count, *selection, selection.end.page as int),
        },
{
    let mut buffer = String::new();
    let mut page: usize = selection.start.page;
    while page <= selection.end.page
        invariant_except_break
            selection.start.page <= page,
            page <= selection.end.page || page == selection.start.page,
            span_loaded(cache@, page_count, *selection, page - 1),
            buffer@ == selected_text(cache@, *selection, page - 1),
        invariant
            extends(old(cache)@, cache@),
        ensures
            span_loaded(cache@, page_count, *selection, selection.end.page as int),
            buffer@ == selected_text(cache@, *selection, selection.end.page as int),
            extends(old(cache)@, cache@),
        decreases selection.end.page - page,
    {
        let ghost before = cache@;
        match ensure_page_text(page, page_count, backend, cache) {
            Ok(_) => {},
            Err(e) => {
                proof {
                    if span_loaded(old(cache)@, page_count, *selection, selection.end.page as int) {
                        assert(loaded(old(cache)@, page_count, page as int));
                    }
                }
                return Err(e);
            },
        }
        proof {
            lemma_selected_text_extends(before, cache@, page_count, *selection, page - 1);
            assert forall|q: int| selection.start.page <= q <= page implies #[trigger] loaded(
                cache@,
                page_count,
                q,
            ) by {
                if q < page {
                    assert(loaded(before, page_count, q));
                }
            }
        }
        let text = cached_text(cache, page);
        match page_fragment(text, selection, page) {
            Some(part) => {
                if buffer.as_str().unicode_len() > 0 {
                    proof {
                        reveal_strlit("\n");
                        assert("\n"@ =~= seq!['\n']);
                    }
                    buffer.append("\n");
                }
                buffer.append(part);
            },
            None => {},
        }
        if page == selection.end.page {
            break ;
        }
        page += 1;
    }
    Ok(buffer)
}

/// The rectangles with an area of the glyphs that the selection covers
/// on `page`.
pub open spec fn selection_rects(text: PageText, selection: SelectionSnapshot, page: usize) -> Seq<
    NormalizedRect,
> {
    let (first, last) = span_on(text, selection, page);
    if first < last {
        text.glyph_seq().subrange(first, last).map_values(|g: TextGlyph| g.rect).filter(
            |r: NormalizedRect| r.valid(),
        )
    } else {
        Seq::empty()
    }
}

/// The highlights of a selection on one page: none where the page lies
/// outside the selection, where its text cannot be had, or where no
/// selected glyph has a rectangle with an area.
pub fn build_selection_highlights<B: DocumentBackend>(
    selection: &SelectionSnapshot,
    page_index: usize,
    page_count: usize,
    backend: &B,
    cache: &mut TextCache,
) -> (r: Option<Highlights>)
    ensures
        extends(old(cache)@, final(cache)@),
        match r {
            Some(highlights) => {
                &&& selection.start.page <= page_index <= selection.end.page
                &&& loaded(final(cache)@, page_count, page_index as int)
                &&& highlights.current@ == selection_rects(
                    final(cache)@[page_index],
                    *selection,
                    page_index,
                )
                &&& highlights.current@.len() > 0
                &&& highlights.others@.len() == 0
            },
            None => {
                ||| page_index < selection.start.page
                ||| page_index > selection.end.page
                ||| !loaded(old(cache)@, page_count, page_index as int)
                ||| (loaded(final(cache)@, page_count, page_index as int) && selection_rects(
                    final(cache)@[page_index],
                    *selection,
                    page_index,
                ).len() == 0)
            },
        },
{
    if page_index < selection.start.page || page_index > selection.end.page {
        return None;
    }
    match ensure_page_text(page_index, page_count, backend, cache) {
        Ok(_) => {},
        Err(_) => {
            return None;
        },
    }
    let text = cached_text(cache, page_index);
    let (first, last) = span_of(text, selection, page_index);
    if first >= last {
        return None;
    }
    let glyphs = text.glyphs();
    let mut current: Vec<NormalizedRect> = Vec::new();
    let ghost rects = glyphs@.subrange(first as int, last as int).map_values(|g: TextGlyph| g.rect);
    let ghost keep = |r: NormalizedRect| r.valid();
    let mut i: usize = first;
    proof {
        assert(rects.take(0) =~= Seq::<NormalizedRect>::empty());
    }
    while i < last
        invariant
            first <= i <= last <= glyphs.len(),
            rects == glyphs@.subrange(first as int, last as int).map_values(|g: TextGlyph| g.rect),
            keep == (|r: NormalizedRect| r.valid()),
            current@ == rects.take(i - first).filter(keep),
        decreases last - i,
    {
        let rect = glyphs[i].rect;
        proof {
            assert(rects.take(i + 1 - first) =~= rects.take(i - first).push(rects[i - first]));
            lemma_filter_push(rects.take(i - first), rects[i - first], keep);
        }
        if rect.is_valid() {
            current.push(rect);
        }
        i += 1;
    }
    proof {
        assert(rects.take(last - first) =~= rects);
    }
    if current.len() == 0 {
        None
    } else {
        Some(Highlights { current, others: Vec::new() })
    }
}

/// The text a selection covers does not depend on which of its ends is
/// the anchor.
pub proof fn lemma_selected_text_ignores_direction(texts: Texts, selection: SelectionState)
    ensures
        selected_text(
            texts,
            selection.swapped().spec_normalized(),
            selection.swapped().spec_normalized().end.page as int,
        ) == selected_text(
            texts,
            selection.spec_normalized(),
            selection.spec_normalized().end.page as int,
        ),
{
    crate::points::lemma_normalized_ignores_direction(selection);
}

/// Whether every text in `texts` has the tables that belong to it.
pub open spec fn texts_well_formed(texts: Texts) -> bool {
    forall|page: usize| #[trigger] texts.contains_key(page) ==> texts[page].well_formed()
}

/// Whether `p` lies inside the document: on one of its pages and, where
/// the page's text is in `texts`, at one of its glyphs or behind the
/// last.
pub open spec fn inside(texts: Texts, page_count: usize, p: SelectionPoint) -> bool {
    p.page < page_count && (texts.contains_key(p.page) ==> p.glyph_index <= glyphs_on(
        texts,
        p.page,
    ))
}

/// The start of each line of a well-formed text is one of its glyphs,
/// and a cursor stands on one of the lines where there are any.
pub proof fn lemma_lines_inside(text: PageText, glyph_index: usize)
    requires
        text.well_formed(),
        text.lines().len() > 0,
    ensures
        0 <= line_at(text, glyph_index) < text.lines().len(),
        forall|k: int|
            0 <= k < text.lines().len() ==> (#[trigger] text.lines()[k]).glyph_range.start
                < text.glyph_seq().len(),
{
    let n = text.glyph_seq().len();
    if glyph_index < n {
        assert(text.line_indices()[glyph_index as int] < text.lines().len());
    } else {
        assert(text.line_indices()[n - 1] < text.lines().len());
    }
}

/// A step from inside the document leads to a place inside it.
pub proof fn lemma_step_inside(texts: Texts, page_count: usize, kind: StepKind, p: SelectionPoint)
    requires
        texts_well_formed(texts),
        inside(texts, page_count, p),
        step_loaded(texts, page_count, kind, p),
    ensures
        step(texts, page_count, kind, p) matches Some(next) ==> inside(texts, page_count, next),
{
    match kind {
        StepKind::Down | StepKind::Up => {
            let text = texts[p.page];
            assert(texts.contains_key(p.page));
            if text.lines().len() > 0 {
                lemma_lines_inside(text, p.glyph_index);
            }
        },
        _ => {},
    }
}

/// A walk from inside the document ends inside it.
pub proof fn lemma_walk_inside(
    texts: Texts,
    page_count: usize,
    kind: StepKind,
    p: SelectionPoint,
    n: nat,
)
    requires
        texts_well_formed(texts),
        inside(texts, page_count, p),
        walk_loaded(texts, page_count, kind, p, n),
    ensures
        inside(texts, page_count, walk(texts, page_count, kind, p, n)),
    decreases n,
{
    if n > 0 {
        lemma_walk_inside(texts, page_count, kind, p, (n - 1) as nat);
        lemma_step_inside(texts, page_count, kind, walk(texts, page_count, kind, p, (n - 1) as nat));
    }
}

/// A run from inside the document stops inside it.
pub proof fn lemma_run_inside(texts: Texts, page_count: usize, kind: StepKind, p: SelectionPoint)
    requires
        texts_well_formed(texts),
        inside(texts, page_count, p),
        runs_out(texts, page_count, kind, p),
    ensures
        inside(texts, page_count, run_end(texts, page_count, kind, p)),
{
    let n = stop_count(texts, page_count, kind, p);
    assert(stops_after(texts, page_count, kind, p, n));
    lemma_walk_loaded_prefix(texts, page_count, kind, p, n, n + 1);
    lemma_walk_inside(texts, page_count, kind, p, n);
}

/// Word steps from inside the document end inside it.
pub proof fn lemma_word_walk_inside(
    texts: Texts,
    page_count: usize,
    forward: bool,
    p: SelectionPoint,
    n: nat,
)
    requires
        texts_well_formed(texts),
        inside(texts, page_count, p),
        word_walk_loaded(texts, page_count, forward, p, n),
    ensures
        inside(texts, page_count, word_walk(texts, page_count, forward, p, n)),
    decreases n,
{
    if n > 0 {
        lemma_word_walk_inside(texts, page_count, forward, p, (n - 1) as nat);
        let from = word_walk(texts, page_count, forward, p, (n - 1) as nat);
        reveal(word_step_loaded);
        reveal(word_step_end);
        lemma_run_inside(texts, page_count, skip_kind(forward, false), from);
        lemma_run_inside(
            texts,
            page_count,
            skip_kind(forward, true),
            run_end(texts, page_count, skip_kind(forward, false), from),
        );
    }
}

/// A motion of a cursor inside the document leaves it inside the
/// document: on one of its pages and, where the page's text is cached,
/// at one of its glyphs or behind the last.
pub proof fn lemma_motion_inside(
    texts: Texts,
    page_count: usize,
    motion: SelectionMotion,
    steps: usize,
    p: SelectionPoint,
)
    requires
        texts_well_formed(texts),
        inside(texts, page_count, p),
        motion_loaded(texts, page_count, motion, steps, p),
    ensures
        inside(texts, page_count, motion_end(texts, page_count, motion, steps, p)),
{
    match motion {
        SelectionMotion::Left => lemma_walk_inside(texts, page_count, StepKind::Left, p, steps as nat),
        SelectionMotion::Right => lemma_walk_inside(
            texts,
            page_count,
            StepKind::Right,
            p,
            steps as nat,
        ),
        SelectionMotion::Up => lemma_walk_inside(texts, page_count, StepKind::Up, p, steps as nat),
        SelectionMotion::Down => lemma_walk_inside(texts, page_count, StepKind::Down, p, steps as nat),
        SelectionMotion::WordForward => lemma_word_walk_inside(
            texts,
            page_count,
            true,
            p,
            steps as nat,
        ),
        SelectionMotion::WordBackward => lemma_word_walk_inside(
            texts,
            page_count,
            false,
            p,
            steps as nat,
        ),
        SelectionMotion::LineStart | SelectionMotion::LineEnd => {
            let text = texts[p.page];
            if text.lines().len() > 0 {
                lemma_lines_inside(text, p.glyph_index);
            }
        },
        _ => {},
    }
}

} // verus!
