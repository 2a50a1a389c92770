//! The text of one page: its glyphs, the byte offsets between them and
//! the lines that the glyphs form.

use vstd::prelude::*;
use vstd::string::StringSliceAdditionalSpecFns;
use vstd::utf8::{decode_utf8, is_char_boundary, valid_utf8};
use crate::geometry::NormalizedRect;

verus! {

/// Two glyphs whose vertical middles lie farther apart than this stand
/// on different lines.
pub const LINE_THRESHOLD: i32 = 15_000;

/// A half-open range of indices, `start` included and `end` not.
#[derive(Debug, Clone, Copy, PartialEq, Eq, Structural)]
pub struct Span {
    pub start: usize,
    pub end: usize,
}

/// One character on a page: the bytes it takes in the page's text and
/// the rectangle it is drawn in.
#[derive(Debug, Clone, Copy, PartialEq, Eq, Structural)]
pub struct TextGlyph {
    pub range: Span,
    pub rect: NormalizedRect,
}

/// A visual line: the glyphs `glyph_range` and the smoothed vertical
/// middle of their rectangles.
#[derive(Debug, Clone, Copy, PartialEq, Eq, Structural)]
pub struct PageLine {
    pub glyph_range: Span,
    pub center_y: i32,
}

/// Twice the vertical middle of a glyph's rectangle.
pub open spec fn doubled_center(glyph: TextGlyph) -> int {
    glyph.rect.top + glyph.rect.bottom
}

/// Whether glyph `i` begins a line: it is the first glyph, or its
/// vertical middle lies more than `LINE_THRESHOLD` from that of the glyph
/// before it.
pub open spec fn starts_line(glyphs: Seq<TextGlyph>, i: int) -> bool {
    i == 0 || {
        let gap = doubled_center(glyphs[i - 1]) - doubled_center(glyphs[i]);
        gap > 2 * LINE_THRESHOLD || -gap > 2 * LINE_THRESHOLD
    }
}

/// The tracked middle of the line made of glyphs `start..end`: the middle
/// of the first glyph, then for each further glyph four fifths of the old
/// value and one fifth of the glyph's middle, rounded down.
pub open spec fn smoothed_center(glyphs: Seq<TextGlyph>, start: int, end: int) -> int
    decreases end - start,
{
    if end <= start + 1 {
        glyphs[start].rect.center_y()
    } else {
        (4 * smoothed_center(glyphs, start, end - 1) + glyphs[end - 1].rect.center_y()) / 5
    }
}

/// Whether `lines` and `index` describe the lines that the first `n`
/// glyphs form: the lines are the maximal runs of glyphs none of which
/// but the first begins a line, and `index` gives each glyph its line.
pub open spec fn lines_cover(
    glyphs: Seq<TextGlyph>,
    n: int,
    lines: Seq<PageLine>,
    index: Seq<usize>,
) -> bool {
    &&& index.len() == n
    &&& (n == 0) == (lines.len() == 0)
    &&& lines.len() > 0 ==> lines[0].glyph_range.start == 0 && lines.last().glyph_range.end == n
    &&& forall|k: int|
        0 <= k < lines.len() ==> {
            &&& (#[trigger] lines[k]).glyph_range.start < lines[k].glyph_range.end <= n
            &&& starts_line(glyphs, lines[k].glyph_range.start as int)
            &&& lines[k].center_y == smoothed_center(
                glyphs,
                lines[k].glyph_range.start as int,
                lines[k].glyph_range.end as int,
            )
        }
    &&& forall|k: int|
        0 <= k < lines.len() - 1 ==> (#[trigger] lines[k]).glyph_range.end == lines[k
            + 1].glyph_range.start
    &&& forall|i: int|
        0 <= i < n ==> {
            &&& (#[trigger] index[i]) < lines.len()
            &&& lines[index[i] as int].glyph_range.start <= i < lines[index[i] as int].glyph_range.end
            &&& starts_line(glyphs, i) == (i == lines[index[i] as int].glyph_range.start)
        }
}

/// The byte offsets between glyphs: zero, then after each glyph the end
/// of its byte range, cut back to the length of the text.
pub open spec fn boundaries_of(glyphs: Seq<TextGlyph>, text_len: int) -> Seq<usize> {
    Seq::new(
        (glyphs.len() + 1) as nat,
        |b: int|
            if b == 0 {
                0usize
            } else if glyphs[b - 1].range.end <= text_len {
                glyphs[b - 1].range.end
            } else {
                text_len as usize
            },
    )
}

/// Whether the bytes `start..end` of a text can be taken out as text:
/// the range lies in the text and neither end splits a character.
pub open spec fn sliceable(bytes: Seq<u8>, start: int, end: int) -> bool {
    &&& 0 <= start <= end <= bytes.len()
    &&& is_char_boundary(bytes, start)
    &&& is_char_boundary(bytes, end)
}

/// A character boundary of a text is one of every tail that starts at a
/// boundary before it.
proof fn lemma_boundary_in_tail(bytes: Seq<u8>, start: int, end: int)
    requires
        valid_utf8(bytes),
        sliceable(bytes, start, end),
    ensures
        valid_utf8(bytes.subrange(start, bytes.len() as int)),
        is_char_boundary(bytes.subrange(start, bytes.len() as int), end - start),
{
    let tail = bytes.subrange(start, bytes.len() as int);
    vstd::utf8::valid_utf8_split(bytes, start);
    if end == start {
    } else if end == bytes.len() {
        vstd::utf8::is_char_boundary_start_end_of_seq(tail);
    } else {
        vstd::utf8::is_char_boundary_iff_not_is_continuation_byte(bytes, end);
        vstd::utf8::is_char_boundary_iff_not_is_continuation_byte(tail, end - start);
    }
}

/// How many bytes `text` takes.
pub fn byte_len(text: &str) -> (r: usize)
    ensures
        r == text.spec_bytes().len(),
{
    text.as_bytes().len()
}

/// The bytes `start..end` of `text` as text, where they can be taken out.
pub fn slice_text(text: &str, start: usize, end: usize) -> (r: Option<&str>)
    ensures
        match r {
            Some(part) => sliceable(text.spec_bytes(), start as int, end as int)
                && part.spec_bytes() == text.spec_bytes().subrange(start as int, end as int)
                && part@ == decode_utf8(text.spec_bytes().subrange(start as int, end as int)),
            None => !sliceable(text.spec_bytes(), start as int, end as int),
        },
{
    if start <= end && end <= byte_len(text) && text.is_char_boundary(start) && text.is_char_boundary(
        end,
    ) {
        proof {
            vstd::utf8::encode_utf8_valid_utf8(text@);
            lemma_boundary_in_tail(text.spec_bytes(), start as int, end as int);
        }
        let (_, tail) = text.split_at(start);
        let (part, _) = tail.split_at(end - start);
        proof {
            assert(part.spec_bytes() =~= text.spec_bytes().subrange(start as int, end as int));
            vstd::utf8::encode_utf8_decode_utf8(part@);
        }
        Some(part)
    } else {
        None
    }
}

/// The first character of `s`.
pub fn first_char(s: &str) -> (r: Option<char>)
    ensures
        r == if s@.len() > 0 {
            Some(s@[0])
        } else {
            None
        },
{
    broadcast use vstd::string::group_string_axioms;

    let mut chars = s.chars();
    chars.next()
}

/// `a / 5`, rounded down.
fn fifth_floor(a: i64) -> (r: i64)
    requires
        -0x8_0000_0000 <= a <= 0x8_0000_0000,
    ensures
        r == a / 5,
{
    if a >= 0 {
        a / 5
    } else {
        -((4 - a) / 5)
    }
}

/// Groups glyphs into lines by the vertical distance between neighbours.
pub fn build_line_map(glyphs: &Vec<TextGlyph>) -> (r: (Vec<PageLine>, Vec<usize>))
    ensures
        lines_cover(glyphs@, glyphs.len() as int, r.0@, r.1@),
{
    let mut lines: Vec<PageLine> = Vec::new();
    let mut glyph_line_index: Vec<usize> = Vec::new();
    let mut idx: usize = 0;
    while idx < glyphs.len()
        invariant
            idx <= glyphs.len(),
            lines_cover(glyphs@, idx as int, lines@, glyph_line_index@),
        decreases glyphs.len() - idx,
    {
        let ghost old_lines = lines@;
        let ghost old_index = glyph_line_index@;
        let glyph = &glyphs[idx];
        let (_, center) = glyph.rect.center();
        let doubled: i64 = glyph.rect.top as i64 + glyph.rect.bottom as i64;
        let new_line: bool = if idx == 0 {
            true
        } else {
            let prev = &glyphs[idx - 1];
            let gap: i64 = (prev.rect.top as i64 + prev.rect.bottom as i64) - doubled;
            gap > 30_000 || -gap > 30_000
        };
        assert(new_line == starts_line(glyphs@, idx as int));
        if new_line {
            lines.push(PageLine { glyph_range: Span { start: idx, end: idx + 1 }, center_y: center });
            assert(smoothed_center(glyphs@, idx as int, idx + 1) == center);
        } else {
            let last: usize = lines.len() - 1;
            let start: usize = lines[last].glyph_range.start;
            let tracked_center: i32 = lines[last].center_y;
            let smoothed: i64 = fifth_floor(4 * (tracked_center as i64) + center as i64);
            assert(old_lines[last as int].glyph_range.end == idx);
            assert(smoothed == smoothed_center(glyphs@, start as int, idx + 1));
            lines.set(last, PageLine {
                    glyph_range: Span { start, end: idx + 1 },
                    center_y: smoothed as i32,
                });
        }
        glyph_line_index.push(lines.len() - 1);
        proof {
            let n = idx + 1;
            let ls = lines@;
            let ix = glyph_line_index@;
            let last = ls.len() - 1;
            assert forall|k: int| 0 <= k < ls.len() implies {
                &&& (#[trigger] ls[k]).glyph_range.start < ls[k].glyph_range.end <= n
                &&& starts_line(glyphs@, ls[k].glyph_range.start as int)
                &&& ls[k].center_y == smoothed_center(
                    glyphs@,
                    ls[k].glyph_range.start as int,
                    ls[k].glyph_range.end as int,
                )
            } by {
                if k < last {
                    assert(ls[k] == old_lines[k]);
                }
            }
            assert forall|k: int| 0 <= k < ls.len() - 1 implies (#[trigger] ls[k]).glyph_range.end
                == ls[k + 1].glyph_range.start by {
                assert(ls[k] == old_lines[k]);
                if k + 1 < last {
                    assert(ls[k + 1] == old_lines[k + 1]);
                }
            }
            assert forall|i: int| 0 <= i < n implies {
                &&& (#[trigger] ix[i]) < ls.len()
                &&& ls[ix[i] as int].glyph_range.start <= i < ls[ix[i] as int].glyph_range.end
                &&& starts_line(glyphs@, i) == (i == ls[ix[i] as int].glyph_range.start)
            } by {
                if i < idx {
                    assert(ix[i] == old_index[i]);
                    let k = old_index[i] as int;
                    if k < last {
                        assert(ls[k] == old_lines[k]);
                    }
                }
            }
        }
        idx += 1;
    }
    (lines, glyph_line_index)
}

/// The text of one page with what is derived from it.
#[derive(Debug)]
pub struct PageText {
    text: String,
    glyphs: Vec<TextGlyph>,
    boundary_offsets: Vec<usize>,
    line_map: Vec<PageLine>,
    glyph_line_index: Vec<usize>,
}

impl PageText {
    /// The characters of the page.
    pub closed spec fn chars(&self) -> Seq<char> {
        self.text@
    }

    /// The page's text as bytes.
    pub open spec fn bytes(&self) -> Seq<u8> {
        vstd::utf8::encode_utf8(self.chars())
    }

    /// The glyphs of the page, in reading order.
    pub closed spec fn glyph_seq(&self) -> Seq<TextGlyph> {
        self.glyphs@
    }

    /// The lines of the page, top line first.
    pub closed spec fn lines(&self) -> Seq<PageLine> {
        self.line_map@
    }

    /// For each glyph the index of its line.
    pub closed spec fn line_indices(&self) -> Seq<usize> {
        self.glyph_line_index@
    }

    /// The byte offsets between glyphs.
    pub closed spec fn boundaries(&self) -> Seq<usize> {
        self.boundary_offsets@
    }

    /// What holds of every page text: the derived tables belong to the
    /// text and glyphs they were built from.
    pub open spec fn well_formed(&self) -> bool {
        &&& self.boundaries() == boundaries_of(self.glyph_seq(), self.bytes().len() as int)
        &&& lines_cover(
            self.glyph_seq(),
            self.glyph_seq().len() as int,
            self.lines(),
            self.line_indices(),
        )
    }

    #[verifier::type_invariant]
    spec fn tables_belong(self) -> bool {
        self.well_formed()
    }

    /// Builds the tables for `text` and its `glyphs`.
    pub fn new(text: String, glyphs: Vec<TextGlyph>) -> (r: Self)
        ensures
            r.chars() == text@,
            r.glyph_seq() == glyphs@,
            r.well_formed(),
    {
        let text_len: usize = byte_len(text.as_str());
        let mut boundary_offsets: Vec<usize> = Vec::new();
        boundary_offsets.push(0);
        let mut i: usize = 0;
        while i < glyphs.len()
            invariant
                i <= glyphs.len(),
                text_len == vstd::utf8::encode_utf8(text@).len(),
                boundary_offsets@ == boundaries_of(glyphs@, text_len as int).take(i + 1),
            decreases glyphs.len() - i,
        {
            let end: usize = glyphs[i].range.end;
            let offset: usize = if end <= text_len {
                end
            } else {
                text_len
            };
            boundary_offsets.push(offset);
            i += 1;
            assert(boundary_offsets@ =~= boundaries_of(glyphs@, text_len as int).take(i + 1));
        }
        assert(boundary_offsets@ =~= boundaries_of(glyphs@, text_len as int));
        let (line_map, glyph_line_index) = build_line_map(&glyphs);
        PageText { text, glyphs, boundary_offsets, line_map, glyph_line_index }
    }

    /// States what holds of every page text.
    pub fn note_well_formed(&self)
        ensures
            self.well_formed(),
    {
        proof {
            use_type_invariant(self);
        }
    }

    /// The page's text.
    pub fn text(&self) -> (r: &str)
        ensures
            r@ == self.chars(),
    {
        self.text.as_str()
    }

    /// The page's glyphs.
    pub fn glyphs(&self) -> (r: &Vec<TextGlyph>)
        ensures
            r@ == self.glyph_seq(),
    {
        &self.glyphs
    }

    /// How many glyphs the page has.
    pub fn glyph_count(&self) -> (r: usize)
        ensures
            r == self.glyph_seq().len(),
    {
        self.glyphs.len()
    }

    /// How many lines the glyphs form.
    pub fn line_count(&self) -> (r: usize)
        ensures
            r == self.lines().len(),
            self.well_formed(),
    {
        proof {
            use_type_invariant(self);
        }
        self.line_map.len()
    }

    /// The byte offset of boundary `boundary`: boundary 0 lies before the
    /// first glyph, boundary `i + 1` behind glyph `i`. Past the last
    /// boundary the answer is the length of the text.
    pub fn boundary_offset(&self, boundary: usize) -> (r: usize)
        ensures
            r == self.offset_at(boundary as int),
            r <= self.bytes().len(),
    {
        proof {
            use_type_invariant(self);
        }
        if boundary >= self.boundary_offsets.len() {
            return byte_len(self.text.as_str());
        }
        self.boundary_offsets[boundary]
    }

    /// The byte offset of a boundary.
    pub open spec fn offset_at(&self, boundary: int) -> int {
        if 0 <= boundary <= self.glyph_seq().len() {
            boundaries_of(self.glyph_seq(), self.bytes().len() as int)[boundary] as int
        } else {
            self.bytes().len() as int
        }
    }

    /// The line that glyph `index` stands on.
    pub fn line_index_for_glyph(&self, index: usize) -> (r: Option<usize>)
        ensures
            self.well_formed(),
            r == if index < self.glyph_seq().len() {
                Some(self.line_indices()[index as int])
            } else {
                None
            },
    {
        proof {
            use_type_invariant(self);
        }
        if index < self.glyph_line_index.len() {
            Some(self.glyph_line_index[index])
        } else {
            None
        }
    }

    /// Line `index` of the page.
    pub fn line(&self, index: usize) -> (r: Option<&PageLine>)
        ensures
            self.well_formed(),
            match r {
                Some(line) => index < self.lines().len() && *line == self.lines()[index as int],
                None => index >= self.lines().len(),
            },
    {
        proof {
            use_type_invariant(self);
        }
        if index < self.line_map.len() {
            Some(&self.line_map[index])
        } else {
            None
        }
    }

    /// The first character of glyph `index`: none when there is no such
    /// glyph, when its byte range cannot be taken out of the text, or
    /// when the range is empty.
    pub open spec fn char_at(&self, index: int) -> Option<char> {
        if 0 <= index < self.glyph_seq().len() {
            let range = self.glyph_seq()[index].range;
            if sliceable(self.bytes(), range.start as int, range.end as int) {
                let part = decode_utf8(self.bytes().subrange(range.start as int, range.end as int));
                if part.len() > 0 {
                    Some(part[0])
                } else {
                    None
                }
            } else {
                None
            }
        } else {
            None
        }
    }

    /// The first character of glyph `index`.
    pub fn glyph_char(&self, index: usize) -> (r: Option<char>)
        ensures
            r == self.char_at(index as int),
    {
        if index >= self.glyphs.len() {
            return None;
        }
        let start: usize = self.glyphs[index].range.start;
        let end: usize = self.glyphs[index].range.end;
        match slice_text(self.text.as_str(), start, end) {
            Some(part) => first_char(part),
            None => None,
        }
    }
}

/// The squared distance between the middle of `rect` and `(x, y)`.
pub open spec fn center_distance(rect: NormalizedRect, x: int, y: int) -> int {
    (rect.center_x() - x) * (rect.center_x() - x) + (rect.center_y() - y) * (rect.center_y() - y)
}

/// Whether glyph `i` has a rectangle with an area.
pub open spec fn glyph_usable(glyphs: Seq<TextGlyph>, i: int) -> bool {
    0 <= i < glyphs.len() && glyphs[i].rect.valid()
}

/// Whether glyph `i` has a rectangle with an area that holds `(x, y)`.
pub open spec fn glyph_hit(glyphs: Seq<TextGlyph>, x: int, y: int, i: int) -> bool {
    glyph_usable(glyphs, i) && glyphs[i].rect.covers(x, y)
}

/// The squared distance between the middle of glyph `i` and `(x, y)`.
pub open spec fn glyph_distance(glyphs: Seq<TextGlyph>, x: int, y: int, i: int) -> int {
    center_distance(glyphs[i].rect, x, y)
}

/// Whether `at` is the glyph that a point picks: the first glyph whose
/// rectangle holds the point; where none does, the first of the glyphs
/// whose middle is nearest; and glyph 0 where no rectangle has an area.
pub open spec fn picks_glyph(glyphs: Seq<TextGlyph>, x: int, y: int, at: int) -> bool {
    if exists|i: int| glyph_hit(glyphs, x, y, i) {
        glyph_hit(glyphs, x, y, at) && forall|i: int|
            0 <= i < at ==> !glyph_hit(glyphs, x, y, i)
    } else if exists|i: int| glyph_usable(glyphs, i) {
        &&& glyph_usable(glyphs, at)
        &&& forall|i: int|
            glyph_usable(glyphs, i) ==> glyph_distance(glyphs, x, y, at) <= glyph_distance(
                glyphs,
                x,
                y,
                i,
            )
        &&& forall|i: int|
            glyph_usable(glyphs, i) && i < at ==> glyph_distance(glyphs, x, y, at)
                < glyph_distance(glyphs, x, y, i)
    } else {
        at == 0
    }
}

/// A point picks one glyph only.
pub proof fn lemma_pick_unique(glyphs: Seq<TextGlyph>, x: int, y: int, a: int, b: int)
    requires
        picks_glyph(glyphs, x, y, a),
        picks_glyph(glyphs, x, y, b),
    ensures
        a == b,
{
    if exists|i: int| glyph_hit(glyphs, x, y, i) {
        if a < b {
            assert(!glyph_hit(glyphs, x, y, a));
        } else if b < a {
            assert(!glyph_hit(glyphs, x, y, b));
        }
    } else if exists|i: int| glyph_usable(glyphs, i) {
        if a < b {
            assert(glyph_distance(glyphs, x, y, b) < glyph_distance(glyphs, x, y, a));
            assert(glyph_distance(glyphs, x, y, a) <= glyph_distance(glyphs, x, y, b));
        } else if b < a {
            assert(glyph_distance(glyphs, x, y, a) < glyph_distance(glyphs, x, y, b));
            assert(glyph_distance(glyphs, x, y, b) <= glyph_distance(glyphs, x, y, a));
        }
    }
}

/// The glyph that the point `(x, y)` picks.
pub open spec fn picked_glyph(glyphs: Seq<TextGlyph>, x: int, y: int) -> int {
    choose|at: int| picks_glyph(glyphs, x, y, at)
}

/// The first glyph whose rectangle holds the point, given one that does.
proof fn lemma_first_hit(glyphs: Seq<TextGlyph>, x: int, y: int, k: int) -> (at: int)
    requires
        glyph_hit(glyphs, x, y, k),
    ensures
        glyph_hit(glyphs, x, y, at),
        forall|i: int| 0 <= i < at ==> !glyph_hit(glyphs, x, y, i),
    decreases k,
{
    if exists|i: int| 0 <= i < k && glyph_hit(glyphs, x, y, i) {
        let earlier = choose|i: int| 0 <= i < k && glyph_hit(glyphs, x, y, i);
        lemma_first_hit(glyphs, x, y, earlier)
    } else {
        k
    }
}

/// The first of the glyphs nearest to the point among the first `n`,
/// given that one of them has a rectangle with an area.
proof fn lemma_nearest(glyphs: Seq<TextGlyph>, x: int, y: int, n: int) -> (at: int)
    requires
        0 <= n <= glyphs.len(),
        exists|i: int| 0 <= i < n && glyph_usable(glyphs, i),
    ensures
        0 <= at < n,
        glyph_usable(glyphs, at),
        forall|i: int|
            0 <= i < n && glyph_usable(glyphs, i) ==> glyph_distance(glyphs, x, y, at)
                <= glyph_distance(glyphs, x, y, i),
        forall|i: int|
            0 <= i < at && glyph_usable(glyphs, i) ==> glyph_distance(glyphs, x, y, at)
                < glyph_distance(glyphs, x, y, i),
    decreases n,
{
    let last = n - 1;
    if exists|i: int| 0 <= i < last && glyph_usable(glyphs, i) {
        let before = lemma_nearest(glyphs, x, y, last);
        if glyph_usable(glyphs, last) && glyph_distance(glyphs, x, y, last) < glyph_distance(
            glyphs,
            x,
            y,
            before,
        ) {
            last
        } else {
            before
        }
    } else {
        let some = choose|i: int| 0 <= i < n && glyph_usable(glyphs, i);
        assert(some == last);
        last
    }
}

/// Every point picks a glyph, and on a page with glyphs it is one of
/// them.
pub proof fn lemma_pick_exists(glyphs: Seq<TextGlyph>, x: int, y: int)
    ensures
        picks_glyph(glyphs, x, y, picked_glyph(glyphs, x, y)),
        0 <= picked_glyph(glyphs, x, y),
        glyphs.len() > 0 ==> picked_glyph(glyphs, x, y) < glyphs.len(),
{
    if exists|i: int| glyph_hit(glyphs, x, y, i) {
        let some = choose|i: int| glyph_hit(glyphs, x, y, i);
        let at = lemma_first_hit(glyphs, x, y, some);
        assert(picks_glyph(glyphs, x, y, at));
    } else if exists|i: int| glyph_usable(glyphs, i) {
        let some = choose|i: int| glyph_usable(glyphs, i);
        assert(0 <= some < glyphs.len() && glyph_usable(glyphs, some));
        let at = lemma_nearest(glyphs, x, y, glyphs.len() as int);
        assert(picks_glyph(glyphs, x, y, at));
    } else {
        assert(picks_glyph(glyphs, x, y, 0));
    }
}

/// The squared distance between the middle of `rect` and `(x, y)`.
fn squared_distance(rect: &NormalizedRect, x: i32, y: i32) -> (r: i128)
    ensures
        r == center_distance(*rect, x as int, y as int),
{
    let (cx, cy) = rect.center();
    let dx: i128 = cx as i128 - x as i128;
    let dy: i128 = cy as i128 - y as i128;
    assert(dx * dx <= 0x1_0000_0000 * 0x1_0000_0000 && dx * dx >= 0) by (nonlinear_arith)
        requires
            -0x1_0000_0000 <= dx <= 0x1_0000_0000,
    ;
    assert(dy * dy <= 0x1_0000_0000 * 0x1_0000_0000 && dy * dy >= 0) by (nonlinear_arith)
        requires
            -0x1_0000_0000 <= dy <= 0x1_0000_0000,
    ;
    dx * dx + dy * dy
}

/// The glyph of `text` that the point `(x, y)` picks.
pub fn glyph_near_point(text: &PageText, x: i32, y: i32) -> (r: usize)
    ensures
        picks_glyph(text.glyph_seq(), x as int, y as int, r as int),
        r == picked_glyph(text.glyph_seq(), x as int, y as int),
        text.glyph_seq().len() > 0 ==> r < text.glyph_seq().len(),
{
    let found: usize = nearest_glyph(text, x, y);
    proof {
        lemma_pick_unique(
            text.glyph_seq(),
            x as int,
            y as int,
            found as int,
            picked_glyph(text.glyph_seq(), x as int, y as int),
        );
    }
    found
}

/// Finds the glyph that the point `(x, y)` picks.
fn nearest_glyph(text: &PageText, x: i32, y: i32) -> (r: usize)
    ensures
        picks_glyph(text.glyph_seq(), x as int, y as int, r as int),
        text.glyph_seq().len() > 0 ==> r < text.glyph_seq().len(),
{
    let glyphs = text.glyphs();
    let ghost gx = x as int;
    let ghost gy = y as int;
    let mut best_index: usize = 0;
    let mut best_score: Option<i128> = None;
    let mut idx: usize = 0;
    while idx < glyphs.len()
        invariant
            idx <= glyphs.len(),
            glyphs@ == text.glyph_seq(),
            gx == x as int,
            gy == y as int,
            forall|i: int| 0 <= i < idx ==> !glyph_hit(glyphs@, gx, gy, i),
            match best_score {
                Some(score) => {
                    &&& best_index < idx
                    &&& glyph_usable(glyphs@, best_index as int)
                    &&& score == glyph_distance(glyphs@, gx, gy, best_index as int)
                    &&& forall|i: int|
                        0 <= i < idx && glyph_usable(glyphs@, i) ==> score <= glyph_distance(
                            glyphs@,
                            gx,
                            gy,
                            i,
                        )
                    &&& forall|i: int|
                        0 <= i < best_index && glyph_usable(glyphs@, i) ==> score
                            < glyph_distance(glyphs@, gx, gy, i)
                },
                None => best_index == 0 && forall|i: int|
                    0 <= i < idx ==> !glyph_usable(glyphs@, i),
            },
        decreases glyphs.len() - idx,
    {
        let rect = &glyphs[idx].rect;
        if rect.is_valid() && rect.contains(x, y) {
            assert(glyph_hit(glyphs@, gx, gy, idx as int));
            return idx;
        }
        if rect.is_valid() {
            let score: i128 = squared_distance(rect, x, y);
            let better: bool = match best_score {
                Some(best) => score < best,
                None => true,
            };
            if better {
                best_score = Some(score);
                best_index = idx;
            }
        }
        idx += 1;
    }
    proof {
        assert(!(exists|i: int| glyph_hit(glyphs@, gx, gy, i)));
        if best_score is Some {
            assert(glyph_usable(glyphs@, best_index as int));
        } else {
            assert(!(exists|i: int| glyph_usable(glyphs@, i)));
        }
    }
    best_index
}

} // verus!
