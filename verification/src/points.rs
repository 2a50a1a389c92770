//! Positions in a document's text and the spans between them.

use std::cmp::Ordering;
use vstd::prelude::*;

verus! {

/// A place between glyphs: `glyph_index` may equal the number of glyphs
/// on the page, which is the place behind the last glyph.
#[derive(Debug, Clone, Copy, PartialEq, Eq, Structural)]
pub struct SelectionPoint {
    pub page: usize,
    pub glyph_index: usize,
}

/// Whether `a` comes before `b`: on an earlier page, or on the same page
/// at an earlier glyph.
pub open spec fn point_before(a: SelectionPoint, b: SelectionPoint) -> bool {
    a.page < b.page || (a.page == b.page && a.glyph_index < b.glyph_index)
}

/// Orders two points by page, then by glyph.
pub fn compare_points(a: SelectionPoint, b: SelectionPoint) -> (r: Ordering)
    ensures
        (r == Ordering::Less) == point_before(a, b),
        (r == Ordering::Greater) == point_before(b, a),
        (r == Ordering::Equal) == (a == b),
{
    if a.page < b.page {
        Ordering::Less
    } else if a.page > b.page {
        Ordering::Greater
    } else if a.glyph_index < b.glyph_index {
        Ordering::Less
    } else if a.glyph_index > b.glyph_index {
        Ordering::Greater
    } else {
        Ordering::Equal
    }
}

/// A selection in the making: where it began and where the cursor is.
#[derive(Debug, Clone, Copy, PartialEq, Eq, Structural)]
pub struct SelectionState {
    pub anchor: SelectionPoint,
    pub head: SelectionPoint,
}

/// A selection with its ends in order.
#[derive(Debug, Clone, Copy, PartialEq, Eq, Structural)]
pub struct SelectionSnapshot {
    pub start: SelectionPoint,
    pub end: SelectionPoint,
}

impl SelectionState {
    /// The selection with its ends in order.
    pub open spec fn spec_normalized(self) -> SelectionSnapshot {
        if point_before(self.head, self.anchor) {
            SelectionSnapshot { start: self.head, end: self.anchor }
        } else {
            SelectionSnapshot { start: self.anchor, end: self.head }
        }
    }

    /// The selection with anchor and head exchanged.
    pub open spec fn swapped(self) -> SelectionState {
        SelectionState { anchor: self.head, head: self.anchor }
    }

    /// The selection with its ends in order.
    pub fn normalized(&self) -> (r: SelectionSnapshot)
        ensures
            r == self.spec_normalized(),
            !point_before(r.end, r.start),
    {
        match compare_points(self.anchor, self.head) {
            Ordering::Greater => SelectionSnapshot { start: self.head, end: self.anchor },
            _ => SelectionSnapshot { start: self.anchor, end: self.head },
        }
    }
}

impl SelectionSnapshot {
    /// The two ends, start first.
    pub fn points(&self) -> (r: (SelectionPoint, SelectionPoint))
        ensures
            r == (self.start, self.end),
    {
        (self.start, self.end)
    }
}

/// Which end of a selection is the anchor makes no difference to the
/// span it covers.
pub proof fn lemma_normalized_ignores_direction(selection: SelectionState)
    ensures
        selection.swapped().spec_normalized() == selection.spec_normalized(),
{
}

/// How the cursor of a selection moves.
#[derive(Debug, Clone, Copy, PartialEq, Eq, Structural)]
pub enum SelectionMotion {
    Left,
    Right,
    Up,
    Down,
    WordForward,
    WordBackward,
    LineStart,
    LineEnd,
    DocumentStart,
    DocumentEnd,
    PageForward,
    PageBackward,
}

} // verus!
