//! Fixed-point page geometry: viewport offsets and normalized rectangles.

use vstd::prelude::*;

verus! {

/// One whole page width or height in coordinate units.
pub const UNIT: i32 = 1_000_000;

/// The zoom factor at which a page is shown at its natural size, in thousandths.
pub const SCALE_ONE: u32 = 1000;

/// The smallest zoom factor the engine keeps, in thousandths.
pub const SCALE_MIN: u32 = 250;

/// The largest zoom factor the engine keeps, in thousandths.
pub const SCALE_MAX: u32 = 4000;

/// The coordinate nearest to `v` that lies on the page.
pub open spec fn clamp_unit(v: int) -> int {
    if v < 0 {
        0
    } else if v > UNIT {
        UNIT as int
    } else {
        v
    }
}

/// The zoom factor nearest to `v` that the engine keeps.
pub open spec fn clamp_scale(v: int) -> int {
    if v < SCALE_MIN {
        SCALE_MIN as int
    } else if v > SCALE_MAX {
        SCALE_MAX as int
    } else {
        v
    }
}

/// Brings a coordinate onto the page.
pub fn clamp_coordinate(v: i32) -> (r: i32)
    ensures
        r == clamp_unit(v as int),
{
    if v < 0 {
        0
    } else if v > UNIT {
        UNIT
    } else {
        v
    }
}

/// Brings a wide intermediate coordinate onto the page.
pub fn clamp_wide_coordinate(v: i64) -> (r: i32)
    ensures
        r == clamp_unit(v as int),
{
    if v < 0 {
        0
    } else if v > 1_000_000 {
        UNIT
    } else {
        v as i32
    }
}

/// Brings a zoom factor into the range the engine keeps.
pub fn clamp_scale_value(v: u64) -> (r: u32)
    ensures
        r == clamp_scale(v as int),
{
    if v < 250 {
        SCALE_MIN
    } else if v > 4000 {
        SCALE_MAX
    } else {
        v as u32
    }
}

/// The product of two zoom factors, rounded to the nearest thousandth.
pub open spec fn scale_product(scale: int, factor: int) -> int {
    (scale * factor + 500) / 1000
}

/// Multiplies a zoom factor by `factor` and clamps the product.
pub fn scaled_by(scale: u32, factor: u32) -> (r: u32)
    ensures
        r == clamp_scale(scale_product(scale as int, factor as int)),
        SCALE_MIN <= r <= SCALE_MAX,
{
    let wide: u64 = scale as u64;
    let by: u64 = factor as u64;
    assert(wide * by <= 0xffff_ffff * 0xffff_ffff) by (nonlinear_arith)
        requires
            wide <= 0xffff_ffff,
            by <= 0xffff_ffff,
    ;
    let product: u64 = (wide * by + 500) / 1000;
    clamp_scale_value(product)
}

/// Where the visible window sits on a zoomed page: the offset of its
/// top-left corner as a fraction of the distance it can travel.
#[derive(Debug, Clone, Copy, PartialEq, Eq, Structural)]
pub struct ViewportOffset {
    pub x: i32,
    pub y: i32,
}

impl Default for ViewportOffset {
    fn default() -> (r: Self)
        ensures
            r == ViewportOffset::origin(),
    {
        ViewportOffset { x: 0, y: 0 }
    }
}

impl ViewportOffset {
    /// The offset of an unpanned window.
    pub open spec fn origin() -> ViewportOffset {
        ViewportOffset { x: 0, y: 0 }
    }

    /// Whether both components lie on the page.
    pub open spec fn in_bounds(self) -> bool {
        0 <= self.x <= UNIT && 0 <= self.y <= UNIT
    }

    /// The offset with each component brought onto the page.
    pub open spec fn clamped(self) -> ViewportOffset {
        ViewportOffset { x: clamp_unit(self.x as int) as i32, y: clamp_unit(self.y as int) as i32 }
    }

    /// The offset after panning by `(delta_x, delta_y)`: a component moves
    /// only when its delta is not zero, and never leaves the page.
    pub open spec fn adjusted(self, delta_x: int, delta_y: int) -> ViewportOffset {
        ViewportOffset {
            x: if delta_x != 0 {
                clamp_unit(self.x + delta_x) as i32
            } else {
                self.x
            },
            y: if delta_y != 0 {
                clamp_unit(self.y + delta_y) as i32
            } else {
                self.y
            },
        }
    }

    /// Moves the window back to the top-left corner.
    pub fn reset(&mut self)
        ensures
            *final(self) == ViewportOffset::origin(),
    {
        self.x = 0;
        self.y = 0;
    }

    /// Pans the window and reports whether it moved.
    pub fn adjust(&mut self, delta_x: i32, delta_y: i32) -> (changed: bool)
        ensures
            *final(self) == old(self).adjusted(delta_x as int, delta_y as int),
            changed == (*final(self) != *old(self)),
    {
        let mut changed = false;
        if delta_x != 0 {
            let next: i32 = clamp_wide_coordinate(self.x as i64 + delta_x as i64);
            if next != self.x {
                self.x = next;
                changed = true;
            }
        }
        if delta_y != 0 {
            let next: i32 = clamp_wide_coordinate(self.y as i64 + delta_y as i64);
            if next != self.y {
                self.y = next;
                changed = true;
            }
        }
        changed
    }

    /// Brings both components onto the page.
    pub fn clamp(&mut self)
        ensures
            *final(self) == old(self).clamped(),
            final(self).in_bounds(),
    {
        self.x = clamp_coordinate(self.x);
        self.y = clamp_coordinate(self.y);
    }
}

/// A rectangle in page coordinates; `top` is the smaller vertical coordinate.
#[derive(Debug, Clone, Copy, PartialEq, Eq, Structural)]
pub struct NormalizedRect {
    pub left: i32,
    pub top: i32,
    pub right: i32,
    pub bottom: i32,
}

/// Half of `sum`, rounded down.
pub fn half_floor(sum: i64) -> (r: i64)
    requires
        -0x1_0000_0000 <= sum <= 0x1_0000_0000,
    ensures
        r == sum / 2,
{
    if sum >= 0 {
        sum / 2
    } else {
        -((1 - sum) / 2)
    }
}

impl NormalizedRect {
    /// The rectangle with each edge brought onto the page.
    pub open spec fn clamped(self) -> NormalizedRect {
        NormalizedRect {
            left: clamp_unit(self.left as int) as i32,
            top: clamp_unit(self.top as int) as i32,
            right: clamp_unit(self.right as int) as i32,
            bottom: clamp_unit(self.bottom as int) as i32,
        }
    }

    /// Whether the rectangle has a positive width and height.
    pub open spec fn valid(self) -> bool {
        self.right > self.left && self.bottom > self.top
    }

    /// Whether every edge lies on the page.
    pub open spec fn on_page(self) -> bool {
        &&& 0 <= self.left <= UNIT
        &&& 0 <= self.top <= UNIT
        &&& 0 <= self.right <= UNIT
        &&& 0 <= self.bottom <= UNIT
    }

    /// Whether the point lies in the rectangle, edges included.
    pub open spec fn covers(self, x: int, y: int) -> bool {
        x >= self.left && x <= self.right && y >= self.top && y <= self.bottom
    }

    /// The horizontal middle, rounded down.
    pub open spec fn center_x(self) -> int {
        (self.left + self.right) / 2
    }

    /// The vertical middle, rounded down.
    pub open spec fn center_y(self) -> int {
        (self.top + self.bottom) / 2
    }

    /// The rectangle with each edge brought onto the page.
    pub fn clamp(self) -> (r: Self)
        ensures
            r == self.clamped(),
            r.on_page(),
    {
        NormalizedRect {
            left: clamp_coordinate(self.left),
            top: clamp_coordinate(self.top),
            right: clamp_coordinate(self.right),
            bottom: clamp_coordinate(self.bottom),
        }
    }

    /// Whether the rectangle has a positive width and height.
    pub fn is_valid(&self) -> (r: bool)
        ensures
            r == self.valid(),
    {
        self.right > self.left && self.bottom > self.top
    }

    /// Whether the point lies in the rectangle, edges included.
    pub fn contains(&self, x: i32, y: i32) -> (r: bool)
        ensures
            r == self.covers(x as int, y as int),
    {
        x >= self.left && x <= self.right && y >= self.top && y <= self.bottom
    }

    /// The middle of the rectangle, each coordinate rounded down.
    pub fn center(&self) -> (r: (i32, i32))
        ensures
            r.0 == self.center_x(),
            r.1 == self.center_y(),
    {
        let cx: i64 = half_floor(self.left as i64 + self.right as i64);
        let cy: i64 = half_floor(self.top as i64 + self.bottom as i64);
        (cx as i32, cy as i32)
    }
}

/// Clamps every rectangle of `rects` onto the page and keeps, in order,
/// those that still have a positive area.
pub open spec fn usable_rects(rects: Seq<NormalizedRect>) -> Seq<NormalizedRect> {
    rects.map_values(|r: NormalizedRect| r.clamped()).filter(|r: NormalizedRect| r.valid())
}

/// Filtering a sequence with one more element at its end filters the
/// front as before and keeps the new element exactly when it passes.
pub proof fn lemma_filter_push<A>(s: Seq<A>, x: A, pred: spec_fn(A) -> bool)
    ensures
        s.push(x).filter(pred) == if pred(x) {
            s.filter(pred).push(x)
        } else {
            s.filter(pred)
        },
{
    reveal(Seq::filter);
    assert(s.push(x).drop_last() =~= s);
}

/// The rectangles of `rects` that survive clamping to the page.
pub fn clamp_and_filter(rects: &Vec<NormalizedRect>) -> (out: Vec<NormalizedRect>)
    ensures
        out@ == usable_rects(rects@),
        forall|i: int| 0 <= i < out.len() ==> (#[trigger] out[i]).valid() && out[i].on_page(),
{
    let mut out: Vec<NormalizedRect> = Vec::new();
    let ghost clamped = rects@.map_values(|r: NormalizedRect| r.clamped());
    let ghost keep = |r: NormalizedRect| r.valid();
    let mut i: usize = 0;
    proof {
        assert(clamped.take(0) =~= Seq::<NormalizedRect>::empty());
    }
    while i < rects.len()
        invariant
            i <= rects.len(),
            clamped == rects@.map_values(|r: NormalizedRect| r.clamped()),
            keep == (|r: NormalizedRect| r.valid()),
            out@ == clamped.take(i as int).filter(keep),
            forall|k: int| 0 <= k < out.len() ==> (#[trigger] out[k]).valid() && out[k].on_page(),
        decreases rects.len() - i,
    {
        let rect = rects[i].clamp();
        proof {
            assert(clamped.take(i + 1) =~= clamped.take(i as int).push(clamped[i as int]));
            lemma_filter_push(clamped.take(i as int), clamped[i as int], keep);
        }
        if rect.is_valid() {
            out.push(rect);
        }
        i += 1;
    }
    proof {
        assert(clamped.take(rects.len() as int) =~= clamped);
    }
    out
}

/// Rectangles to highlight on a page, in two tiers.
#[derive(Debug)]
pub struct Highlights {
    pub current: Vec<NormalizedRect>,
    pub others: Vec<NormalizedRect>,
}

impl Default for Highlights {
    fn default() -> (r: Self)
        ensures
            r.current@.len() == 0,
            r.others@.len() == 0,
    {
        Highlights { current: Vec::new(), others: Vec::new() }
    }
}

impl Highlights {
    /// Whether neither tier holds a rectangle.
    pub fn is_empty(&self) -> (r: bool)
        ensures
            r == (self.current@.len() == 0 && self.others@.len() == 0),
    {
        self.current.len() == 0 && self.others.len() == 0
    }
}

/// Something on a page that can be highlighted: its page and rectangles.
pub type Marked = (usize, Seq<NormalizedRect>);

/// One tier of the highlights of `page` among the first `n` of `items`:
/// with `of_current` the rectangles of the item at index `current`, else
/// those of every other item, in the order of the items.
pub open spec fn tier(
    items: Seq<Marked>,
    page: usize,
    current: Option<usize>,
    of_current: bool,
    n: int,
) -> Seq<NormalizedRect>
    decreases n,
{
    if n <= 0 {
        Seq::empty()
    } else {
        let rest = tier(items, page, current, of_current, n - 1);
        let item = items[n - 1];
        if item.0 == page && (current == Some((n - 1) as usize)) == of_current {
            rest + item.1
        } else {
            rest
        }
    }
}

/// Appends a copy of each rectangle of `more` to `rects`.
pub fn append_rects(rects: &mut Vec<NormalizedRect>, more: &Vec<NormalizedRect>)
    ensures
        final(rects)@ == old(rects)@ + more@,
{
    let mut i: usize = 0;
    while i < more.len()
        invariant
            i <= more.len(),
            rects@ == old(rects)@ + more@.take(i as int),
        decreases more.len() - i,
    {
        rects.push(more[i]);
        i += 1;
        assert(rects@ =~= old(rects)@ + more@.take(i as int));
    }
    assert(more@.take(more.len() as int) =~= more@);
}

/// Highlights of search matches.
pub type SearchHighlights = Highlights;

/// Highlights of links.
pub type LinkHighlights = Highlights;

} // verus!
