//! Work on rendered pages as pixels: cropping to the viewport, inverting
//! colours and painting highlights.

use vstd::prelude::*;
use crate::cache::RenderImage;
use crate::geometry::{Highlights, NormalizedRect, UNIT};

verus! {

/// The index of channel `c` of the pixel at `(x, y)` in an image that is
/// `width` pixels wide.
pub open spec fn channel_index(width: int, x: int, y: int, c: int) -> int {
    (y * width + x) * 4 + c
}

/// Whether the buffer of an image holds exactly its pixels.
pub open spec fn holds_pixels(image: RenderImage) -> bool {
    image.pixels@.len() == image.width * image.height * 4
}

/// Every channel of every pixel of an image lies in its buffer.
pub proof fn lemma_channel_in_buffer(width: int, height: int, x: int, y: int, c: int)
    requires
        0 <= x < width,
        0 <= y < height,
        0 <= c < 4,
    ensures
        0 <= channel_index(width, x, y, c) < width * height * 4,
{
    assert(y * width + x < height * width) by (nonlinear_arith)
        requires
            0 <= x < width,
            0 <= y < height,
    ;
    assert(y * width >= 0) by (nonlinear_arith)
        requires
            0 <= y,
            0 <= width,
    ;
    assert(height * width == width * height) by (nonlinear_arith);
}

/// Two channels with one index are one channel of one pixel.
pub proof fn lemma_channel_unique(
    width: int,
    x: int,
    y: int,
    c: int,
    x2: int,
    y2: int,
    c2: int,
)
    requires
        0 <= x < width,
        0 <= x2 < width,
        0 <= c < 4,
        0 <= c2 < 4,
        0 <= y,
        0 <= y2,
        channel_index(width, x, y, c) == channel_index(width, x2, y2, c2),
    ensures
        x == x2 && y == y2 && c == c2,
{
    assert(c == c2 && y * width + x == y2 * width + x2);
    if y < y2 {
        assert(y2 * width >= (y + 1) * width) by (nonlinear_arith)
            requires
                y + 1 <= y2,
                0 <= width,
        ;
        assert((y + 1) * width == y * width + width) by (nonlinear_arith);
    } else if y2 < y {
        assert(y * width >= (y2 + 1) * width) by (nonlinear_arith)
            requires
                y2 + 1 <= y,
                0 <= width,
        ;
        assert((y2 + 1) * width == y2 * width + width) by (nonlinear_arith);
    }
}

/// Where the pixel at `(x, y)` starts in the buffer of an image.
fn pixel_offset(width: u32, height: u32, x: u32, y: u32, len: usize) -> (r: usize)
    requires
        x < width,
        y < height,
        len == width * height * 4,
    ensures
        r == channel_index(width as int, x as int, y as int, 0),
        r + 4 <= len,
{
    proof {
        lemma_channel_in_buffer(width as int, height as int, x as int, y as int, 0);
        lemma_channel_in_buffer(width as int, height as int, x as int, y as int, 3);
        assert(0 <= y * width <= y * width + x) by (nonlinear_arith)
            requires
                0 <= y,
                0 <= width,
                0 <= x,
        ;
    }
    (y as usize * width as usize + x as usize) * 4
}

/// Whether the buffer of `image` holds exactly its pixels.
pub fn has_all_pixels(image: &RenderImage) -> (r: bool)
    ensures
        r == holds_pixels(*image),
{
    let width: u128 = image.width as u128;
    let height: u128 = image.height as u128;
    assert(width * height <= 0xffff_ffff * 0xffff_ffff) by (nonlinear_arith)
        requires
            width <= 0xffff_ffff,
            height <= 0xffff_ffff,
    ;
    image.pixels.len() as u128 == width * height * 4
}

/// Where a window of `viewport` pixels starts in `total` pixels when it
/// has travelled the fraction `fraction` of its way, in millionths,
/// rounded to the nearest pixel.
pub open spec fn viewport_origin(total: u32, viewport: u32, fraction: i32) -> int {
    if viewport >= total {
        0
    } else {
        let travel = total - viewport;
        let part = if fraction < 0 {
            0
        } else if fraction > UNIT {
            UNIT as int
        } else {
            fraction as int
        };
        (travel * part + UNIT / 2) / (UNIT as int)
    }
}

/// Where the window starts.
pub fn compute_viewport_origin(total: u32, viewport: u32, fraction: i32) -> (r: u32)
    ensures
        r == viewport_origin(total, viewport, fraction),
        viewport < total ==> r <= total - viewport,
{
    if viewport >= total {
        return 0;
    }
    let travel: u64 = (total - viewport) as u64;
    let part: u64 = if fraction < 0 {
        0
    } else if fraction > UNIT {
        1_000_000
    } else {
        fraction as u64
    };
    assert(travel * part <= 0xffff_ffff * 1_000_000) by (nonlinear_arith)
        requires
            travel <= 0xffff_ffff,
            part <= 1_000_000,
    ;
    assert(travel * part <= travel * 1_000_000) by (nonlinear_arith)
        requires
            part <= 1_000_000,
            travel >= 0,
    ;
    let raw: u64 = (travel * part + 500_000) / 1_000_000;
    raw as u32
}

/// The part of `width` pixels, and where it starts, that a crop to
/// `wanted` pixels from `origin` takes: at least one pixel, at most all,
/// and moved back where it would run over the edge.
pub open spec fn crop_span(width: u32, origin: u32, wanted: u32) -> (int, int) {
    let size = if wanted > width {
        width as int
    } else if wanted < 1 {
        1
    } else {
        wanted as int
    };
    let start = if origin > width - size {
        width - size
    } else {
        origin as int
    };
    (start, size)
}

/// The part of an image that starts at `(origin_x, origin_y)` and is
/// `width` by `height` pixels, kept inside the image. An image without
/// pixels, or whose buffer does not hold its pixels, gives an empty image.
pub fn crop_render_image(
    image: &RenderImage,
    origin_x: u32,
    origin_y: u32,
    width: u32,
    height: u32,
) -> (r: RenderImage)
    ensures
        ({
            let (left, columns) = crop_span(image.width, origin_x, width);
            let (top, rows) = crop_span(image.height, origin_y, height);
            if image.width == 0 || image.height == 0 || !holds_pixels(*image) {
                r.width == 0 && r.height == 0 && r.pixels@.len() == 0
            } else {
                &&& r.width == columns
                &&& r.height == rows
                &&& r.pixels@.len() == columns * rows * 4
                &&& forall|x: int, y: int, c: int|
                    0 <= x < columns && 0 <= y < rows && 0 <= c < 4 ==> r.pixels@[#[trigger] channel_index(
                        columns,
                        x,
                        y,
                        c,
                    )] == image.pixels@[channel_index(image.width as int, left + x, top + y, c)]
            }
        }),
{
    if image.width == 0 || image.height == 0 || !has_all_pixels(image) {
        return RenderImage { width: 0, height: 0, pixels: Vec::new() };
    }
    let columns: u32 = if width > image.width {
        image.width
    } else if width < 1 {
        1
    } else {
        width
    };
    let rows: u32 = if height > image.height {
        image.height
    } else if height < 1 {
        1
    } else {
        height
    };
    let left: u32 = if origin_x > image.width - columns {
        image.width - columns
    } else {
        origin_x
    };
    let top: u32 = if origin_y > image.height - rows {
        image.height - rows
    } else {
        origin_y
    };
    let ghost full_width = image.width as int;
    let ghost full_height = image.height as int;
    let mut pixels: Vec<u8> = Vec::new();
    let mut y: u32 = 0;
    while y < rows
        invariant
            y <= rows,
            0 < columns <= image.width,
            0 < rows <= image.height,
            left + columns <= image.width,
            top + rows <= image.height,
            full_width == image.width,
            full_height == image.height,
            image.pixels@.len() == full_width * full_height * 4,
            pixels@.len() == columns * y * 4,
            forall|x2: int, y2: int, c: int|
                0 <= x2 < columns && 0 <= y2 < y && 0 <= c < 4 ==> pixels@[#[trigger] channel_index(
                    columns as int,
                    x2,
                    y2,
                    c,
                )] == image.pixels@[channel_index(full_width, left + x2, top + y2, c)],
        decreases rows - y,
    {
        let mut x: u32 = 0;
        while x < columns
            invariant
                x <= columns,
                y < rows,
                0 < columns <= image.width,
                0 < rows <= image.height,
                left + columns <= image.width,
                top + rows <= image.height,
                full_width == image.width,
                full_height == image.height,
                image.pixels@.len() == full_width * full_height * 4,
                pixels@.len() == (columns * y + x) * 4,
                forall|x2: int, y2: int, c: int|
                    0 <= x2 < columns && 0 <= c < 4 && (0 <= y2 < y || (y2 == y && x2 < x))
                        ==> pixels@[#[trigger] channel_index(columns as int, x2, y2, c)]
                        == image.pixels@[channel_index(full_width, left + x2, top + y2, c)],
            decreases columns - x,
        {
            proof {
                assert(channel_index(columns as int, x as int, y as int, 0) == (columns * y + x)
                    * 4) by (nonlinear_arith);
            }
            let source: usize = pixel_offset(
                image.width,
                image.height,
                left + x,
                top + y,
                image.pixels.len(),
            );
            let ghost before = pixels@;
            pixels.push(image.pixels[source]);
            pixels.push(image.pixels[source + 1]);
            pixels.push(image.pixels[source + 2]);
            pixels.push(image.pixels[source + 3]);
            proof {
                let at = channel_index(columns as int, x as int, y as int, 0);
                assert forall|x2: int, y2: int, c: int|
                    0 <= x2 < columns && 0 <= c < 4 && (0 <= y2 < y || (y2 == y && x2 < x
                        + 1)) implies pixels@[#[trigger] channel_index(columns as int, x2, y2, c)]
                    == image.pixels@[channel_index(full_width, left + x2, top + y2, c)] by {
                    if y2 == y && x2 == x {
                        assert(channel_index(columns as int, x2, y2, c) == at + c);
                    } else {
                        lemma_channel_before(columns as int, x2, y2, c, x as int, y as int);
                        assert(pixels@[channel_index(columns as int, x2, y2, c)]
                            == before[channel_index(columns as int, x2, y2, c)]);
                    }
                }
                assert((columns * y + x) * 4 + 4 == (columns * y + (x + 1)) * 4);
            }
            x += 1;
        }
        proof {
            assert((columns * y + columns) * 4 == columns * (y + 1) * 4) by (nonlinear_arith);
        }
        y += 1;
    }
    RenderImage { width: columns, height: rows, pixels }
}

/// A pixel that comes before another in reading order has its channels
/// before the other's.
pub proof fn lemma_channel_before(width: int, x: int, y: int, c: int, x2: int, y2: int)
    requires
        0 <= x < width,
        0 <= x2 < width,
        0 <= c < 4,
        0 <= y,
        y < y2 || (y == y2 && x < x2),
    ensures
        0 <= channel_index(width, x, y, c) < channel_index(width, x2, y2, 0),
{
    assert(y * width >= 0) by (nonlinear_arith)
        requires
            0 <= y,
            0 <= width,
    ;
    if y < y2 {
        assert(y2 * width >= (y + 1) * width) by (nonlinear_arith)
            requires
                y + 1 <= y2,
                0 <= width,
        ;
        assert((y + 1) * width == y * width + width) by (nonlinear_arith);
    }
}

/// The inverse of a colour channel.
pub open spec fn inverted(value: u8) -> u8 {
    (255 - value) as u8
}

/// Inverts red, green and blue of every whole pixel; alpha stays, and
/// so do bytes behind the last whole pixel.
pub fn invert_pixels(pixels: &mut Vec<u8>)
    ensures
        final(pixels)@.len() == old(pixels)@.len(),
        forall|i: int|
            0 <= i < old(pixels)@.len() ==> final(pixels)@[i] == if i % 4 < 3 && i - i % 4 + 4
                <= old(pixels)@.len() {
                inverted(old(pixels)@[i])
            } else {
                old(pixels)@[i]
            },
{
    let len: usize = pixels.len();
    let mut at: usize = 0;
    while len - at >= 4
        invariant
            at <= len,
            at % 4 == 0,
            len == pixels@.len(),
            len == old(pixels)@.len(),
            forall|i: int|
                0 <= i < len ==> pixels@[i] == if i < at && i % 4 < 3 {
                    inverted(old(pixels)@[i])
                } else {
                    old(pixels)@[i]
                },
        decreases len - at,
    {
        let r: u8 = pixels[at];
        let g: u8 = pixels[at + 1];
        let b: u8 = pixels[at + 2];
        pixels.set(at, 255 - r);
        pixels.set(at + 1, 255 - g);
        pixels.set(at + 2, 255 - b);
        at += 4;
    }
}

/// A colour.
#[derive(Debug, Clone, Copy, PartialEq, Eq, Structural)]
pub struct Rgb {
    pub r: u8,
    pub g: u8,
    pub b: u8,
}

impl Rgb {
    /// The channel `c` of the colour.
    pub open spec fn channel(self, c: int) -> u8 {
        if c == 0 {
            self.r
        } else if c == 1 {
            self.g
        } else {
            self.b
        }
    }
}

/// A rectangle of pixels: `x0` and `y0` belong to it, `x1` and `y1` do not.
#[derive(Debug, Clone, Copy, PartialEq, Eq, Structural)]
pub struct PixelRect {
    pub x0: u32,
    pub y0: u32,
    pub x1: u32,
    pub y1: u32,
}

/// The part of the page that is shown after a crop, in pixels.
#[derive(Debug, Clone, Copy, PartialEq, Eq, Structural)]
pub struct CropRegion {
    pub offset_x: u32,
    pub offset_y: u32,
    pub width: u32,
    pub height: u32,
}

/// What is needed to place page coordinates on the image shown: the
/// size of the whole page in pixels and the crop, if any.
#[derive(Debug, Clone, Copy, PartialEq, Eq, Structural)]
pub struct HighlightGeometry {
    pub base_width: u32,
    pub base_height: u32,
    pub crop: Option<CropRegion>,
}

impl HighlightGeometry {
    /// The geometry of a page of the given size that is shown whole.
    pub fn new(base_width: u32, base_height: u32) -> (r: Self)
        ensures
            r == (HighlightGeometry { base_width, base_height, crop: None }),
    {
        HighlightGeometry { base_width, base_height, crop: None }
    }

    /// Sets the size of the whole page, at least one pixel each way.
    pub fn set_base(&mut self, width: u32, height: u32)
        ensures
            *final(self) == (HighlightGeometry {
                base_width: if width < 1 {
                    1
                } else {
                    width
                },
                base_height: if height < 1 {
                    1
                } else {
                    height
                },
                ..*old(self)
            }),
    {
        self.base_width = if width < 1 {
            1
        } else {
            width
        };
        self.base_height = if height < 1 {
            1
        } else {
            height
        };
    }

    /// Notes the part of the page that is shown.
    pub fn set_crop(&mut self, offset_x: u32, offset_y: u32, width: u32, height: u32)
        ensures
            *final(self) == (HighlightGeometry {
                crop: Some(CropRegion { offset_x, offset_y, width, height }),
                ..*old(self)
            }),
    {
        self.crop = Some(CropRegion { offset_x, offset_y, width, height });
    }

    /// Notes that the page is shown whole.
    pub fn clear_crop(&mut self)
        ensures
            *final(self) == (HighlightGeometry { crop: None, ..*old(self) }),
    {
        self.crop = None;
    }
}

/// The pixel that a page coordinate falls on in `size` pixels, rounded
/// down or up, and kept between 0 and `size`.
pub open spec fn pixel_of(coordinate: i32, size: u32, up: bool) -> int {
    if coordinate <= 0 {
        0
    } else {
        let exact = if up {
            (coordinate * size + UNIT - 1) / (UNIT as int)
        } else {
            (coordinate * size) / (UNIT as int)
        };
        if exact > size {
            size as int
        } else {
            exact
        }
    }
}

/// A pixel of the page as a pixel of the cropped image, kept between 0
/// and the size of the crop.
pub open spec fn into_crop(pixel: int, offset: u32, size: u32) -> int {
    if pixel - offset < 0 {
        0
    } else if pixel - offset > size {
        size as int
    } else {
        pixel - offset
    }
}

/// The edges of a rectangle of the page on the image shown: left, top,
/// right, bottom.
pub open spec fn pixel_edges(rect: NormalizedRect, geom: HighlightGeometry) -> (int, int, int, int) {
    let x0 = pixel_of(rect.left, geom.base_width, false);
    let x1 = pixel_of(rect.right, geom.base_width, true);
    let y0 = pixel_of(rect.top, geom.base_height, false);
    let y1 = pixel_of(rect.bottom, geom.base_height, true);
    match geom.crop {
        Some(crop) => (
            into_crop(x0, crop.offset_x, crop.width),
            into_crop(y0, crop.offset_y, crop.height),
            into_crop(x1, crop.offset_x, crop.width),
            into_crop(y1, crop.offset_y, crop.height),
        ),
        None => (x0, y0, x1, y1),
    }
}

/// The pixels of the image shown that a rectangle of the page covers;
/// none where the page has no size or the rectangle covers no pixel.
pub open spec fn pixel_rect_of(rect: NormalizedRect, geom: HighlightGeometry) -> Option<PixelRect> {
    let (x0, y0, x1, y1) = pixel_edges(rect, geom);
    if geom.base_width == 0 || geom.base_height == 0 || x1 <= x0 || y1 <= y0 {
        None
    } else {
        Some(PixelRect { x0: x0 as u32, y0: y0 as u32, x1: x1 as u32, y1: y1 as u32 })
    }
}

/// The pixel that a page coordinate falls on.
fn to_pixel(coordinate: i32, size: u32, up: bool) -> (r: u32)
    ensures
        r == pixel_of(coordinate, size, up),
        r <= size,
{
    if coordinate <= 0 {
        return 0;
    }
    let wide: u64 = coordinate as u64;
    let span: u64 = size as u64;
    assert(wide * span <= 0x7fff_ffff * 0xffff_ffff) by (nonlinear_arith)
        requires
            wide <= 0x7fff_ffff,
            span <= 0xffff_ffff,
    ;
    let exact: u64 = if up {
        (wide * span + 999_999) / 1_000_000
    } else {
        (wide * span) / 1_000_000
    };
    if exact > span {
        size
    } else {
        exact as u32
    }
}

/// A pixel of the page as a pixel of the cropped image.
fn to_crop(pixel: u32, offset: u32, size: u32) -> (r: u32)
    ensures
        r == into_crop(pixel as int, offset, size),
        r <= size,
{
    if pixel < offset {
        0
    } else if pixel - offset > size {
        size
    } else {
        pixel - offset
    }
}

/// The pixels of the image shown that a rectangle of the page covers;
/// none where the page has no size or the rectangle covers no pixel.
pub fn normalized_to_pixel_rect(rect: NormalizedRect, geom: &HighlightGeometry) -> (r: Option<
    PixelRect,
>)
    ensures
        r == pixel_rect_of(rect, *geom),
{
    if geom.base_width == 0 || geom.base_height == 0 {
        return None;
    }
    let mut x0: u32 = to_pixel(rect.left, geom.base_width, false);
    let mut x1: u32 = to_pixel(rect.right, geom.base_width, true);
    let mut y0: u32 = to_pixel(rect.top, geom.base_height, false);
    let mut y1: u32 = to_pixel(rect.bottom, geom.base_height, true);
    match geom.crop {
        Some(crop) => {
            x0 = to_crop(x0, crop.offset_x, crop.width);
            x1 = to_crop(x1, crop.offset_x, crop.width);
            y0 = to_crop(y0, crop.offset_y, crop.height);
            y1 = to_crop(y1, crop.offset_y, crop.height);
        },
        None => {},
    }
    if x1 <= x0 || y1 <= y0 {
        return None;
    }
    Some(PixelRect { x0, y0, x1, y1 })
}

/// How a rectangle is painted.
#[derive(Debug, Clone, Copy, PartialEq, Eq, Structural)]
pub enum Paint {
    /// Every pixel is blended with a colour, of which it takes
    /// `alpha` thousandths.
    Fill { color: Rgb, alpha: u32 },
    /// The pixels of the frame, two pixels wide, take a colour.
    Stroke { color: Rgb },
}

/// How wide the frame of a stroked rectangle is.
pub const STROKE_WIDTH: u32 = 2;

/// The rectangle that is painted in an image of `width` by `height`
/// pixels: `rect` without what lies outside the image. A stroked
/// rectangle that starts outside starts at the last pixel.
pub open spec fn painted_box(paint: Paint, rect: PixelRect, width: u32, height: u32) -> PixelRect {
    let x1 = if rect.x1 > width {
        width
    } else {
        rect.x1
    };
    let y1 = if rect.y1 > height {
        height
    } else {
        rect.y1
    };
    match paint {
        Paint::Fill { .. } => PixelRect {
            x0: if rect.x0 > x1 {
                x1
            } else {
                rect.x0
            },
            y0: if rect.y0 > y1 {
                y1
            } else {
                rect.y0
            },
            x1,
            y1,
        },
        Paint::Stroke { .. } => PixelRect {
            x0: if rect.x0 > width - 1 {
                (width - 1) as u32
            } else {
                rect.x0
            },
            y0: if rect.y0 > height - 1 {
                (height - 1) as u32
            } else {
                rect.y0
            },
            x1,
            y1,
        },
    }
}

/// Whether the pixel `(x, y)` of the box is painted: every pixel of a
/// fill, the pixels within the frame's width of an edge of a stroke.
pub open spec fn is_painted(paint: Paint, area: PixelRect, x: int, y: int) -> bool {
    &&& area.x0 <= x < area.x1
    &&& area.y0 <= y < area.y1
    &&& match paint {
        Paint::Fill { .. } => true,
        Paint::Stroke { .. } => x < area.x0 + STROKE_WIDTH || x >= area.x1 - STROKE_WIDTH || y
            < area.y0 + STROKE_WIDTH || y >= area.y1 - STROKE_WIDTH,
    }
}

/// A channel blended with a colour's: `alpha` thousandths of the
/// colour, the rest of what was there, rounded to the nearest value.
pub open spec fn blended(value: u8, color: u8, alpha: u32) -> u8 {
    let part = if alpha > 1000 {
        1000
    } else {
        alpha as int
    };
    ((value * (1000 - part) + color * part + 500) / 1000) as u8
}

/// The value of a colour channel of a painted pixel.
pub open spec fn painted_value(paint: Paint, c: int, value: u8) -> u8 {
    match paint {
        Paint::Fill { color, alpha } => blended(value, color.channel(c), alpha),
        Paint::Stroke { color } => color.channel(c),
    }
}

/// Blends one channel.
fn blend(value: u8, color: u8, alpha: u32) -> (r: u8)
    ensures
        r == blended(value, color, alpha),
{
    let part: u32 = if alpha > 1000 {
        1000
    } else {
        alpha
    };
    let kept: u32 = value as u32;
    let added: u32 = color as u32;
    assert(kept * (1000 - part) + added * part <= 255 * 1000 && kept * (1000 - part) >= 0 && added
        * part >= 0 && kept * (1000 - part) <= 255 * 1000 && added * part <= 255 * 1000)
        by (nonlinear_arith)
        requires
            0 <= kept <= 255,
            0 <= added <= 255,
            0 <= part <= 1000,
    ;
    let mixed: u32 = (kept * (1000 - part) + added * part + 500) / 1000;
    mixed as u8
}

/// The pixel and channel that byte `i` of a buffer belongs to: column,
/// row and channel.
pub open spec fn channel_place(width: int, i: int) -> (int, int, int) {
    ((i / 4) % width, (i / 4) / width, i % 4)
}

/// Every byte of an image's buffer is a channel of one of its pixels.
pub proof fn lemma_channel_place(width: int, height: int, i: int)
    requires
        0 < width,
        0 < height,
        0 <= i < width * height * 4,
    ensures
        ({
            let (x, y, c) = channel_place(width, i);
            &&& 0 <= x < width
            &&& 0 <= y < height
            &&& 0 <= c < 4
            &&& channel_index(width, x, y, c) == i
        }),
{
    let p = i / 4;
    vstd::arithmetic::div_mod::lemma_fundamental_div_mod(p, width);
    vstd::arithmetic::div_mod::lemma_mod_bound(p, width);
    vstd::arithmetic::div_mod::lemma_div_pos_is_pos(p, width);
    let y = p / width;
    let x = p % width;
    assert(width * y == y * width) by (nonlinear_arith);
    if y >= height {
        assert(width * y >= width * height) by (nonlinear_arith)
            requires
                y >= height,
                width > 0,
        ;
    }
}

/// What painting `rect` makes of the pixels `before` of an image of
/// `width` by `height` pixels: the colour channels of the painted pixels
/// take their painted values, and every other byte stays. Nothing is
/// painted into an image without pixels or whose buffer does not hold
/// its pixels, and nothing where the rectangle is empty.
pub open spec fn painted(
    before: Seq<u8>,
    width: u32,
    height: u32,
    paint: Paint,
    rect: PixelRect,
) -> Seq<u8> {
    if width == 0 || height == 0 || rect.x0 >= rect.x1 || rect.y0 >= rect.y1 || before.len()
        != width * height * 4 {
        before
    } else {
        Seq::new(
            before.len(),
            |i: int|
                {
                    let (x, y, c) = channel_place(width as int, i);
                    if c < 3 && is_painted(paint, painted_box(paint, rect, width, height), x, y) {
                        painted_value(paint, c, before[i])
                    } else {
                        before[i]
                    }
                },
        )
    }
}

/// What painting the `steps`, one after another, makes of the pixels
/// `before`.
pub open spec fn painted_all(
    before: Seq<u8>,
    width: u32,
    height: u32,
    steps: Seq<(Paint, PixelRect)>,
) -> Seq<u8>
    decreases steps.len(),
{
    if steps.len() == 0 {
        before
    } else {
        painted(
            painted_all(before, width, height, steps.drop_last()),
            width,
            height,
            steps.last().0,
            steps.last().1,
        )
    }
}

/// What is painted for the first `n` of `rects`: for each that covers
/// pixels its frame, and with `fill` its fill before that.
pub open spec fn steps_for(
    rects: Seq<NormalizedRect>,
    geom: HighlightGeometry,
    color: Rgb,
    fill: bool,
    n: int,
) -> Seq<(Paint, PixelRect)>
    decreases n,
{
    if n <= 0 {
        Seq::empty()
    } else {
        let rest = steps_for(rects, geom, color, fill, n - 1);
        match pixel_rect_of(rects[n - 1], geom) {
            Some(area) => if fill {
                rest.push((Paint::Fill { color, alpha: CURRENT_ALPHA }, area)).push(
                    (Paint::Stroke { color }, area),
                )
            } else {
                rest.push((Paint::Stroke { color }, area))
            },
            None => rest,
        }
    }
}

/// What is painted for highlights: a frame round every other match,
/// then fill and frame for the current one.
pub open spec fn highlight_steps(highlights: Highlights, geom: HighlightGeometry) -> Seq<
    (Paint, PixelRect),
> {
    steps_for(
        highlights.others@,
        geom,
        Rgb { r: 255, g: 200, b: 0 },
        false,
        highlights.others@.len() as int,
    ) + steps_for(
        highlights.current@,
        geom,
        Rgb { r: 255, g: 235, b: 0 },
        true,
        highlights.current@.len() as int,
    )
}

/// Painting one more step paints all steps with that step behind them.
pub proof fn lemma_painted_one_more(
    before: Seq<u8>,
    width: u32,
    height: u32,
    steps: Seq<(Paint, PixelRect)>,
    paint: Paint,
    rect: PixelRect,
)
    ensures
        painted_all(before, width, height, steps.push((paint, rect))) == painted(
            painted_all(before, width, height, steps),
            width,
            height,
            paint,
            rect,
        ),
{
    assert(steps.push((paint, rect)).drop_last() =~= steps);
}

/// Painting two runs of steps, one after the other, paints them all.
pub proof fn lemma_painted_both(
    before: Seq<u8>,
    width: u32,
    height: u32,
    first: Seq<(Paint, PixelRect)>,
    second: Seq<(Paint, PixelRect)>,
)
    ensures
        painted_all(before, width, height, first + second) == painted_all(
            painted_all(before, width, height, first),
            width,
            height,
            second,
        ),
    decreases second.len(),
{
    if second.len() == 0 {
        assert(first + second =~= first);
    } else {
        lemma_painted_both(before, width, height, first, second.drop_last());
        assert((first + second).drop_last() =~= first + second.drop_last());
        assert((first + second).last() == second.last());
    }
}

/// Paints a rectangle into an image.
pub fn paint_rect(image: &mut RenderImage, rect: PixelRect, paint: Paint)
    ensures
        final(image).width == old(image).width,
        final(image).height == old(image).height,
        final(image).pixels@.len() == old(image).pixels@.len(),
        final(image).pixels@ == painted(
            old(image).pixels@,
            old(image).width,
            old(image).height,
            paint,
            rect,
        ),
{
    if image.width == 0 || image.height == 0 || rect.x0 >= rect.x1 || rect.y0 >= rect.y1
        || !has_all_pixels(image) {
        return ;
    }
    let width: u32 = image.width;
    let height: u32 = image.height;
    let x1: u32 = if rect.x1 > width {
        width
    } else {
        rect.x1
    };
    let y1: u32 = if rect.y1 > height {
        height
    } else {
        rect.y1
    };
    let (x0, y0): (u32, u32) = match paint {
        Paint::Fill { .. } => (
            if rect.x0 > x1 {
                x1
            } else {
                rect.x0
            },
            if rect.y0 > y1 {
                y1
            } else {
                rect.y0
            },
        ),
        Paint::Stroke { .. } => (
            if rect.x0 > width - 1 {
                width - 1
            } else {
                rect.x0
            },
            if rect.y0 > height - 1 {
                height - 1
            } else {
                rect.y0
            },
        ),
    };
    let ghost area = PixelRect { x0, y0, x1, y1 };
    let ghost before = image.pixels@;
    let mut y: u32 = y0;
    while y < y1
        invariant
            y0 <= y1 <= height,
            x0 <= x1 <= width,
            y0 <= y,
            y <= y1 || y == y0,
            width == image.width,
            height == image.height,
            width == old(image).width,
            height == old(image).height,
            area == (PixelRect { x0, y0, x1, y1 }),
            before == old(image).pixels@,
            before.len() == width * height * 4,
            image.pixels@.len() == before.len(),
            forall|x2: int, y2: int, c: int|
                0 <= x2 < width && 0 <= y2 < height && 0 <= c < 4 ==> image.pixels@[#[trigger] channel_index(
                    width as int,
                    x2,
                    y2,
                    c,
                )] == if c < 3 && y2 < y && is_painted(paint, area, x2, y2) {
                    painted_value(paint, c, before[channel_index(width as int, x2, y2, c)])
                } else {
                    before[channel_index(width as int, x2, y2, c)]
                },
        decreases y1 - y,
    {
        let mut x: u32 = x0;
        while x < x1
            invariant
                y0 <= y < y1 <= height,
                x0 <= x1 <= width,
                x0 <= x,
                x <= x1 || x == x0,
                width == image.width,
                height == image.height,
                width == old(image).width,
                height == old(image).height,
                area == (PixelRect { x0, y0, x1, y1 }),
                before.len() == width * height * 4,
                image.pixels@.len() == before.len(),
                forall|x2: int, y2: int, c: int|
                    0 <= x2 < width && 0 <= y2 < height && 0 <= c < 4 ==> image.pixels@[#[trigger] channel_index(
                        width as int,
                        x2,
                        y2,
                        c,
                    )] == if c < 3 && (y2 < y || (y2 == y && x2 < x)) && is_painted(
                        paint,
                        area,
                        x2,
                        y2,
                    ) {
                        painted_value(paint, c, before[channel_index(width as int, x2, y2, c)])
                    } else {
                        before[channel_index(width as int, x2, y2, c)]
                    },
            decreases x1 - x,
        {
            let on_frame: bool = match paint {
                Paint::Fill { .. } => true,
                Paint::Stroke { .. } => x - x0 < STROKE_WIDTH || x1 - x <= STROKE_WIDTH || y - y0
                    < STROKE_WIDTH || y1 - y <= STROKE_WIDTH,
            };
            assert(on_frame == is_painted(paint, area, x as int, y as int));
            if on_frame {
                let at: usize = pixel_offset(width, height, x, y, image.pixels.len());
                let ghost mid = image.pixels@;
                let (r, g, b): (u8, u8, u8) = match paint {
                    Paint::Fill { color, alpha } => (
                        blend(image.pixels[at], color.r, alpha),
                        blend(image.pixels[at + 1], color.g, alpha),
                        blend(image.pixels[at + 2], color.b, alpha),
                    ),
                    Paint::Stroke { color } => (color.r, color.g, color.b),
                };
                image.pixels.set(at, r);
                image.pixels.set(at + 1, g);
                image.pixels.set(at + 2, b);
                proof {
                    let here = channel_index(width as int, x as int, y as int, 0);
                    assert(here == at);
                    assert forall|x2: int, y2: int, c: int|
                        0 <= x2 < width && 0 <= y2 < height && 0 <= c
                            < 4 implies image.pixels@[#[trigger] channel_index(
                        width as int,
                        x2,
                        y2,
                        c,
                    )] == if c < 3 && (y2 < y || (y2 == y && x2 < x + 1)) && is_painted(
                        paint,
                        area,
                        x2,
                        y2,
                    ) {
                        painted_value(paint, c, before[channel_index(width as int, x2, y2, c)])
                    } else {
                        before[channel_index(width as int, x2, y2, c)]
                    } by {
                        let there = channel_index(width as int, x2, y2, c);
                        lemma_channel_in_buffer(width as int, height as int, x2, y2, c);
                        if x2 == x && y2 == y {
                            assert(there == here + c);
                            assert(mid[there] == before[there]);
                        } else {
                            if there == here || there == here + 1 || there == here + 2 {
                                lemma_channel_unique(
                                    width as int,
                                    x2,
                                    y2,
                                    c,
                                    x as int,
                                    y as int,
                                    there - here,
                                );
                            }
                            assert(image.pixels@[there] == mid[there]);
                        }
                    }
                }
            }
            x += 1;
        }
        y += 1;
    }
    proof {
        let want = painted(before, width, height, paint, rect);
        assert(area == painted_box(paint, rect, width, height));
        assert forall|i: int| 0 <= i < before.len() implies image.pixels@[i] == want[i] by {
            lemma_channel_place(width as int, height as int, i);
            let (x2, y2, c) = channel_place(width as int, i);
            assert(channel_index(width as int, x2, y2, c) == i);
            if is_painted(paint, area, x2, y2) {
                assert(y2 < y);
            }
        }
        assert(image.pixels@ =~= want);
    }
}

/// The colour of the frame round a match that is not the current one.
pub fn other_color() -> (r: Rgb)
    ensures
        r == (Rgb { r: 255, g: 200, b: 0 }),
{
    Rgb { r: 255, g: 200, b: 0 }
}

/// The colour of the current match.
pub fn current_color() -> (r: Rgb)
    ensures
        r == (Rgb { r: 255, g: 235, b: 0 }),
{
    Rgb { r: 255, g: 235, b: 0 }
}

/// How much of the colour the fill of the current match takes, in
/// thousandths.
pub const CURRENT_ALPHA: u32 = 350;

/// Frames the rectangles of `rects` that cover pixels, and with `fill`
/// fills them first.
fn paint_rects(
    image: &mut RenderImage,
    rects: &Vec<NormalizedRect>,
    geom: &HighlightGeometry,
    color: Rgb,
    fill: bool,
)
    ensures
        final(image).width == old(image).width,
        final(image).height == old(image).height,
        final(image).pixels@ == painted_all(
            old(image).pixels@,
            old(image).width,
            old(image).height,
            steps_for(rects@, *geom, color, fill, rects@.len() as int),
        ),
{
    let ghost before = image.pixels@;
    let ghost width = image.width;
    let ghost height = image.height;
    let mut i: usize = 0;
    while i < rects.len()
        invariant
            i <= rects.len(),
            image.width == width,
            image.height == height,
            width == old(image).width,
            height == old(image).height,
            before == old(image).pixels@,
            image.pixels@ == painted_all(
                before,
                width,
                height,
                steps_for(rects@, *geom, color, fill, i as int),
            ),
        decreases rects.len() - i,
    {
        let ghost done = steps_for(rects@, *geom, color, fill, i as int);
        match normalized_to_pixel_rect(rects[i], geom) {
            Some(area) => {
                if fill {
                    paint_rect(image, area, Paint::Fill { color, alpha: CURRENT_ALPHA });
                    paint_rect(image, area, Paint::Stroke { color });
                    proof {
                        lemma_painted_one_more(
                            before,
                            width,
                            height,
                            done,
                            Paint::Fill { color, alpha: CURRENT_ALPHA },
                            area,
                        );
                        lemma_painted_one_more(
                            before,
                            width,
                            height,
                            done.push((Paint::Fill { color, alpha: CURRENT_ALPHA }, area)),
                            Paint::Stroke { color },
                            area,
                        );
                    }
                } else {
                    paint_rect(image, area, Paint::Stroke { color });
                    proof {
                        lemma_painted_one_more(
                            before,
                            width,
                            height,
                            done,
                            Paint::Stroke { color },
                            area,
                        );
                    }
                }
            },
            None => {},
        }
        i += 1;
    }
}

/// Paints highlights into an image: a frame round every other match,
/// then fill and frame for the current one. Nothing is painted into an
/// image without pixels.
pub fn apply_highlights(image: &mut RenderImage, highlights: &Highlights, geom: &HighlightGeometry)
    ensures
        final(image).width == old(image).width,
        final(image).height == old(image).height,
        final(image).pixels@ == if old(image).width == 0 || old(image).height == 0 {
            old(image).pixels@
        } else {
            painted_all(
                old(image).pixels@,
                old(image).width,
                old(image).height,
                highlight_steps(*highlights, *geom),
            )
        },
{
    if image.width == 0 || image.height == 0 {
        return ;
    }
    if highlights.is_empty() {
        assert(highlight_steps(*highlights, *geom) =~= Seq::empty());
        return ;
    }
    let ghost before = image.pixels@;
    paint_rects(image, &highlights.others, geom, other_color(), false);
    paint_rects(image, &highlights.current, geom, current_color(), true);
    proof {
        lemma_painted_both(
            before,
            image.width,
            image.height,
            steps_for(
                highlights.others@,
                *geom,
                Rgb { r: 255, g: 200, b: 0 },
                false,
                highlights.others@.len() as int,
            ),
            steps_for(
                highlights.current@,
                *geom,
                Rgb { r: 255, g: 235, b: 0 },
                true,
                highlights.current@.len() as int,
            ),
        );
    }
}

} // verus!
