//! Pixels: cropping, inverting and painting highlights.

use termpdf::cache::RenderImage;
use termpdf::geometry::{Highlights, NormalizedRect};
use termpdf::imaging::{
    apply_highlights, compute_viewport_origin, crop_render_image, current_color, has_all_pixels,
    invert_pixels, normalized_to_pixel_rect, other_color, paint_rect, CropRegion,
    HighlightGeometry, Paint, PixelRect, Rgb, CURRENT_ALPHA, STROKE_WIDTH,
};

/// An image whose pixel at `(x, y)` is `[x, y, x + y, 255]`.
fn gradient(width: u32, height: u32) -> RenderImage {
    let mut pixels = Vec::new();
    for y in 0..height {
        for x in 0..width {
            pixels.extend_from_slice(&[x as u8, y as u8, (x + y) as u8, 255]);
        }
    }
    RenderImage { width, height, pixels }
}

fn grey(width: u32, height: u32, value: u8) -> RenderImage {
    RenderImage { width, height, pixels: vec![value; (width * height * 4) as usize] }
}

fn pixel(image: &RenderImage, x: u32, y: u32) -> [u8; 4] {
    let at = ((y * image.width + x) * 4) as usize;
    [image.pixels[at], image.pixels[at + 1], image.pixels[at + 2], image.pixels[at + 3]]
}

#[test]
fn the_viewport_origin_is_a_fraction_of_the_way() {
    assert_eq!(compute_viewport_origin(100, 40, 0), 0);
    assert_eq!(compute_viewport_origin(100, 40, 500_000), 30);
    assert_eq!(compute_viewport_origin(100, 40, 1_000_000), 60);
    assert_eq!(compute_viewport_origin(100, 40, 2_000_000), 60);
    assert_eq!(compute_viewport_origin(100, 40, -1), 0);
    assert_eq!(compute_viewport_origin(10, 7, 500_000), 2);
    assert_eq!(compute_viewport_origin(10, 7, 499_999), 1);
    assert_eq!(compute_viewport_origin(10, 7, 166_666), 0);
    assert_eq!(compute_viewport_origin(10, 7, 166_667), 1);
    assert_eq!(compute_viewport_origin(40, 40, 500_000), 0);
    assert_eq!(compute_viewport_origin(40, 100, 500_000), 0);
    assert_eq!(compute_viewport_origin(0, 0, 500_000), 0);
    assert_eq!(compute_viewport_origin(u32::MAX, 0, 1_000_000), u32::MAX);
}

#[test]
fn cropping_takes_the_rows_of_the_window() {
    let image = gradient(4, 3);
    let window = crop_render_image(&image, 1, 1, 2, 2);
    assert_eq!(window.width, 2);
    assert_eq!(window.height, 2);
    assert_eq!(
        window.pixels,
        vec![1, 1, 2, 255, 2, 1, 3, 255, 1, 2, 3, 255, 2, 2, 4, 255]
    );
    let whole = crop_render_image(&image, 0, 0, 4, 3);
    assert_eq!(whole.pixels, image.pixels);
}

#[test]
fn cropping_stays_inside_the_image() {
    let image = gradient(4, 3);
    let moved = crop_render_image(&image, 3, 2, 2, 2);
    assert_eq!((moved.width, moved.height), (2, 2));
    assert_eq!(pixel(&moved, 0, 0), [2, 1, 3, 255]);
    assert_eq!(pixel(&moved, 1, 1), [3, 2, 5, 255]);
    let cut = crop_render_image(&image, 0, 0, 9, 9);
    assert_eq!((cut.width, cut.height), (4, 3));
    let least = crop_render_image(&image, 9, 9, 0, 0);
    assert_eq!((least.width, least.height), (1, 1));
    assert_eq!(least.pixels, vec![3, 2, 5, 255]);
}

#[test]
fn cropping_an_image_without_its_pixels_gives_nothing() {
    let none = crop_render_image(&gradient(0, 3), 0, 0, 1, 1);
    assert_eq!((none.width, none.height), (0, 0));
    assert!(none.pixels.is_empty());
    let short = RenderImage { width: 2, height: 2, pixels: vec![0; 15] };
    assert!(!has_all_pixels(&short));
    assert!(has_all_pixels(&gradient(2, 2)));
    assert!(has_all_pixels(&gradient(0, 0)));
    let none = crop_render_image(&short, 0, 0, 1, 1);
    assert_eq!((none.width, none.height), (0, 0));
    assert!(none.pixels.is_empty());
}

#[test]
fn inverting_leaves_alpha_and_loose_bytes() {
    let mut pixels = vec![10, 20, 30, 40, 0, 255, 128, 7, 1, 2];
    invert_pixels(&mut pixels);
    assert_eq!(pixels, vec![245, 235, 225, 40, 255, 0, 127, 7, 1, 2]);
    let mut nothing: Vec<u8> = Vec::new();
    invert_pixels(&mut nothing);
    assert!(nothing.is_empty());
    let mut few = vec![1, 2, 3];
    invert_pixels(&mut few);
    assert_eq!(few, vec![1, 2, 3]);
}

#[test]
fn page_rects_fall_on_pixels() {
    let mut geom = HighlightGeometry::new(100, 50);
    let rect = NormalizedRect { left: 100_000, top: 100_000, right: 300_000, bottom: 200_000 };
    assert_eq!(
        normalized_to_pixel_rect(rect, &geom),
        Some(PixelRect { x0: 10, y0: 5, x1: 30, y1: 10 })
    );
    let thirds = NormalizedRect { left: 333_333, top: 0, right: 666_667, bottom: 1 };
    geom.set_base(10, 10);
    assert_eq!(
        normalized_to_pixel_rect(thirds, &geom),
        Some(PixelRect { x0: 3, y0: 0, x1: 7, y1: 1 })
    );
    let outside = NormalizedRect { left: -500_000, top: -1, right: 2_000_000, bottom: 3_000_000 };
    assert_eq!(
        normalized_to_pixel_rect(outside, &geom),
        Some(PixelRect { x0: 0, y0: 0, x1: 10, y1: 10 })
    );
    let empty = NormalizedRect { left: 500_000, top: 0, right: 500_000, bottom: 1_000_000 };
    assert_eq!(normalized_to_pixel_rect(empty, &geom), None);
    let before = NormalizedRect { left: -9, top: -9, right: 0, bottom: 0 };
    assert_eq!(normalized_to_pixel_rect(before, &geom), None);
    assert_eq!(normalized_to_pixel_rect(rect, &HighlightGeometry::new(0, 10)), None);
    assert_eq!(normalized_to_pixel_rect(rect, &HighlightGeometry::new(10, 0)), None);
    geom.set_base(0, 0);
    assert_eq!(geom, HighlightGeometry { base_width: 1, base_height: 1, crop: None });
}

#[test]
fn a_crop_moves_page_rects() {
    let mut geom = HighlightGeometry::new(100, 50);
    geom.set_crop(20, 4, 50, 25);
    assert_eq!(
        geom.crop,
        Some(CropRegion { offset_x: 20, offset_y: 4, width: 50, height: 25 })
    );
    let rect = NormalizedRect { left: 100_000, top: 100_000, right: 300_000, bottom: 200_000 };
    assert_eq!(
        normalized_to_pixel_rect(rect, &geom),
        Some(PixelRect { x0: 0, y0: 1, x1: 10, y1: 6 })
    );
    let right = NormalizedRect { left: 600_000, top: 0, right: 900_000, bottom: 1_000_000 };
    assert_eq!(
        normalized_to_pixel_rect(right, &geom),
        Some(PixelRect { x0: 40, y0: 0, x1: 50, y1: 25 })
    );
    let gone = NormalizedRect { left: 0, top: 0, right: 200_000, bottom: 1_000_000 };
    assert_eq!(normalized_to_pixel_rect(gone, &geom), None);
    geom.clear_crop();
    assert_eq!(
        normalized_to_pixel_rect(gone, &geom),
        Some(PixelRect { x0: 0, y0: 0, x1: 20, y1: 50 })
    );
}

#[test]
fn a_fill_blends_every_pixel_of_the_rect() {
    let mut image = grey(4, 4, 100);
    let color = Rgb { r: 255, g: 0, b: 100 };
    paint_rect(&mut image, PixelRect { x0: 1, y0: 2, x1: 3, y1: 9 }, Paint::Fill { color, alpha: 350 });
    for y in 0..4 {
        for x in 0..4 {
            let want = if (1..3).contains(&x) && y >= 2 { [154, 65, 100, 100] } else { [100; 4] };
            assert_eq!(pixel(&image, x, y), want, "pixel {} {}", x, y);
        }
    }
    let mut full = grey(1, 1, 10);
    paint_rect(&mut full, PixelRect { x0: 0, y0: 0, x1: 1, y1: 1 }, Paint::Fill { color, alpha: 5000 });
    assert_eq!(full.pixels, vec![255, 0, 100, 10]);
    paint_rect(&mut full, PixelRect { x0: 0, y0: 0, x1: 1, y1: 1 }, Paint::Fill { color, alpha: 0 });
    assert_eq!(full.pixels, vec![255, 0, 100, 10]);
    let half = Paint::Fill { color: Rgb { r: 0, g: 1, b: 255 }, alpha: 500 };
    let mut odd = grey(1, 1, 0);
    odd.pixels = vec![1, 0, 254, 9];
    paint_rect(&mut odd, PixelRect { x0: 0, y0: 0, x1: 5, y1: 5 }, half);
    assert_eq!(odd.pixels, vec![1, 1, 255, 9]);
}

#[test]
fn a_stroke_paints_a_frame_two_pixels_wide() {
    assert_eq!(STROKE_WIDTH, 2);
    let mut image = grey(8, 7, 0);
    let color = Rgb { r: 9, g: 8, b: 7 };
    paint_rect(&mut image, PixelRect { x0: 1, y0: 0, x1: 8, y1: 7 }, Paint::Stroke { color });
    for y in 0..7 {
        for x in 0..8 {
            let inside = (3..6).contains(&x) && (2..5).contains(&y);
            let want = if x == 0 || inside { [0, 0, 0, 0] } else { [9, 8, 7, 0] };
            assert_eq!(pixel(&image, x, y), want, "pixel {} {}", x, y);
        }
    }
    let mut small = grey(3, 3, 0);
    paint_rect(&mut small, PixelRect { x0: 0, y0: 0, x1: 3, y1: 3 }, Paint::Stroke { color });
    assert!(small.pixels.chunks(4).all(|p| p == [9, 8, 7, 0]));
    let mut edge = grey(3, 3, 0);
    paint_rect(&mut edge, PixelRect { x0: 7, y0: 8, x1: 9, y1: 9 }, Paint::Stroke { color });
    assert_eq!(pixel(&edge, 2, 2), [9, 8, 7, 0]);
    assert_eq!(pixel(&edge, 1, 2), [0, 0, 0, 0]);
    let mut filled = grey(3, 3, 0);
    paint_rect(&mut filled, PixelRect { x0: 7, y0: 8, x1: 9, y1: 9 }, Paint::Fill { color, alpha: 1000 });
    assert!(filled.pixels.iter().all(|&b| b == 0));
}

#[test]
fn nothing_is_painted_without_pixels_or_without_a_rect() {
    let color = Rgb { r: 1, g: 2, b: 3 };
    let mut short = RenderImage { width: 2, height: 2, pixels: vec![0; 15] };
    paint_rect(&mut short, PixelRect { x0: 0, y0: 0, x1: 2, y1: 2 }, Paint::Stroke { color });
    assert!(short.pixels.iter().all(|&b| b == 0));
    let mut image = grey(2, 2, 0);
    paint_rect(&mut image, PixelRect { x0: 1, y0: 0, x1: 1, y1: 2 }, Paint::Stroke { color });
    paint_rect(&mut image, PixelRect { x0: 0, y0: 2, x1: 2, y1: 1 }, Paint::Stroke { color });
    assert!(image.pixels.iter().all(|&b| b == 0));
    let mut none = grey(0, 0, 0);
    paint_rect(&mut none, PixelRect { x0: 0, y0: 0, x1: 2, y1: 2 }, Paint::Stroke { color });
    assert!(none.pixels.is_empty());
}

#[test]
fn highlights_frame_the_others_and_fill_the_current() {
    assert_eq!(other_color(), Rgb { r: 255, g: 200, b: 0 });
    assert_eq!(current_color(), Rgb { r: 255, g: 235, b: 0 });
    assert_eq!(CURRENT_ALPHA, 350);
    let mut image = grey(10, 10, 100);
    let geom = HighlightGeometry::new(10, 10);
    let highlights = Highlights {
        current: vec![NormalizedRect { left: 0, top: 0, right: 500_000, bottom: 500_000 }],
        others: vec![
            NormalizedRect { left: 500_000, top: 500_000, right: 1_000_000, bottom: 1_000_000 },
            NormalizedRect { left: 0, top: 0, right: 0, bottom: 0 },
        ],
    };
    apply_highlights(&mut image, &highlights, &geom);
    assert_eq!(pixel(&image, 0, 0), [255, 235, 0, 100]);
    assert_eq!(pixel(&image, 4, 4), [255, 235, 0, 100]);
    assert_eq!(pixel(&image, 2, 2), [154, 147, 65, 100]);
    assert_eq!(pixel(&image, 5, 5), [255, 200, 0, 100]);
    assert_eq!(pixel(&image, 9, 9), [255, 200, 0, 100]);
    assert_eq!(pixel(&image, 7, 7), [100, 100, 100, 100]);
    assert_eq!(pixel(&image, 5, 0), [100, 100, 100, 100]);
    let mut untouched = grey(4, 4, 9);
    apply_highlights(&mut untouched, &Highlights::default(), &geom);
    assert!(untouched.pixels.iter().all(|&b| b == 9));
    let mut none = grey(0, 4, 9);
    apply_highlights(&mut none, &highlights, &geom);
    assert!(none.pixels.is_empty());
}
