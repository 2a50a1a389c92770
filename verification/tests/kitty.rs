//! Framing images for the terminal.

use termpdf::cache::RenderImage;
use termpdf::kitty::{
    push_bytes, push_decimal, push_framed, push_text, write_status_line, DrawError, DrawParams,
    KittyRenderer, CHUNK_SIZE,
};

#[test]
fn kitty_draw_emits_protocol() {
    let mut renderer = KittyRenderer::new(Vec::new());
    let image = RenderImage { width: 1, height: 1, pixels: vec![255, 0, 0, 255] };

    renderer.draw(&image, DrawParams::clamped(10, 5)).unwrap();
    let output = renderer.writer;
    assert_eq!(output[0], 0x1b);
    assert_eq!(output[1], b'_');
    assert_eq!(output[2], b'G');
}

#[test]
fn draw_frames_a_png_in_base64() {
    let mut renderer = KittyRenderer::new(b"before".to_vec());
    let image = RenderImage { width: 2, height: 1, pixels: vec![255, 0, 0, 255, 0, 255, 0, 255] };
    renderer.draw(&image, DrawParams { columns: 10, rows: 5 }).unwrap();
    let output = String::from_utf8(renderer.writer.clone()).unwrap();
    let header = "before\u{1b}_Ga=T,f=100,C=1,q=2,i=1,p=1,c=10,r=5,s=2,v=1,z=-1,m=0;";
    assert!(output.starts_with(header), "{:?}", output);
    assert!(output.ends_with("\u{1b}\\"));
    let payload = &output[header.len()..output.len() - 2];
    // Every PNG file starts with the same eight bytes.
    assert!(payload.starts_with("iVBORw0KGgo"), "{:?}", payload);
    assert_eq!(payload.len() % 4, 0);
    assert!(payload.bytes().all(|b| b.is_ascii_alphanumeric() || b == b'+' || b == b'/' || b == b'='));
}

#[test]
fn draw_refuses_a_buffer_of_the_wrong_size() {
    let mut renderer = KittyRenderer::new(Vec::new());
    let short = RenderImage { width: 2, height: 2, pixels: vec![0; 15] };
    assert_eq!(renderer.draw(&short, DrawParams::clamped(1, 1)), Err(DrawError::BufferSize));
    let long = RenderImage { width: 1, height: 1, pixels: vec![0; 5] };
    assert_eq!(renderer.draw(&long, DrawParams::clamped(1, 1)), Err(DrawError::BufferSize));
    let empty = RenderImage { width: 0, height: 0, pixels: Vec::new() };
    assert_eq!(renderer.draw(&empty, DrawParams::clamped(1, 1)), Err(DrawError::Encoding));
    let flat = RenderImage { width: 5, height: 0, pixels: Vec::new() };
    assert_eq!(renderer.draw(&flat, DrawParams::clamped(1, 1)), Err(DrawError::Encoding));
    let thin = RenderImage { width: 0, height: 5, pixels: Vec::new() };
    assert_eq!(renderer.draw(&thin, DrawParams::clamped(1, 1)), Err(DrawError::Encoding));
    assert!(renderer.writer.is_empty());
    assert_eq!(renderer.image_id, 1);
    assert_eq!(renderer.placement_id, 1);
}

#[test]
fn draw_params_are_at_least_one_cell() {
    assert_eq!(DrawParams::clamped(0, 0), DrawParams { columns: 1, rows: 1 });
    assert_eq!(DrawParams::clamped(80, 0), DrawParams { columns: 80, rows: 1 });
    assert_eq!(DrawParams::clamped(0, 24), DrawParams { columns: 1, rows: 24 });
    assert_eq!(DrawParams::clamped(u32::MAX, 3), DrawParams { columns: u32::MAX, rows: 3 });
}

#[test]
fn payloads_are_sent_in_chunks() {
    let params = DrawParams { columns: 3, rows: 4 };
    let payload: Vec<u8> = (0..(2 * CHUNK_SIZE + 5)).map(|i| b'a' + (i % 26) as u8).collect();
    let mut out = Vec::new();
    push_framed(&mut out, 7, 8, params, 640, 480, &payload);
    let mut expected = Vec::new();
    expected.extend_from_slice(b"\x1b_Ga=T,f=100,C=1,q=2,i=7,p=8,c=3,r=4,s=640,v=480,z=-1,m=1;");
    expected.extend_from_slice(&payload[..CHUNK_SIZE]);
    expected.extend_from_slice(b"\x1b\\\x1b_Gm=1,q=2;");
    expected.extend_from_slice(&payload[CHUNK_SIZE..2 * CHUNK_SIZE]);
    expected.extend_from_slice(b"\x1b\\\x1b_Gm=0,q=2;");
    expected.extend_from_slice(&payload[2 * CHUNK_SIZE..]);
    expected.extend_from_slice(b"\x1b\\");
    assert_eq!(out, expected);
}

#[test]
fn a_payload_of_one_chunk_and_an_empty_payload() {
    let params = DrawParams { columns: 1, rows: 1 };
    let payload = vec![b'x'; CHUNK_SIZE];
    let mut out = Vec::new();
    push_framed(&mut out, 1, 1, params, 1, 1, &payload);
    let mut expected = Vec::new();
    expected.extend_from_slice(b"\x1b_Ga=T,f=100,C=1,q=2,i=1,p=1,c=1,r=1,s=1,v=1,z=-1,m=0;");
    expected.extend_from_slice(&payload);
    expected.extend_from_slice(b"\x1b\\");
    assert_eq!(out, expected);
    let mut nothing = b"kept".to_vec();
    push_framed(&mut nothing, 1, 1, params, 1, 1, &[]);
    assert_eq!(nothing, b"kept");
}

#[test]
fn numbers_are_written_in_decimal() {
    let mut out = Vec::new();
    push_decimal(&mut out, 0);
    push_text(&mut out, ",");
    push_decimal(&mut out, 7);
    push_text(&mut out, ",");
    push_decimal(&mut out, 10);
    push_text(&mut out, ",");
    push_decimal(&mut out, 4096);
    push_text(&mut out, ",");
    push_decimal(&mut out, u32::MAX);
    push_bytes(&mut out, b"!");
    assert_eq!(out, b"0,7,10,4096,4294967295!");
}

#[test]
fn sync_updates_and_status_lines_are_appended() {
    let mut renderer = KittyRenderer::new(Vec::new());
    renderer.begin_sync_update();
    renderer.writer().extend_from_slice(b"-");
    renderer.end_sync_update();
    assert_eq!(renderer.writer, b"\x1b[?2026h-\x1b[?2026l");
    let mut line = b"> ".to_vec();
    write_status_line(&mut line, "page 1/3 — 100%");
    assert_eq!(line, "> page 1/3 — 100%".as_bytes());
    renderer.writer().clear();
    assert!(renderer.writer.is_empty());
}

#[test]
fn every_image_with_pixels_is_drawn() {
    for (width, height) in [(1u32, 1u32), (1, 7), (7, 1), (3, 5), (64, 48)] {
        let mut renderer = KittyRenderer::new(Vec::new());
        let pixels = vec![200u8; (width * height * 4) as usize];
        let image = RenderImage { width, height, pixels };
        assert_eq!(renderer.draw(&image, DrawParams::clamped(2, 2)), Ok(()));
        assert!(!renderer.writer.is_empty());
    }
}

#[test]
fn draw_refuses_an_image_too_wide_for_the_encoder() {
    let mut renderer = KittyRenderer::new(Vec::new());
    let wide = RenderImage { width: 0x4000_0000, height: 0, pixels: Vec::new() };
    assert_eq!(renderer.draw(&wide, DrawParams::clamped(1, 1)), Err(DrawError::TooLarge));
    let widest = RenderImage { width: u32::MAX, height: 0, pixels: Vec::new() };
    assert_eq!(renderer.draw(&widest, DrawParams::clamped(1, 1)), Err(DrawError::TooLarge));
    let short = RenderImage { width: 0x4000_0000, height: 1, pixels: vec![0; 8] };
    assert_eq!(renderer.draw(&short, DrawParams::clamped(1, 1)), Err(DrawError::BufferSize));
    let flat = RenderImage { width: 0x3fff_ffff, height: 0, pixels: Vec::new() };
    assert_eq!(renderer.draw(&flat, DrawParams::clamped(1, 1)), Err(DrawError::Encoding));
    assert!(renderer.writer.is_empty());
}
