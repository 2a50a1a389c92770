//! Framing of rendered pages for a terminal that takes images in the
//! kitty graphics protocol. The bytes are collected in memory; sending
//! them is left to the program around.

use vstd::prelude::*;
use vstd::string::StringSliceAdditionalSpecFns;
use crate::cache::RenderImage;

verus! {

/// The most payload bytes that one escape sequence carries.
pub const CHUNK_SIZE: usize = 4096;

/// The size in terminal cells at which an image is placed.
#[derive(Debug, Clone, Copy, PartialEq, Eq, Structural)]
pub struct DrawParams {
    pub columns: u32,
    pub rows: u32,
}

impl DrawParams {
    /// A size of at least one cell each way.
    pub fn clamped(columns: u32, rows: u32) -> (r: Self)
        ensures
            r.columns == if columns < 1 {
                1
            } else {
                columns
            },
            r.rows == if rows < 1 {
                1
            } else {
                rows
            },
    {
        DrawParams {
            columns: if columns < 1 {
                1
            } else {
                columns
            },
            rows: if rows < 1 {
                1
            } else {
                rows
            },
        }
    }
}

/// Why an image could not be framed.
#[derive(Debug, Clone, Copy, PartialEq, Eq, Structural)]
pub enum DrawError {
    /// The pixel buffer does not hold width times height pixels of four bytes.
    BufferSize,
    /// The image is too wide to be encoded, or too large to be written
    /// as text.
    TooLarge,
    /// The image could not be encoded.
    Encoding,
}

/// The PNG file that the encoder writes for an image of eight-bit RGBA
/// pixels.
pub uninterp spec fn png_of(width: u32, height: u32, pixels: Seq<u8>) -> Seq<u8>;

/// The base64 text, padded, of a sequence of bytes.
pub uninterp spec fn base64_of(bytes: Seq<u8>) -> Seq<char>;

/// The error type of the PNG encoder.
#[verifier::external_type_specification]
#[verifier::external_body]
pub struct ExEncodingError(png::EncodingError);

/// The widths that the PNG encoder takes: a row of pixels with its
/// filter byte must stay below 2^32 bytes, in which the compressor
/// counts its runs of equal bytes.
pub const MAX_PNG_WIDTH: u32 = 0x3fff_ffff;

/// Encodes eight-bit RGBA pixels with `png::Encoder`. The contract names
/// the file written `png_of`: the encoder's output depends on the size
/// and the pixels alone. The encoder refuses an image without width or
/// without height and no other: the colour type and depth set here go
/// together, the buffer holds exactly the image, and writing into a
/// byte vector does not fail. The buffer must hold exactly the image,
/// and a row must be short enough for the compressor's run counter, so
/// that the encoder's arithmetic stays in range.
#[verifier::external_body]
fn encode_png(width: u32, height: u32, pixels: &[u8]) -> (r: Result<Vec<u8>, png::EncodingError>)
    requires
        pixels@.len() == width as int * height as int * 4,
        width <= MAX_PNG_WIDTH,
    ensures
        r is Err <==> width == 0 || height == 0,
        r matches Ok(bytes) ==> bytes@ == png_of(width, height, pixels@),
{
    let mut buffer = Vec::new();
    let mut encoder = png::Encoder::new(&mut buffer, width, height);
    encoder.set_color(png::ColorType::Rgba);
    encoder.set_depth(png::BitDepth::Eight);
    let mut writer = encoder.write_header()?;
    writer.write_image_data(pixels)?;
    writer.finish()?;
    Ok(buffer)
}

/// Calls `encode` of base64's standard engine. The contract names the
/// text `base64_of`: it depends on the bytes alone. The input must be
/// short enough for the length of the text to be a `usize`.
#[verifier::external_body]
fn encode_base64(bytes: &[u8]) -> (r: String)
    requires
        (bytes@.len() / 3 + 1) * 4 <= usize::MAX,
    ensures
        r@ == base64_of(bytes@),
{
    base64::Engine::encode(&base64::engine::general_purpose::STANDARD, bytes)
}

/// The decimal digits of `n` in ASCII.
pub open spec fn decimal(n: nat) -> Seq<u8>
    decreases n,
{
    if n < 10 {
        seq![(48 + n) as u8]
    } else {
        decimal(n / 10).push((48 + n % 10) as u8)
    }
}

/// Appends the decimal digits of `n`.
pub fn push_decimal(out: &mut Vec<u8>, n: u32)
    ensures
        final(out)@ == old(out)@ + decimal(n as nat),
    decreases n,
{
    if n >= 10 {
        push_decimal(out, n / 10);
    }
    let digit: u8 = (n % 10) as u8;
    out.push(48 + digit);
    assert(out@ =~= old(out)@ + decimal(n as nat));
}

/// Appends the bytes of `text`.
pub fn push_text(out: &mut Vec<u8>, text: &str)
    ensures
        final(out)@ == old(out)@ + text.spec_bytes(),
{
    push_bytes(out, text.as_bytes());
}

/// Appends `bytes`.
pub fn push_bytes(out: &mut Vec<u8>, bytes: &[u8])
    ensures
        final(out)@ == old(out)@ + bytes@,
{
    let mut i: usize = 0;
    while i < bytes.len()
        invariant
            i <= bytes.len(),
            out@ == old(out)@ + bytes@.take(i as int),
        decreases bytes.len() - i,
    {
        out.push(bytes[i]);
        i += 1;
        assert(out@ =~= old(out)@ + bytes@.take(i as int));
    }
    assert(bytes@.take(bytes.len() as int) =~= bytes@);
}

/// The digit that tells whether more chunks follow.
pub open spec fn more_flag(more: bool) -> Seq<u8> {
    if more {
        "1".spec_bytes()
    } else {
        "0".spec_bytes()
    }
}

/// What opens the escape sequence of a chunk: for the first chunk the
/// whole description of the image, for every other the flag alone.
pub open spec fn chunk_opener(
    first: bool,
    image_id: u32,
    placement_id: u32,
    params: DrawParams,
    width: u32,
    height: u32,
    more: bool,
) -> Seq<u8> {
    if first {
        "\x1b_Ga=T,f=100,C=1,q=2,i=".spec_bytes() + decimal(image_id as nat) + ",p=".spec_bytes()
            + decimal(placement_id as nat) + ",c=".spec_bytes() + decimal(params.columns as nat)
            + ",r=".spec_bytes() + decimal(params.rows as nat) + ",s=".spec_bytes() + decimal(
            width as nat,
        ) + ",v=".spec_bytes() + decimal(height as nat) + ",z=-1,m=".spec_bytes() + more_flag(more)
    } else {
        "\x1b_Gm=".spec_bytes() + more_flag(more) + ",q=2".spec_bytes()
    }
}

/// The escape sequence that carries one chunk.
pub open spec fn one_chunk(
    first: bool,
    image_id: u32,
    placement_id: u32,
    params: DrawParams,
    width: u32,
    height: u32,
    chunk: Seq<u8>,
    more: bool,
) -> Seq<u8> {
    chunk_opener(first, image_id, placement_id, params, width, height, more) + ";".spec_bytes()
        + chunk + "\x1b\\".spec_bytes()
}

/// How many bytes of `payload` the next chunk takes.
pub open spec fn chunk_len(payload: Seq<u8>) -> int {
    if payload.len() < CHUNK_SIZE {
        payload.len() as int
    } else {
        CHUNK_SIZE as int
    }
}

/// The escape sequences that carry `payload` in chunks of `CHUNK_SIZE`
/// bytes: the first with the description of the image, each with a flag
/// that tells whether more follow. An empty payload takes no sequence.
pub open spec fn framed(
    first: bool,
    image_id: u32,
    placement_id: u32,
    params: DrawParams,
    width: u32,
    height: u32,
    payload: Seq<u8>,
) -> Seq<u8>
    decreases payload.len(),
{
    if payload.len() == 0 {
        Seq::empty()
    } else {
        let rest = payload.skip(chunk_len(payload));
        one_chunk(
            first,
            image_id,
            placement_id,
            params,
            width,
            height,
            payload.take(chunk_len(payload)),
            rest.len() > 0,
        ) + framed(false, image_id, placement_id, params, width, height, rest)
    }
}

/// Appends what opens the escape sequence of a chunk.
fn push_opener(
    out: &mut Vec<u8>,
    first: bool,
    image_id: u32,
    placement_id: u32,
    params: DrawParams,
    width: u32,
    height: u32,
    more: bool,
)
    ensures
        final(out)@ == old(out)@ + chunk_opener(
            first,
            image_id,
            placement_id,
            params,
            width,
            height,
            more,
        ),
{
    if first {
        push_text(out, "\x1b_Ga=T,f=100,C=1,q=2,i=");
        push_decimal(out, image_id);
        push_text(out, ",p=");
        push_decimal(out, placement_id);
        push_text(out, ",c=");
        push_decimal(out, params.columns);
        push_text(out, ",r=");
        push_decimal(out, params.rows);
        push_text(out, ",s=");
        push_decimal(out, width);
        push_text(out, ",v=");
        push_decimal(out, height);
        push_text(out, ",z=-1,m=");
    } else {
        push_text(out, "\x1b_Gm=");
    }
    if more {
        push_text(out, "1");
    } else {
        push_text(out, "0");
    }
    if !first {
        push_text(out, ",q=2");
    }
    assert(out@ =~= old(out)@ + chunk_opener(
        first,
        image_id,
        placement_id,
        params,
        width,
        height,
        more,
    ));
}

/// Appends the escape sequence that carries one chunk.
fn push_chunk(
    out: &mut Vec<u8>,
    first: bool,
    image_id: u32,
    placement_id: u32,
    params: DrawParams,
    width: u32,
    height: u32,
    chunk: &[u8],
    more: bool,
)
    ensures
        final(out)@ == old(out)@ + one_chunk(
            first,
            image_id,
            placement_id,
            params,
            width,
            height,
            chunk@,
            more,
        ),
{
    push_opener(out, first, image_id, placement_id, params, width, height, more);
    push_text(out, ";");
    push_bytes(out, chunk);
    push_text(out, "\x1b\\");
    assert(out@ =~= old(out)@ + one_chunk(
        first,
        image_id,
        placement_id,
        params,
        width,
        height,
        chunk@,
        more,
    ));
}

/// Appends the escape sequences that carry `payload`.
pub fn push_framed(
    out: &mut Vec<u8>,
    image_id: u32,
    placement_id: u32,
    params: DrawParams,
    width: u32,
    height: u32,
    payload: &[u8],
)
    ensures
        final(out)@ == old(out)@ + framed(
            true,
            image_id,
            placement_id,
            params,
            width,
            height,
            payload@,
        ),
{
    let mut offset: usize = 0;
    let mut first = true;
    let total: usize = payload.len();
    let ghost whole = framed(true, image_id, placement_id, params, width, height, payload@);
    assert(payload@.skip(0) =~= payload@);
    while offset < total
        invariant
            offset <= total,
            total == payload@.len(),
            first == (offset == 0),
            out@ + framed(
                first,
                image_id,
                placement_id,
                params,
                width,
                height,
                payload@.skip(offset as int),
            ) == old(out)@ + whole,
        decreases total - offset,
    {
        let size: usize = if total - offset < CHUNK_SIZE {
            total - offset
        } else {
            CHUNK_SIZE
        };
        let end: usize = offset + size;
        let more: bool = end < total;
        let ghost before = out@;
        let ghost tail = payload@.skip(offset as int);
        let ghost rest = payload@.skip(end as int);
        let ghost piece = one_chunk(
            first,
            image_id,
            placement_id,
            params,
            width,
            height,
            tail.take(size as int),
            more,
        );
        let ghost after = framed(false, image_id, placement_id, params, width, height, rest);
        proof {
            assert(payload@.subrange(offset as int, end as int) =~= tail.take(size as int));
            assert(tail.skip(size as int) =~= rest);
            assert(chunk_len(tail) == size);
            assert(framed(first, image_id, placement_id, params, width, height, tail) == piece
                + after);
        }
        push_chunk(
            out,
            first,
            image_id,
            placement_id,
            params,
            width,
            height,
            vstd::slice::slice_subrange(payload, offset, end),
            more,
        );
        proof {
            assert((before + piece) + after =~= before + (piece + after));
        }
        offset = end;
        first = false;
    }
    assert(framed(first, image_id, placement_id, params, width, height, payload@.skip(total as int))
        =~= Seq::<u8>::empty());
}

/// Collects the bytes to send to the terminal.
#[derive(Debug)]
pub struct KittyRenderer {
    pub writer: Vec<u8>,
    pub image_id: u32,
    pub placement_id: u32,
}

impl KittyRenderer {
    /// A renderer that appends to `writer`.
    pub fn new(writer: Vec<u8>) -> (r: Self)
        ensures
            r.writer == writer,
            r.image_id == 1,
            r.placement_id == 1,
    {
        KittyRenderer { writer, image_id: 1, placement_id: 1 }
    }

    /// The bytes collected so far, to send and to clear.
    pub fn writer(&mut self) -> (r: &mut Vec<u8>)
        ensures
            *r == old(self).writer,
            *final(self) == (KittyRenderer { writer: *final(r), ..*old(self) }),
    {
        &mut self.writer
    }

    /// Why `image` cannot be drawn, if it cannot: its buffer does not
    /// hold exactly its pixels; or it is too wide for the encoder; or it
    /// has no width or no height, so that it cannot be encoded; or its
    /// PNG file is too large to be written as text.
    pub open spec fn draw_failure(image: &RenderImage) -> Option<DrawError> {
        if image.pixels@.len() != image.width as int * image.height as int * 4 {
            Some(DrawError::BufferSize)
        } else if image.width > MAX_PNG_WIDTH {
            Some(DrawError::TooLarge)
        } else if image.width == 0 || image.height == 0 {
            Some(DrawError::Encoding)
        } else if png_of(image.width, image.height, image.pixels@).len() / 3 >= usize::MAX / 4 {
            Some(DrawError::TooLarge)
        } else {
            None
        }
    }

    /// Frames `image` as a PNG file in base64 text, placed at the size
    /// `params`. On failure nothing is written.
    pub fn draw(&mut self, image: &RenderImage, params: DrawParams) -> (r: Result<(), DrawError>)
        ensures
            final(self).image_id == old(self).image_id,
            final(self).placement_id == old(self).placement_id,
            r is Err ==> final(self).writer@ == old(self).writer@,
            match Self::draw_failure(image) {
                Some(e) => r == Err::<(), DrawError>(e),
                None => r is Ok,
            },
            r is Ok ==> final(self).writer@ == old(self).writer@ + framed(
                true,
                old(self).image_id,
                old(self).placement_id,
                params,
                image.width,
                image.height,
                vstd::utf8::encode_utf8(
                    base64_of(png_of(image.width, image.height, image.pixels@)),
                ),
            ),
    {
        let width: u128 = image.width as u128;
        let height: u128 = image.height as u128;
        assert(width * height <= 0xffff_ffff * 0xffff_ffff) by (nonlinear_arith)
            requires
                width <= 0xffff_ffff,
                height <= 0xffff_ffff,
        ;
        let expected: u128 = width * height * 4;
        if image.pixels.len() as u128 != expected {
            return Err(DrawError::BufferSize);
        }
        if image.width > MAX_PNG_WIDTH {
            return Err(DrawError::TooLarge);
        }
        let file = match encode_png(image.width, image.height, image.pixels.as_slice()) {
            Ok(file) => file,
            Err(_) => {
                return Err(DrawError::Encoding);
            },
        };
        if file.len() / 3 >= usize::MAX / 4 {
            return Err(DrawError::TooLarge);
        }
        let text = encode_base64(file.as_slice());
        push_framed(
            &mut self.writer,
            self.image_id,
            self.placement_id,
            params,
            image.width,
            image.height,
            text.as_str().as_bytes(),
        );
        Ok(())
    }

    /// Asks the terminal to hold back what follows until the update ends.
    pub fn begin_sync_update(&mut self)
        ensures
            *final(self) == (KittyRenderer { writer: final(self).writer, ..*old(self) }),
            final(self).writer@ == old(self).writer@ + "\x1b[?2026h".spec_bytes(),
    {
        push_text(&mut self.writer, "\x1b[?2026h");
    }

    /// Ends the update: the terminal shows at once what it held back.
    pub fn end_sync_update(&mut self)
        ensures
            *final(self) == (KittyRenderer { writer: final(self).writer, ..*old(self) }),
            final(self).writer@ == old(self).writer@ + "\x1b[?2026l".spec_bytes(),
    {
        push_text(&mut self.writer, "\x1b[?2026l");
    }
}

/// Appends the status line's text.
pub fn write_status_line(writer: &mut Vec<u8>, label: &str)
    ensures
        final(writer)@ == old(writer)@ + label.spec_bytes(),
{
    push_text(writer, label);
}

} // verus!
