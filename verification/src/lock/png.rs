//! PNG files: which of them can be handed to the decoder, and what comes back.
//!
//! A file is a signature of eight bytes and a row of chunks. A chunk is the
//! length of its data, its kind, the data and a checksum; all but the data take
//! four bytes each.

use crate::ui::frame::Frame;
use vstd::prelude::*;

verus! {

/// Where the first chunk begins.
pub const FIRST_CHUNK: usize = 8;

/// The kind `IHDR`: the width and height of the picture, and its kind of colour.
pub const HEADER: u32 = 0x4948_4452;

/// The kind `PLTE`: the colours that a picture with indexed colours refers to.
pub const PALETTE: u32 = 0x504c_5445;

/// The kind `IDAT`: the picture, or a part of it.
pub const PICTURE_DATA: u32 = 0x4944_4154;

/// The kind `fdAT`: a frame of an animation, or a part of it.
pub const FRAME_DATA: u32 = 0x6664_4154;

/// The header's mark of a picture with indexed colours.
pub const INDEXED: u8 = 3;

/// How many bytes a whole palette takes at most: three for each of its colours.
pub const LARGEST_PALETTE: u32 = 768;

// ---------------------------------------------------------------------------
// Chunks
// ---------------------------------------------------------------------------

/// The number that four bytes write, the most significant first.
pub open spec fn big_endian(b: Seq<u8>, i: int) -> int {
    b[i] * 0x100_0000 + b[i + 1] * 0x1_0000 + b[i + 2] * 0x100 + b[i + 3]
}

/// Whether there are enough bytes for the length and the kind of a chunk that
/// begins at `i`.
pub open spec fn is_chunk(b: Seq<u8>, i: int) -> bool {
    0 <= i && i + 8 <= b.len()
}

/// How many bytes of data the chunk at `i` has.
pub open spec fn length_at(b: Seq<u8>, i: int) -> int {
    big_endian(b, i)
}

/// The kind of the chunk at `i`.
pub open spec fn kind_at(b: Seq<u8>, i: int) -> int {
    big_endian(b, i + 4)
}

/// Where the chunk ends that begins at `i`.
pub open spec fn after(b: Seq<u8>, i: int) -> int {
    i + 12 + length_at(b, i)
}

/// Where the header is, looked for from `i` on: it is the first chunk, but for
/// headers without data, which tell nothing.
pub open spec fn header(b: Seq<u8>, i: int) -> Option<int>
    decreases b.len() - i,
{
    if !is_chunk(b, i) || kind_at(b, i) != HEADER {
        None
    } else if length_at(b, i) > 0 {
        Some(i)
    } else if after(b, i) <= b.len() {
        header(b, after(b, i))
    } else {
        None
    }
}

/// How many bytes the picture takes that the header states, with four bytes for
/// each pixel. None where there is no header.
pub open spec fn stated_size(b: Seq<u8>) -> int {
    match header(b, FIRST_CHUNK as int) {
        Some(h) => if h + 16 <= b.len() {
            big_endian(b, h + 8) * big_endian(b, h + 12) * 4
        } else {
            0
        },
        None => 0,
    }
}

/// Whether memory can hold the picture that the header states.
pub open spec fn can_be_held(b: Seq<u8>) -> bool {
    stated_size(b) <= isize::MAX
}

/// Whether the header says that the picture's colours are indexed.
pub open spec fn is_indexed(b: Seq<u8>) -> bool {
    header(b, FIRST_CHUNK as int) matches Some(h) && h + 18 <= b.len() && b[h + 17] == INDEXED
}

/// Whether a palette of so many bytes is made of whole colours, and of no more
/// than can be referred to.
pub open spec fn is_whole(length: int) -> bool {
    length % 3 == 0 && length <= LARGEST_PALETTE
}

/// Whether the palettes between `i` and the picture are whole.
pub open spec fn are_whole(b: Seq<u8>, i: int) -> bool
    decreases b.len() - i,
{
    if !is_chunk(b, i) || kind_at(b, i) == PICTURE_DATA || kind_at(b, i) == FRAME_DATA {
        true
    } else if kind_at(b, i) == PALETTE && !is_whole(length_at(b, i)) {
        false
    } else if after(b, i) <= b.len() {
        are_whole(b, after(b, i))
    } else {
        true
    }
}

/// Whether the picture, if its colours are indexed, has a whole palette.
pub open spec fn palette_is_whole(b: Seq<u8>) -> bool {
    is_indexed(b) ==> are_whole(b, FIRST_CHUNK as int)
}

/// Whether these bytes can be handed to the decoder. Other ones hold no picture.
pub open spec fn can_be_decoded(b: Seq<u8>) -> bool {
    can_be_held(b) && palette_is_whole(b)
}

/// The number that four bytes write.
fn number_at(bytes: &[u8], i: usize) -> (r: u32)
    requires
        i + 4 <= bytes@.len(),
    ensures
        r == big_endian(bytes@, i as int),
{
    bytes[i] as u32 * 0x100_0000 + bytes[i + 1] as u32 * 0x1_0000 + bytes[i + 2] as u32 * 0x100
        + bytes[i + 3] as u32
}

/// Where the chunk ends that begins at `i`, if the bytes reach that far.
fn chunk_end(bytes: &[u8], i: usize) -> (r: Option<usize>)
    requires
        is_chunk(bytes@, i as int),
    ensures
        r is Some <==> after(bytes@, i as int) <= bytes@.len(),
        r matches Some(end) ==> end == after(bytes@, i as int),
{
    let length: u64 = number_at(bytes, i) as u64;
    if length + 12 <= (bytes.len() - i) as u64 {
        Some(i + 12 + length as usize)
    } else {
        None
    }
}

/// Where the header is.
fn find_header(bytes: &[u8]) -> (r: Option<usize>)
    ensures
        r is Some <==> header(bytes@, FIRST_CHUNK as int) is Some,
        r matches Some(h) ==> header(bytes@, FIRST_CHUNK as int) == Some(h as int) && is_chunk(
            bytes@,
            h as int,
        ),
{
    let mut i: usize = FIRST_CHUNK;
    while i <= bytes.len() && bytes.len() - i >= 8
        invariant
            header(bytes@, FIRST_CHUNK as int) == header(bytes@, i as int),
        decreases bytes@.len() - i,
    {
        if number_at(bytes, i + 4) != HEADER {
            return None;
        }
        if number_at(bytes, i) > 0 {
            return Some(i);
        }
        match chunk_end(bytes, i) {
            Some(end) => {
                i = end;
            },
            None => {
                return None;
            },
        }
    }
    None
}

/// Whether memory can hold the picture that the header at `h` states.
fn fits_memory(bytes: &[u8], h: usize) -> (r: bool)
    requires
        header(bytes@, FIRST_CHUNK as int) == Some(h as int),
        is_chunk(bytes@, h as int),
    ensures
        r == can_be_held(bytes@),
{
    if bytes.len() - h < 16 {
        return true;
    }
    let width: u32 = number_at(bytes, h + 8);
    let height: u32 = number_at(bytes, h + 12);
    assert(0 <= width * height <= 0xffff_ffff * 0xffff_ffff) by (nonlinear_arith)
        requires
            0 <= width <= 0xffff_ffff,
            0 <= height <= 0xffff_ffff,
    ;
    width as u128 * height as u128 * 4 <= isize::MAX as u128
}

/// Whether all palettes before the picture are whole.
fn palettes_are_whole(bytes: &[u8]) -> (r: bool)
    ensures
        r == are_whole(bytes@, FIRST_CHUNK as int),
{
    let mut i: usize = FIRST_CHUNK;
    while i <= bytes.len() && bytes.len() - i >= 8
        invariant
            are_whole(bytes@, FIRST_CHUNK as int) == are_whole(bytes@, i as int),
        decreases bytes@.len() - i,
    {
        let kind: u32 = number_at(bytes, i + 4);
        if kind == PICTURE_DATA || kind == FRAME_DATA {
            return true;
        }
        let length: u32 = number_at(bytes, i);
        if kind == PALETTE && (length % 3 != 0 || length > LARGEST_PALETTE) {
            return false;
        }
        match chunk_end(bytes, i) {
            Some(end) => {
                i = end;
            },
            None => {
                return true;
            },
        }
    }
    true
}

/// Whether these bytes can be handed to the decoder.
pub fn is_decodable(bytes: &[u8]) -> (r: bool)
    ensures
        r == can_be_decoded(bytes@),
{
    match find_header(bytes) {
        Some(h) => fits_memory(bytes, h) && (bytes.len() - h < 18 || bytes[h + 17] != INDEXED
            || palettes_are_whole(bytes)),
        None => true,
    }
}

// ---------------------------------------------------------------------------
// Decoding
// ---------------------------------------------------------------------------

/// The picture that a PNG file of these bytes holds: width, height and
/// premultiplied pixels. `None` for bytes that no picture can be read from.
pub uninterp spec fn png_picture(bytes: Seq<u8>) -> Option<(nat, nat, Seq<u8>)>;

/// A picture as its width, height and bytes.
pub open spec fn picture(f: Option<Frame>) -> Option<(nat, nat, Seq<u8>)> {
    match f {
        Some(f) => Some((f.width as nat, f.height as nat, f.data@)),
        None => None,
    }
}

/// `tiny_skia::Pixmap::decode_png` reads a PNG file from its bytes. What it
/// gives depends on the bytes alone; a pixmap that it gives has at least one
/// pixel, and four bytes for each.
///
/// Two kinds of files are left out, because it panics on some of them and gives
/// no pixmap for any. It makes room for the picture that the header states, also
/// where that is more than memory can hold and the file is an animation whose
/// first frame is smaller. And it takes the palette of indexed colours apart into
/// three bytes for each of at most 256 colours, whatever the palette's length.
#[verifier::external_body]
pub(crate) fn decode_png(bytes: &[u8]) -> (r: Option<Frame>)
    requires
        can_be_held(bytes@),
        palette_is_whole(bytes@),
    ensures
        picture(r) == png_picture(bytes@),
        r matches Some(f) ==> f.wf(),
{
    match tiny_skia::Pixmap::decode_png(bytes) {
        Ok(p) => Some(
            Frame { width: p.width() as usize, height: p.height() as usize, data: p.take() },
        ),
        Err(_) => None,
    }
}

// ---------------------------------------------------------------------------
// Which files can be decoded
// ---------------------------------------------------------------------------

/// Whether the four bytes at `i` are these.
pub open spec fn reads(b: Seq<u8>, i: int, w: u8, x: u8, y: u8, z: u8) -> bool {
    b[i] == w && b[i + 1] == x && b[i + 2] == y && b[i + 3] == z
}

/// A file whose first chunk is a header with data is measured by it: the picture
/// takes four bytes for each of the pixels that the header's first two numbers
/// give, and the file can be decoded where memory holds so many, unless its
/// colours are indexed.
pub proof fn law_header_measures_the_picture(b: Seq<u8>)
    requires
        b.len() >= 24,
        reads(b, 12, 0x49, 0x48, 0x44, 0x52),
        b[8] > 0 || b[9] > 0 || b[10] > 0 || b[11] > 0,
    ensures
        ({
            let width = b[16] * 0x100_0000 + b[17] * 0x1_0000 + b[18] * 0x100 + b[19];
            let height = b[20] * 0x100_0000 + b[21] * 0x1_0000 + b[22] * 0x100 + b[23];
            &&& stated_size(b) == width * height * 4
            &&& is_indexed(b) == (b.len() >= 26 && b[25] == 3)
            &&& b.len() < 26 || b[25] != 3 ==> can_be_decoded(b) == (width * height * 4
                <= isize::MAX)
            &&& width * height * 4 > isize::MAX ==> !can_be_decoded(b)
        }),
{
    assert(header(b, 8) == Some(8int));
}

/// A file without a header can be handed to the decoder, which then finds no
/// picture.
pub proof fn law_file_without_header_is_harmless(b: Seq<u8>)
    requires
        b.len() < 16 || !reads(b, 12, 0x49, 0x48, 0x44, 0x52),
    ensures
        can_be_decoded(b),
{
    if b.len() >= 16 {
        assert(kind_at(b, 8) != HEADER);
    }
}

/// The header is the first chunk that is one and has data; headers without data
/// are passed over, and a chunk of another kind ends the search.
pub proof fn law_empty_headers_are_passed_over(b: Seq<u8>, i: int)
    requires
        0 <= i,
        i + 12 <= b.len(),
    ensures
        reads(b, i + 4, 0x49, 0x48, 0x44, 0x52) && reads(b, i, 0, 0, 0, 0) ==> header(b, i)
            == header(b, i + 12),
        reads(b, i + 4, 0x49, 0x48, 0x44, 0x52) && !reads(b, i, 0, 0, 0, 0) ==> header(b, i)
            == Some(i),
        !reads(b, i + 4, 0x49, 0x48, 0x44, 0x52) ==> header(b, i) is None,
{
}

/// A palette must be made of whole colours, three bytes each and 256 at most;
/// palettes count up to the picture, and other chunks are passed over.
pub proof fn law_palettes_before_the_picture_count(b: Seq<u8>, i: int, n: int)
    requires
        0 <= i,
        i + 8 <= b.len(),
        n == b[i] * 0x100_0000 + b[i + 1] * 0x1_0000 + b[i + 2] * 0x100 + b[i + 3],
    ensures
        reads(b, i + 4, 0x50, 0x4c, 0x54, 0x45) && (n % 3 != 0 || n > 768) ==> !are_whole(b, i),
        reads(b, i + 4, 0x50, 0x4c, 0x54, 0x45) && n % 3 == 0 && n <= 768 && i + 12 + n <= b.len()
            ==> are_whole(b, i) == are_whole(b, i + 12 + n),
        reads(b, i + 4, 0x49, 0x44, 0x41, 0x54) ==> are_whole(b, i),
        reads(b, i + 4, 0x66, 0x64, 0x41, 0x54) ==> are_whole(b, i),
        !reads(b, i + 4, 0x50, 0x4c, 0x54, 0x45) && !reads(b, i + 4, 0x49, 0x44, 0x41, 0x54)
            && !reads(b, i + 4, 0x66, 0x64, 0x41, 0x54) && i + 12 + n <= b.len() ==> are_whole(b, i)
            == are_whole(b, i + 12 + n),
        !reads(b, i + 4, 0x50, 0x4c, 0x54, 0x45) && i + 12 + n > b.len() ==> are_whole(b, i),
{
}

} // verus!
