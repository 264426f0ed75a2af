//! The display: its geometry, how it is recognised on the bus, and the frame
//! encoder.
//!
//! A frame reaches the display as two bulk transfers: [`HEADER`], then the
//! bytes that [`encode_buffer`] makes of the frame's pixels.  Encoding is row
//! padding followed by masking; [`original_mask`] does both in one pass and is
//! proved to give the same bytes.

use vstd::prelude::*;
use padding::{complete_rows, lemma_geometry, padded, padded_byte};
use xor::{lemma_masking_equivalence, mask_byte, masked, MASK};

pub mod padding;
pub mod xor;

verus! {

/// USB vendor id of the display.
pub const PUSH_2_VENDOR_ID: u16 = 0x2982;

/// USB product id of the display.
pub const PUSH_2_PRODUCT_ID: u16 = 0x1967;

/// The bulk endpoint that takes frames.
pub const PUSH2_BULK_EP_OUT: u8 = 0x01;

/// Milliseconds allowed for each bulk transfer.
pub const TRANSFER_TIMEOUT_MS: u64 = 50;

/// The transfer that announces a frame.
pub const HEADER: [u8; 16] = [
    0xff, 0xcc, 0xaa, 0x88, 0x00, 0x00, 0x00, 0x00, 0x00, 0x00, 0x00, 0x00, 0x00, 0x00, 0x00, 0x00,
];

/// Visible pixels per row.
pub const DISPLAY_WIDTH: usize = 960;

/// Rows of the display.
pub const DISPLAY_HEIGHT: usize = 160;

/// Pixels per row as the display stores them: the visible ones and 64 more
/// that are never shown.
pub const LINE_SIZE: usize = DISPLAY_WIDTH + 64;

/// Bytes of one encoded frame, two for each stored pixel.
pub const FRAME_SIZE: usize = DISPLAY_HEIGHT * LINE_SIZE * 2;

/// Whether a device with these ids is the display.
pub fn is_push2(vendor_id: u16, product_id: u16) -> (found: bool)
    ensures
        found <==> vendor_id == 0x2982 && product_id == 0x1967,
{
    vendor_id == PUSH_2_VENDOR_ID && product_id == PUSH_2_PRODUCT_ID
}

/// The device-ready bytes of a frame: padded, then masked.
pub open spec fn encoded(pixels: Seq<u16>) -> Seq<u8> {
    masked(padded(pixels))
}

/// An encoded frame has the display's frame size whatever the pixels are, and
/// masking it once more gives the padded frame back.
pub proof fn lemma_encoded_frame(pixels: Seq<u16>)
    ensures
        encoded(pixels).len() == DISPLAY_HEIGHT * (DISPLAY_WIDTH + 64) * 2,
        masked(encoded(pixels)) == padded(pixels),
{
    lemma_geometry();
    xor::lemma_masking_involution(padded(pixels));
}

/// Encodes a frame of pixels for the display.
pub fn encode_buffer(buffer: &[u16]) -> (frame: Vec<u8>)
    requires
        complete_rows(buffer@) <= DISPLAY_HEIGHT,
    ensures
        frame@ == encoded(buffer@),
{
    let mut p = padding::padding(buffer);
    xor::xor(&mut p);
    proof {
        lemma_masking_equivalence(padded(buffer@));
    }
    p
}

/// One pixel in the display's packed format: the top five bits of blue in
/// bits 11 to 15, the top six bits of green in bits 5 to 10, the top five bits
/// of red in bits 0 to 4.
pub open spec fn bgr565(r: u8, g: u8, b: u8) -> u16 {
    (((b >> 3) as u16) << 11) | (((g >> 2) as u16) << 5) | ((r >> 3) as u16)
}

/// The packed frame of a buffer of four-byte pixels (red, green, blue,
/// alpha): one word for each whole pixel, then zeros up to the display's
/// pixel count.  Alpha is dropped.
pub open spec fn packed(rgba: Seq<u8>) -> Seq<u16> {
    Seq::new(
        (DISPLAY_WIDTH * DISPLAY_HEIGHT) as nat,
        |i: int|
            if i < rgba.len() as int / 4 {
                bgr565(rgba[4 * i], rgba[4 * i + 1], rgba[4 * i + 2])
            } else {
                0u16
            },
    )
}

/// A packed pixel holds each channel divided down to its field's width, and
/// the channels can be read back from the fields.
pub proof fn lemma_bgr565_fields(r: u8, g: u8, b: u8)
    ensures
        bgr565(r, g, b) == (b / 8) * 2048 + (g / 4) * 32 + r / 8,
        bgr565(r, g, b) & 0x1f == r / 8,
        (bgr565(r, g, b) >> 5) & 0x3f == g / 4,
        bgr565(r, g, b) >> 11 == b / 8,
{
    let p = bgr565(r, g, b);
    assert(p == (((b >> 3) as u16) << 11) | (((g >> 2) as u16) << 5) | ((r >> 3) as u16));
    assert((((b >> 3) as u16) << 11) | (((g >> 2) as u16) << 5) | ((r >> 3) as u16) == (b / 8)
        * 2048 + (g / 4) * 32 + r / 8) by (bit_vector);
    assert(((((b >> 3) as u16) << 11) | (((g >> 2) as u16) << 5) | ((r >> 3) as u16)) & 0x1f == r
        / 8) by (bit_vector);
    assert((((((b >> 3) as u16) << 11) | (((g >> 2) as u16) << 5) | ((r >> 3) as u16)) >> 5)
        & 0x3f == g / 4) by (bit_vector);
    assert(((((b >> 3) as u16) << 11) | (((g >> 2) as u16) << 5) | ((r >> 3) as u16)) >> 11 == b
        / 8) by (bit_vector);
}

/// Packs a rendered buffer of four-byte pixels into the display's 16-bit
/// format.
pub fn rgba8_to_bgr565(rgba_data: &Vec<u8>) -> (bgr565_data: Vec<u16>)
    requires
        rgba_data@.len() / 4 <= DISPLAY_WIDTH * DISPLAY_HEIGHT,
    ensures
        bgr565_data@ == packed(rgba_data@),
{
    let mut bgr565_data: Vec<u16> = vec![0u16; DISPLAY_WIDTH * DISPLAY_HEIGHT];
    let pixels = rgba_data.len() / 4;
    let mut i: usize = 0;
    while i < pixels
        invariant
            pixels == rgba_data@.len() / 4,
            pixels <= DISPLAY_WIDTH * DISPLAY_HEIGHT,
            i <= pixels,
            bgr565_data@.len() == DISPLAY_WIDTH * DISPLAY_HEIGHT,
            forall|j: int| 0 <= j < i ==> bgr565_data@[j] == packed(rgba_data@)[j],
            forall|j: int| i <= j < DISPLAY_WIDTH * DISPLAY_HEIGHT ==> bgr565_data@[j] == 0,
        decreases pixels - i,
    {
        let r = rgba_data[4 * i] >> 3;
        let g = rgba_data[4 * i + 1] >> 2;
        let b = rgba_data[4 * i + 2] >> 3;
        bgr565_data[i] = ((b as u16) << 11) | ((g as u16) << 5) | (r as u16);
        i += 1;
    }
    assert(bgr565_data@ =~= packed(rgba_data@));
    bgr565_data
}

/// Encodes a full frame in a single pass over the stored pixels, visible or
/// not: the reference for [`encode_buffer`].
pub fn original_mask(buffer: &[u16]) -> (frame: [u8; FRAME_SIZE])
    requires
        buffer@.len() >= DISPLAY_HEIGHT * DISPLAY_WIDTH,
    ensures
        frame@ == encoded(buffer@),
{
    proof {
        lemma_geometry();
    }
    let mut masked_buffer: [u8; FRAME_SIZE] = [0; FRAME_SIZE];
    let mut r: usize = 0;
    while r < DISPLAY_HEIGHT
        invariant
            buffer@.len() >= DISPLAY_HEIGHT * DISPLAY_WIDTH,
            r <= DISPLAY_HEIGHT,
            forall|o: int|
                0 <= o < r * 2048 ==> masked_buffer@[o] == padded_byte(buffer@, o) ^ mask_byte(o),
        decreases DISPLAY_HEIGHT - r,
    {
        let mut c: usize = 0;
        while c < LINE_SIZE
            invariant
                buffer@.len() >= DISPLAY_HEIGHT * DISPLAY_WIDTH,
                r < DISPLAY_HEIGHT,
                c <= LINE_SIZE,
                forall|o: int|
                    0 <= o < r * 2048 + c * 2 ==> masked_buffer@[o] == padded_byte(buffer@, o)
                        ^ mask_byte(o),
            decreases LINE_SIZE - c,
        {
            proof {
                lemma_geometry();
            }
            let pixel: u16 = if c < DISPLAY_WIDTH {
                buffer[r * DISPLAY_WIDTH + c]
            } else {
                0
            };
            let di = r * LINE_SIZE * 2 + c * 2;
            masked_buffer[di] = ((pixel % 256) as u8) ^ MASK[di % 4];
            masked_buffer[di + 1] = ((pixel / 256) as u8) ^ MASK[(di + 1) % 4];
            proof {
                assert(di / 2048 == r && di % 2048 == c * 2);
                assert((di + 1) / 2048 == r && (di + 1) % 2048 == c * 2 + 1);
                assert(complete_rows(buffer@) >= DISPLAY_HEIGHT);
                assert(masked_buffer@[di as int] == padded_byte(buffer@, di as int) ^ mask_byte(
                    di as int,
                ));
                assert(masked_buffer@[di + 1] == padded_byte(buffer@, di + 1) ^ mask_byte(di + 1));
            }
            c += 1;
        }
        r += 1;
    }
    proof {
        lemma_geometry();
    }
    assert(masked_buffer@ =~= encoded(buffer@));
    masked_buffer
}

} // verus!
