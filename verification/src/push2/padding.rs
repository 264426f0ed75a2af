//! Row padding: from a frame of pixels to the bytes of a frame as the display
//! stores it.
//!
//! A row of the display is [`LINE_SIZE`] pixels long, of which only the first
//! [`DISPLAY_WIDTH`] are visible.  Every pixel is two bytes, low byte first.
//! The bytes of the invisible pixels are zero.

use super::{DISPLAY_HEIGHT, DISPLAY_WIDTH, FRAME_SIZE, LINE_SIZE};
use vstd::prelude::*;

verus! {

/// Bytes of one stored row.
pub open spec fn row_stride() -> int {
    LINE_SIZE * 2
}

/// Bytes of the visible part of a row.
pub open spec fn row_width() -> int {
    DISPLAY_WIDTH * 2
}

/// The geometry in numbers.
pub proof fn lemma_geometry()
    ensures
        DISPLAY_WIDTH == 960,
        DISPLAY_HEIGHT == 160,
        LINE_SIZE == 1024,
        FRAME_SIZE == 327680,
        row_stride() == 2048,
        row_width() == 1920,
{
}

/// The number of whole rows that `pixels` holds.
pub open spec fn complete_rows(pixels: Seq<u16>) -> int {
    pixels.len() as int / DISPLAY_WIDTH as int
}

/// Byte `k` of `pixel` in little-endian order: the low byte for an even `k`,
/// the high byte for an odd one.
pub open spec fn le_byte(pixel: u16, k: int) -> u8 {
    if k % 2 == 0 {
        (pixel % 256) as u8
    } else {
        (pixel / 256) as u8
    }
}

/// The byte at `offset` of the padded frame of `pixels`.
pub open spec fn padded_byte(pixels: Seq<u16>, offset: int) -> u8 {
    let row = offset / row_stride();
    let at = offset % row_stride();
    if at < row_width() && row < complete_rows(pixels) {
        le_byte(pixels[row * DISPLAY_WIDTH + at / 2], at)
    } else {
        0
    }
}

/// The padded frame of `pixels`: always [`FRAME_SIZE`] bytes.  Pixels that do
/// not fill a whole row are left out.
pub open spec fn padded(pixels: Seq<u16>) -> Seq<u8> {
    Seq::new(FRAME_SIZE as nat, |offset: int| padded_byte(pixels, offset))
}

/// The bytes of row `row` of `pixels`, low byte first.
pub open spec fn row_bytes(pixels: Seq<u16>, row: int) -> Seq<u8> {
    Seq::new(row_width() as nat, |k: int| le_byte(pixels[row * DISPLAY_WIDTH + k / 2], k))
}

/// In the padded frame, the slice of every whole row of the source starts with
/// that row's pixels in little-endian order and ends with 128 zero bytes.
pub proof fn lemma_padded_rows(pixels: Seq<u16>, row: int)
    requires
        0 <= row < DISPLAY_HEIGHT,
        row < complete_rows(pixels),
    ensures
        padded(pixels).len() == DISPLAY_HEIGHT * (DISPLAY_WIDTH + 64) * 2,
        padded(pixels).subrange(row * row_stride(), row * row_stride() + row_width())
            == row_bytes(pixels, row),
        padded(pixels).subrange(row * row_stride() + row_width(), (row + 1) * row_stride())
            == Seq::new(128, |k: int| 0u8),
{
    lemma_geometry();
    let frame = padded(pixels);
    let start = row * 2048;
    assert(row * row_stride() == start && (row + 1) * row_stride() == start + 2048);
    assert(frame.subrange(start, start + 1920) =~= row_bytes(pixels, row));
    assert(frame.subrange(start + 1920, start + 2048) =~= Seq::new(128, |k: int| 0u8));
}

/// In the padded frame, the slice of a row that the source does not fill is
/// zero throughout.
pub proof fn lemma_padded_missing_rows(pixels: Seq<u16>, row: int)
    requires
        0 <= row < DISPLAY_HEIGHT,
        complete_rows(pixels) <= row,
    ensures
        padded(pixels).subrange(row * row_stride(), (row + 1) * row_stride()) == Seq::new(
            row_stride() as nat,
            |k: int| 0u8,
        ),
{
    lemma_geometry();
    let frame = padded(pixels);
    let start = row * 2048;
    assert(row * row_stride() == start && (row + 1) * row_stride() == start + 2048);
    assert(frame.subrange(start, start + 2048) =~= Seq::new(2048, |k: int| 0u8));
}

/// Pads a frame row by row: the bytes of each whole row of `buffer` are
/// copied to the start of that row's slice, and the rest stays zero.
pub fn padding(buffer: &[u16]) -> (padded: Vec<u8>)
    requires
        complete_rows(buffer@) <= DISPLAY_HEIGHT,
    ensures
        padded@ == self::padded(buffer@),
{
    proof {
        lemma_geometry();
    }
    let mut padded: Vec<u8> = vec![0u8; FRAME_SIZE];
    let rows = buffer.len() / DISPLAY_WIDTH;
    let mut row: usize = 0;
    while row < rows
        invariant
            rows == complete_rows(buffer@),
            rows <= DISPLAY_HEIGHT,
            row <= rows,
            padded@.len() == FRAME_SIZE,
            forall|o: int| 0 <= o < row * 2048 ==> padded@[o] == padded_byte(buffer@, o),
            forall|o: int| row * 2048 <= o < FRAME_SIZE ==> padded@[o] == 0,
        decreases rows - row,
    {
        proof {
            lemma_geometry();
        }
        let source = row * DISPLAY_WIDTH;
        let target = row * LINE_SIZE * 2;
        let mut k: usize = 0;
        while k < DISPLAY_WIDTH * 2
            invariant
                rows == complete_rows(buffer@),
                rows <= DISPLAY_HEIGHT,
                row < rows,
                source == row * DISPLAY_WIDTH,
                target == row * 2048,
                k <= row_width(),
                padded@.len() == FRAME_SIZE,
                forall|o: int| 0 <= o < target + k ==> padded@[o] == padded_byte(buffer@, o),
                forall|o: int| target + k <= o < FRAME_SIZE ==> padded@[o] == 0,
            decreases row_width() - k,
        {
            let pixel = buffer[source + k / 2];
            let byte = if k % 2 == 0 {
                (pixel % 256) as u8
            } else {
                (pixel / 256) as u8
            };
            padded[target + k] = byte;
            proof {
                lemma_geometry();
                let o = target + k;
                assert(o / 2048 == row && o % 2048 == k);
                assert(padded@[o] == padded_byte(buffer@, o));
            }
            k += 1;
        }
        proof {
            lemma_geometry();
            assert forall|o: int| row * 2048 + 1920 <= o < (row + 1) * 2048 implies padded@[o]
                == padded_byte(buffer@, o) by {
                assert(o / 2048 == row && o % 2048 == o - row * 2048);
            }
        }
        row += 1;
    }
    assert(padded@ =~= self::padded(buffer@));
    padded
}

/// Pads a full frame pixel by pixel: the reference.
pub fn padding_org(buffer: &[u16]) -> (padded: [u8; FRAME_SIZE])
    requires
        buffer@.len() >= DISPLAY_HEIGHT * DISPLAY_WIDTH,
    ensures
        padded@ == self::padded(buffer@),
{
    proof {
        lemma_geometry();
    }
    let mut padded: [u8; FRAME_SIZE] = [0; FRAME_SIZE];
    let mut r: usize = 0;
    while r < DISPLAY_HEIGHT
        invariant
            buffer@.len() >= DISPLAY_HEIGHT * DISPLAY_WIDTH,
            r <= DISPLAY_HEIGHT,
            forall|o: int| 0 <= o < r * 2048 ==> padded@[o] == padded_byte(buffer@, o),
            forall|o: int| r * 2048 <= o < FRAME_SIZE ==> padded@[o] == 0,
        decreases DISPLAY_HEIGHT - r,
    {
        let mut c: usize = 0;
        while c < DISPLAY_WIDTH
            invariant
                buffer@.len() >= DISPLAY_HEIGHT * DISPLAY_WIDTH,
                r < DISPLAY_HEIGHT,
                c <= DISPLAY_WIDTH,
                forall|o: int|
                    0 <= o < r * 2048 + c * 2 ==> padded@[o] == padded_byte(buffer@, o),
                forall|o: int|
                    r * 2048 + c * 2 <= o < FRAME_SIZE ==> padded@[o] == 0,
            decreases DISPLAY_WIDTH - c,
        {
            proof {
                lemma_geometry();
            }
            let i = r * DISPLAY_WIDTH + c;
            let pixel = buffer[i];
            let di = r * LINE_SIZE * 2 + c * 2;
            padded[di] = (pixel % 256) as u8;
            padded[di + 1] = (pixel / 256) as u8;
            proof {
                assert(di / 2048 == r && di % 2048 == c * 2);
                assert((di + 1) / 2048 == r && (di + 1) % 2048 == c * 2 + 1);
                assert(complete_rows(buffer@) >= DISPLAY_HEIGHT);
                assert(padded@[di as int] == padded_byte(buffer@, di as int));
                assert(padded@[di + 1] == padded_byte(buffer@, di + 1));
            }
            c += 1;
        }
        proof {
            lemma_geometry();
            assert forall|o: int| r * 2048 + 1920 <= o < (r + 1) * 2048 implies padded@[o]
                == padded_byte(buffer@, o) by {
                assert(o / 2048 == r && o % 2048 == o - r * 2048);
            }
        }
        r += 1;
    }
    assert(padded@ =~= self::padded(buffer@));
    padded
}

} // verus!
