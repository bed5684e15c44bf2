//! Image frames and the bit-level pixel decode.
//!
//! A frame is a pre-baked monochrome bitmap: a fixed-size header followed by
//! packed 1-bit-per-pixel data. The decode walks the pixel region backward
//! from a fixed base byte index, so the asset is stored bottom-row-first;
//! reproducing this exact indexing is what decides which visual row renders.

use vstd::prelude::*;

verus! {

/// Bytes of header that precede the packed pixel data in a frame blob.
pub const HEADER_BYTES: usize = 0x3B;

/// The backward decode counts byte indices down from this index within the
/// pixel region.
pub const PIXEL_BASE: usize = 256;

/// Smallest blob length for which every (row, col) decode stays in bounds:
/// the header plus byte indices 0 through `PIXEL_BASE` of the pixel region.
pub const MIN_FRAME_BYTES: usize = 316;

/// Physical rows addressed per frame.
pub const ROWS: usize = 16;

/// Columns shifted per row.
pub const COLS: usize = 64;

/// Absolute bit position of the upper half-panel pixel at (row, col).
pub open spec fn upper_pos(row: int, col: int) -> int {
    row * 64 + col
}

/// Absolute bit position of the lower half-panel pixel at (row, col): the row
/// index is doubled, addressing the second, offset scan plane.
pub open spec fn lower_pos(row: int, col: int) -> int {
    row * 128 + col
}

/// Byte index within the pixel region for an absolute bit position, walking
/// backward from the base.
pub open spec fn byte_index(pos: int) -> int {
    256 - pos / 8
}

/// Bit offset within the byte for an absolute bit position.
pub open spec fn bit_offset(pos: int) -> int {
    pos % 8
}

/// Whether bit `off` (counted from the least significant end) of `byte` is set.
pub open spec fn bit_of(byte: u8, off: u8) -> bool {
    (byte >> off) & 1 == 1
}

/// The pixel bit at absolute position `pos` of pixel region `d`.
pub open spec fn pixel_at(d: Seq<u8>, pos: int) -> bool {
    bit_of(d[byte_index(pos)], bit_offset(pos) as u8)
}

/// The upper half-panel pixel at (row, col) of pixel region `d`.
pub open spec fn upper_pixel(d: Seq<u8>, row: int, col: int) -> bool {
    pixel_at(d, upper_pos(row, col))
}

/// The lower half-panel pixel at (row, col) of pixel region `d`.
pub open spec fn lower_pixel(d: Seq<u8>, row: int, col: int) -> bool {
    pixel_at(d, lower_pos(row, col))
}

/// One still image: a header followed by packed 1-bit pixel data.
pub struct Frame {
    data: Vec<u8>,
}

impl Frame {
    /// The whole blob, header included.
    pub closed spec fn blob(self) -> Seq<u8> {
        self.data@
    }

    /// The packed pixel region: everything after the header.
    pub open spec fn pixels(self) -> Seq<u8> {
        self.blob().skip(HEADER_BYTES as int)
    }

    /// The blob is large enough that every (row, col) decode is in bounds.
    pub open spec fn wf(self) -> bool {
        self.blob().len() >= MIN_FRAME_BYTES
    }

    /// Wraps a blob as a frame; an undersized blob is rejected rather than
    /// decoded out of bounds.
    pub fn new(data: Vec<u8>) -> (r: Option<Frame>)
        ensures
            r is Some <==> data@.len() >= MIN_FRAME_BYTES,
            r matches Some(f) ==> f.blob() == data@ && f.wf(),
    {
        if data.len() >= MIN_FRAME_BYTES {
            Some(Frame { data })
        } else {
            None
        }
    }

    /// Decodes the upper half-panel pixel at (row, col).
    pub fn upper_bit(&self, row: usize, col: usize) -> (r: bool)
        requires
            self.wf(),
            row < ROWS,
            col < COLS,
        ensures
            r == upper_pixel(self.pixels(), row as int, col as int),
    {
        let pos: usize = row * 64 + col;
        self.bit_at(pos)
    }

    /// Decodes the lower half-panel pixel at (row, col).
    pub fn lower_bit(&self, row: usize, col: usize) -> (r: bool)
        requires
            self.wf(),
            row < ROWS,
            col < COLS,
        ensures
            r == lower_pixel(self.pixels(), row as int, col as int),
    {
        let pos: usize = row * 2 * 64 + col;
        self.bit_at(pos)
    }

    /// Reads the pixel bit at an absolute bit position, via the backward
    /// byte-index scheme.
    fn bit_at(&self, pos: usize) -> (r: bool)
        requires
            self.wf(),
            pos < 2048,
        ensures
            r == pixel_at(self.pixels(), pos as int),
    {
        let idx: usize = PIXEL_BASE - pos / 8;
        let off: u8 = (pos % 8) as u8;
        let byte: u8 = self.data[HEADER_BYTES + idx];
        assert(self.pixels()[idx as int] == self.blob()[HEADER_BYTES + idx]);
        (byte >> off) & 1 == 1
    }
}

/// No two (row, col) pairs of the upper plane share an absolute bit position.
pub proof fn lemma_upper_pos_injective(r1: int, c1: int, r2: int, c2: int)
    requires
        0 <= r1 < 16,
        0 <= c1 < 64,
        0 <= r2 < 16,
        0 <= c2 < 64,
        upper_pos(r1, c1) == upper_pos(r2, c2),
    ensures
        r1 == r2 && c1 == c2,
{
}

/// No two (row, col) pairs of the lower plane share an absolute bit position.
pub proof fn lemma_lower_pos_injective(r1: int, c1: int, r2: int, c2: int)
    requires
        0 <= r1 < 16,
        0 <= c1 < 64,
        0 <= r2 < 16,
        0 <= c2 < 64,
        lower_pos(r1, c1) == lower_pos(r2, c2),
    ensures
        r1 == r2 && c1 == c2,
{
}

/// The (byte index, bit offset) pair determines the absolute bit position:
/// within one plane, distinct positions never alias the same source bit.
pub proof fn lemma_byte_bit_injective(p1: int, p2: int)
    requires
        0 <= p1,
        0 <= p2,
        byte_index(p1) == byte_index(p2),
        bit_offset(p1) == bit_offset(p2),
    ensures
        p1 == p2,
{
    assert(p1 == 8 * (p1 / 8) + p1 % 8);
    assert(p2 == 8 * (p2 / 8) + p2 % 8);
}

} // verus!
