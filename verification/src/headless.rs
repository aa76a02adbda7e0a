//! Readback layout of an offscreen render target.
//!
//! Buffer copies of a texture need every row padded to the copy alignment;
//! the pixels read back are the rows with that padding removed.

use vstd::prelude::*;
use vstd::slice::slice_subrange;

verus! {

/// Bytes of one RGBA8 pixel.
pub const BYTES_PER_PIXEL: u32 = 4;

/// Alignment, in bytes, of each row of a texture-to-buffer copy.
pub const COPY_BYTES_PER_ROW_ALIGNMENT: u32 = 256;

/// A row length rounded up to the copy alignment.
pub open spec fn padded_row(unpadded: nat) -> nat {
    let a = COPY_BYTES_PER_ROW_ALIGNMENT as nat;
    if unpadded % a == 0 {
        unpadded
    } else {
        (unpadded / a + 1) * a
    }
}

/// The row bytes, padded row bytes and staging buffer size for a readback of
/// a `width` by `height` RGBA8 image.
pub open spec fn readback_layout_of(width: u32, height: u32) -> (nat, nat, nat) {
    let unpadded = width * BYTES_PER_PIXEL;
    (unpadded as nat, padded_row(unpadded as nat), padded_row(unpadded as nat) * (height as nat))
}

/// The first `rows` rows of a padded image, without padding.
pub open spec fn unpadded_rows(data: Seq<u8>, unpadded: nat, padded: nat, rows: nat) -> Seq<u8>
    decreases rows,
{
    if rows == 0 {
        Seq::empty()
    } else {
        let r = (rows - 1) as nat;
        unpadded_rows(data, unpadded, padded, r) + data.subrange(
            r * padded as int,
            r * padded + unpadded as int,
        )
    }
}

/// The row layout of a readback; the image must fit the `u32` sizes the copy uses.
pub fn readback_layout(width: u32, height: u32) -> (r: (u32, u32, u64))
    requires
        width * BYTES_PER_PIXEL <= u32::MAX,
        readback_layout_of(width, height).1 <= u32::MAX,
        readback_layout_of(width, height).2 <= u32::MAX,
    ensures
        (r.0 as nat, r.1 as nat, r.2 as nat) == readback_layout_of(width, height),
{
    let unpadded = width * BYTES_PER_PIXEL;
    let align = COPY_BYTES_PER_ROW_ALIGNMENT;
    let blocks = if unpadded % align == 0 {
        unpadded / align
    } else {
        unpadded / align + 1
    };
    assert(blocks * align == padded_row(unpadded as nat));
    let padded = blocks * align;
    assert(padded == padded_row(unpadded as nat));
    assert(padded * height <= u32::MAX);
    let size = (padded * height) as u64;
    (unpadded, padded, size)
}

/// Whether every row of a padded buffer lies inside it, with row offsets
/// that fit `u32`.
pub open spec fn rows_inside(len: nat, unpadded: nat, padded: nat, height: nat) -> bool {
    height == 0 || ((height - 1) * padded <= u32::MAX && (height - 1) * padded + unpadded <= len)
}

/// The pixels of a padded readback buffer: each of `height` rows of
/// `unpadded` bytes, taken from the start of its `padded`-byte row.
pub fn strip_row_padding(data: &[u8], unpadded: u32, padded: u32, height: u32) -> (pixels: Vec<u8>)
    requires
        unpadded <= padded,
        rows_inside(data@.len(), unpadded as nat, padded as nat, height as nat),
    ensures
        pixels@ == unpadded_rows(data@, unpadded as nat, padded as nat, height as nat),
{
    let mut pixels: Vec<u8> = Vec::new();
    let mut row: u32 = 0;
    let len = data.len();
    while row < height
        invariant
            len == data@.len(),
            row <= height,
            unpadded <= padded,
            rows_inside(data@.len(), unpadded as nat, padded as nat, height as nat),
            pixels@ == unpadded_rows(data@, unpadded as nat, padded as nat, row as nat),
        decreases height - row,
    {
        assert(row * padded <= (height - 1) * padded) by (nonlinear_arith)
            requires
                row < height,
        ;
        let offset = row * padded;
        let start = offset as usize;
        let end = start + unpadded as usize;
        let part = slice_subrange(data, start, end);
        let ghost before = pixels@;
        pixels.extend_from_slice(part);
        assert(pixels@ =~= before + part@);
        row = row + 1;
    }
    pixels
}

proof fn lemma_unpadded_rows_len(data: Seq<u8>, unpadded: nat, padded: nat, rows: nat)
    requires
        unpadded <= padded,
        padded * rows <= data.len(),
    ensures
        unpadded_rows(data, unpadded, padded, rows).len() == unpadded * rows,
    decreases rows,
{
    if rows > 0 {
        let prev = (rows - 1) as nat;
        assert(padded * prev + padded == padded * rows) by (nonlinear_arith)
            requires
                prev + 1 == rows,
        ;
        assert(unpadded * prev + unpadded == unpadded * rows) by (nonlinear_arith)
            requires
                prev + 1 == rows,
        ;
        assert(prev * padded == padded * prev) by (nonlinear_arith);
        lemma_unpadded_rows_len(data, unpadded, padded, prev);
        assert(data.subrange(prev * padded as int, prev * padded + unpadded as int).len() == unpadded);
        assert(unpadded_rows(data, unpadded, padded, rows) == unpadded_rows(data, unpadded, padded, prev)
            + data.subrange(prev * padded as int, prev * padded + unpadded as int));
    } else {
        assert(unpadded * rows == 0) by (nonlinear_arith)
            requires
                rows == 0,
        ;
    }
}

/// Stripping keeps exactly `unpadded` bytes of every row, and the bytes of
/// each row are those at the start of that row in the padded buffer.
pub proof fn law_strip_keeps_rows(data: Seq<u8>, unpadded: nat, padded: nat, rows: nat, r: nat, i: nat)
    requires
        unpadded <= padded,
        padded * rows <= data.len(),
        r < rows,
        i < unpadded,
    ensures
        unpadded_rows(data, unpadded, padded, rows).len() == unpadded * rows,
        r * padded + i < data.len(),
        unpadded_rows(data, unpadded, padded, rows)[(r * unpadded + i) as int] == data[(r * padded
            + i) as int],
    decreases rows,
{
    lemma_unpadded_rows_len(data, unpadded, padded, rows);
    let prev = (rows - 1) as nat;
    assert(padded * prev + padded == padded * rows) by (nonlinear_arith)
        requires
            prev + 1 == rows,
    ;
    assert(prev * padded == padded * prev) by (nonlinear_arith);
    assert(r * padded + padded <= padded * rows) by (nonlinear_arith)
        requires
            r < rows,
    ;
    lemma_unpadded_rows_len(data, unpadded, padded, prev);
    if r < prev {
        law_strip_keeps_rows(data, unpadded, padded, prev, r, i);
        assert(r * unpadded + i < unpadded * prev) by (nonlinear_arith)
            requires
                r < prev,
                i < unpadded,
        ;
    } else {
        assert(r * unpadded == unpadded * prev) by (nonlinear_arith)
            requires
                r == prev,
        ;
    }
}

/// The padded row is the least multiple of the copy alignment at or above the
/// row's bytes: a multiple of 256, no shorter than the row and less than 256
/// bytes longer. The row is `width * 4` bytes and the buffer holds `height`
/// padded rows.
pub proof fn law_padded_row_least_multiple(width: u32, height: u32)
    ensures
        readback_layout_of(width, height).0 == width * 4,
        readback_layout_of(width, height).1 % 256 == 0,
        readback_layout_of(width, height).0 <= readback_layout_of(width, height).1,
        readback_layout_of(width, height).1 < readback_layout_of(width, height).0 + 256,
        readback_layout_of(width, height).2 == readback_layout_of(width, height).1 * height,
{
    let u = (width * BYTES_PER_PIXEL) as nat;
    let q = u / 256;
    let r = u % 256;
    assert(u == 256 * q + r && 0 <= r < 256) by (nonlinear_arith)
        requires
            q == u / 256,
            r == u % 256,
    ;
    if r == 0 {
        assert(padded_row(u) == u);
    } else {
        assert(padded_row(u) == (q + 1) * 256);
        assert(((q + 1) * 256) % 256 == 0) by (nonlinear_arith);
    }
}

} // verus!
