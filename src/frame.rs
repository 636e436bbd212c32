//! Framebuffer layout and the scan order of a render.
//!
//! Pixels are addressed in image space: `col` counts from the left edge and
//! `row` from the bottom edge, as the camera's `(s, t)` coordinates do. The
//! framebuffer stores one accumulated color per pixel in slots `0..width*height`,
//! and is emitted slot by slot: top row first, each row left to right.

use vstd::arithmetic::div_mod::{
    lemma_div_is_ordered, lemma_fundamental_div_mod, lemma_fundamental_div_mod_converse,
};
use vstd::prelude::*;

verus! {

/// A pixel position in image space.
#[derive(Clone, Copy, Debug, PartialEq, Eq, Structural)]
pub struct Pixel {
    /// Column, counted from the left edge.
    pub col: usize,
    /// Row, counted from the bottom edge.
    pub row: usize,
}

/// The column of the pixel stored in slot `k`.
pub open spec fn slot_col(k: int, width: int) -> int {
    k % width
}

/// The row of the pixel stored in slot `k`: slot 0 lies on the top row.
pub open spec fn slot_row(k: int, width: int, height: int) -> int {
    height - 1 - k / width
}

/// The slot that holds the pixel at `(col, row)`.
pub open spec fn slot_index(col: int, row: int, width: int, height: int) -> int {
    (height - 1 - row) * width + col
}

/// The pixel stored in slot `k`.
pub open spec fn slot_pixel(k: int, width: int, height: int) -> Pixel {
    Pixel { col: slot_col(k, width) as usize, row: slot_row(k, width, height) as usize }
}

/// A pixel lies inside an image of the given size.
pub open spec fn in_image(p: Pixel, width: int, height: int) -> bool {
    p.col < width && p.row < height
}

/// `a` comes before `b` in scan order: higher rows first, then left to right.
pub open spec fn scans_before(a: Pixel, b: Pixel) -> bool {
    a.row > b.row || (a.row == b.row && a.col < b.col)
}

/// The number of framebuffer slots of a `width` by `height` image, or `None`
/// where that count does not fit in `usize`.
pub fn pixel_count(width: usize, height: usize) -> (r: Option<usize>)
    ensures
        width * height <= usize::MAX ==> r == Some((width * height) as usize),
        width * height > usize::MAX ==> r is None,
{
    width.checked_mul(height)
}

/// The pixel whose color is stored in framebuffer slot `slot`.
pub fn pixel_at(slot: usize, width: usize, height: usize) -> (p: Pixel)
    requires
        slot < width * height,
    ensures
        p == slot_pixel(slot as int, width as int, height as int),
        in_image(p, width as int, height as int),
{
    proof {
        lemma_slot_in_image(slot as int, width as int, height as int);
    }
    Pixel { col: slot % width, row: height - 1 - slot / width }
}

/// The framebuffer slot that holds pixel `p`.
pub fn slot_of(p: Pixel, width: usize, height: usize) -> (slot: usize)
    requires
        in_image(p, width as int, height as int),
        width * height <= usize::MAX,
    ensures
        slot == slot_index(p.col as int, p.row as int, width as int, height as int),
        slot < width * height,
{
    proof {
        lemma_index_in_range(p.col as int, p.row as int, width as int, height as int);
    }
    (height - 1 - p.row) * width + p.col
}

/// Every pixel of a `width` by `height` image, in the order in which the
/// framebuffer stores and emits them.
pub fn scan_order(width: usize, height: usize) -> (order: Vec<Pixel>)
    requires
        width * height <= usize::MAX,
    ensures
        order@.len() == width * height,
        forall|k: int|
            0 <= k < order@.len() ==> #[trigger] order@[k] == slot_pixel(k, width as int, height as int),
{
    let n: usize = width * height;
    let mut order: Vec<Pixel> = Vec::with_capacity(n);
    let mut k: usize = 0;
    while k < n
        invariant
            n == width * height,
            k <= n,
            order@.len() == k,
            forall|i: int|
                0 <= i < k ==> #[trigger] order@[i] == slot_pixel(i, width as int, height as int),
        decreases n - k,
    {
        order.push(pixel_at(k, width, height));
        k += 1;
    }
    order
}

/// Each slot holds the pixel that is stored back into that same slot: no two
/// slots share a pixel, so parallel writers of distinct slots never meet.
pub proof fn lemma_slot_round_trip(k: int, width: int, height: int)
    requires
        0 <= k < width * height,
        width >= 0,
        height >= 0,
        width * height <= usize::MAX,
    ensures
        in_image(slot_pixel(k, width, height), width, height),
        slot_index(slot_col(k, width), slot_row(k, width, height), width, height) == k,
{
    lemma_slot_in_image(k, width, height);
    lemma_fundamental_div_mod(k, width);
    assert(width * (k / width) == (k / width) * width) by (nonlinear_arith);
}

/// Each pixel of the image has a slot, and that slot holds exactly this pixel.
pub proof fn lemma_pixel_round_trip(p: Pixel, width: int, height: int)
    requires
        in_image(p, width, height),
        width * height <= usize::MAX,
    ensures
        0 <= slot_index(p.col as int, p.row as int, width, height) < width * height,
        slot_pixel(slot_index(p.col as int, p.row as int, width, height), width, height) == p,
{
    lemma_index_in_range(p.col as int, p.row as int, width, height);
    let q = height - 1 - p.row;
    let k = slot_index(p.col as int, p.row as int, width, height);
    lemma_fundamental_div_mod_converse(k, width, q, p.col as int);
}

/// Slots are emitted in row-major order from the top row down: a lower slot
/// lies on a higher row, or on the same row further left.
pub proof fn lemma_scan_order(j: int, k: int, width: int, height: int)
    requires
        0 <= j < k < width * height,
        width >= 0,
        height >= 0,
        width * height <= usize::MAX,
    ensures
        scans_before(slot_pixel(j, width, height), slot_pixel(k, width, height)),
{
    lemma_slot_in_image(k, width, height);
    lemma_slot_in_image(j, width, height);
    lemma_div_is_ordered(j, k, width);
    assert(width <= width * height && height <= width * height) by (nonlinear_arith)
        requires width >= 1, height >= 1;
    lemma_fundamental_div_mod(j, width);
    lemma_fundamental_div_mod(k, width);
    if j / width == k / width {
        assert(width * (j / width) == width * (k / width));
        assert(j % width < k % width);
    }
}

proof fn lemma_slot_in_image(k: int, width: int, height: int)
    requires
        0 <= k < width * height,
        width >= 0,
        height >= 0,
    ensures
        width > 0,
        height > 0,
        0 <= k / width < height,
        0 <= k % width < width,
{
    assert(width > 0 && height > 0) by (nonlinear_arith)
        requires 0 <= k < width * height, width >= 0, height >= 0;
    assert(k / width < height) by (nonlinear_arith)
        requires 0 <= k < width * height, width > 0;
    assert(0 <= k / width) by (nonlinear_arith)
        requires 0 <= k, width > 0;
}

proof fn lemma_index_in_range(col: int, row: int, width: int, height: int)
    requires
        0 <= col < width,
        0 <= row < height,
    ensures
        0 <= slot_index(col, row, width, height) < width * height,
{
    let q = height - 1 - row;
    assert(0 <= q * width + col < width * height) by (nonlinear_arith)
        requires 0 <= q < height, 0 <= col < width;
}

} // verus!
