//! The raster of channel bytes that a render fills, and the picture made of
//! it.
//!
//! Both live in containers of outside crates: the raster in a
//! three-dimensional `ndarray` array of rows, columns and channels, the
//! picture in an RGB buffer of the `image` crate. Verus cannot look into
//! either, so each is held in a struct of its own, and what it holds is
//! spoken of through the names below. The functions that call into the two
//! crates are the private ones at the end of this file; their contracts are
//! taken on trust from the crates' sources.

use crate::viz::Color;
use vstd::prelude::*;

verus! {

/// An array of bytes with three axes: rows, columns, channels. It is an
/// `ndarray::Array3<u8>`, which Verus cannot read.
#[verifier::external_body]
pub struct Raster {
    cells: ndarray::Array3<u8>,
}

/// An RGB picture: three bytes a pixel, rows from the top, each from the
/// left. It is an `image::RgbImage`, which Verus cannot read.
#[verifier::external_body]
pub struct Picture {
    pixels: image::RgbImage,
}

/// The lengths of a raster's three axes: rows, columns, channels.
pub uninterp spec fn raster_shape(a: Raster) -> (usize, usize, usize);

/// The bytes of a raster in the order in which its array stores them.
pub uninterp spec fn raster_store(a: Raster) -> Seq<u8>;

/// Whether a raster's array is laid out row by row, the channel index
/// varying fastest.
pub uninterp spec fn raster_standard(a: Raster) -> bool;

/// A picture's width in pixels.
pub uninterp spec fn picture_width(p: Picture) -> u32;

/// A picture's height in pixels.
pub uninterp spec fn picture_height(p: Picture) -> u32;

/// The bytes that a picture was made of.
pub uninterp spec fn picture_bytes(p: Picture) -> Seq<u8>;

/// Whether an array of `rows` by `cols` pixels of three channels can be
/// made: the product of those of its axis lengths that are not zero must not
/// exceed `isize::MAX`.
pub open spec fn can_hold(rows: usize, cols: usize) -> bool {
    (if rows == 0 { 1 } else { rows as int }) * (if cols == 0 { 1 } else { cols as int }) * 3
        <= isize::MAX
}

/// The number of cells of a raster.
pub open spec fn cell_count(a: Raster) -> int {
    raster_shape(a).0 * raster_shape(a).1 * raster_shape(a).2
}

/// A raster whose stored bytes are its cells and nothing else, row by row:
/// the byte of channel `c` of the pixel in row `i` and column `j` is the one
/// at `offset(a, i, j, c)`.
pub open spec fn dense(a: Raster) -> bool {
    raster_standard(a) && raster_store(a).len() == cell_count(a)
}

/// Where a dense raster stores channel `c` of the pixel at `(i, j)`.
pub open spec fn offset(a: Raster, i: int, j: int, c: int) -> int {
    (i * raster_shape(a).1 + j) * raster_shape(a).2 + c
}

/// What `paint` leaves in the store of a dense raster of three channels.
pub open spec fn painted(store: Seq<u8>, at: int, color: Color) -> Seq<u8> {
    store.update(at, color.r).update(at + 1, color.g).update(at + 2, color.b)
}

/// Tells whether a raster of `rows` by `cols` pixels can be made.
pub fn fits(rows: usize, cols: usize) -> (b: bool)
    ensures
        b == can_hold(rows, cols),
{
    let r: usize = if rows == 0 { 1 } else { rows };
    let c: usize = if cols == 0 { 1 } else { cols };
    match r.checked_mul(c) {
        Some(pixels) => match pixels.checked_mul(3) {
            Some(cells) => cells <= isize::MAX as usize,
            None => {
                assert(r * c * 3 > isize::MAX);
                false
            },
        },
        None => {
            assert(r * c * 3 > isize::MAX) by (nonlinear_arith)
                requires
                    r * c > usize::MAX,
            ;
            false
        },
    }
}

impl Raster {
    /// A dense raster of `rows` by `cols` pixels of three channels, all zero.
    pub fn new(rows: usize, cols: usize) -> (a: Raster)
        requires
            can_hold(rows, cols),
        ensures
            raster_shape(a) == (rows, cols, 3usize),
            dense(a),
            raster_store(a) == Seq::new((rows * cols * 3) as nat, |k: int| 0u8),
    {
        array_zeros(rows, cols)
    }

    /// The lengths of the three axes.
    pub fn dim(&self) -> (d: (usize, usize, usize))
        ensures
            d == raster_shape(*self),
    {
        array_dim(self)
    }

    /// Writes the three channels of the pixel at `(row, col)`.
    pub fn paint(&mut self, row: usize, col: usize, color: Color)
        requires
            raster_shape(*old(self)).2 == 3,
            row < raster_shape(*old(self)).0,
            col < raster_shape(*old(self)).1,
        ensures
            raster_shape(*final(self)) == raster_shape(*old(self)),
            raster_standard(*final(self)) == raster_standard(*old(self)),
            raster_store(*final(self)).len() == raster_store(*old(self)).len(),
            dense(*old(self)) ==> raster_store(*final(self)) == painted(
                raster_store(*old(self)),
                offset(*old(self), row as int, col as int, 0),
                color,
            ),
    {
        array_set(self, row, col, 0, color.r);
        array_set(self, row, col, 1, color.g);
        array_set(self, row, col, 2, color.b);
    }

    /// The stored bytes.
    pub fn into_raw_vec(self) -> (raw: Vec<u8>)
        ensures
            raw@ == raster_store(self),
    {
        array_into_raw_vec(self)
    }
}

impl Picture {
    /// The width in pixels.
    pub fn width(&self) -> (w: u32)
        ensures
            w == picture_width(*self),
    {
        buffer_width(self)
    }

    /// The height in pixels.
    pub fn height(&self) -> (h: u32)
        ensures
            h == picture_height(*self),
    {
        buffer_height(self)
    }

    /// The bytes of the picture, as it was given them.
    pub fn into_raw(self) -> (raw: Vec<u8>)
        ensures
            raw@ == picture_bytes(self),
    {
        buffer_into_raw(self)
    }
}

/// `ndarray::Array3::<u8>::zeros` on the shape `(rows, cols, 3)`. ndarray
/// panics where the product of the non-zero axis lengths exceeds
/// `isize::MAX`. It fills a vector of one zero per cell and lays it out in
/// its default, row-major order.
#[verifier::external_body]
fn array_zeros(rows: usize, cols: usize) -> (a: Raster)
    requires
        can_hold(rows, cols),
    ensures
        raster_shape(a) == (rows, cols, 3usize),
        raster_standard(a),
        raster_store(a) == Seq::new((rows * cols * 3) as nat, |k: int| 0u8),
{
    Raster { cells: ndarray::Array3::<u8>::zeros((rows, cols, 3)) }
}

/// `ArrayBase::dim`: the shape as a tuple.
#[verifier::external_body]
fn array_dim(a: &Raster) -> (d: (usize, usize, usize))
    ensures
        d == raster_shape(*a),
{
    a.cells.dim()
}

/// `ArrayBase::is_standard_layout`.
#[verifier::external_body]
pub(crate) fn array_is_standard_layout(a: &Raster) -> (b: bool)
    ensures
        b == raster_standard(*a),
{
    a.cells.is_standard_layout()
}

/// Assignment through ndarray's `IndexMut` at `[i, j, c]`, which panics on an
/// index out of bounds. It writes one element in place: shape, strides and
/// the length of the storage stay. Where the layout is standard and the
/// storage holds exactly the cells, the first cell is the first stored byte
/// and the strides are those of row-major order, so the element written is
/// the one at `offset`.
#[verifier::external_body]
fn array_set(a: &mut Raster, i: usize, j: usize, c: usize, v: u8)
    requires
        i < raster_shape(*old(a)).0,
        j < raster_shape(*old(a)).1,
        c < raster_shape(*old(a)).2,
    ensures
        raster_shape(*final(a)) == raster_shape(*old(a)),
        raster_standard(*final(a)) == raster_standard(*old(a)),
        raster_store(*final(a)).len() == raster_store(*old(a)).len(),
        dense(*old(a)) ==> raster_store(*final(a)) == raster_store(*old(a)).update(
            offset(*old(a), i as int, j as int, c as int),
            v,
        ),
{
    a.cells[[i, j, c]] = v;
}

/// `Array::into_raw_vec`: the vector that backs the array, as it is.
#[verifier::external_body]
pub(crate) fn array_into_raw_vec(a: Raster) -> (raw: Vec<u8>)
    ensures
        raw@ == raster_store(a),
{
    a.cells.into_raw_vec()
}

/// `ImageBuffer::from_raw` for RGB pixels over a `Vec<u8>`. It succeeds
/// exactly where the vector holds at least three bytes for each of the
/// `width * height` pixels, and then keeps the dimensions and the vector.
#[verifier::external_body]
pub(crate) fn buffer_from_raw(width: u32, height: u32, buf: Vec<u8>) -> (p: Option<Picture>)
    ensures
        p is Some <==> 3 * width * height <= buf@.len(),
        p matches Some(q) ==> {
            &&& picture_width(q) == width
            &&& picture_height(q) == height
            &&& picture_bytes(q) == buf@
        },
{
    match image::RgbImage::from_raw(width, height, buf) {
        Some(pixels) => Some(Picture { pixels }),
        None => None,
    }
}

/// `ImageBuffer::width`.
#[verifier::external_body]
fn buffer_width(p: &Picture) -> (w: u32)
    ensures
        w == picture_width(*p),
{
    p.pixels.width()
}

/// `ImageBuffer::height`.
#[verifier::external_body]
fn buffer_height(p: &Picture) -> (h: u32)
    ensures
        h == picture_height(*p),
{
    p.pixels.height()
}

/// `ImageBuffer::into_raw`: the container that the picture was made of.
#[verifier::external_body]
fn buffer_into_raw(p: Picture) -> (raw: Vec<u8>)
    ensures
        raw@ == picture_bytes(p),
{
    p.pixels.into_raw()
}

} // verus!
