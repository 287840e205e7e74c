//! The logical frame: one palette index per pixel, row-major.
//!
//! The buffer owns bounds- and palette-checked mutation. Its invariant is that
//! every cell always holds a displayable color, so the wire transform never
//! has to re-validate pixels.

use vstd::prelude::*;

use vstd::arithmetic::div_mod::lemma_fundamental_div_mod_converse;

use crate::color::{all_valid, valid_color, WHITE};
use crate::error::InkyError;
use crate::packing::{pack_pixels, pack_spec};
use crate::transform::{rotate_grid, split_left, split_right};
use crate::SPLIT_COL;

verus! {

/// A width x height grid of palette indices, stored row-major.
pub struct PixelBuffer {
    data: Vec<u8>,
    width: usize,
    height: usize,
}

impl PixelBuffer {
    /// The cells of the grid, row-major: cell (x, y) is at index `y * width + x`.
    pub closed spec fn view(&self) -> Seq<u8> {
        self.data@
    }

    /// Width of the grid in pixels.
    pub closed spec fn spec_width(&self) -> nat {
        self.width as nat
    }

    /// Height of the grid in pixels.
    pub closed spec fn spec_height(&self) -> nat {
        self.height as nat
    }

    /// The buffer invariant: the storage covers the whole grid and every cell
    /// holds a displayable color.
    pub closed spec fn wf(&self) -> bool {
        &&& self.data@.len() == self.spec_width() * self.spec_height()
        &&& all_valid(self.data@)
    }

    /// Create a buffer of the given dimensions with every cell white.
    pub fn new(width: usize, height: usize) -> (r: PixelBuffer)
        requires
            width * height <= usize::MAX,
        ensures
            r.wf(),
            r.spec_width() == width,
            r.spec_height() == height,
            r@.len() == width * height,
            forall|i: int| 0 <= i < r@.len() ==> r@[i] == WHITE,
    {
        let data = uniform_vec(width * height, WHITE);
        PixelBuffer { data, width, height }
    }

    /// Overwrite one cell, rejecting out-of-range coordinates first and then
    /// colors outside the palette; on rejection the buffer is untouched.
    pub fn set_pixel(&mut self, x: usize, y: usize, color: u8) -> (r: Result<(), InkyError>)
        requires
            old(self).wf(),
        ensures
            final(self).wf(),
            final(self).spec_width() == old(self).spec_width(),
            final(self).spec_height() == old(self).spec_height(),
            x >= old(self).spec_width() || y >= old(self).spec_height() ==> r == Err::<
                (),
                InkyError,
            >(InkyError::OutOfBounds(x, y)) && final(self)@ == old(self)@,
            x < old(self).spec_width() && y < old(self).spec_height() && !valid_color(color) ==> r
                == Err::<(), InkyError>(InkyError::InvalidColor(color)) && final(self)@ == old(
                self,
            )@,
            x < old(self).spec_width() && y < old(self).spec_height() && valid_color(color) ==> r
                == Ok::<(), InkyError>(()) && final(self)@ == old(self)@.update(
                y * old(self).spec_width() + x,
                color,
            ),
    {
        if x >= self.width || y >= self.height {
            return Err(InkyError::OutOfBounds(x, y));
        }
        if !crate::color::is_valid_color(color) {
            return Err(InkyError::InvalidColor(color));
        }
        let n: usize = self.data.len();
        proof {
            assert((y as int) * (self.width as int) + (x as int) < (self.width as int) * (
            self.height as int)) by (nonlinear_arith)
                requires
                    0 <= (x as int) < (self.width as int),
                    0 <= (y as int) < (self.height as int),
            ;
        }
        let idx: usize = y * self.width + x;
        self.data[idx] = color;
        Ok(())
    }

    /// Overwrite every cell with one color, rejecting colors outside the
    /// palette; on rejection the buffer is untouched.
    pub fn fill(&mut self, color: u8) -> (r: Result<(), InkyError>)
        requires
            old(self).wf(),
        ensures
            final(self).wf(),
            final(self).spec_width() == old(self).spec_width(),
            final(self).spec_height() == old(self).spec_height(),
            !valid_color(color) ==> r == Err::<(), InkyError>(InkyError::InvalidColor(color))
                && final(self)@ == old(self)@,
            valid_color(color) ==> r == Ok::<(), InkyError>(()) && final(self)@.len() == old(
                self,
            )@.len() && (forall|i: int| 0 <= i < final(self)@.len() ==> final(self)@[i] == color),
    {
        if !crate::color::is_valid_color(color) {
            return Err(InkyError::InvalidColor(color));
        }
        let n: usize = self.data.len();
        self.data = uniform_vec(n, color);
        Ok(())
    }

    /// Rotate the frame by -90 degrees, split the rotated grid by column at
    /// `SPLIT_COL`, and pack each partition at two pixels per byte.
    ///
    /// The first sequence carries the left partition (controller 0), the
    /// second the right partition (controller 1).
    pub fn rotate_and_split(&self) -> (r: (Vec<u8>, Vec<u8>))
        requires
            self.wf(),
            self.spec_height() >= SPLIT_COL,
        ensures
            r.0@ == pack_spec(
                split_left(
                    rotate_grid(self@, self.spec_width() as int, self.spec_height() as int),
                    self.spec_height() as int,
                    self.spec_width() as int,
                    SPLIT_COL as int,
                ),
            ),
            r.1@ == pack_spec(
                split_right(
                    rotate_grid(self@, self.spec_width() as int, self.spec_height() as int),
                    self.spec_height() as int,
                    self.spec_width() as int,
                    SPLIT_COL as int,
                ),
            ),
    {
        let w: usize = self.width;
        let h: usize = self.height;
        let n: usize = self.data.len();
        let ghost g: Seq<u8> = self.data@;
        let ghost gw: int = w as int;
        let ghost gh: int = h as int;
        let rw: usize = h;  // rotated width
        let rh: usize = w;  // rotated height
        proof {
            assert(gw * gh == n && (rh as int) * (rw as int) == n) by (nonlinear_arith)
                requires
                    g.len() == gw * gh,
                    n == g.len(),
                    rw == gh,
                    rh == gw,
            ;
        }
        // Rotate -90 degrees: rotated cell (nx, ny) takes source cell
        // (w - 1 - ny, nx).
        let mut rotated: Vec<u8> = Vec::new();
        let mut ny: usize = 0;
        while ny < rh
            invariant
                self.wf(),
                g == self.data@,
                gw == w,
                gh == h,
                rw == h,
                rh == w,
                n == g.len(),
                gw * gh == n,
                (rh as int) * (rw as int) == n,
                ny <= rh,
                rotated@.len() == (ny as int) * (rw as int),
                forall|k: int|
                    0 <= k < rotated@.len() ==> rotated@[k] == rotate_grid(g, gw, gh)[k],
            decreases rh - ny,
        {
            let mut nx: usize = 0;
            proof {
                assert((ny as int) * (rw as int) + (rw as int) <= (rh as int) * (rw as int))
                    by (nonlinear_arith)
                    requires
                        0 <= (ny as int) < (rh as int),
                ;
            }
            while nx < rw
                invariant
                    self.wf(),
                    g == self.data@,
                    gw == w,
                    gh == h,
                    rw == h,
                    rh == w,
                    n == g.len(),
                    gw * gh == n,
                    (rh as int) * (rw as int) == n,
                    ny < rh,
                    nx <= rw,
                    (ny as int) * (rw as int) + (rw as int) <= n,
                    rotated@.len() == (ny as int) * (rw as int) + (nx as int),
                    forall|k: int|
                        0 <= k < rotated@.len() ==> rotated@[k] == rotate_grid(g, gw, gh)[k],
                decreases rw - nx,
            {
                proof {
                    assert((nx as int) * gw + (gw - 1 - (ny as int)) < gw * gh && 0 <= (nx as int)
                        * gw) by (nonlinear_arith)
                        requires
                            0 <= (nx as int) < gh,
                            0 <= (ny as int) < gw,
                            rw == gh,
                            rh == gw,
                    ;
                }
                let src: usize = nx * w + (w - 1 - ny);
                rotated.push(self.data[src]);
                proof {
                    let j = (ny as int) * (rw as int) + (nx as int);
                    lemma_fundamental_div_mod_converse(j, gh, ny as int, nx as int);
                    assert(0 <= j < gw * gh);
                    assert(rotate_grid(g, gw, gh)[j] == g[(nx as int) * gw + (gw - 1 - (
                    ny as int))]);
                }
                nx = nx + 1;
            }
            proof {
                assert((ny as int + 1) * (rw as int) == (ny as int) * (rw as int) + (rw as int))
                    by (nonlinear_arith);
            }
            ny = ny + 1;
        }
        proof {
            assert(rotated@ =~= rotate_grid(g, gw, gh));
        }
        let ghost rot: Seq<u8> = rotated@;
        let rn: usize = rotated.len();
        let ghost grw: int = rw as int;
        let ghost cut: int = SPLIT_COL as int;
        // Split each rotated row at SPLIT_COL: left columns to controller 0,
        // right columns to controller 1.
        let mut pixels_a: Vec<u8> = Vec::new();
        let mut pixels_b: Vec<u8> = Vec::new();
        let mut row: usize = 0;
        while row < rh
            invariant
                rot == rotated@,
                rot.len() == (rh as int) * grw,
                rn == rot.len(),
                grw == rw,
                SPLIT_COL <= rw,
                row <= rh,
                pixels_a@ == split_left(rot, grw, row as int, cut),
                pixels_b@ == split_right(rot, grw, row as int, cut),
                cut == SPLIT_COL,
            decreases rh - row,
        {
            proof {
                assert((row as int) * grw + grw <= (rh as int) * grw && 0 <= (row as int) * grw)
                    by (nonlinear_arith)
                    requires
                        0 <= (row as int) < (rh as int),
                        0 <= grw,
                ;
            }
            let base: usize = row * rw;
            let mut col: usize = 0;
            while col < SPLIT_COL
                invariant
                    rot == rotated@,
                    rot.len() == (rh as int) * grw,
                    rn == rot.len(),
                    grw == rw,
                    SPLIT_COL <= rw,
                    row < rh,
                    col <= SPLIT_COL,
                    base == (row as int) * grw,
                    base + rw <= rot.len(),
                    pixels_a@ == split_left(rot, grw, row as int, cut) + rot.subrange(
                        base as int,
                        base + col,
                    ),
                    pixels_b@ == split_right(rot, grw, row as int, cut),
                    cut == SPLIT_COL,
                decreases SPLIT_COL - col,
            {
                pixels_a.push(rotated[base + col]);
                proof {
                    assert(pixels_a@ =~= split_left(rot, grw, row as int, cut) + rot.subrange(
                        base as int,
                        base + col + 1,
                    ));
                }
                col = col + 1;
            }
            let mut colb: usize = SPLIT_COL;
            while colb < rw
                invariant
                    rot == rotated@,
                    rot.len() == (rh as int) * grw,
                    rn == rot.len(),
                    grw == rw,
                    SPLIT_COL <= colb <= rw,
                    row < rh,
                    base == (row as int) * grw,
                    base + rw <= rot.len(),
                    pixels_a@ == split_left(rot, grw, row as int, cut) + rot.subrange(
                        base as int,
                        base + cut,
                    ),
                    pixels_b@ == split_right(rot, grw, row as int, cut) + rot.subrange(
                        base + cut,
                        base + colb,
                    ),
                    cut == SPLIT_COL,
                decreases rw - colb,
            {
                pixels_b.push(rotated[base + colb]);
                proof {
                    assert(pixels_b@ =~= split_right(rot, grw, row as int, cut) + rot.subrange(
                        base + cut,
                        base + colb + 1,
                    ));
                }
                colb = colb + 1;
            }
            proof {
                assert(split_left(rot, grw, row as int + 1, cut) == split_left(
                    rot,
                    grw,
                    row as int,
                    cut,
                ) + rot.subrange((row as int) * grw, (row as int) * grw + cut));
                assert(split_right(rot, grw, row as int + 1, cut) == split_right(
                    rot,
                    grw,
                    row as int,
                    cut,
                ) + rot.subrange((row as int) * grw + cut, (row as int) * grw + grw));
            }
            row = row + 1;
        }
        let out_a = pack_pixels(pixels_a.as_slice());
        let out_b = pack_pixels(pixels_b.as_slice());
        (out_a, out_b)
    }

    /// Read one cell, rejecting out-of-range coordinates.
    pub fn get_pixel(&self, x: usize, y: usize) -> (r: Result<u8, InkyError>)
        requires
            self.wf(),
        ensures
            x >= self.spec_width() || y >= self.spec_height() ==> r == Err::<u8, InkyError>(
                InkyError::OutOfBounds(x, y),
            ),
            x < self.spec_width() && y < self.spec_height() ==> r == Ok::<u8, InkyError>(
                self@[y * self.spec_width() + x],
            ),
    {
        if x >= self.width || y >= self.height {
            return Err(InkyError::OutOfBounds(x, y));
        }
        let n: usize = self.data.len();
        proof {
            assert((y as int) * (self.width as int) + (x as int) < (self.width as int) * (
            self.height as int)) by (nonlinear_arith)
                requires
                    0 <= (x as int) < (self.width as int),
                    0 <= (y as int) < (self.height as int),
            ;
        }
        let idx: usize = y * self.width + x;
        Ok(self.data[idx])
    }
}

/// Build a vector of `len` copies of `value`.
fn uniform_vec(len: usize, value: u8) -> (r: Vec<u8>)
    ensures
        r@.len() == len,
        forall|i: int| 0 <= i < len ==> r@[i] == value,
{
    let mut v: Vec<u8> = Vec::new();
    let mut i: usize = 0;
    while i < len
        invariant
            i <= len,
            v@.len() == i,
            forall|j: int| 0 <= j < i ==> v@[j] == value,
        decreases len - i,
    {
        v.push(value);
        i = i + 1;
    }
    v
}

} // verus!
