//! The geometric half of the wire transform.
//!
//! The panel wants the frame rotated by -90 degrees and then split by column
//! between its two controllers. A source pixel at (x, y) of a w x h grid
//! lands at rotated coordinate (y, w - 1 - x) of an h x w grid; columns
//! [0, cut) of every rotated row go to controller 0, columns [cut, h) to
//! controller 1, row-major.

use vstd::prelude::*;

use vstd::arithmetic::div_mod::lemma_fundamental_div_mod;
use vstd::arithmetic::div_mod::lemma_fundamental_div_mod_converse;

use crate::packing::pack_spec;

verus! {

/// Where a -90 degree rotation of a grid of width `w` sends the pixel at
/// (x, y): to (y, w - 1 - x) of the rotated grid, whose width is the source
/// height.
pub open spec fn rotate_coord(x: int, y: int, w: int) -> (int, int) {
    (y, w - 1 - x)
}

/// The -90 degree rotation of a row-major w x h grid: an h x w grid (width
/// h), row-major, in which rotated cell (nx, ny) shows source cell
/// (w - 1 - ny, nx).
pub open spec fn rotate_grid(g: Seq<u8>, w: int, h: int) -> Seq<u8> {
    Seq::new((w * h) as nat, |j: int| g[(j % h) * w + (w - 1 - j / h)])
}

/// The left partition of a row-major grid of width `rw` and `nrows` rows:
/// columns [0, cut) of every row, row-major.
pub open spec fn split_left(rot: Seq<u8>, rw: int, nrows: int, cut: int) -> Seq<u8>
    decreases nrows,
{
    if nrows <= 0 {
        Seq::empty()
    } else {
        split_left(rot, rw, nrows - 1, cut) + rot.subrange((nrows - 1) * rw, (nrows - 1) * rw
            + cut)
    }
}

/// The right partition of a row-major grid of width `rw` and `nrows` rows:
/// columns [cut, rw) of every row, row-major.
pub open spec fn split_right(rot: Seq<u8>, rw: int, nrows: int, cut: int) -> Seq<u8>
    decreases nrows,
{
    if nrows <= 0 {
        Seq::empty()
    } else {
        split_right(rot, rw, nrows - 1, cut) + rot.subrange((nrows - 1) * rw + cut, (nrows - 1)
            * rw + rw)
    }
}

/// The grid rotation realizes the coordinate map `rotate_coord`: the source
/// pixel (x, y) is found at rotated coordinate (y, w - 1 - x).
pub proof fn lemma_rotate_grid_coord(g: Seq<u8>, w: int, h: int, x: int, y: int)
    requires
        g.len() == w * h,
        0 <= x < w,
        0 <= y < h,
    ensures
        rotate_grid(g, w, h)[(w - 1 - x) * h + y] == g[y * w + x],
{
    let j = (w - 1 - x) * h + y;
    assert(0 <= j < w * h) by (nonlinear_arith)
        requires
            j == (w - 1 - x) * h + y,
            0 <= x < w,
            0 <= y < h,
    ;
    lemma_fundamental_div_mod_converse(j, h, w - 1 - x, y);
}

/// Four successive -90 degree rotations of any coordinate of a w x h grid
/// lead back to the original coordinate.
pub proof fn lemma_rotate_coord_four_times(x: int, y: int, w: int, h: int)
    requires
        0 <= x < w,
        0 <= y < h,
    ensures
        ({
            let (x1, y1) = rotate_coord(x, y, w);
            let (x2, y2) = rotate_coord(x1, y1, h);
            let (x3, y3) = rotate_coord(x2, y2, w);
            let (x4, y4) = rotate_coord(x3, y3, h);
            x4 == x && y4 == y
        }),
{
}

/// Two successive -90 degree rotations turn the grid upside down: they
/// reverse the row-major sequence.
pub proof fn lemma_rotate_grid_twice(g: Seq<u8>, w: int, h: int)
    requires
        g.len() == w * h,
        0 < w,
        0 < h,
    ensures
        rotate_grid(rotate_grid(g, w, h), h, w) == g.reverse(),
{
    let r1 = rotate_grid(g, w, h);
    let r2 = rotate_grid(r1, h, w);
    assert(r2.len() == h * w);
    assert(h * w == w * h) by (nonlinear_arith);
    assert forall|k: int| 0 <= k < w * h implies r2[k] == g[w * h - 1 - k] by {
        lemma_fundamental_div_mod(k, w);
        let q = k / w;
        let r = k % w;
        assert(0 <= r < w);
        assert(0 <= q < h) by (nonlinear_arith)
            requires
                k == w * q + r,
                0 <= r < w,
                0 <= k < w * h,
                0 < w,
        ;
        let j = r * h + (h - 1 - q);
        assert(0 <= j < h * w) by (nonlinear_arith)
            requires
                j == r * h + (h - 1 - q),
                0 <= r < w,
                0 <= q < h,
        ;
        lemma_fundamental_div_mod_converse(j, h, r, h - 1 - q);
        assert(r2[k] == r1[j]);
        assert(r1[j] == g[(h - 1 - q) * w + (w - 1 - r)]);
        assert((h - 1 - q) * w + (w - 1 - r) == w * h - 1 - k) by (nonlinear_arith)
            requires
                k == w * q + r,
        ;
    }
    assert(g.reverse().len() == g.len());
    assert(r2 =~= g.reverse());
}

/// Four successive -90 degree rotations reproduce the original grid exactly,
/// for any rectangular dimensions.
pub proof fn lemma_rotate_grid_four_times(g: Seq<u8>, w: int, h: int)
    requires
        g.len() == w * h,
        0 < w,
        0 < h,
    ensures
        rotate_grid(rotate_grid(rotate_grid(rotate_grid(g, w, h), h, w), w, h), h, w) == g,
{
    let r2 = rotate_grid(rotate_grid(g, w, h), h, w);
    lemma_rotate_grid_twice(g, w, h);
    assert(r2.len() == w * h) by (nonlinear_arith)
        requires
            r2 == g.reverse(),
            g.len() == w * h,
    ;
    lemma_rotate_grid_twice(r2, w, h);
    assert(g.reverse().reverse() =~= g);
}

/// The two partitions have `cut` and `rw - cut` pixels per row respectively.
pub proof fn lemma_split_lengths(rot: Seq<u8>, rw: int, nrows: int, cut: int)
    requires
        0 <= cut <= rw,
        0 <= nrows,
        rot.len() >= nrows * rw,
    ensures
        split_left(rot, rw, nrows, cut).len() == nrows * cut,
        split_right(rot, rw, nrows, cut).len() == nrows * (rw - cut),
    decreases nrows,
{
    if nrows > 0 {
        assert((nrows - 1) * rw >= 0 && (nrows - 1) * rw + rw == nrows * rw && (nrows - 1) * cut
            + cut == nrows * cut && (nrows - 1) * (rw - cut) + (rw - cut) == nrows * (rw - cut)
            && (nrows - 1) * rw + cut <= nrows * rw) by (nonlinear_arith)
            requires
                0 <= cut <= rw,
                1 <= nrows,
        ;
        lemma_split_lengths(rot, rw, nrows - 1, cut);
    }
}

/// Rotating a uniformly colored grid yields a uniformly colored grid.
pub proof fn lemma_rotate_grid_uniform(g: Seq<u8>, w: int, h: int, c: u8)
    requires
        g.len() == w * h,
        0 < w,
        0 < h,
        forall|i: int| 0 <= i < g.len() ==> g[i] == c,
    ensures
        rotate_grid(g, w, h).len() == w * h,
        forall|k: int| 0 <= k < w * h ==> rotate_grid(g, w, h)[k] == c,
{
    assert forall|k: int| 0 <= k < w * h implies rotate_grid(g, w, h)[k] == c by {
        lemma_fundamental_div_mod(k, h);
        let q = k / h;
        let r = k % h;
        assert(0 <= r < h);
        assert(0 <= q < w) by (nonlinear_arith)
            requires
                k == h * q + r,
                0 <= r < h,
                0 <= k < w * h,
                0 < h,
        ;
        assert(0 <= r * w + (w - 1 - q) < w * h) by (nonlinear_arith)
            requires
                0 <= r < h,
                0 <= q < w,
        ;
    }
}

/// Both partitions of a uniformly colored grid are uniformly colored.
pub proof fn lemma_split_uniform(rot: Seq<u8>, rw: int, nrows: int, cut: int, c: u8)
    requires
        0 <= cut <= rw,
        0 <= nrows,
        rot.len() >= nrows * rw,
        forall|i: int| 0 <= i < rot.len() ==> rot[i] == c,
    ensures
        forall|i: int|
            0 <= i < split_left(rot, rw, nrows, cut).len() ==> split_left(rot, rw, nrows, cut)[i]
                == c,
        forall|i: int|
            0 <= i < split_right(rot, rw, nrows, cut).len() ==> split_right(
                rot,
                rw,
                nrows,
                cut,
            )[i] == c,
    decreases nrows,
{
    if nrows > 0 {
        assert((nrows - 1) * rw >= 0 && (nrows - 1) * rw + rw == nrows * rw && (nrows - 1) * rw
            + cut <= nrows * rw) by (nonlinear_arith)
            requires
                0 <= cut <= rw,
                1 <= nrows,
        ;
        lemma_split_uniform(rot, rw, nrows - 1, cut, c);
        let pl = split_left(rot, rw, nrows - 1, cut);
        let bl = rot.subrange((nrows - 1) * rw, (nrows - 1) * rw + cut);
        assert forall|i: int| 0 <= i < split_left(rot, rw, nrows, cut).len() implies split_left(
            rot,
            rw,
            nrows,
            cut,
        )[i] == c by {
            if i < pl.len() {
                assert(split_left(rot, rw, nrows, cut)[i] == pl[i]);
            } else {
                assert(split_left(rot, rw, nrows, cut)[i] == bl[i - pl.len()]);
            }
        }
        let pr = split_right(rot, rw, nrows - 1, cut);
        let br = rot.subrange((nrows - 1) * rw + cut, (nrows - 1) * rw + rw);
        assert forall|i: int| 0 <= i < split_right(rot, rw, nrows, cut).len() implies split_right(
            rot,
            rw,
            nrows,
            cut,
        )[i] == c by {
            if i < pr.len() {
                assert(split_right(rot, rw, nrows, cut)[i] == pr[i]);
            } else {
                assert(split_right(rot, rw, nrows, cut)[i] == br[i - pr.len()]);
            }
        }
    }
}

/// Packing the two partitions of a uniformly filled frame gives payloads
/// made of one repeated byte: the fill color in both nibbles. This pins the
/// whole wire image of a uniform fill.
pub proof fn lemma_uniform_fill_payloads(g: Seq<u8>, w: int, h: int, cut: int, c: u8)
    requires
        g.len() == w * h,
        0 < w,
        0 < cut <= h,
        c < 16,
        forall|i: int| 0 <= i < g.len() ==> g[i] == c,
        (w * cut) % 2 == 0,
        (w * (h - cut)) % 2 == 0,
    ensures
        pack_spec(split_left(rotate_grid(g, w, h), h, w, cut)).len() == (w * cut) / 2,
        forall|j: int|
            0 <= j < (w * cut) / 2 ==> pack_spec(split_left(rotate_grid(g, w, h), h, w, cut))[j]
                == ((c << 4) | c),
        pack_spec(split_right(rotate_grid(g, w, h), h, w, cut)).len() == (w * (h - cut)) / 2,
        forall|j: int|
            0 <= j < (w * (h - cut)) / 2 ==> pack_spec(
                split_right(rotate_grid(g, w, h), h, w, cut),
            )[j] == ((c << 4) | c),
{
    let rot = rotate_grid(g, w, h);
    lemma_rotate_grid_uniform(g, w, h, c);
    assert(rot.len() == w * h && w * h == h * w) by (nonlinear_arith)
        requires
            rot.len() == w * h,
    ;
    lemma_split_lengths(rot, h, w, cut);
    lemma_split_uniform(rot, h, w, cut, c);
    crate::packing::lemma_pack_uniform(split_left(rot, h, w, cut), c);
    crate::packing::lemma_pack_uniform(split_right(rot, h, w, cut), c);
}

/// Concatenating row `r` of the left partition with row `r` of the right
/// partition reconstructs row `r` of the grid, for every row.
pub proof fn lemma_split_row_reconstruct(rot: Seq<u8>, rw: int, nrows: int, cut: int, r: int)
    requires
        0 <= cut <= rw,
        0 <= r < nrows,
        rot.len() >= nrows * rw,
    ensures
        split_left(rot, rw, nrows, cut).subrange(r * cut, (r + 1) * cut) + split_right(
            rot,
            rw,
            nrows,
            cut,
        ).subrange(r * (rw - cut), (r + 1) * (rw - cut)) == rot.subrange(r * rw, (r + 1) * rw),
    decreases nrows,
{
    assert((nrows - 1) * rw >= 0 && (nrows - 1) * rw + rw == nrows * rw && (nrows - 1) * cut + cut
        == nrows * cut && (nrows - 1) * (rw - cut) + (rw - cut) == nrows * (rw - cut) && 0 <= r
        * cut && 0 <= r * (rw - cut) && 0 <= r * rw && (r + 1) * cut == r * cut + cut && (r + 1)
        * (rw - cut) == r * (rw - cut) + (rw - cut) && (r + 1) * rw == r * rw + rw && (r + 1) * rw
        <= nrows * rw && (r + 1) * cut <= nrows * cut && (r + 1) * (rw - cut) <= nrows * (rw
        - cut)) by (nonlinear_arith)
        requires
            0 <= cut <= rw,
            0 <= r < nrows,
    ;
    lemma_split_lengths(rot, rw, nrows, cut);
    lemma_split_lengths(rot, rw, nrows - 1, cut);
    let la = split_left(rot, rw, nrows, cut);
    let lb = split_right(rot, rw, nrows, cut);
    if r == nrows - 1 {
        assert(la.subrange(r * cut, (r + 1) * cut) =~= rot.subrange(r * rw, r * rw + cut));
        assert(lb.subrange(r * (rw - cut), (r + 1) * (rw - cut)) =~= rot.subrange(
            r * rw + cut,
            r * rw + rw,
        ));
        assert(rot.subrange(r * rw, r * rw + cut) + rot.subrange(r * rw + cut, r * rw + rw)
            =~= rot.subrange(r * rw, (r + 1) * rw));
    } else {
        lemma_split_row_reconstruct(rot, rw, nrows - 1, cut, r);
        assert((r + 1) * cut <= (nrows - 1) * cut && (r + 1) * (rw - cut) <= (nrows - 1) * (rw
            - cut)) by (nonlinear_arith)
            requires
                r + 1 <= nrows - 1,
                cut >= 0,
                rw - cut >= 0,
        ;
        assert(la.subrange(r * cut, (r + 1) * cut) =~= split_left(rot, rw, nrows - 1, cut)
            .subrange(r * cut, (r + 1) * cut));
        assert(lb.subrange(r * (rw - cut), (r + 1) * (rw - cut)) =~= split_right(
            rot,
            rw,
            nrows - 1,
            cut,
        ).subrange(r * (rw - cut), (r + 1) * (rw - cut)));
    }
}

} // verus!
