//! Geometric primitives: pixel locations, extents and axis-aligned regions,
//! together with the row-major index arithmetic the image operations build on.

use vstd::prelude::*;
use vstd::arithmetic::div_mod::{
    lemma_div_pos_is_pos, lemma_fundamental_div_mod, lemma_fundamental_div_mod_converse,
    lemma_mod_bound, lemma_multiply_divide_lt,
};
use vstd::arithmetic::mul::lemma_mul_is_commutative;

verus! {

/// A location on an image, given as non-negative x and y coordinates.
///
/// A location carries no bounds of its own; whether it is valid is always
/// relative to a [`Dim`] or [`Region`] supplied by the caller.
#[derive(Debug, Clone, Copy, PartialEq, Eq, Structural)]
pub struct Loc {
    /// The x-coordinate of the location.
    pub x: u32,
    /// The y-coordinate of the location.
    pub y: u32,
}

/// The dimensions of an image or region: a width and a height in pixels.
#[derive(Debug, Clone, Copy, PartialEq, Eq, Structural)]
pub struct Dim {
    /// The width aspect of this dimension.
    pub w: u32,
    /// The height aspect of this dimension.
    pub h: u32,
}

/// An axis-aligned rectangle, specified by a top-left [`Loc`] and a [`Dim`].
///
/// Membership of a location in a region is left-inclusive and
/// right-exclusive on both axes.
#[derive(Debug, Clone, Copy, PartialEq, Eq, Structural)]
pub struct Region {
    /// The top left corner of the region.
    pub l: Loc,
    /// The dimensions of the region.
    pub d: Dim,
}

/// Whether the point `(x, y)` lies inside `region`: inclusive at the
/// top-left edges, exclusive at the far edges.
pub open spec fn coords_inside(x: int, y: int, region: Region) -> bool {
    &&& region.l.x <= x < region.l.x + region.d.w
    &&& region.l.y <= y < region.l.y + region.d.h
}

/// The x-coordinate recovered from a row-major index under width `d.w`.
pub open spec fn index_to_x(i: int, d: Dim) -> int {
    i % (d.w as int)
}

/// The y-coordinate recovered from a row-major index under width `d.w`.
pub open spec fn index_to_y(i: int, d: Dim) -> int {
    i / (d.w as int)
}

impl Loc {
    /// The row-major index of this location under dimensions `d`.
    pub open spec fn lin_index(self, d: Dim) -> int {
        self.x + self.y * d.w
    }

    /// Whether this location lies inside `region`.
    pub open spec fn spec_inside(self, region: Region) -> bool {
        coords_inside(self.x as int, self.y as int, region)
    }

    /// Returns the location recovered from a one-dimensional row-major index
    /// under the given dimensions.
    pub fn from_index(idx: usize, dimension: Dim) -> (r: Self)
        requires
            idx <= u32::MAX,
            dimension.w > 0,
        ensures
            r.x == index_to_x(idx as int, dimension),
            r.y == index_to_y(idx as int, dimension),
    {
        let i: u32 = idx as u32;
        Loc { x: i % dimension.w, y: i / dimension.w }
    }

    /// Returns the one-dimensional row-major index of this location under
    /// the given dimensions.
    pub fn as_index(&self, dimension: Dim) -> (r: usize)
        requires
            self.x + self.y * dimension.w <= u32::MAX,
        ensures
            r == self.lin_index(dimension),
    {
        let i: u32 = self.x + self.y * dimension.w;
        i as usize
    }

    /// Checks whether this location falls inside the given region.
    ///
    /// The test is left-inclusive but right-exclusive on both axes.
    pub fn inside_region(&self, region: Region) -> (r: bool)
        ensures
            r == self.spec_inside(region),
    {
        let x: u64 = self.x as u64;
        let y: u64 = self.y as u64;

        let cx: u64 = region.l.x as u64;
        let cy: u64 = region.l.y as u64;
        let w: u64 = region.d.w as u64;
        let h: u64 = region.d.h as u64;

        x >= cx && x < cx + w && y >= cy && y < cy + h
    }

    /// Translates this location by a width and height offset.
    pub fn add_dim(self, rhs: Dim) -> (r: Self)
        requires
            self.x + rhs.w <= u32::MAX,
            self.y + rhs.h <= u32::MAX,
        ensures
            r.x == self.x + rhs.w,
            r.y == self.y + rhs.h,
    {
        Loc { x: self.x + rhs.w, y: self.y + rhs.h }
    }

    /// Translates this location by another location's coordinates.
    pub fn add_loc(self, rhs: Loc) -> (r: Self)
        requires
            self.x + rhs.x <= u32::MAX,
            self.y + rhs.y <= u32::MAX,
        ensures
            r.x == self.x + rhs.x,
            r.y == self.y + rhs.y,
    {
        Loc { x: self.x + rhs.x, y: self.y + rhs.y }
    }
}

impl Default for Loc {
    /// Returns the origin location.
    fn default() -> (r: Self)
        ensures
            r == (Loc { x: 0, y: 0 }),
    {
        Loc { x: 0, y: 0 }
    }
}

impl Dim {
    /// Creates a square dimension.
    pub fn square(side: u32) -> (r: Self)
        ensures
            r.w == side,
            r.h == side,
    {
        Dim { w: side, h: side }
    }

    /// Expands a dimension by the given amount on both axes.
    pub fn expand(self, amount: u32) -> (r: Self)
        requires
            self.w + amount <= u32::MAX,
            self.h + amount <= u32::MAX,
        ensures
            r.w == self.w + amount,
            r.h == self.h + amount,
    {
        Dim { w: self.w + amount, h: self.h + amount }
    }
}

impl Default for Dim {
    /// Returns the empty dimension.
    fn default() -> (r: Self)
        ensures
            r == (Dim { w: 0, h: 0 }),
    {
        Dim { w: 0, h: 0 }
    }
}

impl Region {
    /// Makes a region of the given dimensions anchored at the top left corner.
    pub fn from_top_left(dim: Dim) -> (r: Self)
        ensures
            r == (Region { l: Loc { x: 0, y: 0 }, d: dim }),
    {
        Region { l: Loc { x: 0, y: 0 }, d: dim }
    }

    /// This region with each axis of its dimension clamped so that its far
    /// corner does not pass the far edge of `d`.
    pub open spec fn clamped_to(self, d: Dim) -> Region {
        Region {
            l: self.l,
            d: Dim {
                w: if self.d.w <= d.w - self.l.x {
                    self.d.w
                } else {
                    (d.w - self.l.x) as u32
                },
                h: if self.d.h <= d.h - self.l.y {
                    self.d.h
                } else {
                    (d.h - self.l.y) as u32
                },
            },
        }
    }
}

/// Law: recovering a location from a row-major index and mapping it back
/// yields the same index, for every index within the pixel count of the
/// dimensions; the recovered location lies inside those dimensions.
pub proof fn lemma_index_roundtrip(i: int, d: Dim)
    requires
        d.w > 0,
        0 <= i < d.w * d.h,
    ensures
        0 <= index_to_x(i, d) < d.w,
        0 <= index_to_y(i, d) < d.h,
        index_to_x(i, d) + index_to_y(i, d) * d.w == i,
{
    lemma_mod_bound(i, d.w as int);
    lemma_div_pos_is_pos(i, d.w as int);
    lemma_multiply_divide_lt(i, d.w as int, d.h as int);
    lemma_fundamental_div_mod(i, d.w as int);
    lemma_mul_is_commutative(d.w as int, index_to_y(i, d));
}

/// Law: the row-major index of a location whose x-coordinate fits the width
/// decomposes back into that location's coordinates.
pub proof fn lemma_loc_index_roundtrip(l: Loc, d: Dim)
    requires
        l.x < d.w,
    ensures
        index_to_x(l.lin_index(d), d) == l.x,
        index_to_y(l.lin_index(d), d) == l.y,
{
    lemma_fundamental_div_mod_converse(l.lin_index(d), d.w as int, l.y as int, l.x as int);
}

/// Law: the row-major index of any point inside dimensions `d` lies within
/// the pixel count of `d`.
pub proof fn lemma_lin_index_bounds(x: int, y: int, d: Dim)
    requires
        0 <= x < d.w,
        0 <= y < d.h,
    ensures
        0 <= x + y * d.w < d.w * d.h,
{
    assert(0 <= x + y * d.w < d.w * d.h) by (nonlinear_arith)
        requires
            0 <= x < d.w,
            0 <= y < d.h,
    ;
}

} // verus!
