//! The image type: an owned width × height pixel buffer in row-major order,
//! with its construction, inspection and transformation operations.

use vstd::prelude::*;
use crate::colour::Colour;
use crate::geometry::{
    coords_inside, index_to_x, index_to_y, lemma_index_roundtrip, lemma_lin_index_bounds,
    lemma_loc_index_roundtrip, Dim, Loc, Region,
};

verus! {

/// The mathematical value of an [`Image`]: its dimensions and the sequence
/// of its pixels in row-major order.
#[verifier::ext_equal]
pub struct ImageView {
    /// The width of the image in pixels.
    pub width: u32,
    /// The height of the image in pixels.
    pub height: u32,
    /// The pixels of the image, row by row.
    pub pixels: Seq<Colour>,
}

impl ImageView {
    /// Well-formedness: the pixel sequence has exactly width × height
    /// entries, and that pixel count stays within the 32-bit index range
    /// the row-major arithmetic is carried out in.
    pub open spec fn wf(self) -> bool {
        &&& self.pixels.len() == self.width * self.height
        &&& self.width * self.height <= u32::MAX
    }

    /// The dimensions of the image.
    pub open spec fn dim(self) -> Dim {
        Dim { w: self.width, h: self.height }
    }

    /// The region covering the whole image, anchored at the origin.
    pub open spec fn whole_region(self) -> Region {
        Region { l: Loc { x: 0, y: 0 }, d: self.dim() }
    }

    /// Whether the point `(x, y)` lies within the bounds of the image.
    pub open spec fn contains(self, x: int, y: int) -> bool {
        &&& 0 <= x < self.width
        &&& 0 <= y < self.height
    }

    /// The pixel at point `(x, y)`, read at its row-major index.
    pub open spec fn pixel(self, x: int, y: int) -> Colour {
        self.pixels[x + y * self.width]
    }

    /// This image with every pixel replaced by `c`.
    pub open spec fn filled(self, c: Colour) -> ImageView {
        ImageView { width: self.width, height: self.height, pixels: Seq::new(self.pixels.len(), |i: int| c) }
    }

    /// This image with every pixel whose location lies inside `region`
    /// replaced by `c`, and every other pixel passed through unchanged.
    pub open spec fn region_filled(self, region: Region, c: Colour) -> ImageView {
        ImageView {
            width: self.width,
            height: self.height,
            pixels: Seq::new(
                self.pixels.len(),
                |i: int|
                    if coords_inside(index_to_x(i, self.dim()), index_to_y(i, self.dim()), region) {
                        c
                    } else {
                        self.pixels[i]
                    },
            ),
        }
    }

    /// The image of dimensions `region.d` containing exactly the pixels of
    /// this image whose location lies inside `region`, in row-major order
    /// relative to the new origin.
    pub open spec fn cropped(self, region: Region) -> ImageView {
        ImageView {
            width: region.d.w,
            height: region.d.h,
            pixels: Seq::new(
                (region.d.w * region.d.h) as nat,
                |i: int|
                    self.pixels[(region.l.x + index_to_x(i, region.d)) + (region.l.y + index_to_y(
                        i,
                        region.d,
                    )) * self.width],
            ),
        }
    }

    /// The extent an overlay at `offset` can paste onto this image: the
    /// space remaining from `offset` to the far edges, truncated to the
    /// overlaid image's own size.
    pub open spec fn paste_dim(self, other: ImageView, offset: Loc) -> Dim {
        Dim {
            w: if self.width - offset.x <= other.width {
                (self.width - offset.x) as u32
            } else {
                other.width
            },
            h: if self.height - offset.y <= other.height {
                (self.height - offset.y) as u32
            } else {
                other.height
            },
        }
    }

    /// Whether row-major index `j` of this image falls inside a pasted area
    /// of extent `pd` anchored at `offset`.
    pub open spec fn in_paste(self, offset: Loc, pd: Dim, j: int) -> bool {
        &&& offset.x <= index_to_x(j, self.dim()) < offset.x + pd.w
        &&& offset.y <= index_to_y(j, self.dim()) < offset.y + pd.h
    }

    /// The row-major index, within a pasted area of extent `pd` anchored at
    /// `offset`, that feeds row-major index `j` of this image.
    pub open spec fn paste_src(self, offset: Loc, pd: Dim, j: int) -> int {
        (index_to_x(j, self.dim()) - offset.x) + (index_to_y(j, self.dim()) - offset.y) * pd.w
    }

    /// This image with `other` composited on top of it at `offset`,
    /// truncated to whatever fits in the space remaining there.
    pub open spec fn overlaid(self, other: ImageView, offset: Loc) -> ImageView {
        let pd = self.paste_dim(other, offset);
        ImageView {
            width: self.width,
            height: self.height,
            pixels: Seq::new(
                self.pixels.len(),
                |j: int|
                    if self.in_paste(offset, pd, j) {
                        other.pixels[(index_to_x(j, self.dim()) - offset.x) + (index_to_y(
                            j,
                            self.dim(),
                        ) - offset.y) * other.width]
                    } else {
                        self.pixels[j]
                    },
            ),
        }
    }
}

/// The image of dimensions `d` whose every pixel is `c`.
pub open spec fn solid(d: Dim, c: Colour) -> ImageView {
    ImageView { width: d.w, height: d.h, pixels: Seq::new((d.w * d.h) as nat, |i: int| c) }
}

/// An owned raster image: a width, a height, and a vector containing all
/// pixels one-dimensionally in row-major order.
///
/// The maximum image size is u32::MAX by u32::MAX pixels, the maximum of
/// the PNG format; the constructors further keep the total pixel count
/// within the 32-bit range. Every transformation consumes the receiver and
/// returns a fresh image, so no buffer is ever shared between two images.
#[derive(Debug, Clone)]
pub struct Image {
    /// The width of the image in pixels.
    width: u32,
    /// The height of the image in pixels.
    height: u32,
    /// A vector containing all pixels one-dimensionally.
    pixels: Vec<Colour>,
}

impl View for Image {
    type V = ImageView;

    closed spec fn view(&self) -> ImageView {
        ImageView { width: self.width, height: self.height, pixels: self.pixels@ }
    }
}

impl Image {
    /// Creates a new blank image of the given dimensions.
    ///
    /// The colour used is black.
    pub fn blank(dimension: Dim) -> (img: Self)
        requires
            dimension.w * dimension.h <= u32::MAX,
        ensures
            img@.wf(),
            img@ == solid(dimension, Colour::black()),
    {
        Image::blank_with_colour(dimension, Colour::black())
    }

    /// Creates a new blank image of the given dimensions with every pixel
    /// set to the specified colour.
    pub fn blank_with_colour(dimension: Dim, colour: Colour) -> (img: Self)
        requires
            dimension.w * dimension.h <= u32::MAX,
        ensures
            img@.wf(),
            img@ == solid(dimension, colour),
    {
        let n: u32 = dimension.w * dimension.h;
        let mut pixels: Vec<Colour> = Vec::new();
        let mut i: u32 = 0;
        while i < n
            invariant
                i <= n,
                pixels@.len() == i,
                forall|j: int| 0 <= j < i ==> pixels@[j] == colour,
            decreases n - i,
        {
            pixels.push(colour);
            i = i + 1;
        }
        let img = Image { width: dimension.w, height: dimension.h, pixels };
        proof {
            assert(img@ =~= solid(dimension, colour));
        }
        img
    }

    /// Builds an image of the given dimensions from a raw channel buffer of
    /// exactly three bytes per pixel, row-major, in red, green, blue order —
    /// the shape a raster decoder hands out.
    ///
    /// Returns an `Err` if the pixel count exceeds the supported 32-bit
    /// range, or if the buffer length is not exactly three bytes per pixel.
    pub fn from_raw_bytes(dimension: Dim, bytes: &Vec<u8>) -> (r: Result<Image, &'static str>)
        ensures
            r is Ok <==> (dimension.w * dimension.h <= u32::MAX && bytes@.len() == 3 * (dimension.w
                * dimension.h)),
            r is Ok ==> r->Ok_0@.wf() && r->Ok_0@.dim() == dimension && forall|i: int|
                0 <= i < dimension.w * dimension.h ==> r->Ok_0@.pixels[i] == (Colour {
                    r: bytes@[3 * i],
                    g: bytes@[3 * i + 1],
                    b: bytes@[3 * i + 2],
                }),
    {
        proof {
            assert(dimension.w * dimension.h <= u64::MAX) by (nonlinear_arith)
                requires
                    0 <= dimension.w <= u32::MAX,
                    0 <= dimension.h <= u32::MAX,
            ;
        }
        let wh: u64 = (dimension.w as u64) * (dimension.h as u64);
        if wh > u32::MAX as u64 {
            return Err("The image's pixel count is too large.");
        }
        if bytes.len() as u64 != 3 * wh {
            return Err("The buffer does not hold exactly three bytes per pixel.");
        }
        let n: usize = wh as usize;
        let mut pixels: Vec<Colour> = Vec::new();
        let mut i: usize = 0;
        while i < n
            invariant
                i <= n,
                n == dimension.w * dimension.h,
                bytes@.len() == 3 * n,
                bytes@.len() <= usize::MAX,
                pixels@.len() == i,
                forall|j: int| 0 <= j < i ==> pixels@[j] == (Colour {
                    r: bytes@[3 * j],
                    g: bytes@[3 * j + 1],
                    b: bytes@[3 * j + 2],
                }),
            decreases n - i,
        {
            let base: usize = 3 * i;
            let c = Colour { r: bytes[base], g: bytes[base + 1], b: bytes[base + 2] };
            pixels.push(c);
            i = i + 1;
        }
        Ok(Image { width: dimension.w, height: dimension.h, pixels })
    }

    /// Returns the image's pixels as a raw channel buffer of three bytes per
    /// pixel, row-major, in red, green, blue order — the shape a raster
    /// encoder takes.
    pub fn to_raw_bytes(&self) -> (r: Vec<u8>)
        requires
            self@.wf(),
        ensures
            r@.len() == 3 * self@.pixels.len(),
            forall|i: int|
                0 <= i < self@.pixels.len() ==> r@[3 * i] == self@.pixels[i].r && r@[3 * i + 1]
                    == self@.pixels[i].g && r@[3 * i + 2] == self@.pixels[i].b,
    {
        let n: usize = self.pixels.len();
        let mut out: Vec<u8> = Vec::new();
        let mut i: usize = 0;
        while i < n
            invariant
                i <= n,
                n == self@.pixels.len(),
                n <= u32::MAX,
                out@.len() == 3 * i,
                forall|j: int|
                    0 <= j < i ==> out@[3 * j] == self@.pixels[j].r && out@[3 * j + 1] == self@
                        .pixels[j].g && out@[3 * j + 2] == self@.pixels[j].b,
            decreases n - i,
        {
            let c = self.pixels[i];
            out.push(c.r);
            out.push(c.g);
            out.push(c.b);
            i = i + 1;
        }
        out
    }

    /// Returns the dimensions of the image.
    pub fn get_dimensions(&self) -> (d: Dim)
        ensures
            d == self@.dim(),
    {
        Dim { w: self.width, h: self.height }
    }

    /// Returns the entire image as a region anchored at the origin.
    pub fn as_region(&self) -> (r: Region)
        ensures
            r == self@.whole_region(),
    {
        Region { l: Loc { x: 0, y: 0 }, d: Dim { w: self.width, h: self.height } }
    }

    /// Tries to look up the colour of a specific pixel; returns an `Err`
    /// if the location is out of bounds and an `Ok` with the colour if not.
    pub fn get_pixel(&self, loc: Loc) -> (r: Result<Colour, &'static str>)
        requires
            self@.wf(),
        ensures
            r is Ok <==> loc.spec_inside(self@.whole_region()),
            r is Ok ==> r->Ok_0 == self@.pixel(loc.x as int, loc.y as int),
    {
        if !loc.inside_region(self.as_region()) {
            return Err("The specified location falls outside of the image.");
        }
        proof {
            lemma_lin_index_bounds(loc.x as int, loc.y as int, self@.dim());
        }
        let idx = loc.as_index(self.get_dimensions());
        Ok(self.pixels[idx])
    }

    /// Fills the entire image with a given colour, consuming the receiver
    /// and returning the filled image.
    pub fn fill(self, colour: Colour) -> (img: Image)
        requires
            self@.wf(),
        ensures
            img@.wf(),
            img@ == self@.filled(colour),
    {
        let n: usize = self.pixels.len();
        let mut pixels: Vec<Colour> = Vec::new();
        let mut i: usize = 0;
        while i < n
            invariant
                i <= n,
                pixels@.len() == i,
                forall|j: int| 0 <= j < i ==> pixels@[j] == colour,
            decreases n - i,
        {
            pixels.push(colour);
            i = i + 1;
        }
        let img = Image { width: self.width, height: self.height, pixels };
        proof {
            assert(img@ =~= self@.filled(colour));
        }
        img
    }

    /// Fills the pixels of a region with a given colour, consuming the
    /// receiver; pixels outside the region pass through unchanged.
    pub fn fill_region(self, region: Region, colour: Colour) -> (img: Image)
        requires
            self@.wf(),
        ensures
            img@.wf(),
            img@ == self@.region_filled(region, colour),
    {
        let n: usize = self.pixels.len();
        let dims = self.get_dimensions();
        let mut pixels: Vec<Colour> = Vec::new();
        let mut i: usize = 0;
        while i < n
            invariant
                i <= n,
                self@.wf(),
                n == self@.pixels.len(),
                dims == self@.dim(),
                pixels@.len() == i,
                forall|j: int| 0 <= j < i ==> pixels@[j] == self@.region_filled(region, colour).pixels[j],
            decreases n - i,
        {
            proof {
                assert(dims.w > 0) by (nonlinear_arith)
                    requires
                        i < n,
                        0 <= i,
                        n == dims.w * dims.h,
                ;
            }
            let loc = Loc::from_index(i, dims);
            let c = if loc.inside_region(region) {
                colour
            } else {
                self.pixels[i]
            };
            pixels.push(c);
            i = i + 1;
        }
        let img = Image { width: self.width, height: self.height, pixels };
        proof {
            assert(img@ =~= self@.region_filled(region, colour));
        }
        img
    }

    /// Crops a region out of the image and returns it, consuming the
    /// receiver. This primitive assumes its region was validated by the
    /// caller; the safe entry point is [`Image::crop`].
    ///
    /// The region's top-left corner must lie inside the image, and the
    /// region's far corner must not pass the image's own far edge.
    pub fn crop_unclamped(self, region: Region) -> (img: Image)
        requires
            self@.wf(),
            region.l.spec_inside(self@.whole_region()),
            region.l.x + region.d.w <= self@.width,
            region.l.y + region.d.h <= self@.height,
        ensures
            img@.wf(),
            img@ == self@.cropped(region),
    {
        proof {
            assert(region.d.w * region.d.h <= self@.width * self@.height) by (nonlinear_arith)
                requires
                    0 <= region.d.w <= self@.width,
                    0 <= region.d.h <= self@.height,
            ;
        }
        let new_width: u32 = region.d.w;
        let new_height: u32 = region.d.h;
        let n: u32 = new_width * new_height;
        let dims = self.get_dimensions();
        let mut pixels: Vec<Colour> = Vec::new();
        let mut i: u32 = 0;
        while i < n
            invariant
                i <= n,
                self@.wf(),
                n == region.d.w * region.d.h,
                new_width == region.d.w,
                new_height == region.d.h,
                dims == self@.dim(),
                region.l.x + region.d.w <= self@.width,
                region.l.y + region.d.h <= self@.height,
                pixels@.len() == i,
                forall|j: int| 0 <= j < i ==> pixels@[j] == self@.cropped(region).pixels[j],
            decreases n - i,
        {
            proof {
                assert(new_width > 0) by (nonlinear_arith)
                    requires
                        i < n,
                        0 <= i,
                        n == new_width * new_height,
                ;
                lemma_index_roundtrip(i as int, region.d);
            }
            let loc = Loc::from_index(i as usize, Dim { w: new_width, h: new_height });
            let src = Loc { x: region.l.x + loc.x, y: region.l.y + loc.y };
            proof {
                lemma_lin_index_bounds(src.x as int, src.y as int, self@.dim());
            }
            let src_idx = src.as_index(dims);
            pixels.push(self.pixels[src_idx]);
            i = i + 1;
        }
        let img = Image { width: new_width, height: new_height, pixels };
        proof {
            assert(img@ =~= self@.cropped(region));
        }
        img
    }

    /// Crops a region out of the image and returns it, consuming the
    /// receiver. Unlike [`Image::crop_unclamped`], this entry point clamps
    /// each axis of the region's dimension so that the cropped area does not
    /// pass the image's far edge. It returns an `Err` if the region's
    /// top-left corner falls outside of the image.
    pub fn crop(self, region: Region) -> (r: Result<Image, &'static str>)
        requires
            self@.wf(),
        ensures
            r is Ok <==> region.l.spec_inside(self@.whole_region()),
            r is Ok ==> r->Ok_0@.wf() && r->Ok_0@ == self@.cropped(
                region.clamped_to(self@.dim()),
            ),
    {
        if !region.l.inside_region(self.as_region()) {
            return Err("The corner from which to crop falls outside of the image.");
        }

        let avail_w: u32 = self.width - region.l.x;
        let avail_h: u32 = self.height - region.l.y;
        let w: u32 = if region.d.w <= avail_w {
            region.d.w
        } else {
            avail_w
        };
        let h: u32 = if region.d.h <= avail_h {
            region.d.h
        } else {
            avail_h
        };
        let clamped = Region { l: region.l, d: Dim { w, h } };
        proof {
            assert(clamped == region.clamped_to(self@.dim()));
        }
        Ok(self.crop_unclamped(clamped))
    }

    /// Overlays a given image on top of this image at the specified offset,
    /// consuming both. An overlaid image too big to fit in the space
    /// remaining at the offset is silently truncated, never an error.
    ///
    /// The offset must not exceed the receiver's dimensions on either axis,
    /// and the overlaid image must not be empty.
    pub fn overlay(self, other: Image, offset: Loc) -> (img: Self)
        requires
            self@.wf(),
            other@.wf(),
            offset.x <= self@.width,
            offset.y <= self@.height,
            other@.width > 0,
            other@.height > 0,
        ensures
            img@.wf(),
            img@ == self@.overlaid(other@, offset),
    {
        let ghost other_view = other@;
        let crop_dims = Dim { w: self.width - offset.x, h: self.height - offset.y };
        let cropped = other.crop(Region::from_top_left(crop_dims)).unwrap();
        let cdims = cropped.get_dimensions();
        proof {
            assert(cdims == self@.paste_dim(other_view, offset));
            assert(cdims.w * cdims.h <= self@.width * self@.height) by (nonlinear_arith)
                requires
                    0 <= cdims.w <= self@.width,
                    0 <= cdims.h <= self@.height,
            ;
        }
        let n: u32 = cdims.w * cdims.h;

        let total: usize = self.pixels.len();
        let mut working: Vec<Colour> = Vec::new();
        let mut k: usize = 0;
        while k < total
            invariant
                k <= total,
                total == self@.pixels.len(),
                working@.len() == k,
                forall|j: int| 0 <= j < k ==> working@[j] == self@.pixels[j],
            decreases total - k,
        {
            working.push(self.pixels[k]);
            k = k + 1;
        }

        let dims = self.get_dimensions();
        let mut i: u32 = 0;
        while i < n
            invariant
                i <= n,
                self@.wf(),
                cropped@.wf(),
                n == cdims.w * cdims.h,
                cdims == cropped@.dim(),
                cdims == self@.paste_dim(other_view, offset),
                cropped@ == other_view.cropped(Region { l: Loc { x: 0, y: 0 }, d: cdims }),
                offset.x + cdims.w <= self@.width,
                offset.y + cdims.h <= self@.height,
                dims == self@.dim(),
                working@.len() == self@.pixels.len(),
                forall|j: int|
                    0 <= j < working@.len() ==> working@[j] == if self@.in_paste(offset, cdims, j)
                        && self@.paste_src(offset, cdims, j) < i {
                        cropped@.pixels[self@.paste_src(offset, cdims, j)]
                    } else {
                        self@.pixels[j]
                    },
            decreases n - i,
        {
            proof {
                assert(cdims.w > 0) by (nonlinear_arith)
                    requires
                        0 <= i < n,
                        n == cdims.w * cdims.h,
                ;
                lemma_index_roundtrip(i as int, cdims);
            }
            let loc = Loc::from_index(i as usize, cdims);
            let dst = Loc { x: loc.x + offset.x, y: loc.y + offset.y };
            proof {
                lemma_lin_index_bounds(dst.x as int, dst.y as int, self@.dim());
                lemma_loc_index_roundtrip(dst, dims);
            }
            let dst_idx = dst.as_index(dims);
            let c = cropped.pixels[i as usize];
            working.set(dst_idx, c);
            proof {
                assert forall|j: int| 0 <= j < working@.len() implies working@[j] == (if self@
                    .in_paste(offset, cdims, j) && self@.paste_src(offset, cdims, j) < i + 1 {
                    cropped@.pixels[self@.paste_src(offset, cdims, j)]
                } else {
                    self@.pixels[j]
                }) by {
                    if j != dst_idx && self@.in_paste(offset, cdims, j) && self@.paste_src(
                        offset,
                        cdims,
                        j,
                    ) == i {
                        let xj = index_to_x(j, dims);
                        let yj = index_to_y(j, dims);
                        lemma_index_roundtrip(j, dims);
                        lemma_loc_index_roundtrip(
                            Loc { x: (xj - offset.x) as u32, y: (yj - offset.y) as u32 },
                            cdims,
                        );
                        assert(j == dst_idx);
                    }
                }
            }
            i = i + 1;
        }

        let img = Image { width: self.width, height: self.height, pixels: working };
        proof {
            let pd = self@.paste_dim(other_view, offset);
            assert forall|j: int| 0 <= j < self@.pixels.len() implies img@.pixels[j] == self@
                .overlaid(other_view, offset).pixels[j] by {
                if self@.in_paste(offset, pd, j) {
                    let xj = index_to_x(j, dims);
                    let yj = index_to_y(j, dims);
                    lemma_lin_index_bounds(xj - offset.x, yj - offset.y, cdims);
                    lemma_loc_index_roundtrip(
                        Loc { x: (xj - offset.x) as u32, y: (yj - offset.y) as u32 },
                        cdims,
                    );
                }
            }
            assert(img@ =~= self@.overlaid(other_view, offset));
        }
        img
    }
}

/// Law: every pixel inside a solid image of dimensions `d` reads the colour
/// the image was built with.
pub proof fn lemma_solid_pixel(d: Dim, c: Colour, x: int, y: int)
    requires
        0 <= x < d.w,
        0 <= y < d.h,
    ensures
        solid(d, c).pixel(x, y) == c,
{
    lemma_lin_index_bounds(x, y, d);
}

/// Law: filling with a colour is idempotent — filling an already filled
/// image with the same colour again yields the same image.
pub proof fn lemma_fill_idempotent(v: ImageView, c: Colour)
    ensures
        v.filled(c).filled(c) == v.filled(c),
{
    assert(v.filled(c).filled(c) =~= v.filled(c));
}

/// Law: filling a region replaces exactly the pixels whose location lies
/// inside the region and passes every other pixel through unchanged.
pub proof fn lemma_region_filled_pixel(v: ImageView, region: Region, c: Colour, x: int, y: int)
    requires
        v.wf(),
        v.contains(x, y),
    ensures
        v.region_filled(region, c).wf(),
        v.region_filled(region, c).pixel(x, y) == if coords_inside(x, y, region) {
            c
        } else {
            v.pixel(x, y)
        },
{
    lemma_lin_index_bounds(x, y, v.dim());
    lemma_loc_index_roundtrip(Loc { x: x as u32, y: y as u32 }, v.dim());
}

/// Law: a cropped image has the cropped region's dimensions, and each of
/// its pixels is the source pixel at the same offset from the region's
/// top-left corner.
pub proof fn lemma_cropped_pixel(v: ImageView, region: Region, x: int, y: int)
    requires
        v.wf(),
        region.l.spec_inside(v.whole_region()),
        region.l.x + region.d.w <= v.width,
        region.l.y + region.d.h <= v.height,
        0 <= x < region.d.w,
        0 <= y < region.d.h,
    ensures
        v.cropped(region).wf(),
        v.cropped(region).dim() == region.d,
        v.cropped(region).pixel(x, y) == v.pixel(x + region.l.x, y + region.l.y),
{
    assert(region.d.w * region.d.h <= v.width * v.height) by (nonlinear_arith)
        requires
            0 <= region.d.w <= v.width,
            0 <= region.d.h <= v.height,
    ;
    lemma_lin_index_bounds(x, y, region.d);
    lemma_loc_index_roundtrip(Loc { x: x as u32, y: y as u32 }, region.d);
    lemma_lin_index_bounds(x + region.l.x, y + region.l.y, v.dim());
}

/// Law: overlaying keeps the receiver's dimensions and writes only inside
/// the pasted area — the extent remaining at the offset, truncated to the
/// overlaid image's size. Inside it, each pixel is the overlaid image's
/// pixel at the same offset; outside it, every pixel is unchanged.
pub proof fn lemma_overlaid_pixel(v: ImageView, other: ImageView, offset: Loc, x: int, y: int)
    requires
        v.wf(),
        offset.x <= v.width,
        offset.y <= v.height,
        v.contains(x, y),
    ensures
        v.overlaid(other, offset).wf(),
        v.overlaid(other, offset).dim() == v.dim(),
        ({
            let pd = v.paste_dim(other, offset);
            v.overlaid(other, offset).pixel(x, y) == if offset.x <= x < offset.x + pd.w
                && offset.y <= y < offset.y + pd.h {
                other.pixel(x - offset.x, y - offset.y)
            } else {
                v.pixel(x, y)
            }
        }),
{
    lemma_lin_index_bounds(x, y, v.dim());
    lemma_loc_index_roundtrip(Loc { x: x as u32, y: y as u32 }, v.dim());
}

} // verus!
