//! Pixel buffers, and the image operations that the `image` crate performs
//! on them.

use vstd::prelude::*;

verus! {

/// An RGBA image: `data` holds four bytes per pixel, row by row.
#[derive(Clone, Debug)]
pub struct Raster {
    pub width: u32,
    pub height: u32,
    pub data: Vec<u8>,
}

/// A single-channel image: `data` holds one byte per pixel, row by row.
#[derive(Clone, Debug)]
pub struct Mask {
    pub width: u32,
    pub height: u32,
    pub data: Vec<u8>,
}

/// Number of pixels of a `width` x `height` image.
pub open spec fn area(width: u32, height: u32) -> int {
    width as int * height as int
}

impl Raster {
    pub open spec fn wf(&self) -> bool {
        &&& self.data@.len() == 4 * area(self.width, self.height)
        &&& self.data@.len() <= usize::MAX
    }

    pub open spec fn pixel_count(&self) -> int {
        area(self.width, self.height)
    }

    /// An image of one colour.
    pub fn filled(width: u32, height: u32, r: u8, g: u8, b: u8, a: u8) -> (img: Raster)
        requires
            4 * area(width, height) <= usize::MAX,
        ensures
            img.wf(),
            img.width == width,
            img.height == height,
            img.data@ == solid(r, g, b, a, area(width, height)),
    {
        let n: usize = 4 * (width as usize * height as usize);
        let mut data: Vec<u8> = Vec::with_capacity(n);
        let mut j: usize = 0;
        while j < n
            invariant
                n == 4 * area(width, height),
                j <= n,
                data@.len() == j,
                forall|i: int| 0 <= i < j ==> data@[i] == #[trigger] solid(r, g, b, a, area(width, height))[i],
            decreases n - j,
        {
            let v = if j % 4 == 0 {
                r
            } else if j % 4 == 1 {
                g
            } else if j % 4 == 2 {
                b
            } else {
                a
            };
            data.push(v);
            j = j + 1;
        }
        assert(data@ =~= solid(r, g, b, a, area(width, height)));
        Raster { width, height, data }
    }
}

/// The RGBA bytes of `n` pixels of one colour.
pub open spec fn solid(r: u8, g: u8, b: u8, a: u8, n: int) -> Seq<u8> {
    Seq::new(
        (4 * n) as nat,
        |j: int|
            if j % 4 == 0 {
                r
            } else if j % 4 == 1 {
                g
            } else if j % 4 == 2 {
                b
            } else {
                a
            },
    )
}

impl Mask {
    pub open spec fn wf(&self) -> bool {
        self.data@.len() == area(self.width, self.height)
    }
}

/// What `image::imageops::overlay` at the origin makes of a bottom and a top
/// image, given by their bytes and widths.
pub uninterp spec fn overlaid(bottom: Seq<u8>, bottom_width: u32, top: Seq<u8>, top_width: u32) -> Seq<u8>;

/// What `image::imageops::resize` with nearest-neighbour sampling makes of an
/// image of `channels` bytes per pixel.
pub uninterp spec fn resized_nearest(
    data: Seq<u8>,
    width: u32,
    channels: nat,
    new_width: u32,
    new_height: u32,
) -> Seq<u8>;

/// Relies on `image::imageops::huerotate`: an image of the same size whose
/// alpha channel is copied from the source; the colour matrix keeps black
/// pixels black. The other colours depend on floating-point `cos` and `sin`,
/// whose precision Rust leaves unspecified, so nothing more is stated.
#[verifier::external_body]
pub(crate) fn hue_rotate_rgba(img: &Raster, degrees: i32) -> (r: Raster)
    requires
        img.wf(),
    ensures
        r.wf(),
        r.width == img.width,
        r.height == img.height,
        forall|p: int| 0 <= p < img.pixel_count() ==> #[trigger] r.data@[4 * p + 3] == img.data@[4 * p + 3],
        forall|p: int|
            0 <= p < img.pixel_count() && #[trigger] img.data@[4 * p] == 0 && img.data@[4 * p + 1] == 0
                && img.data@[4 * p + 2] == 0 ==> r.data@[4 * p] == 0 && r.data@[4 * p + 1] == 0
                && r.data@[4 * p + 2] == 0,
{
    let buf = image::RgbaImage::from_raw(img.width, img.height, img.data.clone()).unwrap();
    let out = image::imageops::huerotate(&buf, degrees);
    Raster { width: out.width(), height: out.height(), data: out.into_raw() }
}

/// Relies on `image::imageops::overlay` at (0, 0): `top` alpha-blended onto
/// `bottom`, which keeps its size.
#[verifier::external_body]
pub(crate) fn overlay_rgba(bottom: Raster, top: &Raster) -> (r: Raster)
    requires
        bottom.wf(),
        top.wf(),
    ensures
        r.wf(),
        r.width == bottom.width,
        r.height == bottom.height,
        r.data@ == overlaid(bottom.data@, bottom.width, top.data@, top.width),
{
    let mut base = image::RgbaImage::from_raw(bottom.width, bottom.height, bottom.data).unwrap();
    let over = image::RgbaImage::from_raw(top.width, top.height, top.data.clone()).unwrap();
    image::imageops::overlay(&mut base, &over, 0, 0);
    Raster { width: base.width(), height: base.height(), data: base.into_raw() }
}

/// Relies on `image::imageops::resize` with `FilterType::Nearest` on RGBA
/// pixels: an image of exactly the requested size.
#[verifier::external_body]
pub(crate) fn resize_rgba(img: &Raster, new_width: u32, new_height: u32) -> (r: Raster)
    requires
        img.wf(),
        4 * area(new_width, new_height) <= usize::MAX,
    ensures
        r.wf(),
        r.width == new_width,
        r.height == new_height,
        r.data@ == resized_nearest(img.data@, img.width, 4, new_width, new_height),
{
    let buf = image::RgbaImage::from_raw(img.width, img.height, img.data.clone()).unwrap();
    let filter = image::imageops::FilterType::Nearest;
    let out = image::imageops::resize(&buf, new_width, new_height, filter);
    Raster { width: out.width(), height: out.height(), data: out.into_raw() }
}

/// Relies on `image::imageops::resize` with `FilterType::Nearest` on
/// single-channel pixels: an image of exactly the requested size.
#[verifier::external_body]
pub(crate) fn resize_mask(mask: &Mask, new_width: u32, new_height: u32) -> (r: Mask)
    requires
        mask.wf(),
        area(new_width, new_height) <= usize::MAX,
    ensures
        r.wf(),
        r.width == new_width,
        r.height == new_height,
        r.data@ == resized_nearest(mask.data@, mask.width, 1, new_width, new_height),
{
    let buf = image::GrayImage::from_raw(mask.width, mask.height, mask.data.clone()).unwrap();
    let filter = image::imageops::FilterType::Nearest;
    let out = image::imageops::resize(&buf, new_width, new_height, filter);
    Mask { width: out.width(), height: out.height(), data: out.into_raw() }
}

/// The alpha of pixel (x, y) of RGBA bytes of an image `width` wide.
pub open spec fn alpha_at(d: Seq<u8>, width: u32, x: int, y: int) -> u8 {
    d[4 * (y * width + x) + 3]
}

/// The lowest row whose pixel in column `x` is clearly opaque (alpha above
/// 200), searching from the bottom up.
pub fn find_first_dyed_y_position(image: &Raster, x: u32) -> (r: Option<u32>)
    requires
        image.wf(),
        x < image.width,
    ensures
        match r {
            Some(y) => {
                &&& y < image.height
                &&& alpha_at(image.data@, image.width, x as int, y as int) > 200
                &&& forall|z: int| y < z < image.height ==> alpha_at(image.data@, image.width, x as int, z) <= 200
            },
            None => forall|z: int| 0 <= z < image.height ==> alpha_at(image.data@, image.width, x as int, z) <= 200,
        },
{
    let mut y: u32 = image.height;
    while y > 0
        invariant
            image.wf(),
            x < image.width,
            y <= image.height,
            forall|z: int| y <= z < image.height ==> alpha_at(image.data@, image.width, x as int, z) <= 200,
        decreases y,
    {
        let row: u32 = y - 1;
        assert(4 * (row * image.width + x) + 3 < image.data@.len()) by (nonlinear_arith)
            requires
                row < image.height,
                x < image.width,
                image.data@.len() == 4 * (image.width * image.height),
        ;
        let i: usize = 4 * (row as usize * image.width as usize + x as usize) + 3;
        if image.data[i] > 200 {
            return Some(row);
        }
        y = row;
    }
    None
}

} // verus!
