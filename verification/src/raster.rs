//! Row-major RGBA raster images held as plain bytes.

use vstd::prelude::*;
use vstd::arithmetic::div_mod::lemma_fundamental_div_mod_converse;

verus! {

/// The mathematical content of an [`Image`]: its size and its bytes, four per
/// pixel (red, green, blue, alpha), rows from top to bottom.
pub struct ImageView {
    pub width: u32,
    pub height: u32,
    pub pixels: Seq<u8>,
}

impl ImageView {
    /// The byte buffer holds exactly four bytes for each pixel.
    pub open spec fn wf(self) -> bool {
        self.pixels.len() == self.width * self.height * 4
    }

    /// Index of channel `c` of the pixel at column `x`, row `y`.
    pub open spec fn offset(self, x: int, y: int, c: int) -> int {
        (y * self.width + x) * 4 + c
    }

    /// Channel `c` of the pixel at column `x`, row `y`.
    pub open spec fn sample(self, x: int, y: int, c: int) -> u8 {
        self.pixels[self.offset(x, y, c)]
    }

    /// `self` is the `w` x `h` window of `src` whose top-left corner is at
    /// column `x`, row `y`.
    pub open spec fn is_crop_of(self, src: ImageView, x: int, y: int, w: int, h: int) -> bool {
        &&& self.width == w
        &&& self.height == h
        &&& self.wf()
        &&& forall|i: int, j: int, c: int|
            0 <= i < w && 0 <= j < h && 0 <= c < 4 ==> #[trigger] self.sample(i, j, c) == src.sample(
                x + i,
                y + j,
                c,
            )
    }

    /// The four channels of the pixel at column `x`, row `y`.
    pub open spec fn pixel(self, x: int, y: int) -> Seq<u8> {
        self.pixels.subrange(self.offset(x, y, 0), self.offset(x, y, 0) + 4)
    }

    /// Channel `c` of the pixel at column `x + i`, row `y + j`: pixel `(i, j)`
    /// of the window whose corner is at `(x, y)`.
    pub open spec fn window_sample(self, x: int, y: int, i: int, j: int, c: int) -> u8 {
        self.sample(x + i, y + j, c)
    }

    /// `(i, j)` lies in the `w` x `h` window whose corner is at `(x, y)`.
    pub open spec fn in_window(i: int, j: int, x: int, y: int, w: int, h: int) -> bool {
        x <= i < x + w && y <= j < y + h
    }

    /// `self` is `bottom` with `top` laid over it with its top-left corner at
    /// `(x, y)`: same size as `bottom`, every sample outside the window as in
    /// `bottom`, and each pixel inside the window the blend of `bottom`'s pixel
    /// with `top`'s.
    pub open spec fn is_overlay_of(self, bottom: ImageView, top: ImageView, x: int, y: int) -> bool {
        &&& self.width == bottom.width
        &&& self.height == bottom.height
        &&& self.wf()
        &&& forall|i: int, j: int, c: int|
            0 <= i < self.width && 0 <= j < self.height && 0 <= c < 4 && !ImageView::in_window(
                i,
                j,
                x,
                y,
                top.width as int,
                top.height as int,
            ) ==> #[trigger] self.sample(i, j, c) == bottom.sample(i, j, c)
        &&& forall|i: int, j: int, c: int|
            0 <= i < top.width && 0 <= j < top.height && 0 <= c < 4 ==> #[trigger] self.window_sample(
                x,
                y,
                i,
                j,
                c,
            ) == blended(bottom.pixel(x + i, y + j), top.pixel(i, j))[c]
    }
}

/// The pixel that `image`'s RGBA `Pixel::blend` makes of the pixel `bottom`
/// with the pixel `top` laid over it (four channels each).
pub uninterp spec fn blended(bottom: Seq<u8>, top: Seq<u8>) -> Seq<u8>;

/// The image that `image::imageops::resize` with the triangle filter makes of
/// `img` at `width` x `height` pixels.
pub uninterp spec fn resized_triangle(img: ImageView, width: u32, height: u32) -> ImageView;

/// Two well-formed views of the same size that agree on every sample are equal.
pub proof fn lemma_view_ext(a: ImageView, b: ImageView)
    requires
        a.wf(),
        b.wf(),
        a.width == b.width,
        a.height == b.height,
        forall|i: int, j: int, c: int|
            0 <= i < a.width && 0 <= j < a.height && 0 <= c < 4 ==> #[trigger] a.sample(i, j, c)
                == b.sample(i, j, c),
    ensures
        a == b,
{
    assert forall|k: int| 0 <= k < a.pixels.len() implies a.pixels[k] == b.pixels[k] by {
        let w = a.width as int;
        let h = a.height as int;
        let c = k % 4;
        let p = k / 4;
        assert(w > 0) by (nonlinear_arith)
            requires
                0 <= k < w * h * 4,
                w >= 0,
                h >= 0,
        ;
        let i = p % w;
        let j = p / w;
        lemma_fundamental_div_mod_converse(k, 4, p, c);
        assert(k == p * 4 + c) by {
            vstd::arithmetic::div_mod::lemma_fundamental_div_mod(k, 4);
        }
        assert(p == j * w + i) by {
            vstd::arithmetic::div_mod::lemma_fundamental_div_mod(p, w);
        }
        assert(0 <= i < w);
        assert(0 <= j < h) by (nonlinear_arith)
            requires
                p == j * w + i,
                0 <= i < w,
                k == p * 4 + c,
                0 <= c < 4,
                0 <= k < w * h * 4,
                0 <= p,
        ;
        assert(a.offset(i, j, c) == k);
        assert(b.offset(i, j, c) == k);
        assert(a.sample(i, j, c) == b.sample(i, j, c));
    }
    assert(a.pixels =~= b.pixels);
}

/// Cropping a crop is a single crop: the window at `(x2, y2)` of the window at
/// `(x1, y1)` is the window at `(x1 + x2, y1 + y2)` of the source.
pub proof fn lemma_crop_of_crop(
    src: ImageView,
    first: ImageView,
    second: ImageView,
    x1: int,
    y1: int,
    w1: int,
    h1: int,
    x2: int,
    y2: int,
    w2: int,
    h2: int,
)
    requires
        first.is_crop_of(src, x1, y1, w1, h1),
        second.is_crop_of(first, x2, y2, w2, h2),
        0 <= x2,
        0 <= y2,
        x2 + w2 <= w1,
        y2 + h2 <= h1,
    ensures
        second.is_crop_of(src, x1 + x2, y1 + y2, w2, h2),
{
    assert forall|i: int, j: int, c: int|
        0 <= i < w2 && 0 <= j < h2 && 0 <= c < 4 implies #[trigger] second.sample(i, j, c)
        == src.sample(x1 + x2 + i, y1 + y2 + j, c) by {
        assert(second.sample(i, j, c) == first.sample(x2 + i, y2 + j, c));
        assert(first.sample(x2 + i, y2 + j, c) == src.sample(x1 + (x2 + i), y1 + (y2 + j), c));
    }
}

/// An image is determined by the window it was cropped to: two crops of the same
/// window of the same source are equal.
pub proof fn lemma_crop_unique(src: ImageView, a: ImageView, b: ImageView, x: int, y: int, w: int, h: int)
    requires
        a.is_crop_of(src, x, y, w, h),
        b.is_crop_of(src, x, y, w, h),
    ensures
        a == b,
{
    lemma_view_ext(a, b);
}

/// An RGBA image with four bytes per pixel, rows stored top to bottom.
#[derive(Debug)]
pub struct Image {
    width: u32,
    height: u32,
    pixels: Vec<u8>,
}

impl View for Image {
    type V = ImageView;

    closed spec fn view(&self) -> ImageView {
        ImageView { width: self.width, height: self.height, pixels: self.pixels@ }
    }
}

impl Clone for Image {
    fn clone(&self) -> (r: Image)
        ensures
            r@ == self@,
    {
        self.copy()
    }
}

impl Image {
    #[verifier::type_invariant]
    spec fn inv(self) -> bool {
        self@.wf()
    }

    /// Wraps a buffer of `width * height` RGBA pixels; `None` when the buffer
    /// does not hold exactly four bytes per pixel.
    pub fn from_raw(width: u32, height: u32, pixels: Vec<u8>) -> (r: Option<Image>)
        ensures
            r is Some <==> pixels@.len() == width * height * 4,
            r matches Some(img) ==> img@ == (ImageView { width, height, pixels: pixels@ }),
    {
        let w = width as u64;
        let h = height as u64;
        let len = pixels.len() as u64;
        assert(w * h <= 0xffff_ffff * 0xffff_ffffu64) by (nonlinear_arith)
            requires
                w <= 0xffff_ffff,
                h <= 0xffff_ffff,
        ;
        let wh = w * h;
        if wh > u64::MAX / 4 {
            return None;
        }
        if wh * 4 == len {
            Some(Image { width, height, pixels })
        } else {
            None
        }
    }

    pub fn width(&self) -> (r: u32)
        ensures
            r == self@.width,
            self@.wf(),
    {
        proof {
            use_type_invariant(self);
        }
        self.width
    }

    pub fn height(&self) -> (r: u32)
        ensures
            r == self@.height,
            self@.wf(),
    {
        proof {
            use_type_invariant(self);
        }
        self.height
    }

    /// The raw RGBA bytes, rows top to bottom.
    pub fn pixels(&self) -> (r: &[u8])
        ensures
            r@ == self@.pixels,
            self@.wf(),
    {
        proof {
            use_type_invariant(self);
        }
        self.pixels.as_slice()
    }

    /// Gives the raw RGBA bytes back.
    pub fn into_raw(self) -> (r: Vec<u8>)
        ensures
            r@ == self@.pixels,
    {
        self.pixels
    }

    /// The four channels of the pixel at column `x`, row `y`.
    pub fn pixel(&self, x: u32, y: u32) -> (r: [u8; 4])
        requires
            x < self@.width,
            y < self@.height,
        ensures
            forall|c: int| 0 <= c < 4 ==> r@[c] == self@.sample(x as int, y as int, c),
    {
        proof {
            use_type_invariant(self);
        }
        let w = self.width as usize;
        let n = self.pixels.len();
        let ghost h = self.height as int;
        assert((y as int) * (w as int) + (x as int) < (w as int) * h && 0 <= (y as int) * (w as int)
            && ((y as int) * (w as int) + (x as int)) * 4 + 3 < n) by (nonlinear_arith)
            requires
                x < w,
                y < h,
                n == (w as int) * h * 4,
        ;
        let base = (y as usize * w + x as usize) * 4;
        [self.pixels[base], self.pixels[base + 1], self.pixels[base + 2], self.pixels[base + 3]]
    }

    /// An image with the same size and bytes.
    pub fn copy(&self) -> (r: Image)
        ensures
            r@ == self@,
    {
        proof {
            use_type_invariant(self);
        }
        let pixels = self.pixels.clone();
        assert(pixels@ =~= self.pixels@);
        Image { width: self.width, height: self.height, pixels }
    }

    /// The `w` x `h` window whose top-left corner is at column `x`, row `y`.
    pub fn crop(&self, x: u32, y: u32, w: u32, h: u32) -> (r: Image)
        requires
            x + w <= self@.width,
            y + h <= self@.height,
        ensures
            r@.is_crop_of(self@, x as int, y as int, w as int, h as int),
    {
        proof {
            use_type_invariant(self);
        }
        crop_window(self, x, y, w, h)
    }

    /// This image with `top` laid over it, `top`'s top-left corner at column
    /// `x`, row `y`.
    pub fn overlay(&self, top: &Image, x: u32, y: u32) -> (r: Image)
        requires
            x + top@.width <= self@.width,
            y + top@.height <= self@.height,
        ensures
            r@.is_overlay_of(self@, top@, x as int, y as int),
            forall|i: int, j: int, c: int|
                0 <= i < top@.width && 0 <= j < top@.height && 0 <= c < 4 && top@.sample(i, j, 3)
                    == 255 ==> #[trigger] r@.window_sample(x as int, y as int, i, j, c) == top@.sample(
                    i,
                    j,
                    c,
                ),
            forall|i: int, j: int, c: int|
                0 <= i < top@.width && 0 <= j < top@.height && 0 <= c < 4 && top@.sample(i, j, 3)
                    == 0 ==> #[trigger] r@.window_sample(x as int, y as int, i, j, c) == self@.sample(
                    x + i,
                    y + j,
                    c,
                ),
    {
        proof {
            use_type_invariant(self);
            use_type_invariant(top);
        }
        overlay_window(self, top, x, y)
    }

    /// This image resampled to `width` x `height` pixels with a triangle
    /// (bilinear) filter.
    pub fn resize(&self, width: u32, height: u32) -> (r: Image)
        requires
            self@.width * height * 16 <= isize::MAX,
            width * height * 4 <= isize::MAX,
        ensures
            r@ == resized_triangle(self@, width, height),
            r@.width == width,
            r@.height == height,
            r@.wf(),
            width == self@.width && height == self@.height ==> r@ == self@,
    {
        proof {
            use_type_invariant(self);
        }
        resize_triangle(self, width, height)
    }
}

/// Calls `image::imageops::crop_imm` on the image and copies the window out
/// with `SubImage::to_image`. Claims that for a window inside the image the
/// result is exactly that window: `w` x `h` pixels, pixel `(i, j)` being
/// pixel `(x + i, y + j)` of the source.
#[verifier::external_body]
fn crop_window(img: &Image, x: u32, y: u32, w: u32, h: u32) -> (r: Image)
    requires
        img@.wf(),
        x + w <= img@.width,
        y + h <= img@.height,
    ensures
        r@.is_crop_of(img@, x as int, y as int, w as int, h as int),
{
    let buffer: image::RgbaImage =
        image::ImageBuffer::from_raw(img.width, img.height, img.pixels.clone()).unwrap();
    let window = image::imageops::crop_imm(&buffer, x, y, w, h).to_image();
    Image { width: window.width(), height: window.height(), pixels: window.into_raw() }
}

/// Calls `image::imageops::overlay` with `top` at `(x, y)` on a copy of
/// `bottom`. Claims, for a window inside `bottom`: the size of `bottom`, every
/// sample outside the window unchanged, each pixel inside it what
/// `Pixel::blend` makes of the two pixels (named `blended`), which is `top`'s
/// pixel when its alpha is 255 and `bottom`'s when its alpha is 0.
#[verifier::external_body]
fn overlay_window(bottom: &Image, top: &Image, x: u32, y: u32) -> (r: Image)
    requires
        bottom@.wf(),
        top@.wf(),
        x + top@.width <= bottom@.width,
        y + top@.height <= bottom@.height,
    ensures
        r@.is_overlay_of(bottom@, top@, x as int, y as int),
        forall|i: int, j: int, c: int|
            0 <= i < top@.width && 0 <= j < top@.height && 0 <= c < 4 ==> #[trigger] r@.window_sample(
                x as int,
                y as int,
                i,
                j,
                c,
            ) == blended(bottom@.pixel(x + i, y + j), top@.pixel(i, j))[c],
        forall|i: int, j: int, c: int|
            0 <= i < top@.width && 0 <= j < top@.height && 0 <= c < 4 && top@.sample(i, j, 3) == 255
                ==> #[trigger] r@.window_sample(x as int, y as int, i, j, c) == top@.sample(i, j, c),
        forall|i: int, j: int, c: int|
            0 <= i < top@.width && 0 <= j < top@.height && 0 <= c < 4 && top@.sample(i, j, 3) == 0
                ==> #[trigger] r@.window_sample(x as int, y as int, i, j, c) == bottom@.sample(
                x + i,
                y + j,
                c,
            ),
{
    let mut canvas: image::RgbaImage =
        image::ImageBuffer::from_raw(bottom.width, bottom.height, bottom.pixels.clone()).unwrap();
    let layer: image::RgbaImage =
        image::ImageBuffer::from_raw(top.width, top.height, top.pixels.clone()).unwrap();
    image::imageops::overlay(&mut canvas, &layer, x as i64, y as i64);
    Image { width: canvas.width(), height: canvas.height(), pixels: canvas.into_raw() }
}

/// Calls `image::imageops::resize` with `FilterType::Triangle`. Claims the
/// result has the requested size and is a function of the image and that size
/// (named `resized_triangle`); that an image asked for at its own size comes
/// back unchanged (the function copies it); and that an empty image gives
/// all-zero pixels. The bounds keep the allocations, the intermediate one of
/// `f32` samples included, within what a `Vec` can hold.
#[verifier::external_body]
fn resize_triangle(img: &Image, width: u32, height: u32) -> (r: Image)
    requires
        img@.wf(),
        img@.width * height * 16 <= isize::MAX,
        width * height * 4 <= isize::MAX,
    ensures
        r@ == resized_triangle(img@, width, height),
        r@.width == width,
        r@.height == height,
        r@.wf(),
        width == img@.width && height == img@.height ==> r@ == img@,
        img@.width == 0 || img@.height == 0 ==> forall|k: int| 0 <= k < r@.pixels.len() ==> r@.pixels[k] == 0,
{
    let buffer: image::RgbaImage =
        image::ImageBuffer::from_raw(img.width, img.height, img.pixels.clone()).unwrap();
    let out = image::imageops::resize(&buffer, width, height, image::imageops::FilterType::Triangle);
    Image { width: out.width(), height: out.height(), pixels: out.into_raw() }
}

} // verus!
