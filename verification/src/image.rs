//! The owned RGBA image buffer and its mathematical view.

use vstd::prelude::*;

verus! {

/// One pixel: four 8-bit channels, red, green, blue, alpha.
#[derive(Clone, Copy, Debug, PartialEq, Eq, Structural)]
pub struct Pixel {
    pub r: u8,
    pub g: u8,
    pub b: u8,
    pub a: u8,
}

impl Pixel {
    /// The fully transparent black pixel used wherever nothing was drawn.
    pub open spec fn spec_transparent() -> Pixel {
        Pixel { r: 0, g: 0, b: 0, a: 0 }
    }

    pub fn transparent() -> (p: Pixel)
        ensures
            p == Pixel::spec_transparent(),
    {
        Pixel { r: 0, g: 0, b: 0, a: 0 }
    }
}

/// A logical size in pixels: `x` across, `y` down.
#[derive(Clone, Copy, Debug, PartialEq, Eq, Structural)]
pub struct Size {
    pub x: usize,
    pub y: usize,
}

impl Size {
    pub open spec fn spec_new(x: usize, y: usize) -> Size {
        Size { x, y }
    }

    pub fn new(x: usize, y: usize) -> (s: Size)
        ensures
            s == Size::spec_new(x, y),
    {
        Size { x, y }
    }
}

/// The mathematical content of an image: a width, a height, and the pixels
/// in row-major order.
pub struct ImageView {
    pub width: nat,
    pub height: nat,
    pub data: Seq<Pixel>,
}

impl ImageView {
    /// The pixel grid is dense and the dimensions are addressable with the
    /// machine's signed coordinates.
    pub open spec fn wf(self) -> bool {
        &&& self.data.len() == self.width * self.height
        &&& self.width <= isize::MAX
        &&& self.height <= isize::MAX
    }

    pub open spec fn in_bounds(self, x: int, y: int) -> bool {
        0 <= x < self.width && 0 <= y < self.height
    }

    /// The pixel at column `x` of row `y`.
    pub open spec fn pix(self, x: int, y: int) -> Pixel {
        self.data[y * self.width + x]
    }

    /// An image whose every pixel is `fill`.
    pub open spec fn filled(width: nat, height: nat, fill: Pixel) -> ImageView {
        ImageView { width, height, data: Seq::new(width * height, |i: int| fill) }
    }
}

/// An owned, dense RGBA image buffer. Immutable in spirit: every transform
/// allocates a new buffer.
pub struct Image {
    width: usize,
    height: usize,
    data: Vec<Pixel>,
}

impl View for Image {
    type V = ImageView;

    closed spec fn view(&self) -> ImageView {
        ImageView {
            width: self.width as nat,
            height: self.height as nat,
            data: self.data@,
        }
    }
}

impl Image {
    pub open spec fn wf(&self) -> bool {
        self@.wf()
    }

    /// A `width` by `height` image with every pixel set to `fill`.
    pub fn new_filled(width: usize, height: usize, fill: Pixel) -> (img: Image)
        requires
            width <= isize::MAX,
            height <= isize::MAX,
            width * height <= usize::MAX,
        ensures
            img.wf(),
            img@ == ImageView::filled(width as nat, height as nat, fill),
    {
        let count: usize = width * height;
        let mut data: Vec<Pixel> = Vec::new();
        let mut i: usize = 0;
        while i < count
            invariant
                i <= count,
                data@.len() == i,
                forall|j: int| 0 <= j < i ==> data@[j] == fill,
            decreases count - i,
        {
            data.push(fill);
            i = i + 1;
        }
        let img = Image { width, height, data };
        proof {
            assert(img@.data =~= ImageView::filled(width as nat, height as nat, fill).data);
        }
        img
    }

    /// Wraps `width * height` pixels, given in row-major order.
    pub fn from_pixels(width: usize, height: usize, data: Vec<Pixel>) -> (img: Image)
        requires
            width <= isize::MAX,
            height <= isize::MAX,
            data@.len() == width * height,
        ensures
            img.wf(),
            img@ == (ImageView { width: width as nat, height: height as nat, data: data@ }),
    {
        Image { width, height, data }
    }

    pub fn width(&self) -> (w: usize)
        ensures
            w == self@.width,
    {
        self.width
    }

    pub fn height(&self) -> (h: usize)
        ensures
            h == self@.height,
    {
        self.height
    }

    pub fn size(&self) -> (s: Size)
        ensures
            s.x == self@.width,
            s.y == self@.height,
    {
        Size { x: self.width, y: self.height }
    }

    /// The pixel at column `x` of row `y`.
    pub fn pixel(&self, x: usize, y: usize) -> (p: Pixel)
        requires
            self.wf(),
            self@.in_bounds(x as int, y as int),
        ensures
            p == self@.pix(x as int, y as int),
    {
        // reading the length teaches the verifier that the row-major
        // index, which stays below it, fits the machine's word
        let _len: usize = self.data.len();
        proof {
            lemma_row_major_index(self@.width, self@.height, x as int, y as int);
        }
        let idx: usize = y * self.width + x;
        self.data[idx]
    }

    /// Unwraps the image into its row-major pixel buffer.
    pub fn into_pixels(self) -> (v: Vec<Pixel>)
        ensures
            v@ == self@.data,
    {
        self.data
    }

    /// Overwrites the pixel at column `x` of row `y`.
    pub fn set_pixel(&mut self, x: usize, y: usize, p: Pixel)
        requires
            old(self).wf(),
            old(self)@.in_bounds(x as int, y as int),
        ensures
            final(self).wf(),
            final(self)@.width == old(self)@.width,
            final(self)@.height == old(self)@.height,
            final(self)@.data == old(self)@.data.update(y as int * old(self)@.width + x, p),
    {
        let _len: usize = self.data.len();
        proof {
            lemma_row_major_index(self@.width, self@.height, x as int, y as int);
        }
        let idx: usize = y * self.width + x;
        self.data.set(idx, p);
    }

    /// The pixels of row `y`, flattened out of the row-major buffer.
    pub fn row(&self, y: usize) -> (r: Vec<Pixel>)
        requires
            self.wf(),
            y < self@.height,
        ensures
            r@.len() == self@.width,
            forall|x: int| 0 <= x < self@.width ==> r@[x] == self@.pix(x, y as int),
    {
        let mut r: Vec<Pixel> = Vec::new();
        let mut x: usize = 0;
        while x < self.width
            invariant
                self.wf(),
                y < self@.height,
                x <= self@.width,
                r@.len() == x,
                forall|i: int| 0 <= i < x ==> r@[i] == self@.pix(i, y as int),
            decreases self@.width - x,
        {
            let p = self.pixel(x, y);
            r.push(p);
            x = x + 1;
        }
        r
    }
}

/// The left-right flip of an image.
pub open spec fn mirror_h_view(v: ImageView) -> ImageView {
    ImageView {
        width: v.width,
        height: v.height,
        data: Seq::new(
            v.width * v.height,
            |i: int| v.pix(v.width - 1 - (i % v.width as int), i / v.width as int),
        ),
    }
}

/// The top-bottom flip of an image.
pub open spec fn mirror_v_view(v: ImageView) -> ImageView {
    ImageView {
        width: v.width,
        height: v.height,
        data: Seq::new(
            v.width * v.height,
            |i: int| v.pix(i % v.width as int, v.height - 1 - (i / v.width as int)),
        ),
    }
}

/// What the flips do, pixel for pixel.
pub proof fn lemma_mirror_pix(v: ImageView, x: int, y: int)
    requires
        v.wf(),
        v.in_bounds(x, y),
    ensures
        mirror_h_view(v).wf(),
        mirror_v_view(v).wf(),
        mirror_h_view(v).pix(x, y) == v.pix(v.width - 1 - x, y),
        mirror_v_view(v).pix(x, y) == v.pix(x, v.height - 1 - y),
{
    lemma_row_major_index(v.width, v.height, x, y);
}

impl Image {
    /// A new image holding this one flipped left to right.
    pub fn mirror_horizontal(&self) -> (r: Image)
        requires
            self.wf(),
        ensures
            r.wf(),
            r@ == mirror_h_view(self@),
    {
        let w = self.width;
        let h = self.height;
        let _len: usize = self.data.len();
        let mut data: Vec<Pixel> = Vec::new();
        let mut y: usize = 0;
        while y < h
            invariant
                self.wf(),
                w == self@.width,
                h == self@.height,
                _len == w * h,
                y <= h,
                data@.len() == y * w,
                forall|i: int|
                    0 <= i < data@.len() ==> data@[i] == self@.pix(
                        w - 1 - (i % w as int),
                        i / w as int,
                    ),
            decreases h - y,
        {
            let mut x: usize = 0;
            while x < w
                invariant
                    self.wf(),
                    w == self@.width,
                    h == self@.height,
                    _len == w * h,
                    y < h,
                    x <= w,
                    data@.len() == y * w + x,
                    forall|i: int|
                        0 <= i < data@.len() ==> data@[i] == self@.pix(
                            w - 1 - (i % w as int),
                            i / w as int,
                        ),
                decreases w - x,
            {
                proof {
                    lemma_row_major_index(w as nat, h as nat, x as int, y as int);
                }
                let p = self.pixel(w - 1 - x, y);
                data.push(p);
                x = x + 1;
            }
            proof {
                assert((y + 1) * w == y * w + w) by (nonlinear_arith);
            }
            y = y + 1;
        }
        let r = Image { width: w, height: h, data };
        proof {
            assert(h * w == w * h) by (nonlinear_arith);
            assert(r@.data =~= mirror_h_view(self@).data);
        }
        r
    }

    /// A new image holding this one flipped top to bottom.
    pub fn mirror_vertical(&self) -> (r: Image)
        requires
            self.wf(),
        ensures
            r.wf(),
            r@ == mirror_v_view(self@),
    {
        let w = self.width;
        let h = self.height;
        let _len: usize = self.data.len();
        let mut data: Vec<Pixel> = Vec::new();
        let mut y: usize = 0;
        while y < h
            invariant
                self.wf(),
                w == self@.width,
                h == self@.height,
                _len == w * h,
                y <= h,
                data@.len() == y * w,
                forall|i: int|
                    0 <= i < data@.len() ==> data@[i] == self@.pix(
                        i % w as int,
                        h - 1 - (i / w as int),
                    ),
            decreases h - y,
        {
            let mut x: usize = 0;
            while x < w
                invariant
                    self.wf(),
                    w == self@.width,
                    h == self@.height,
                    _len == w * h,
                    y < h,
                    x <= w,
                    data@.len() == y * w + x,
                    forall|i: int|
                        0 <= i < data@.len() ==> data@[i] == self@.pix(
                            i % w as int,
                            h - 1 - (i / w as int),
                        ),
                decreases w - x,
            {
                proof {
                    lemma_row_major_index(w as nat, h as nat, x as int, y as int);
                }
                let p = self.pixel(x, h - 1 - y);
                data.push(p);
                x = x + 1;
            }
            proof {
                assert((y + 1) * w == y * w + w) by (nonlinear_arith);
            }
            y = y + 1;
        }
        let r = Image { width: w, height: h, data };
        proof {
            assert(h * w == w * h) by (nonlinear_arith);
            assert(r@.data =~= mirror_v_view(self@).data);
        }
        r
    }
}

/// A row-major index stays inside the buffer of a well-formed image.
pub proof fn lemma_row_major_index(width: nat, height: nat, x: int, y: int)
    requires
        0 <= x < width,
        0 <= y < height,
    ensures
        0 <= y * width + x < width * height,
        (y * width + x) / width as int == y,
        (y * width + x) % width as int == x,
{
    assert(y * width + x < width * height && (y * width + x) / width as int == y
        && (y * width + x) % width as int == x) by (nonlinear_arith)
        requires
            0 <= x < width,
            0 <= y < height,
    ;
}

} // verus!
