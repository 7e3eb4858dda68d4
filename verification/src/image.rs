//! The pixel buffer: an 8-bit colour type and a row-major RGBA image.

use vstd::prelude::*;

verus! {

/// An 8-bit colour with an alpha channel.
#[derive(Clone, Copy, Debug, PartialEq, Eq, Structural)]
pub struct RGBA {
    pub r: u8,
    pub g: u8,
    pub b: u8,
    pub a: u8,
}

impl RGBA {
    /// The channel with the given position: red, green, blue, then alpha.
    pub open spec fn channel(self, k: int) -> u8 {
        if k == 0 {
            self.r
        } else if k == 1 {
            self.g
        } else if k == 2 {
            self.b
        } else {
            self.a
        }
    }
}

/// The bytes of a pixel sequence without the alpha channel: red, green and
/// blue of the first pixel, then of the second, and so on.
pub open spec fn rgb_bytes(pixels: Seq<RGBA>) -> Seq<u8> {
    Seq::new(pixels.len() * 3, |i: int| pixels[i / 3].channel(i % 3))
}

/// The bytes of a pixel sequence with all four channels of each pixel.
pub open spec fn rgba_bytes(pixels: Seq<RGBA>) -> Seq<u8> {
    Seq::new(pixels.len() * 4, |i: int| pixels[i / 4].channel(i % 4))
}

/// What an image is: its size, and its pixels row by row from the top,
/// each row from the left.
pub struct ImageView {
    pub width: nat,
    pub height: nat,
    pub pixels: Seq<RGBA>,
}

impl ImageView {
    /// There is one pixel per coordinate, and the four bytes of each fit in
    /// memory.
    pub open spec fn wf(self) -> bool {
        &&& self.pixels.len() == self.width * self.height
        &&& self.width * self.height * 4 <= usize::MAX
    }

    /// The position in `pixels` of the pixel in column `x` of row `y`.
    pub open spec fn offset(self, x: int, y: int) -> int {
        y * self.width + x
    }

    /// Whether `(x, y)` names a pixel of the image.
    pub open spec fn contains(self, x: int, y: int) -> bool {
        0 <= x < self.width && 0 <= y < self.height
    }

    /// The pixel in column `x` of row `y`; `(0, 0)` is the top left corner.
    pub open spec fn pixel(self, x: int, y: int) -> RGBA
        recommends
            self.contains(x, y),
    {
        self.pixels[self.offset(x, y)]
    }

    /// The image of the given size whose pixels are all transparent black.
    pub open spec fn blank(width: nat, height: nat) -> ImageView {
        ImageView {
            width,
            height,
            pixels: Seq::new(width * height, |i: int| RGBA { r: 0, g: 0, b: 0, a: 0 }),
        }
    }

    /// The image with the pixel at `(x, y)` replaced by `color`.
    pub open spec fn with_pixel(self, x: int, y: int, color: RGBA) -> ImageView
        recommends
            self.contains(x, y),
    {
        ImageView { pixels: self.pixels.update(self.offset(x, y), color), ..self }
    }
}

/// Inside an image, the offset of a coordinate is the position of one of
/// its pixels.
pub proof fn lemma_offset_in_range(width: nat, height: nat, x: int, y: int)
    requires
        0 <= x < width,
        0 <= y < height,
    ensures
        0 <= y * width,
        0 <= y * width + x < width * height,
{
    assert(0 <= y * width && y * width + width <= width * height) by (nonlinear_arith)
        requires
            0 <= y,
            y + 1 <= height,
            0 <= width,
    ;
}

/// Two coordinates inside an image that share an offset are the same.
pub proof fn lemma_offset_injective(width: nat, x1: int, y1: int, x2: int, y2: int)
    requires
        0 <= x1 < width,
        0 <= x2 < width,
        0 <= y1,
        0 <= y2,
        y1 * width + x1 == y2 * width + x2,
    ensures
        x1 == x2,
        y1 == y2,
{
    assert(y1 < y2 ==> y1 * width + width <= y2 * width) by (nonlinear_arith)
        requires
            0 <= width,
    ;
    assert(y2 < y1 ==> y2 * width + width <= y1 * width) by (nonlinear_arith)
        requires
            0 <= width,
    ;
}

/// After the pixel at `(x, y)` is replaced, that pixel holds the new colour
/// and every other pixel the colour it had.
pub proof fn lemma_with_pixel(img: ImageView, x: int, y: int, color: RGBA, i: int, j: int)
    requires
        img.wf(),
        img.contains(x, y),
        img.contains(i, j),
    ensures
        img.with_pixel(x, y, color).wf(),
        img.with_pixel(x, y, color).pixel(i, j) == if i == x && j == y {
            color
        } else {
            img.pixel(i, j)
        },
{
    lemma_offset_in_range(img.width, img.height, x, y);
    lemma_offset_in_range(img.width, img.height, i, j);
    if img.offset(i, j) == img.offset(x, y) {
        lemma_offset_injective(img.width, i, j, x, y);
    }
}

/// A 2D collection of RGBA pixels, stored as four bytes per pixel.
#[derive(Debug)]
pub struct Image {
    data: Vec<u8>,
    width: usize,
    height: usize,
}

impl View for Image {
    type V = ImageView;

    closed spec fn view(&self) -> ImageView {
        ImageView {
            width: self.width as nat,
            height: self.height as nat,
            pixels: Seq::new(
                (self.width * self.height) as nat,
                |i: int|
                    RGBA {
                        r: self.data@[i * 4],
                        g: self.data@[i * 4 + 1],
                        b: self.data@[i * 4 + 2],
                        a: self.data@[i * 4 + 3],
                    },
            ),
        }
    }
}

impl Clone for Image {
    fn clone(&self) -> (copy: Self)
        ensures
            copy@ == self@,
    {
        proof {
            use_type_invariant(self);
        }
        let copy = Image { data: self.data.clone(), width: self.width, height: self.height };
        assert(copy.data@ =~= self.data@);
        copy
    }
}

impl Image {
    #[verifier::type_invariant]
    spec fn inv(&self) -> bool {
        &&& self.data@.len() == self.width * self.height * 4
        &&& self.width * self.height * 4 <= usize::MAX
    }

    /// Create an empty image, filled with transparent black pixels.
    pub fn empty(width: usize, height: usize) -> (img: Image)
        requires
            width * height * 4 <= usize::MAX,
        ensures
            img@ == ImageView::blank(width as nat, height as nat),
    {
        let count: usize = width * height;
        let data: Vec<u8> = vec![0u8; count * 4];
        let img = Image { data, width, height };
        assert(img@.pixels =~= ImageView::blank(width as nat, height as nat).pixels);
        img
    }

    /// The number of columns.
    pub fn width(&self) -> (w: usize)
        ensures
            w == self@.width,
            self@.wf(),
    {
        proof {
            use_type_invariant(self);
        }
        self.width
    }

    /// The number of rows.
    pub fn height(&self) -> (h: usize)
        ensures
            h == self@.height,
            self@.wf(),
    {
        proof {
            use_type_invariant(self);
        }
        self.height
    }

    /// The stored bytes, four per pixel, in the order of the pixels.
    pub fn as_bytes(&self) -> (bytes: &[u8])
        ensures
            bytes@ == rgba_bytes(self@.pixels),
            self@.wf(),
    {
        proof {
            use_type_invariant(self);
            assert(self.data@ =~= rgba_bytes(self@.pixels));
        }
        self.data.as_slice()
    }

    /// Set a single pixel of the image.
    ///
    /// `(0, 0)` is the top left corner and `(width - 1, height - 1)` the
    /// bottom right one. Every other pixel, and the size, stay as they were.
    pub fn set(&mut self, x: usize, y: usize, color: RGBA)
        requires
            old(self)@.contains(x as int, y as int),
        ensures
            final(self)@ == old(self)@.with_pixel(x as int, y as int, color),
    {
        proof {
            use_type_invariant(&*self);
            lemma_offset_in_range(self.width as nat, self.height as nat, x as int, y as int);
        }
        let start: usize = (y * self.width + x) * 4;
        self.data[start] = color.r;
        self.data[start + 1] = color.g;
        self.data[start + 2] = color.b;
        self.data[start + 3] = color.a;
        assert(self@.pixels =~= old(self)@.with_pixel(x as int, y as int, color).pixels);
    }

    /// The pixel in column `x` of row `y`.
    pub fn get(&self, x: usize, y: usize) -> (color: RGBA)
        requires
            self@.contains(x as int, y as int),
        ensures
            color == self@.pixel(x as int, y as int),
    {
        proof {
            use_type_invariant(self);
            lemma_offset_in_range(self.width as nat, self.height as nat, x as int, y as int);
        }
        let start: usize = (y * self.width + x) * 4;
        RGBA {
            r: self.data[start],
            g: self.data[start + 1],
            b: self.data[start + 2],
            a: self.data[start + 3],
        }
    }
}

} // verus!
