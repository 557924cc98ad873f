//! Images as rows of RGBA pixels, eight bits a channel.

use vstd::prelude::*;

verus! {

/// A raster as plain values: its size, and four bytes for each pixel, row
/// after row from the top.
pub struct RasterView {
    pub width: nat,
    pub height: nat,
    pub pixels: Seq<u8>,
}

impl RasterView {
    /// Each pixel has its four bytes, and the sides fit 32 bits.
    pub open spec fn wf(self) -> bool {
        &&& self.width <= u32::MAX
        &&& self.height <= u32::MAX
        &&& self.pixels.len() == 4 * (self.width * self.height)
    }

    /// Whether the raster has a pixel at column `x` of row `y`.
    pub open spec fn covers(self, x: int, y: int) -> bool {
        0 <= x < self.width && 0 <= y < self.height
    }

    /// Where the four bytes of the pixel at `(x, y)` begin.
    pub open spec fn offset(self, x: int, y: int) -> int {
        4 * (y * self.width + x)
    }

    /// The four bytes of the pixel at `(x, y)`: red, green, blue, alpha.
    pub open spec fn pixel(self, x: int, y: int) -> Seq<u8> {
        self.pixels.subrange(self.offset(x, y), self.offset(x, y) + 4)
    }

    /// The alpha byte of the pixel at `(x, y)`.
    pub open spec fn alpha(self, x: int, y: int) -> u8 {
        self.pixels[self.offset(x, y) + 3]
    }

    /// Every pixel either hides what is below it or is nothing at all: its
    /// alpha is 255, or its four bytes are 0.
    pub open spec fn solid(self) -> bool {
        forall|x: int, y: int|
            self.covers(x, y) ==> #[trigger] self.alpha(x, y) == 255 || self.pixel(x, y)
                == seq![0u8, 0u8, 0u8, 0u8]
    }
}

/// The raster of the given size whose bytes are all zero: nothing shows.
pub open spec fn transparent(width: nat, height: nat) -> RasterView {
    RasterView { width, height, pixels: Seq::new(4 * (width * height), |i: int| 0u8) }
}

/// The alpha byte `alpha` of a layer that shows `factor` 65536ths of itself:
/// the product, cut off below, and at most 255.
pub open spec fn faded_alpha(alpha: u8, factor: u32) -> u8 {
    if alpha * factor / 65536 > 255 {
        255u8
    } else {
        (alpha * factor / 65536) as u8
    }
}

/// The raster with every alpha byte faded by `factor` 65536ths; the colours
/// stay.
pub open spec fn faded(raster: RasterView, factor: u32) -> RasterView {
    RasterView {
        width: raster.width,
        height: raster.height,
        pixels: Seq::new(
            raster.pixels.len(),
            |i: int|
                if i % 4 == 3 {
                    faded_alpha(raster.pixels[i], factor)
                } else {
                    raster.pixels[i]
                },
        ),
    }
}

/// The pixels of a raster lie inside its bytes, one after another.
pub proof fn lemma_offset_bounds(raster: RasterView, x: int, y: int)
    requires
        raster.wf(),
        raster.covers(x, y),
    ensures
        0 <= raster.offset(x, y),
        raster.offset(x, y) + 4 <= raster.pixels.len(),
        0 <= y * raster.width + x < raster.width * raster.height,
{
    let w = raster.width as int;
    let h = raster.height as int;
    assert(y * w + x < w * h && 0 <= y * w) by (nonlinear_arith)
        requires
            0 <= x < w,
            0 <= y < h,
    ;
}

/// Two rasters of one size with the same pixel at every place hold the same
/// bytes.
pub proof fn lemma_same_pixels(one: RasterView, other: RasterView)
    requires
        one.wf(),
        other.wf(),
        one.width == other.width,
        one.height == other.height,
        forall|x: int, y: int| one.covers(x, y) ==> #[trigger] one.pixel(x, y) == other.pixel(x, y),
    ensures
        one.pixels == other.pixels,
{
    let w = one.width as int;
    let h = one.height as int;
    assert forall|i: int| 0 <= i < one.pixels.len() implies one.pixels[i] == other.pixels[i] by {
        let p = i / 4;
        let c = i % 4;
        let x = p % w;
        let y = p / w;
        vstd::arithmetic::div_mod::lemma_fundamental_div_mod(p, w);
        vstd::arithmetic::div_mod::lemma_multiply_divide_lt(p, w, h);
        assert(one.pixel(x, y)[c] == one.pixels[4 * p + c]);
    }
}

/// Fading by the factor nought leaves no pixel with any alpha.
pub proof fn lemma_zero_fade_hides(raster: RasterView, x: int, y: int)
    requires
        raster.wf(),
        raster.covers(x, y),
    ensures
        faded(raster, 0).alpha(x, y) == 0,
{
    lemma_offset_bounds(raster, x, y);
}

/// The byte at place `i` of a raster `width` wide in which `image` lies with
/// its corner at `(left, top)` and nothing shows elsewhere.
pub open spec fn framed_byte(image: RasterView, width: nat, left: nat, top: nat, i: int) -> u8 {
    let row = i / (4 * width as int);
    let column = (i % (4 * width as int)) / 4;
    let channel = (i % (4 * width as int)) % 4;
    if image.covers(column - left, row - top) {
        image.pixels[image.offset(column - left, row - top) + channel]
    } else {
        0u8
    }
}

/// The raster of the given size in which `image` lies unchanged with its
/// corner at `(left, top)`, and in which nothing shows elsewhere.
pub open spec fn framed(image: RasterView, width: nat, height: nat, left: nat, top: nat) -> RasterView {
    RasterView {
        width,
        height,
        pixels: Seq::new(
            4 * (width * height),
            |i: int| framed_byte(image, width, left, top, i),
        ),
    }
}

/// The place of a byte, from its row, its column and its channel.
pub proof fn lemma_byte_place(width: int, height: int, row: int, column: int, channel: int)
    requires
        0 <= row < height,
        0 <= column < width,
        0 <= channel < 4,
    ensures
        0 <= 4 * (row * width + column) + channel < 4 * (width * height),
        (4 * (row * width + column) + channel) / (4 * width) == row,
        ((4 * (row * width + column) + channel) % (4 * width)) / 4 == column,
        ((4 * (row * width + column) + channel) % (4 * width)) % 4 == channel,
{
    let i = 4 * (row * width + column) + channel;
    let rest = 4 * column + channel;
    assert(i == row * (4 * width) + rest) by (nonlinear_arith)
        requires
            i == 4 * (row * width + column) + channel,
            rest == 4 * column + channel,
    ;
    vstd::arithmetic::div_mod::lemma_fundamental_div_mod_converse(i, 4 * width, row, rest);
    assert(0 <= i < 4 * (width * height)) by (nonlinear_arith)
        requires
            i == row * (4 * width) + rest,
            0 <= rest < 4 * width,
            0 <= row < height,
            0 < width,
    ;
}

/// In a framed raster every pixel of the image is found unchanged, moved
/// by the corner, and every other pixel is four bytes of 0.
pub proof fn lemma_framed_pixel(
    image: RasterView,
    width: nat,
    height: nat,
    left: nat,
    top: nat,
    x: int,
    y: int,
)
    requires
        image.wf(),
        framed(image, width, height, left, top).covers(x, y),
    ensures
        framed(image, width, height, left, top).pixel(x, y) == if image.covers(x - left, y - top) {
            image.pixel(x - left, y - top)
        } else {
            seq![0u8, 0u8, 0u8, 0u8]
        },
{
    lemma_byte_place(width as int, height as int, y, x, 0);
    lemma_byte_place(width as int, height as int, y, x, 1);
    lemma_byte_place(width as int, height as int, y, x, 2);
    lemma_byte_place(width as int, height as int, y, x, 3);
    if image.covers(x - left, y - top) {
        lemma_offset_bounds(image, x - left, y - top);
    }
}

/// An RGBA image.
#[derive(Debug, Clone)]
pub struct Raster {
    pub(crate) width: u32,
    pub(crate) height: u32,
    pub(crate) pixels: Vec<u8>,
}

impl View for Raster {
    type V = RasterView;

    closed spec fn view(&self) -> RasterView {
        RasterView {
            width: self.width as nat,
            height: self.height as nat,
            pixels: self.pixels@,
        }
    }
}

impl Raster {
    /// Each pixel has its four bytes.
    pub open spec fn wf(&self) -> bool {
        self@.wf()
    }

    /// A raster of the given size from its bytes; `None` where there are not
    /// four bytes for each pixel.
    pub fn from_raw(width: u32, height: u32, pixels: Vec<u8>) -> (raster: Option<Raster>)
        ensures
            match raster {
                Some(raster) => raster.wf() && raster@ == (RasterView {
                    width: width as nat,
                    height: height as nat,
                    pixels: pixels@,
                }),
                None => pixels@.len() != 4 * (width * height),
            },
    {
        assert(0 <= width * height <= 0xffff_ffff * 0xffff_ffff) by (nonlinear_arith)
            requires
                0 <= width <= 0xffff_ffff,
                0 <= height <= 0xffff_ffff,
        ;
        let wanted = 4 * (width as u128 * height as u128);
        if pixels.len() as u128 == wanted {
            Some(Raster { width, height, pixels })
        } else {
            None
        }
    }

    /// Whether a raster of the given size fits in memory on this machine.
    pub fn fits(width: u32, height: u32) -> (possible: bool)
        ensures
            possible == (4 * (width * height) <= usize::MAX),
    {
        assert(0 <= width * height <= 0xffff_ffff * 0xffff_ffff) by (nonlinear_arith)
            requires
                0 <= width <= 0xffff_ffff,
                0 <= height <= 0xffff_ffff,
        ;
        4 * (width as u128 * height as u128) <= usize::MAX as u128
    }

    /// A raster of the given size in which nothing shows.
    pub fn new(width: u32, height: u32) -> (raster: Raster)
        requires
            4 * (width * height) <= usize::MAX,
        ensures
            raster.wf(),
            raster@ == transparent(width as nat, height as nat),
    {
        let n: usize = 4 * (width as usize * height as usize);
        let pixels = vec![0u8; n];
        let raster = Raster { width, height, pixels };
        assert(raster@.pixels == transparent(width as nat, height as nat).pixels);
        raster
    }

    /// A second raster with the same pixels.
    pub fn duplicate(&self) -> (copy: Raster)
        ensures
            copy@ == self@,
    {
        let pixels = self.pixels.clone();
        Raster { width: self.width, height: self.height, pixels }
    }

    /// Lets `factor` 65536ths of every pixel show: each alpha byte is
    /// multiplied by the factor, cut off below, and kept at 255 at most.
    pub fn fade(&mut self, factor: u32)
        requires
            old(self).wf(),
        ensures
            final(self).wf(),
            final(self)@ == faded(old(self)@, factor),
    {
        let n = self.pixels.len();
        let mut i: usize = 0;
        while i < n
            invariant
                i <= n,
                i % 4 == 0,
                n % 4 == 0,
                n == self.pixels@.len(),
                n == old(self).pixels@.len(),
                self.width == old(self).width,
                self.height == old(self).height,
                forall|k: int|
                    0 <= k < i ==> #[trigger] self.pixels@[k] == faded(old(self)@, factor).pixels[k],
                forall|k: int| i <= k < n ==> #[trigger] self.pixels@[k] == old(self).pixels@[k],
            decreases n - i,
        {
            let alpha = self.pixels[i + 3];
            assert(0 <= alpha * factor <= 255 * 0xffff_ffff) by (nonlinear_arith)
                requires
                    0 <= alpha <= 255,
                    0 <= factor <= 0xffff_ffff,
            ;
            let product: u64 = alpha as u64 * factor as u64 / 65536;
            let shown: u8 = if product > 255 {
                255
            } else {
                product as u8
            };
            self.pixels.set(i + 3, shown);
            i += 4;
        }
        assert(self@.pixels == faded(old(self)@, factor).pixels);
    }

    /// A raster of the given size in which this one lies unchanged with its
    /// corner at `(left, top)`, and in which nothing shows elsewhere.
    pub fn framed(&self, width: u32, height: u32, left: u32, top: u32) -> (frame: Raster)
        requires
            self.wf(),
            left + self@.width <= width,
            top + self@.height <= height,
            4 * (width * height) <= usize::MAX,
        ensures
            frame.wf(),
            frame@ == framed(self@, width as nat, height as nat, left as nat, top as nat),
    {
        let ghost wanted = framed(self@, width as nat, height as nat, left as nat, top as nat);
        let mut pixels: Vec<u8> = Vec::new();
        let mut row: u32 = 0;
        while row < height
            invariant
                self.wf(),
                left + self.width <= width,
                top + self.height <= height,
                4 * (width * height) <= usize::MAX,
                row <= height,
                pixels@.len() == 4 * (row * width),
                wanted == framed(self@, width as nat, height as nat, left as nat, top as nat),
                forall|i: int| 0 <= i < pixels@.len() ==> pixels@[i] == wanted.pixels[i],
            decreases height - row,
        {
            let mut column: u32 = 0;
            while column < width
                invariant
                    self.wf(),
                    left + self.width <= width,
                    top + self.height <= height,
                    4 * (width * height) <= usize::MAX,
                    row < height,
                    column <= width,
                    pixels@.len() == 4 * (row * width + column),
                    wanted == framed(self@, width as nat, height as nat, left as nat, top as nat),
                    forall|i: int| 0 <= i < pixels@.len() ==> pixels@[i] == wanted.pixels[i],
                decreases width - column,
            {
                proof {
                    lemma_byte_place(width as int, height as int, row as int, column as int, 0);
                    lemma_byte_place(width as int, height as int, row as int, column as int, 1);
                    lemma_byte_place(width as int, height as int, row as int, column as int, 2);
                    lemma_byte_place(width as int, height as int, row as int, column as int, 3);
                }
                if left <= column && column - left < self.width && top <= row && row - top
                    < self.height {
                    proof {
                        lemma_offset_bounds(self@, column - left, row - top);
                        assert(self.pixels@.len() == self.pixels.len());
                    }
                    let at: usize = 4 * ((row - top) as usize * self.width as usize + (column
                        - left) as usize);
                    pixels.push(self.pixels[at]);
                    pixels.push(self.pixels[at + 1]);
                    pixels.push(self.pixels[at + 2]);
                    pixels.push(self.pixels[at + 3]);
                } else {
                    pixels.push(0);
                    pixels.push(0);
                    pixels.push(0);
                    pixels.push(0);
                }
                column += 1;
            }
            assert(4 * (row * width + width) == 4 * ((row + 1) * width)) by (nonlinear_arith);
            row += 1;
        }
        assert(height * width == width * height) by (nonlinear_arith);
        assert(pixels@ =~= wanted.pixels);
        Raster { width, height, pixels }
    }

    /// The number of columns.
    pub fn width(&self) -> (width: u32)
        ensures
            width == self@.width,
    {
        self.width
    }

    /// The number of rows.
    pub fn height(&self) -> (height: u32)
        ensures
            height == self@.height,
    {
        self.height
    }

    /// The bytes of all pixels.
    pub fn as_raw(&self) -> (pixels: &Vec<u8>)
        ensures
            pixels@ == self@.pixels,
    {
        &self.pixels
    }

    /// Gives up the raster for its bytes.
    pub fn into_raw(self) -> (pixels: Vec<u8>)
        ensures
            pixels@ == self@.pixels,
    {
        self.pixels
    }

    /// The pixel at column `x` of row `y`, if the raster has one there.
    pub fn get_pixel(&self, x: u32, y: u32) -> (pixel: Option<[u8; 4]>)
        requires
            self.wf(),
        ensures
            match pixel {
                Some(pixel) => self@.covers(x as int, y as int) && pixel@ == self@.pixel(
                    x as int,
                    y as int,
                ),
                None => !self@.covers(x as int, y as int),
            },
    {
        if x >= self.width || y >= self.height {
            return None;
        }
        proof {
            lemma_offset_bounds(self@, x as int, y as int);
            assert(self.pixels@.len() == self.pixels.len());
        }
        let at: usize = 4 * (y as usize * self.width as usize + x as usize);
        let pixel = [self.pixels[at], self.pixels[at + 1], self.pixels[at + 2], self.pixels[at + 3]];
        Some(pixel)
    }
}

} // verus!
