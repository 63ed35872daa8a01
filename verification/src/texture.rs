use vstd::prelude::*;
use vstd::arithmetic::div_mod::lemma_fundamental_div_mod_converse;
use vstd::arithmetic::mul::{lemma_mul_inequality, lemma_mul_is_commutative, lemma_mul_is_distributive_add};

use crate::pixel::{channels, lemma_channels_of_packed, pack_rgb, packed};
use crate::text::{decimal, push_decimal};

verus! {

/// Value handed back for any lookup in a texture that holds no pixels: white.
pub const MISSING_TEXEL: u32 = 0xFF_FFFF;

/// Light squares of the checkerboard drawn when no image could be loaded (gold / ochre).
pub const PLACEHOLDER_LIGHT: u32 = 0xD4_AF37;

/// Dark squares of the checkerboard drawn when no image could be loaded (charcoal grey).
pub const PLACEHOLDER_DARK: u32 = 0x2A_2A2A;

/// Side, in pixels, of one square of the placeholder checkerboard.
pub const PLACEHOLDER_BLOCK: usize = 8;

/// Side, in pixels, of the placeholder that replaces an image that failed to load.
pub const FALLBACK_SIDE: usize = 64;

/// An image decoded to 8-bit RGB: `data` holds `width * height` pixels in
/// row-major order, three bytes (red, green, blue) each.
pub struct DecodedImage {
    pub width: u32,
    pub height: u32,
    pub data: Vec<u8>,
}

impl DecodedImage {
    /// The byte buffer holds exactly three bytes per pixel.
    pub open spec fn well_formed(&self) -> bool {
        self.data@.len() == 3 * (self.width as int) * (self.height as int)
    }
}

/// A texture: `width * height` texels in row-major order, each `0xRRGGBB`.
#[derive(Clone)]
pub struct Texture {
    pub width: usize,
    pub height: usize,
    pub buffer: Vec<u32>,
}

/// `v` clamped to the last valid index below `bound` (`bound > 0`).
pub open spec fn clamp_index(v: int, bound: int) -> int {
    if v < bound - 1 { v } else { bound - 1 }
}

/// Colour of the placeholder checkerboard at column `x`, row `y`.
pub open spec fn checker_color(x: int, y: int) -> u32 {
    if ((x / PLACEHOLDER_BLOCK as int) + (y / PLACEHOLDER_BLOCK as int)) % 2 == 0 {
        PLACEHOLDER_LIGHT
    } else {
        PLACEHOLDER_DARK
    }
}

/// The row-major texels of a `width` x `height` checkerboard placeholder.
pub open spec fn checkerboard(width: nat, height: nat) -> Seq<u32> {
    Seq::new(width * height, |i: int| checker_color(i % width as int, i / width as int))
}

/// The texels of an RGB byte buffer: pixel `i` is packed from bytes `3i`, `3i+1`, `3i+2`.
pub open spec fn packed_pixels(data: Seq<u8>) -> Seq<u32> {
    Seq::new(data.len() / 3, |i: int| packed(data[3 * i], data[3 * i + 1], data[3 * i + 2]))
}

impl Texture {
    /// The texture holds no texel to look up.
    pub open spec fn is_blank(&self) -> bool {
        self.width == 0 || self.height == 0 || self.buffer@.len() == 0
    }

    /// Index of the texel that a lookup at `(x, y)` reads: the coordinates are
    /// clamped to the last column and the last row.
    pub open spec fn texel_index(&self, x: int, y: int) -> int {
        clamp_index(y, self.height as int) * self.width as int + clamp_index(x, self.width as int)
    }

    /// A lookup at `(x, y)` stays inside the buffer (or reads nothing at all).
    pub open spec fn can_sample(&self, x: int, y: int) -> bool {
        self.is_blank() || self.texel_index(x, y) < self.buffer@.len()
    }

    /// What a lookup at `(x, y)` gives.
    pub open spec fn pixel_at(&self, x: int, y: int) -> u32 {
        if self.is_blank() {
            MISSING_TEXEL
        } else {
            self.buffer@[self.texel_index(x, y)]
        }
    }

    /// The buffer holds exactly one texel per pixel.
    pub open spec fn well_formed(&self) -> bool {
        self.buffer@.len() == self.width as int * self.height as int
    }

    /// A checkerboard texture of the given size, in gold and charcoal squares of
    /// `PLACEHOLDER_BLOCK` pixels, to stand in for an image that is not there.
    pub fn placeholder(width: usize, height: usize) -> (t: Texture)
        requires
            width * height <= usize::MAX,
        ensures
            t.width == width,
            t.height == height,
            t.buffer@ == checkerboard(width as nat, height as nat),
            t.well_formed(),
            t.buffer@.len() == width * height,
            forall|x: int, y: int|
                0 <= x < width && 0 <= y < height ==> #[trigger] t.buffer@[y * width + x] == if (x
                    / 8 + y / 8) % 2 == 0 {
                    0xD4_AF37u32
                } else {
                    0x2A_2A2Au32
                },
    {
        let mut buffer: Vec<u32> = Vec::with_capacity(width * height);
        let block_size: usize = PLACEHOLDER_BLOCK;
        let mut y: usize = 0;
        while y < height
            invariant
                y <= height,
                width * height <= usize::MAX,
                block_size == PLACEHOLDER_BLOCK,
                buffer@.len() == y * width,
                forall|i: int|
                    0 <= i < buffer@.len() ==> #[trigger] buffer@[i] == checker_color(
                        i % width as int,
                        i / width as int,
                    ),
            decreases height - y,
        {
            proof {
                lemma_mul_inequality(y as int + 1, height as int, width as int);
                lemma_mul_is_distributive_add(width as int, y as int, 1);
                lemma_mul_is_commutative(width as int, y as int);
                lemma_mul_is_commutative(width as int, y as int + 1);
            }
            let mut x: usize = 0;
            while x < width
                invariant
                    x <= width,
                    y < height,
                    (y + 1) * width <= usize::MAX,
                    block_size == PLACEHOLDER_BLOCK,
                    buffer@.len() == y * width + x,
                    forall|i: int|
                        0 <= i < buffer@.len() ==> #[trigger] buffer@[i] == checker_color(
                            i % width as int,
                            i / width as int,
                        ),
                decreases width - x,
            {
                let is_even = ((x / block_size) + (y / block_size)) % 2 == 0;
                let color: u32 = if is_even {
                    PLACEHOLDER_LIGHT
                } else {
                    PLACEHOLDER_DARK
                };
                proof {
                    lemma_fundamental_div_mod_converse(
                        y * width + x,
                        width as int,
                        y as int,
                        x as int,
                    );
                }
                buffer.push(color);
                x += 1;
            }
            y += 1;
        }
        proof {
            lemma_mul_is_commutative(width as int, height as int);
        }
        assert(buffer@ =~= checkerboard(width as nat, height as nat));
        let t = Texture { width, height, buffer };
        assert forall|x: int, y: int| 0 <= x < width && 0 <= y < height implies #[trigger] t.buffer@[y
            * width + x] == if (x / 8 + y / 8) % 2 == 0 {
            0xD4_AF37u32
        } else {
            0x2A_2A2Au32
        } by {
            lemma_mul_inequality(y, height as int - 1, width as int);
            lemma_mul_is_distributive_add(width as int, height as int - 1, 1);
            lemma_mul_is_commutative(width as int, height as int - 1);
            lemma_mul_is_commutative(width as int, height as int);
            lemma_fundamental_div_mod_converse(y * width + x, width as int, y, x);
        }
        t
    }

    /// The texel at integer image coordinates `(x, y)`, each clamped to the last
    /// column or row; white when the texture holds no texel.
    pub fn get_pixel(&self, x: usize, y: usize) -> (c: u32)
        requires
            self.well_formed() || self.can_sample(x as int, y as int),
        ensures
            c == self.pixel_at(x as int, y as int),
            self.width == 0 || self.height == 0 || self.buffer@.len() == 0 ==> c == 0xFF_FFFFu32,
            self.width > 0 && self.height > 0 && self.buffer@.len() > 0 && x < self.width && y
                < self.height ==> c == self.buffer@[y * self.width + x],
            self.width > 0 && self.height > 0 && self.buffer@.len() > 0 ==> c == self.buffer@[(if y < self.height {
                y as int
            } else {
                self.height - 1
            }) * self.width + (if x < self.width {
                x as int
            } else {
                self.width - 1
            })],
    {
        proof {
            if self.well_formed() {
                lemma_well_formed_can_sample(*self, x as int, y as int);
            }
        }
        if self.width == 0 || self.height == 0 || self.buffer.len() == 0 {
            return MISSING_TEXEL;
        }
        let px: usize = if x < self.width - 1 {
            x
        } else {
            self.width - 1
        };
        let py: usize = if y < self.height - 1 {
            y
        } else {
            self.height - 1
        };
        assert(self.texel_index(x as int, y as int) < self.buffer@.len());
        assert(py * self.width + px == self.texel_index(x as int, y as int));
        self.buffer[py * self.width + px]
    }

    /// A one-line description of the texture:
    /// `Texture(<width>x<height>, <number of texels> pixels)`.
    pub fn describe(&self) -> (s: String)
        ensures
            s@ == "Texture("@ + decimal(self.width as nat) + "x"@ + decimal(self.height as nat)
                + ", "@ + decimal(self.buffer@.len()) + " pixels)"@,
    {
        let mut s = String::new();
        s.append("Texture(");
        push_decimal(&mut s, self.width);
        s.append("x");
        push_decimal(&mut s, self.height);
        s.append(", ");
        push_decimal(&mut s, self.buffer.len());
        s.append(" pixels)");
        s
    }

    /// A texture that wraps the buffer of a decoded image, or, when there is no
    /// image, the `FALLBACK_SIDE` x `FALLBACK_SIDE` checkerboard placeholder.
    pub fn from_decoded(decoded: Option<DecodedImage>) -> (t: Texture)
        requires
            decoded matches Some(img) ==> img.well_formed(),
        ensures
            t.well_formed(),
            match decoded {
                Some(img) => {
                    &&& t.width == img.width
                    &&& t.height == img.height
                    &&& t.buffer@ == packed_pixels(img.data@)
                    &&& t.buffer@.len() == img.width * img.height
                    &&& forall|i: int|
                        0 <= i < t.buffer@.len() ==> #[trigger] t.buffer@[i] as int == img.data@[3
                            * i] as int * 0x1_0000 + img.data@[3 * i + 1] as int * 0x100
                            + img.data@[3 * i + 2] as int
                },
                None => {
                    &&& t.width == 64
                    &&& t.height == 64
                    &&& t.buffer@ == checkerboard(FALLBACK_SIDE as nat, FALLBACK_SIDE as nat)
                    &&& t.buffer@.len() == 64 * 64
                    &&& forall|x: int, y: int|
                        0 <= x < 64 && 0 <= y < 64 ==> #[trigger] t.buffer@[y * 64 + x] == if (x / 8
                            + y / 8) % 2 == 0 {
                            0xD4_AF37u32
                        } else {
                            0x2A_2A2Au32
                        }
                },
            },
    {
        match decoded {
            Some(img) => {
                let buffer = pack_pixels(&img.data);
                let width = img.width as usize;
                let height = img.height as usize;
                assert(img.data@.len() / 3 == width as int * height as int) by (nonlinear_arith)
                    requires
                        img.data@.len() == 3 * (width as int) * (height as int),
                ;
                Texture { width, height, buffer }
            },
            None => Texture::placeholder(FALLBACK_SIDE, FALLBACK_SIDE),
        }
    }
}

/// Packs each run of three bytes (red, green, blue) into one texel.
fn pack_pixels(data: &Vec<u8>) -> (out: Vec<u32>)
    ensures
        out@ == packed_pixels(data@),
        forall|i: int|
            0 <= i < out@.len() ==> #[trigger] out@[i] as int == data@[3 * i] as int * 0x1_0000
                + data@[3 * i + 1] as int * 0x100 + data@[3 * i + 2] as int,
{
    let n: usize = data.len() / 3;
    let mut out: Vec<u32> = Vec::with_capacity(n);
    let mut i: usize = 0;
    while i < n
        invariant
            n == data@.len() / 3,
            data@.len() <= usize::MAX,
            i <= n,
            out@.len() == i,
            forall|j: int| 0 <= j < i ==> #[trigger] out@[j] == packed_pixels(data@)[j],
            forall|j: int|
                0 <= j < i ==> #[trigger] out@[j] as int == data@[3 * j] as int * 0x1_0000 + data@[3
                    * j + 1] as int * 0x100 + data@[3 * j + 2] as int,
        decreases n - i,
    {
        assert(3 * i + 2 < data@.len()) by (nonlinear_arith)
            requires
                i < n,
                n == data@.len() / 3,
        ;
        let k: usize = 3 * i;
        out.push(pack_rgb(data[k], data[k + 1], data[k + 2]));
        i += 1;
    }
    assert(out@ =~= packed_pixels(data@));
    out
}

/// Clamping leaves an index inside `0..bound` where it is and moves any index
/// at or past the end to the last one.
pub proof fn lemma_clamp_index(v: int, bound: int)
    requires
        bound > 0,
        v >= 0,
    ensures
        v < bound ==> clamp_index(v, bound) == v,
        v >= bound ==> clamp_index(v, bound) == bound - 1,
        0 <= clamp_index(v, bound) < bound,
{
}

/// The placeholder colouring is a checkerboard of `PLACEHOLDER_BLOCK`-pixel
/// squares: the square at the origin is light, every pixel of a square has the
/// square's colour, and squares that share a side have different colours.
pub proof fn lemma_checker_pattern(x: int, y: int)
    requires
        0 <= x,
        0 <= y,
    ensures
        checker_color(x, y) == if (x / 8 + y / 8) % 2 == 0 {
            PLACEHOLDER_LIGHT
        } else {
            PLACEHOLDER_DARK
        },
        checker_color(x, y) == PLACEHOLDER_LIGHT || checker_color(x, y) == PLACEHOLDER_DARK,
        x < 8 && y < 8 ==> checker_color(x, y) == PLACEHOLDER_LIGHT,
        checker_color(x, y) == checker_color(x / 8 * 8, y / 8 * 8),
        checker_color(x + 8, y) != checker_color(x, y),
        checker_color(x, y + 8) != checker_color(x, y),
{
    assert((x + 8) / 8 == x / 8 + 1) by (nonlinear_arith)
        requires
            x >= 0,
    ;
    assert((y + 8) / 8 == y / 8 + 1) by (nonlinear_arith)
        requires
            y >= 0,
    ;
    assert((x / 8 * 8) / 8 == x / 8) by (nonlinear_arith)
        requires
            x >= 0,
    ;
    assert((y / 8 * 8) / 8 == y / 8) by (nonlinear_arith)
        requires
            y >= 0,
    ;
}

/// A texture whose buffer holds one texel per pixel can be sampled at any
/// coordinates.
pub proof fn lemma_well_formed_can_sample(t: Texture, x: int, y: int)
    requires
        t.well_formed(),
        0 <= x,
        0 <= y,
    ensures
        t.can_sample(x, y),
{
    if !t.is_blank() {
        let w = t.width as int;
        let h = t.height as int;
        let py = clamp_index(y, h);
        lemma_mul_inequality(py, h - 1, w);
        lemma_mul_is_distributive_add(w, h - 1, 1);
        lemma_mul_is_commutative(w, h - 1);
        lemma_mul_is_commutative(w, h);
    }
}

/// Sampling the placeholder: any lookup gives the checkerboard colour of the
/// coordinates clamped to the last column and row.
pub proof fn lemma_placeholder_sample(t: Texture, x: int, y: int)
    requires
        t.buffer@ == checkerboard(t.width as nat, t.height as nat),
        t.width > 0,
        t.height > 0,
        0 <= x,
        0 <= y,
    ensures
        t.pixel_at(x, y) == checker_color(
            clamp_index(x, t.width as int),
            clamp_index(y, t.height as int),
        ),
{
    let w = t.width as int;
    let h = t.height as int;
    let px = clamp_index(x, w);
    let py = clamp_index(y, h);
    assert(t.well_formed()) by {
        lemma_mul_is_commutative(w, h);
    }
    lemma_well_formed_can_sample(t, x, y);
    assert(w * h > 0) by (nonlinear_arith)
        requires
            w > 0,
            h > 0,
    ;
    lemma_fundamental_div_mod_converse(py * w + px, w, py, px);
}

/// Sampling a texture made from a decoded image: any lookup gives the packed
/// red, green and blue bytes of the pixel at the coordinates clamped to the
/// last column and row.
pub proof fn lemma_image_sample(img: DecodedImage, t: Texture, x: int, y: int)
    requires
        img.well_formed(),
        img.width > 0,
        img.height > 0,
        t.width == img.width,
        t.height == img.height,
        t.buffer@ == packed_pixels(img.data@),
        0 <= x,
        0 <= y,
    ensures
        ({
            let k = t.texel_index(x, y);
            &&& t.pixel_at(x, y) == packed(img.data@[3 * k], img.data@[3 * k + 1], img.data@[3 * k + 2])
            &&& channels(t.pixel_at(x, y)) == (img.data@[3 * k], img.data@[3 * k + 1], img.data@[3 * k + 2])
        }),
{
    let w = t.width as int;
    let h = t.height as int;
    assert(img.data@.len() / 3 == w * h) by (nonlinear_arith)
        requires
            img.data@.len() == 3 * w * h,
    ;
    assert(w * h > 0) by (nonlinear_arith)
        requires
            w > 0,
            h > 0,
    ;
    lemma_well_formed_can_sample(t, x, y);
    let k = t.texel_index(x, y);
    lemma_channels_of_packed(img.data@[3 * k], img.data@[3 * k + 1], img.data@[3 * k + 2]);
}

} // verus!
