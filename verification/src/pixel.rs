use vstd::prelude::*;
use vstd::arithmetic::div_mod::lemma_fundamental_div_mod_converse;

verus! {

/// The texel value `0xRRGGBB` of the colour with red `r`, green `g` and blue `b`.
pub open spec fn packed(r: u8, g: u8, b: u8) -> u32 {
    (r as int * 0x1_0000 + g as int * 0x100 + b as int) as u32
}

/// The red, green and blue bytes of a texel value: bits 16..24, 8..16 and 0..8.
pub open spec fn channels(hex: u32) -> (u8, u8, u8) {
    (
        (hex as int / 0x1_0000 % 0x100) as u8,
        (hex as int / 0x100 % 0x100) as u8,
        (hex as int % 0x100) as u8,
    )
}

/// Packs an RGB triple into one texel value `0xRRGGBB`.
pub fn pack_rgb(r: u8, g: u8, b: u8) -> (hex: u32)
    ensures
        hex == packed(r, g, b),
        hex <= 0xFF_FFFF,
        hex as int == r as int * 0x1_0000 + g as int * 0x100 + b as int,
        hex as int / 0x1_0000 == r as int,
        hex as int / 0x100 % 0x100 == g as int,
        hex as int % 0x100 == b as int,
{
    proof {
        let v: int = r as int * 0x1_0000 + g as int * 0x100 + b as int;
        lemma_fundamental_div_mod_converse(v, 0x1_0000, r as int, g as int * 0x100 + b as int);
        lemma_fundamental_div_mod_converse(v, 0x100, r as int * 0x100 + g as int, b as int);
        lemma_fundamental_div_mod_converse(r as int * 0x100 + g as int, 0x100, r as int, g as int);
    }
    let hex: u32 = ((r as u32) << 16u32) | ((g as u32) << 8u32) | (b as u32);
    assert(((r as u32) << 16u32) | ((g as u32) << 8u32) | (b as u32) == (r as u32) * 0x1_0000u32
        + (g as u32) * 0x100u32 + (b as u32)) by (bit_vector);
    hex
}

/// Splits a texel value into its red, green and blue bytes; bits above the
/// lowest 24 are ignored.
pub fn unpack_rgb(hex: u32) -> (rgb: (u8, u8, u8))
    ensures
        rgb == channels(hex),
        rgb.0 as u32 == (hex >> 16u32) & 0xFFu32,
        rgb.1 as u32 == (hex >> 8u32) & 0xFFu32,
        rgb.2 as u32 == hex & 0xFFu32,
        rgb.0 as int * 0x1_0000 + rgb.1 as int * 0x100 + rgb.2 as int == hex as int % 0x100_0000,
{
    assert(hex / 0x1_0000u32 % 0x100u32 * 0x1_0000u32 + hex / 0x100u32 % 0x100u32 * 0x100u32 + hex
        % 0x100u32 == hex % 0x100_0000u32) by (bit_vector);
    let r: u8 = ((hex >> 16u32) & 0xFFu32) as u8;
    let g: u8 = ((hex >> 8u32) & 0xFFu32) as u8;
    let b: u8 = (hex & 0xFFu32) as u8;
    assert((hex >> 16u32) & 0xFFu32 == hex / 0x1_0000u32 % 0x100u32) by (bit_vector);
    assert((hex >> 8u32) & 0xFFu32 == hex / 0x100u32 % 0x100u32) by (bit_vector);
    assert(hex & 0xFFu32 == hex % 0x100u32) by (bit_vector);
    (r, g, b)
}

/// Where the bytes go in a packed texel: red is the value divided by `0x10000`,
/// green the next byte down, blue the lowest byte, and nothing lies above 24 bits.
pub proof fn lemma_packed_positions(r: u8, g: u8, b: u8)
    ensures
        packed(r, g, b) as int == r as int * 0x1_0000 + g as int * 0x100 + b as int,
        packed(r, g, b) as int / 0x1_0000 == r as int,
        packed(r, g, b) as int / 0x100 % 0x100 == g as int,
        packed(r, g, b) as int % 0x100 == b as int,
        packed(r, g, b) <= 0xFF_FFFF,
{
    let v: int = r as int * 0x1_0000 + g as int * 0x100 + b as int;
    assert(0 <= v <= 0xFF_FFFF);
    assert(packed(r, g, b) as int == v);
    lemma_fundamental_div_mod_converse(v, 0x1_0000, r as int, g as int * 0x100 + b as int);
    lemma_fundamental_div_mod_converse(v, 0x100, r as int * 0x100 + g as int, b as int);
    lemma_fundamental_div_mod_converse(r as int * 0x100 + g as int, 0x100, r as int, g as int);
}

/// The three bytes of a texel, weighted by `0x10000`, `0x100` and `1`, add
/// back up to its lowest 24 bits.
pub proof fn lemma_channels_recombine(hex: u32)
    ensures
        channels(hex).0 as int * 0x1_0000 + channels(hex).1 as int * 0x100 + channels(hex).2 as int
            == hex as int % 0x100_0000,
{
    assert(hex / 0x1_0000u32 % 0x100u32 * 0x1_0000u32 + hex / 0x100u32 % 0x100u32 * 0x100u32 + hex
        % 0x100u32 == hex % 0x100_0000u32) by (bit_vector);
    assert(hex / 0x1_0000u32 % 0x100u32 < 0x100);
    assert(hex / 0x100u32 % 0x100u32 < 0x100);
}

/// Packing then unpacking gives back the three bytes that were packed.
pub proof fn lemma_channels_of_packed(r: u8, g: u8, b: u8)
    ensures
        channels(packed(r, g, b)) == (r, g, b),
{
    let v: int = r as int * 0x1_0000 + g as int * 0x100 + b as int;
    assert(packed(r, g, b) as int == v);
    lemma_fundamental_div_mod_converse(v, 0x1_0000, r as int, g as int * 0x100 + b as int);
    lemma_fundamental_div_mod_converse(r as int, 0x100, 0, r as int);
    lemma_fundamental_div_mod_converse(v, 0x100, r as int * 0x100 + g as int, b as int);
    lemma_fundamental_div_mod_converse(r as int * 0x100 + g as int, 0x100, r as int, g as int);
}

/// Unpacking then packing gives back any texel value of at most 24 bits.
pub proof fn lemma_packed_of_channels(hex: u32)
    requires
        hex <= 0xFF_FFFF,
    ensures
        packed(channels(hex).0, channels(hex).1, channels(hex).2) == hex,
{
    let v = hex as int;
    let hi = v / 0x1_0000;
    let mid = v / 0x100;
    assert(hi < 0x100) by (nonlinear_arith)
        requires
            hi == v / 0x1_0000,
            0 <= v <= 0xFF_FFFF,
    ;
    assert(v == hi * 0x1_0000 + (mid % 0x100) * 0x100 + v % 0x100) by (nonlinear_arith)
        requires
            hi == v / 0x1_0000,
            mid == v / 0x100,
            0 <= v,
    ;
    lemma_fundamental_div_mod_converse(hi, 0x100, 0, hi);
}

} // verus!
