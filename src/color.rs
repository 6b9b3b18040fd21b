//! The banded colour policy: four linear ramps over a byte of intensity.
use vstd::prelude::*;

verus! {

/// An RGBA pixel.
pub type Rgba = (u8, u8, u8, u8);

/// Blue ramp on `[0, 64)`, blue into green on `[64, 128)`, green into red on
/// `[128, 192)`, fading red on `[192, 256)`; alpha is always opaque.
pub open spec fn band_color_spec(c: u8) -> Rgba {
    if c < 64 {
        (0, 0, (c * 4) as u8, 255)
    } else if c < 128 {
        (0, ((c - 64) * 4) as u8, ((127 - c) * 4) as u8, 255)
    } else if c < 192 {
        (((c - 128) * 4) as u8, ((191 - c) * 4) as u8, 0, 255)
    } else {
        (((255 - c) * 4) as u8, 0, 0, 255)
    }
}

/// The colour of intensity `c` under the banded policy.
pub fn band_color(c: u8) -> (r: Rgba)
    ensures
        r == band_color_spec(c),
{
    if c < 64 {
        (0, 0, c * 4, 255)
    } else if c < 128 {
        (0, (c - 64) * 4, (127 - c) * 4, 255)
    } else if c < 192 {
        ((c - 128) * 4, (191 - c) * 4, 0, 255)
    } else {
        ((255 - c) * 4, 0, 0, 255)
    }
}

/// The intensity of a fractal value `n`, given in units of `4 ONE^4`:
/// `(n / 2 + 1 / 2) * 255` rounded down and held to `[0, 255]`.
pub open spec fn intensity_spec(n: int) -> u8 {
    let v = 255 * (n + 73786976294838206464) / 147573952589676412928;
    if v < 0 {
        0
    } else if v > 255 {
        255
    } else {
        v as u8
    }
}

/// Intensity byte of a fractal value `n` (units of `4 ONE^4`).
pub fn intensity(n: i128) -> (r: u8)
    requires
        -0x1000_0000_0000_0000_0000_0000 <= n <= 0x1000_0000_0000_0000_0000_0000,
    ensures
        r == intensity_spec(n as int),
{
    let shifted = n + 73786976294838206464;
    if shifted < 0 {
        0
    } else {
        let v = 255 * shifted / 147573952589676412928;
        if v > 255 {
            255
        } else {
            v as u8
        }
    }
}

} // verus!
