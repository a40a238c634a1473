use crate::color::Rgba;
use vstd::prelude::*;

verus! {

/// An exact non-negative rational `num / den`. Every ratio this library
/// makes has `den > 0`.
#[derive(Clone, Copy, PartialEq, Eq, Debug, Structural)]
pub struct Ratio {
    pub num: u32,
    pub den: u32,
}

/// `a <= b` as rationals (both denominators positive).
pub open spec fn ratio_le(a: Ratio, b: Ratio) -> bool {
    a.num * b.den <= b.num * a.den
}

/// Exact comparison of two ratios with positive denominators.
pub fn ratio_leq(a: Ratio, b: Ratio) -> (r: bool)
    ensures
        r == ratio_le(a, b),
{
    assert(a.num * b.den <= u64::MAX && b.num * a.den <= u64::MAX) by (nonlinear_arith)
        requires
            a.num <= u32::MAX,
            b.num <= u32::MAX,
            a.den <= u32::MAX,
            b.den <= u32::MAX,
    ;
    (a.num as u64) * (b.den as u64) <= (b.num as u64) * (a.den as u64)
}

/// `<=` on ratios with positive denominators is transitive.
pub proof fn lemma_ratio_le_trans(a: Ratio, b: Ratio, c: Ratio)
    requires
        a.den > 0,
        b.den > 0,
        c.den > 0,
        ratio_le(a, b),
        ratio_le(b, c),
    ensures
        ratio_le(a, c),
{
    let (an, ad, bn, bd, cn, cd) = (
        a.num as int,
        a.den as int,
        b.num as int,
        b.den as int,
        c.num as int,
        c.den as int,
    );
    assert(an * bd * cd <= bn * ad * cd) by (nonlinear_arith)
        requires
            an * bd <= bn * ad,
            cd > 0,
    ;
    assert(bn * cd * ad <= cn * bd * ad) by (nonlinear_arith)
        requires
            bn * cd <= cn * bd,
            ad > 0,
    ;
    assert(an * cd * bd <= cn * ad * bd) by (nonlinear_arith)
        requires
            an * bd * cd <= bn * ad * cd,
            bn * cd * ad <= cn * bd * ad,
    ;
    assert(an * cd <= cn * ad) by (nonlinear_arith)
        requires
            an * cd * bd <= cn * ad * bd,
            bd > 0,
    ;
}

pub open spec fn max3(r: u8, g: u8, b: u8) -> u8 {
    if r >= g && r >= b {
        r
    } else if g >= b {
        g
    } else {
        b
    }
}

pub open spec fn min3(r: u8, g: u8, b: u8) -> u8 {
    if r <= g && r <= b {
        r
    } else if g <= b {
        g
    } else {
        b
    }
}

/// ITU-R BT.709 luminance `0.2126 R + 0.7152 G + 0.0722 B`, exactly, in
/// units of 1/10000.
pub open spec fn luminance_of(p: Rgba) -> Ratio {
    Ratio { num: (2126 * p.r + 7152 * p.g + 722 * p.b) as u32, den: 10000 }
}

/// Hue in degrees, in `[0, 360)`; 0 for a grey.
pub open spec fn hue_of(p: Rgba) -> Ratio {
    let mx = max3(p.r, p.g, p.b);
    let d = mx - min3(p.r, p.g, p.b);
    if d == 0 {
        Ratio { num: 0, den: 1 }
    } else if mx == p.r {
        if p.g >= p.b {
            Ratio { num: (60 * (p.g - p.b)) as u32, den: d as u32 }
        } else {
            Ratio { num: (360 * d - 60 * (p.b - p.g)) as u32, den: d as u32 }
        }
    } else if mx == p.g {
        Ratio { num: (60 * (p.b - p.r) + 120 * d) as u32, den: d as u32 }
    } else {
        Ratio { num: (60 * (p.r - p.g) + 240 * d) as u32, den: d as u32 }
    }
}

/// Saturation `(max - min) / max`, scaled to `[0, 255]`; 0 for black.
pub open spec fn saturation_of(p: Rgba) -> Ratio {
    let mx = max3(p.r, p.g, p.b);
    if mx == 0 {
        Ratio { num: 0, den: 1 }
    } else {
        Ratio { num: (255 * (mx - min3(p.r, p.g, p.b))) as u32, den: mx as u32 }
    }
}

/// Value: the largest of the three channels, in `[0, 255]`.
pub open spec fn value_of(p: Rgba) -> Ratio {
    Ratio { num: max3(p.r, p.g, p.b) as u32, den: 1 }
}

/// The HSV coordinates of a pixel: hue in degrees, saturation and value on
/// the 0–255 scale of the channels.
#[derive(Clone, Copy, PartialEq, Eq, Debug, Structural)]
pub struct Hsv {
    pub hue: Ratio,
    pub saturation: Ratio,
    pub value: Ratio,
}

/// The exact luminance of a pixel, in units of 1/10000.
pub fn calc_luminance(color: Rgba) -> (l: Ratio)
    ensures
        l == luminance_of(color),
{
    let num = 2126 * (color.r as u32) + 7152 * (color.g as u32) + 722 * (color.b as u32);
    Ratio { num, den: 10000 }
}

/// The exact HSV coordinates of a pixel's color.
pub fn rgb_to_hsv(rgb: Rgba) -> (hsv: Hsv)
    ensures
        hsv == (Hsv { hue: hue_of(rgb), saturation: saturation_of(rgb), value: value_of(rgb) }),
{
    let (r, g, b) = (rgb.r as u32, rgb.g as u32, rgb.b as u32);
    let mx: u32 = if r >= g && r >= b {
        r
    } else if g >= b {
        g
    } else {
        b
    };
    let mn: u32 = if r <= g && r <= b {
        r
    } else if g <= b {
        g
    } else {
        b
    };
    let d = mx - mn;
    let hue = if d == 0 {
        Ratio { num: 0, den: 1 }
    } else if mx == r {
        if g >= b {
            Ratio { num: 60 * (g - b), den: d }
        } else {
            Ratio { num: 360 * d - 60 * (b - g), den: d }
        }
    } else if mx == g {
        Ratio { num: 60 * b + 120 * d - 60 * r, den: d }
    } else {
        Ratio { num: 60 * r + 240 * d - 60 * g, den: d }
    };
    let saturation = if mx == 0 {
        Ratio { num: 0, den: 1 }
    } else {
        Ratio { num: 255 * d, den: mx }
    };
    Hsv { hue, saturation, value: Ratio { num: mx, den: 1 } }
}

} // verus!
