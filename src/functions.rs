use crate::channel::{names_ok, selector_of};
use crate::color::{Rgb, Rgba};
use crate::color_space::{calc_luminance, luminance_of};
use crate::ops::{apply_named, operand_of, operated, Operator};
use crate::raster::Image;
use vstd::prelude::*;

verus! {

/// The grey level of a pixel: its BT.709 luminance rounded down.
pub open spec fn luma_of(p: Rgba) -> u8 {
    ((2126 * p.r + 7152 * p.g + 722 * p.b) / 10000) as u8
}

/// The greyscale image: each pixel's color channels all become its grey
/// level; alpha is kept.
pub fn greyscale(img: Image) -> (out: Image)
    requires
        img.wf(),
    ensures
        out.wf(),
        out.spec_width() == img.spec_width(),
        out.spec_height() == img.spec_height(),
        forall|x: int, y: int|
            0 <= x < img.spec_width() && 0 <= y < img.spec_height() ==> #[trigger] out.spec_pixel(x, y)
                == ({
                let p = img.spec_pixel(x, y);
                Rgba { r: luma_of(p), g: luma_of(p), b: luma_of(p), a: p.a }
            }),
{
    let f = |p: Rgba| -> (q: Rgba)
        ensures
            q == (Rgba { r: luma_of(p), g: luma_of(p), b: luma_of(p), a: p.a }),
        {
            let l = (calc_luminance(p).num / 10000) as u8;
            Rgba { r: l, g: l, b: l, a: p.a }
        };
    img.map_pixels(
        f,
        Ghost(|p: Rgba| Rgba { r: luma_of(p), g: luma_of(p), b: luma_of(p), a: p.a }),
    )
}

/// Averages every pixel with the right-hand color, channel by channel:
/// `(L + R) / 2`, truncating. `lhs` and `rhs` remap the channels of either
/// side; alpha is kept.
pub fn average(img: Image, lhs: Option<Vec<String>>, rhs: Option<Vec<String>>, color: Rgb) -> (out:
    Image)
    requires
        img.wf(),
        names_ok(lhs),
        names_ok(rhs),
    ensures
        operated(img, out, Operator::Average, selector_of(lhs), operand_of(rhs, color)),
{
    apply_named(&img, Operator::Average, &lhs, &rhs, color)
}

/// A pixel is lit when its luminance is above `min_threshold` and, if there
/// is an upper bound, below `max_threshold`.
pub open spec fn is_lit(p: Rgba, min_threshold: u8, max_threshold: Option<u8>) -> bool {
    let l = luminance_of(p).num;
    &&& 10000 * min_threshold < l
    &&& max_threshold matches Some(m) ==> l < 10000 * m
}

/// The light mask of bloom: the lit pixels as they are, every other pixel
/// transparent black.
pub fn light_mask(img: &Image, min_threshold: u8, max_threshold: Option<u8>) -> (out: Image)
    requires
        img.wf(),
    ensures
        out.wf(),
        out.spec_width() == img.spec_width(),
        out.spec_height() == img.spec_height(),
        forall|x: int, y: int|
            0 <= x < img.spec_width() && 0 <= y < img.spec_height() ==> #[trigger] out.spec_pixel(x, y)
                == if is_lit(img.spec_pixel(x, y), min_threshold, max_threshold) {
                img.spec_pixel(x, y)
            } else {
                Rgba { r: 0, g: 0, b: 0, a: 0 }
            },
{
    let f = |p: Rgba| -> (q: Rgba)
        ensures
            q == if is_lit(p, min_threshold, max_threshold) {
                p
            } else {
                Rgba { r: 0, g: 0, b: 0, a: 0 }
            },
        {
            let l = calc_luminance(p).num;
            let above = 10000 * (min_threshold as u32) < l;
            let below = match max_threshold {
                Some(m) => l < 10000 * (m as u32),
                None => true,
            };
            if above && below {
                p
            } else {
                Rgba { r: 0, g: 0, b: 0, a: 0 }
            }
        };
    img.map_pixels(
        f,
        Ghost(
            |p: Rgba|
                if is_lit(p, min_threshold, max_threshold) {
                    p
                } else {
                    Rgba { r: 0, g: 0, b: 0, a: 0 }
                },
        ),
    )
}

} // verus!
