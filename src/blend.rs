use crate::channel::{names_ok, selector_of};
use crate::color::Rgb;
use crate::ops::{apply_named, operand_of, operated, Operator};
use crate::raster::Image;
use vstd::prelude::*;

verus! {

/// The overlay blend of every pixel with the right-hand color: `L * R / 128`
/// where the left channel is below 128, else `255 - (255 - L) * (255 - R) /
/// 128`. `lhs` and `rhs` remap the channels of either side; alpha is kept.
pub fn overlay(
    img: Image,
    lhs: Option<Vec<String>>,
    rhs: Option<Vec<String>>,
    color: Rgb,
) -> (out: Image)
    requires
        img.wf(),
        names_ok(lhs),
        names_ok(rhs),
    ensures
        operated(img, out, Operator::Overlay, selector_of(lhs), operand_of(rhs, color)),
{
    apply_named(&img, Operator::Overlay, &lhs, &rhs, color)
}

/// The screen blend of every pixel with the right-hand color:
/// `255 - (255 - L) * (255 - R) / 255`. `lhs` and `rhs` remap the channels of
/// either side; alpha is kept.
pub fn screen(
    img: Image,
    lhs: Option<Vec<String>>,
    rhs: Option<Vec<String>>,
    color: Rgb,
) -> (out: Image)
    requires
        img.wf(),
        names_ok(lhs),
        names_ok(rhs),
    ensures
        operated(img, out, Operator::Screen, selector_of(lhs), operand_of(rhs, color)),
{
    apply_named(&img, Operator::Screen, &lhs, &rhs, color)
}

} // verus!
