use crate::channel::{names_ok, selector_of};
use crate::color::Rgb;
use crate::ops::{apply_named, operand_of, operated, Operator};
use crate::raster::Image;
use vstd::prelude::*;

verus! {

/// Adds the right-hand color to every pixel, channel by channel: modulo 256
/// when `raw`, else saturating at 255. `lhs` and `rhs` remap the channels of
/// either side before the operation; alpha is kept.
pub fn add(
    img: Image,
    lhs: Option<Vec<String>>,
    rhs: Option<Vec<String>>,
    color: Rgb,
    raw: bool,
) -> (out: Image)
    requires
        img.wf(),
        names_ok(lhs),
        names_ok(rhs),
    ensures
        operated(img, out, Operator::Add { raw }, selector_of(lhs), operand_of(rhs, color)),
{
    apply_named(&img, Operator::Add { raw }, &lhs, &rhs, color)
}

/// Subtracts the right-hand color from every pixel, channel by channel:
/// modulo 256 when `raw`, else the absolute difference. `lhs` and `rhs` remap
/// the channels of either side before the operation; alpha is kept.
pub fn sub(
    img: Image,
    lhs: Option<Vec<String>>,
    rhs: Option<Vec<String>>,
    color: Rgb,
    raw: bool,
) -> (out: Image)
    requires
        img.wf(),
        names_ok(lhs),
        names_ok(rhs),
    ensures
        operated(img, out, Operator::Sub { raw }, selector_of(lhs), operand_of(rhs, color)),
{
    apply_named(&img, Operator::Sub { raw }, &lhs, &rhs, color)
}

/// Multiplies every pixel by the right-hand color, channel by channel,
/// modulo 256. `lhs` and `rhs` remap the channels of either side before the
/// operation; alpha is kept.
pub fn mult(
    img: Image,
    lhs: Option<Vec<String>>,
    rhs: Option<Vec<String>>,
    color: Rgb,
) -> (out: Image)
    requires
        img.wf(),
        names_ok(lhs),
        names_ok(rhs),
    ensures
        operated(img, out, Operator::Mult, selector_of(lhs), operand_of(rhs, color)),
{
    apply_named(&img, Operator::Mult, &lhs, &rhs, color)
}

/// Raises every pixel channel to the power of the right-hand channel, modulo
/// 256. `lhs` and `rhs` remap the channels of either side before the
/// operation; alpha is kept.
pub fn pow(
    img: Image,
    lhs: Option<Vec<String>>,
    rhs: Option<Vec<String>>,
    color: Rgb,
) -> (out: Image)
    requires
        img.wf(),
        names_ok(lhs),
        names_ok(rhs),
    ensures
        operated(img, out, Operator::Pow, selector_of(lhs), operand_of(rhs, color)),
{
    apply_named(&img, Operator::Pow, &lhs, &rhs, color)
}

/// Divides every pixel by the right-hand color, channel by channel,
/// truncating; a zero divisor counts as 1. `lhs` and `rhs` remap the channels
/// of either side before the operation; alpha is kept.
pub fn div(
    img: Image,
    lhs: Option<Vec<String>>,
    rhs: Option<Vec<String>>,
    color: Rgb,
) -> (out: Image)
    requires
        img.wf(),
        names_ok(lhs),
        names_ok(rhs),
    ensures
        operated(img, out, Operator::Div, selector_of(lhs), operand_of(rhs, color)),
{
    apply_named(&img, Operator::Div, &lhs, &rhs, color)
}

} // verus!
