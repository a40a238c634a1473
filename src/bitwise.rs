use crate::channel::{names_ok, selector_of};
use crate::color::Rgb;
use crate::channel::Selector;
use crate::ops::{apply_named, apply_operator, operand_of, operated, Operator};
use crate::raster::Image;
use vstd::prelude::*;

verus! {

/// Bitwise OR of every pixel with the right-hand color, complemented when
/// `negate`. `lhs` and `rhs` remap the channels of either side before the
/// operation; alpha is kept.
pub fn or(
    img: Image,
    lhs: Option<Vec<String>>,
    rhs: Option<Vec<String>>,
    color: Rgb,
    negate: bool,
) -> (out: Image)
    requires
        img.wf(),
        names_ok(lhs),
        names_ok(rhs),
    ensures
        operated(img, out, Operator::Or { negate }, selector_of(lhs), operand_of(rhs, color)),
{
    apply_named(&img, Operator::Or { negate }, &lhs, &rhs, color)
}

/// Bitwise AND of every pixel with the right-hand color, complemented when
/// `negate`. `lhs` and `rhs` remap the channels of either side before the
/// operation; alpha is kept.
pub fn and(
    img: Image,
    lhs: Option<Vec<String>>,
    rhs: Option<Vec<String>>,
    color: Rgb,
    negate: bool,
) -> (out: Image)
    requires
        img.wf(),
        names_ok(lhs),
        names_ok(rhs),
    ensures
        operated(img, out, Operator::And { negate }, selector_of(lhs), operand_of(rhs, color)),
{
    apply_named(&img, Operator::And { negate }, &lhs, &rhs, color)
}

/// Bitwise XOR of every pixel with the right-hand color, complemented when
/// `negate`. `lhs` and `rhs` remap the channels of either side before the
/// operation; alpha is kept.
pub fn xor(
    img: Image,
    lhs: Option<Vec<String>>,
    rhs: Option<Vec<String>>,
    color: Rgb,
    negate: bool,
) -> (out: Image)
    requires
        img.wf(),
        names_ok(lhs),
        names_ok(rhs),
    ensures
        operated(img, out, Operator::Xor { negate }, selector_of(lhs), operand_of(rhs, color)),
{
    apply_named(&img, Operator::Xor { negate }, &lhs, &rhs, color)
}

/// Which way `bitshift` moves the bits.
#[allow(non_camel_case_types)]
#[derive(Clone, Copy, PartialEq, Eq, Debug, Structural)]
pub enum BitshiftDirection {
    LEFT,
    RIGHT,
}

/// The shift operator for a direction, a bit count and an overflow mode.
pub open spec fn shift_operator(direction: BitshiftDirection, bits: u8, raw: bool) -> Operator {
    match direction {
        BitshiftDirection::LEFT => Operator::ShiftLeft { bits, raw },
        BitshiftDirection::RIGHT => Operator::ShiftRight { bits },
    }
}

/// Shifts every (remapped) pixel channel by `bits`. To the left the result
/// wraps into eight bits when `raw` and saturates at 255 otherwise; to the
/// right `raw` makes no difference. Alpha is kept.
pub fn bitshift(
    img: Image,
    direction: BitshiftDirection,
    lhs: Option<Vec<String>>,
    bits: u8,
    raw: bool,
) -> (out: Image)
    requires
        img.wf(),
        names_ok(lhs),
    ensures
        operated(
            img,
            out,
            shift_operator(direction, bits, raw),
            selector_of(lhs),
            Rgb { r: 0, g: 0, b: 0 },
        ),
{
    let op = match direction {
        BitshiftDirection::LEFT => Operator::ShiftLeft { bits, raw },
        BitshiftDirection::RIGHT => Operator::ShiftRight { bits },
    };
    apply_operator(&img, op, Selector::from_names(&lhs), Rgb { r: 0, g: 0, b: 0 })
}

} // verus!
