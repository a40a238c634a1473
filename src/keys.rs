use crate::color::Rgba;
use crate::color_space::{
    calc_luminance, hue_of, luminance_of, max3, min3, rgb_to_hsv, saturation_of, value_of, Ratio,
};
use crate::text::{spells, spells_keyword, ParseError};
use vstd::prelude::*;

verus! {

/// The property of a pixel that sorting and filtering look at.
#[derive(Clone, Copy, PartialEq, Eq, Debug, Structural)]
pub enum SortBy {
    Luminance,
    Red,
    Green,
    Blue,
    Hue,
    Saturation,
    Value,
}

/// The key named by a token, long or short form, in any ASCII case.
pub open spec fn sort_by_of_name(s: Seq<char>) -> Option<SortBy> {
    if spells(s, "luminance"@) || spells(s, "l"@) {
        Some(SortBy::Luminance)
    } else if spells(s, "red"@) || spells(s, "r"@) {
        Some(SortBy::Red)
    } else if spells(s, "green"@) || spells(s, "g"@) {
        Some(SortBy::Green)
    } else if spells(s, "blue"@) || spells(s, "b"@) {
        Some(SortBy::Blue)
    } else if spells(s, "hue"@) || spells(s, "h"@) {
        Some(SortBy::Hue)
    } else if spells(s, "saturation"@) || spells(s, "s"@) {
        Some(SortBy::Saturation)
    } else if spells(s, "value"@) || spells(s, "v"@) {
        Some(SortBy::Value)
    } else {
        None
    }
}

/// The value of a key for a pixel, as an exact ratio: luminance in
/// `[0, 255]`, a channel in `[0, 255]`, hue in degrees `[0, 360)`,
/// saturation and value in `[0, 255]`.
pub open spec fn key_of(by: SortBy, p: Rgba) -> Ratio {
    match by {
        SortBy::Luminance => luminance_of(p),
        SortBy::Red => Ratio { num: p.r as u32, den: 1 },
        SortBy::Green => Ratio { num: p.g as u32, den: 1 },
        SortBy::Blue => Ratio { num: p.b as u32, den: 1 },
        SortBy::Hue => hue_of(p),
        SortBy::Saturation => saturation_of(p),
        SortBy::Value => value_of(p),
    }
}

/// Every key has a positive denominator.
pub proof fn lemma_key_den_pos(by: SortBy, p: Rgba)
    ensures
        key_of(by, p).den > 0,
{
    let mx = max3(p.r, p.g, p.b);
    let mn = min3(p.r, p.g, p.b);
    assert(mn <= mx);
}

impl SortBy {
    /// Reads a key token: `luminance`/`l`, `red`/`r`, `green`/`g`, `blue`/`b`,
    /// `hue`/`h`, `saturation`/`s`, `value`/`v`, in any ASCII case.
    pub fn parse(s: &str) -> (r: Result<SortBy, ParseError>)
        ensures
            r == match sort_by_of_name(s@) {
                Some(k) => Ok(k),
                None => Err(ParseError::InvalidSortBy),
            },
    {
        if spells_keyword(s, "luminance") || spells_keyword(s, "l") {
            Ok(SortBy::Luminance)
        } else if spells_keyword(s, "red") || spells_keyword(s, "r") {
            Ok(SortBy::Red)
        } else if spells_keyword(s, "green") || spells_keyword(s, "g") {
            Ok(SortBy::Green)
        } else if spells_keyword(s, "blue") || spells_keyword(s, "b") {
            Ok(SortBy::Blue)
        } else if spells_keyword(s, "hue") || spells_keyword(s, "h") {
            Ok(SortBy::Hue)
        } else if spells_keyword(s, "saturation") || spells_keyword(s, "s") {
            Ok(SortBy::Saturation)
        } else if spells_keyword(s, "value") || spells_keyword(s, "v") {
            Ok(SortBy::Value)
        } else {
            Err(ParseError::InvalidSortBy)
        }
    }
}

impl std::str::FromStr for SortBy {
    type Err = ParseError;

    fn from_str(s: &str) -> Result<SortBy, ParseError> {
        SortBy::parse(s)
    }
}

/// The key of a pixel, computed exactly.
pub fn sort_key(by: SortBy, p: Rgba) -> (k: Ratio)
    ensures
        k == key_of(by, p),
{
    match by {
        SortBy::Luminance => calc_luminance(p),
        SortBy::Red => Ratio { num: p.r as u32, den: 1 },
        SortBy::Green => Ratio { num: p.g as u32, den: 1 },
        SortBy::Blue => Ratio { num: p.b as u32, den: 1 },
        SortBy::Hue => rgb_to_hsv(p).hue,
        SortBy::Saturation => rgb_to_hsv(p).saturation,
        SortBy::Value => rgb_to_hsv(p).value,
    }
}

/// An open interval `(min, max)` of key values, in the key's own unit.
#[derive(Clone, Copy, PartialEq, Eq, Debug, Structural)]
pub struct ThresholdRange {
    pub min: i32,
    pub max: i32,
}

impl ThresholdRange {
    pub fn new(min: i32, max: i32) -> (t: ThresholdRange)
        ensures
            t == (ThresholdRange { min, max }),
    {
        ThresholdRange { min, max }
    }
}

/// `min < k < max`, for `k` with a positive denominator.
pub open spec fn in_range(k: Ratio, t: ThresholdRange) -> bool {
    t.min * k.den < k.num && k.num < t.max * k.den
}

/// Whether the ratio `k` (with positive denominator) lies strictly inside `t`.
pub fn ratio_in_range(k: Ratio, t: ThresholdRange) -> (r: bool)
    ensures
        r == in_range(k, t),
{
    let den = k.den as i64;
    assert(i32::MIN * u32::MAX <= t.min * den <= i32::MAX * u32::MAX) by (nonlinear_arith)
        requires
            i32::MIN <= t.min <= i32::MAX,
            0 <= den <= u32::MAX,
    ;
    assert(i32::MIN * u32::MAX <= t.max * den <= i32::MAX * u32::MAX) by (nonlinear_arith)
        requires
            i32::MIN <= t.max <= i32::MAX,
            0 <= den <= u32::MAX,
    ;
    (t.min as i64) * den < k.num as i64 && (k.num as i64) < (t.max as i64) * den
}

} // verus!
