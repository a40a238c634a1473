use crate::channel::{names_ok, selector_of, Selector};
use crate::color::Rgba;
use crate::color_space::Ratio;
use crate::keys::{in_range, key_of, ratio_in_range, sort_by_of_name, sort_key, SortBy, ThresholdRange};
use crate::raster::Image;
use crate::text::{integer_of, parse_integer, spells, spells_keyword, ParseError};
use vstd::prelude::*;

verus! {

/// Whether the filter keeps the pixels inside the ranges (`Include`) or
/// replaces them (`Exclude`).
#[derive(Clone, Copy, PartialEq, Eq, Debug, Structural)]
pub enum FilterType {
    Include,
    Exclude,
}

/// The filter type named by a token (`include`, `exclude`), in any ASCII case.
pub open spec fn filter_type_of_name(s: Seq<char>) -> Option<FilterType> {
    if spells(s, "include"@) {
        Some(FilterType::Include)
    } else if spells(s, "exclude"@) {
        Some(FilterType::Exclude)
    } else {
        None
    }
}

impl FilterType {
    /// Reads a filter type token.
    pub fn parse(s: &str) -> (r: Result<FilterType, ParseError>)
        ensures
            r == match filter_type_of_name(s@) {
                Some(f) => Ok(f),
                None => Err(ParseError::InvalidFilterType),
            },
    {
        if spells_keyword(s, "include") {
            Ok(FilterType::Include)
        } else if spells_keyword(s, "exclude") {
            Ok(FilterType::Exclude)
        } else {
            Err(ParseError::InvalidFilterType)
        }
    }
}

impl std::str::FromStr for FilterType {
    type Err = ParseError;

    fn from_str(s: &str) -> Result<FilterType, ParseError> {
        FilterType::parse(s)
    }
}

/// The pixel property a filter tests; the same keys, units and tokens as the
/// sorter's.
#[derive(Clone, Copy, PartialEq, Eq, Debug, Structural)]
pub enum FilterParam {
    Luminance,
    Red,
    Green,
    Blue,
    Hue,
    Saturation,
    Value,
}

impl FilterParam {
    /// The sort key that measures this property.
    pub open spec fn key(self) -> SortBy {
        match self {
            FilterParam::Luminance => SortBy::Luminance,
            FilterParam::Red => SortBy::Red,
            FilterParam::Green => SortBy::Green,
            FilterParam::Blue => SortBy::Blue,
            FilterParam::Hue => SortBy::Hue,
            FilterParam::Saturation => SortBy::Saturation,
            FilterParam::Value => SortBy::Value,
        }
    }

    /// The parameter that a key stands for.
    pub open spec fn of_key(k: SortBy) -> FilterParam {
        match k {
            SortBy::Luminance => FilterParam::Luminance,
            SortBy::Red => FilterParam::Red,
            SortBy::Green => FilterParam::Green,
            SortBy::Blue => FilterParam::Blue,
            SortBy::Hue => FilterParam::Hue,
            SortBy::Saturation => FilterParam::Saturation,
            SortBy::Value => FilterParam::Value,
        }
    }

    pub fn sort_by(self) -> (k: SortBy)
        ensures
            k == self.key(),
    {
        match self {
            FilterParam::Luminance => SortBy::Luminance,
            FilterParam::Red => SortBy::Red,
            FilterParam::Green => SortBy::Green,
            FilterParam::Blue => SortBy::Blue,
            FilterParam::Hue => SortBy::Hue,
            FilterParam::Saturation => SortBy::Saturation,
            FilterParam::Value => SortBy::Value,
        }
    }

    /// Reads a parameter token, with the sorter's key tokens.
    pub fn parse(s: &str) -> (r: Result<FilterParam, ParseError>)
        ensures
            r == match sort_by_of_name(s@) {
                Some(k) => Ok(FilterParam::of_key(k)),
                None => Err(ParseError::InvalidFilterParam),
            },
    {
        match SortBy::parse(s) {
            Ok(SortBy::Luminance) => Ok(FilterParam::Luminance),
            Ok(SortBy::Red) => Ok(FilterParam::Red),
            Ok(SortBy::Green) => Ok(FilterParam::Green),
            Ok(SortBy::Blue) => Ok(FilterParam::Blue),
            Ok(SortBy::Hue) => Ok(FilterParam::Hue),
            Ok(SortBy::Saturation) => Ok(FilterParam::Saturation),
            Ok(SortBy::Value) => Ok(FilterParam::Value),
            Err(_) => Err(ParseError::InvalidFilterParam),
        }
    }
}

impl std::str::FromStr for FilterParam {
    type Err = ParseError;

    fn from_str(s: &str) -> Result<FilterParam, ParseError> {
        FilterParam::parse(s)
    }
}

/// The filter to run over an image.
pub struct Filter {
    pub filter_type: FilterType,
    pub filter_param: FilterParam,
    pub threshold_ranges: Vec<ThresholdRange>,
}

/// The thresholds that a flat list of tokens spells, read pairwise as
/// `(min, max)`; an unmatched last token is left out. `None` when a token of
/// a pair is no integer.
pub open spec fn thresholds_of(tokens: Seq<String>) -> Option<Seq<ThresholdRange>> {
    let pairs = tokens.len() / 2;
    if forall|i: int| 0 <= i < 2 * pairs ==> (#[trigger] integer_of(tokens[i]@)) is Some {
        Some(
            Seq::new(
                pairs,
                |i: int|
                    ThresholdRange {
                        min: integer_of(tokens[2 * i]@)->Some_0,
                        max: integer_of(tokens[2 * i + 1]@)->Some_0,
                    },
            ),
        )
    } else {
        None
    }
}

/// Reads threshold tokens pairwise into ranges; a number that does not parse
/// is an error, an unmatched last token is dropped.
pub fn parse_filter_vec(thresholds_str_vec: Vec<String>) -> (r: Result<
    Vec<ThresholdRange>,
    ParseError,
>)
    ensures
        r matches Ok(v) ==> thresholds_of(thresholds_str_vec@) == Some(v@),
        r matches Err(e) ==> e == ParseError::InvalidThreshold && thresholds_of(
            thresholds_str_vec@,
        ) is None,
{
    let ghost tokens = thresholds_str_vec@;
    let len = thresholds_str_vec.len();
    let pairs = len / 2;
    let mut out: Vec<ThresholdRange> = Vec::new();
    let mut i: usize = 0;
    while i < pairs
        invariant
            tokens == thresholds_str_vec@,
            len == tokens.len(),
            pairs == len / 2,
            i <= pairs,
            out@.len() == i,
            forall|k: int| 0 <= k < 2 * i ==> (#[trigger] integer_of(tokens[k]@)) is Some,
            forall|k: int|
                0 <= k < i ==> #[trigger] out@[k] == (ThresholdRange {
                    min: integer_of(tokens[2 * k]@)->Some_0,
                    max: integer_of(tokens[2 * k + 1]@)->Some_0,
                }),
        decreases pairs - i,
    {
        let lo = parse_integer(thresholds_str_vec[2 * i].as_str());
        let hi = parse_integer(thresholds_str_vec[2 * i + 1].as_str());
        match (lo, hi) {
            (Some(min), Some(max)) => {
                out.push(ThresholdRange { min, max });
            },
            _ => {
                return Err(ParseError::InvalidThreshold);
            },
        }
        i = i + 1;
    }
    proof {
        assert(out@ =~= thresholds_of(tokens)->Some_0);
    }
    Ok(out)
}

/// The key value lies strictly inside at least one of the ranges.
pub open spec fn in_any_range(k: Ratio, ranges: Seq<ThresholdRange>) -> bool {
    exists|i: int| 0 <= i < ranges.len() && in_range(k, #[trigger] ranges[i])
}

fn ratio_in_any_range(k: Ratio, ranges: &Vec<ThresholdRange>) -> (r: bool)
    ensures
        r == in_any_range(k, ranges@),
{
    let mut i: usize = 0;
    while i < ranges.len()
        invariant
            i <= ranges@.len(),
            forall|j: int| 0 <= j < i ==> !in_range(k, #[trigger] ranges@[j]),
        decreases ranges@.len() - i,
    {
        if ratio_in_range(k, ranges[i]) {
            return true;
        }
        i = i + 1;
    }
    false
}

/// What the filter makes of pixel `p`: the key is read from the remapped
/// color; `Include` keeps the pixels whose key is in some range and replaces
/// the rest, `Exclude` the other way round.
pub open spec fn filtered_pixel(
    filter_type: FilterType,
    by: SortBy,
    ranges: Seq<ThresholdRange>,
    lhs: Selector,
    replace_with: Rgba,
    p: Rgba,
) -> Rgba {
    let l = lhs.remap(p.r, p.g, p.b);
    let hit = in_any_range(key_of(by, Rgba { r: l.r, g: l.g, b: l.b, a: 255 }), ranges);
    match filter_type {
        FilterType::Include => if hit {
            p
        } else {
            replace_with
        },
        FilterType::Exclude => if hit {
            replace_with
        } else {
            p
        },
    }
}

/// Replaces the pixels that the filter rejects with `replace_with`; `lhs`
/// remaps the channels that the key is read from.
pub fn filter(img: Image, lhs: Option<Vec<String>>, settings: Filter, replace_with: Rgba) -> (out:
    Image)
    requires
        img.wf(),
        names_ok(lhs),
    ensures
        out.wf(),
        out.spec_width() == img.spec_width(),
        out.spec_height() == img.spec_height(),
        forall|x: int, y: int|
            0 <= x < img.spec_width() && 0 <= y < img.spec_height() ==> #[trigger] out.spec_pixel(x, y)
                == filtered_pixel(
                settings.filter_type,
                settings.filter_param.key(),
                settings.threshold_ranges@,
                selector_of(lhs),
                replace_with,
                img.spec_pixel(x, y),
            ),
{
    let sel = Selector::from_names(&lhs);
    let by = settings.filter_param.sort_by();
    let filter_type = settings.filter_type;
    let ranges = &settings.threshold_ranges;
    let f = |p: Rgba| -> (q: Rgba)
        ensures
            q == filtered_pixel(filter_type, by, ranges@, sel, replace_with, p),
        {
            let l = sel.apply(p.r, p.g, p.b);
            let hit = ratio_in_any_range(sort_key(by, Rgba { r: l.r, g: l.g, b: l.b, a: 255 }), ranges);
            match filter_type {
                FilterType::Include => if hit {
                    p
                } else {
                    replace_with
                },
                FilterType::Exclude => if hit {
                    replace_with
                } else {
                    p
                },
            }
        };
    img.map_pixels(
        f,
        Ghost(|p: Rgba| filtered_pixel(filter_type, by, ranges@, sel, replace_with, p)),
    )
}

} // verus!
