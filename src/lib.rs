//! Image-transformation primitives: per-channel operators with channel
//! remapping, threshold filters and a scanline pixel sorter, all over an
//! in-memory RGBA raster.

mod arithmetic;
mod bitwise;
mod blend;
mod channel;
mod color;
mod color_space;
mod filter;
mod functions;
mod keys;
mod ops;
mod raster;
mod sort;
mod text;

pub use arithmetic::{add, div, mult, pow, sub};
pub use bitwise::{and, bitshift, or, shift_operator, xor, BitshiftDirection};
pub use blend::{overlay, screen};
pub use channel::{
    channel_of_name, get_channel_by_name_rgb_color, get_channel_by_name_rgba_u8, names_ok,
    selector_of, Channel, Selector,
};
pub use color::{Rgb, Rgba};
pub use color_space::{
    calc_luminance, hue_of, lemma_ratio_le_trans, luminance_of, max3, min3, ratio_le, ratio_leq,
    rgb_to_hsv, saturation_of, value_of, Hsv, Ratio,
};
pub use filter::{
    filter, filter_type_of_name, filtered_pixel, in_any_range, parse_filter_vec, thresholds_of,
    Filter, FilterParam, FilterType,
};
pub use functions::{average, greyscale, is_lit, light_mask, luma_of};
pub use keys::{
    in_range, key_of, lemma_key_den_pos, ratio_in_range, sort_by_of_name, sort_key, SortBy,
    ThresholdRange,
};
pub use ops::{
    apply_channel, apply_named, apply_operator, apply_pixel, channel_result, operand_of, operated,
    operator_keeps_size_and_alpha, pixel_result, wrap_and_clamp, Operator,
};
pub use raster::Image;
pub use sort::{
    direction_of_name, line_count, line_len, line_of, line_sorted, precedes, selected,
    selects, sort, sort_line, sorted_by, Direction,
};
pub use text::{
    digits_value, hex_bytes, hex_color, hex_to_rgb, hex_value, integer_of, is_digit, is_hex_digit,
    parse_integer, same_letter, spells, spells_keyword, unsigned_part, ParseError,
};
