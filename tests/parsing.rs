use pixel_ops::{
    get_channel_by_name_rgb_color, get_channel_by_name_rgba_u8, hex_to_rgb, parse_filter_vec,
    parse_integer, Direction, FilterParam, FilterType, ParseError, Rgb, Rgba, SortBy,
    ThresholdRange,
};

#[test]
fn hex_colors() {
    assert_eq!(hex_to_rgb("#ff8000"), Some((255, 128, 0)));
    assert_eq!(hex_to_rgb("FF8000"), Some((255, 128, 0)));
    assert_eq!(hex_to_rgb("#0a0B0c"), Some((10, 11, 12)));
    assert_eq!(hex_to_rgb("#ff80"), None);
    assert_eq!(hex_to_rgb("gg0000"), None);
    assert_eq!(hex_to_rgb("ff80000"), None);
    assert_eq!(hex_to_rgb(""), None);
}

#[test]
fn direction_tokens() {
    assert_eq!("H".parse::<Direction>(), Ok(Direction::Horizontal));
    assert_eq!(Direction::parse("vertical"), Ok(Direction::Vertical));
    assert_eq!(Direction::parse("diagonal"), Err(ParseError::InvalidDirection));
}

#[test]
fn sort_key_tokens() {
    assert_eq!(SortBy::parse("Saturation"), Ok(SortBy::Saturation));
    assert_eq!(SortBy::parse("l"), Ok(SortBy::Luminance));
    assert_eq!("v".parse::<SortBy>(), Ok(SortBy::Value));
    assert_eq!(SortBy::parse("x"), Err(ParseError::InvalidSortBy));
}

#[test]
fn filter_tokens() {
    assert_eq!(FilterType::parse("EXCLUDE"), Ok(FilterType::Exclude));
    assert_eq!(FilterType::parse("in"), Err(ParseError::InvalidFilterType));
    assert_eq!(FilterParam::parse("hue"), Ok(FilterParam::Hue));
    assert_eq!(FilterParam::parse("bright"), Err(ParseError::InvalidFilterParam));
}

#[test]
fn integers() {
    assert_eq!(parse_integer("42"), Some(42));
    assert_eq!(parse_integer("-5"), Some(-5));
    assert_eq!(parse_integer("+7"), Some(7));
    assert_eq!(parse_integer("-2147483648"), Some(i32::MIN));
    assert_eq!(parse_integer("2147483648"), None);
    assert_eq!(parse_integer("99999999999999999999"), None);
    assert_eq!(parse_integer("1.5"), None);
    assert_eq!(parse_integer("-"), None);
    assert_eq!(parse_integer(""), None);
}

#[test]
fn threshold_pairs() {
    let tokens = vec!["10".to_string(), "20".to_string(), "-1".to_string(), "5".to_string(), "30".to_string()];
    assert_eq!(
        parse_filter_vec(tokens),
        Ok(vec![ThresholdRange::new(10, 20), ThresholdRange::new(-1, 5)])
    );
    assert_eq!(parse_filter_vec(vec!["a".to_string(), "1".to_string()]), Err(ParseError::InvalidThreshold));
    assert_eq!(parse_filter_vec(vec![]), Ok(vec![]));
}

#[test]
fn channel_names() {
    let c = Rgb::new(1, 2, 3);
    assert_eq!(get_channel_by_name_rgb_color("g", &c), 2);
    assert_eq!(get_channel_by_name_rgb_color("rg", &c), 0);
    let p = Rgba::new(4, 5, 6, 7);
    assert_eq!(get_channel_by_name_rgba_u8("b", &p), 6);
    assert_eq!(get_channel_by_name_rgba_u8("a", &p), 0);
}
