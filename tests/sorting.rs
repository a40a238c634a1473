use pixel_ops::{
    calc_luminance, filter, greyscale, light_mask, rgb_to_hsv, sort, sort_line, Direction, Filter,
    FilterParam, FilterType, Image, Ratio, Rgba, SortBy, ThresholdRange,
};

fn reds(values: &[u8]) -> Vec<Rgba> {
    values.iter().map(|&r| Rgba::new(r, 0, 0, 255)).collect()
}

fn red_values(line: &[Rgba]) -> Vec<u8> {
    line.iter().map(|p| p.r).collect()
}

#[test]
fn sorts_only_the_selected_pixels() {
    let line = reds(&[50, 10, 200, 30]);
    let out = sort_line(&line, SortBy::Red, ThresholdRange::new(0, 100), false);
    assert_eq!(red_values(&out), vec![10, 30, 200, 50]);
    let out = sort_line(&line, SortBy::Red, ThresholdRange::new(0, 100), true);
    assert_eq!(red_values(&out), vec![50, 30, 200, 10]);
}

#[test]
fn bounds_are_exclusive() {
    let line = reds(&[100, 0, 60, 40]);
    let out = sort_line(&line, SortBy::Red, ThresholdRange::new(0, 100), false);
    assert_eq!(red_values(&out), vec![100, 0, 40, 60]);
}

#[test]
fn sorted_line_is_unchanged() {
    let line = vec![
        Rgba::new(10, 1, 0, 255),
        Rgba::new(20, 9, 9, 3),
        Rgba::new(20, 2, 0, 255),
        Rgba::new(30, 0, 7, 0),
    ];
    let out = sort_line(&line, SortBy::Red, ThresholdRange::new(-1, 256), false);
    assert_eq!(out, line);
}

#[test]
fn equal_keys_keep_their_order() {
    let line = vec![Rgba::new(9, 1, 0, 255), Rgba::new(5, 0, 0, 255), Rgba::new(9, 2, 0, 255)];
    let out = sort_line(&line, SortBy::Red, ThresholdRange::new(0, 256), false);
    assert_eq!(out, vec![Rgba::new(5, 0, 0, 255), Rgba::new(9, 1, 0, 255), Rgba::new(9, 2, 0, 255)]);
}

#[test]
fn sort_keeps_the_multiset_of_each_line() {
    let mut pixels = Vec::new();
    for i in 0..20u32 {
        pixels.push(Rgba::new(((i * 73) % 256) as u8, ((i * 31) % 256) as u8, ((i * 11) % 256) as u8, 255));
    }
    let line = pixels.clone();
    let out = sort_line(&line, SortBy::Luminance, ThresholdRange::new(30, 200), false);
    let lum = |p: &Rgba| 2126 * p.r as u32 + 7152 * p.g as u32 + 722 * p.b as u32;
    let inside = |p: &Rgba| 300000 < lum(p) && lum(p) < 2000000;
    let mut before: Vec<Rgba> = line.iter().copied().filter(|p| inside(p)).collect();
    let after: Vec<Rgba> = out.iter().copied().filter(|p| inside(p)).collect();
    for w in after.windows(2) {
        assert!(lum(&w[0]) <= lum(&w[1]));
    }
    let mut sorted_after = after.clone();
    before.sort_by_key(|p| (p.r, p.g, p.b));
    sorted_after.sort_by_key(|p| (p.r, p.g, p.b));
    assert_eq!(before, sorted_after);
    for (a, b) in line.iter().zip(out.iter()) {
        if !inside(a) {
            assert_eq!(a, b);
        }
    }
}

#[test]
fn sorts_rows_and_columns_independently() {
    let pixels = reds(&[3, 1, 2, 9, 7, 8]);
    let img = Image::from_pixels(3, 2, pixels).unwrap();
    let rows = sort(img.clone(), Direction::Horizontal, SortBy::Red, -1, 256, false);
    assert_eq!(red_values(rows.pixels()), vec![1, 2, 3, 7, 8, 9]);
    let cols = sort(img, Direction::Vertical, SortBy::Red, -1, 256, true);
    assert_eq!(red_values(cols.pixels()), vec![9, 7, 8, 3, 1, 2]);
    assert_eq!(cols.width(), 3);
    assert_eq!(cols.height(), 2);
}

#[test]
fn hue_saturation_value_are_exact() {
    let green = rgb_to_hsv(Rgba::new(0, 255, 0, 255));
    assert_eq!(green.hue.num, 120 * green.hue.den);
    assert_eq!(green.saturation.num, 255 * green.saturation.den);
    assert_eq!(green.value, Ratio { num: 255, den: 1 });
    let magenta_ish = rgb_to_hsv(Rgba::new(255, 0, 128, 255));
    let h = magenta_ish.hue.num as f64 / magenta_ish.hue.den as f64;
    assert!((h - (360.0 - 60.0 * 128.0 / 255.0)).abs() < 1e-9);
    let grey = rgb_to_hsv(Rgba::new(90, 90, 90, 1));
    assert_eq!(grey.hue.num, 0);
    assert_eq!(grey.saturation.num, 0);
    assert_eq!(calc_luminance(Rgba::new(255, 255, 255, 0)), Ratio { num: 2550000, den: 10000 });
}

#[test]
fn sorts_by_hue() {
    let line = vec![Rgba::new(0, 0, 255, 255), Rgba::new(255, 0, 0, 255), Rgba::new(0, 255, 0, 255)];
    let out = sort_line(&line, SortBy::Hue, ThresholdRange::new(-1, 360), false);
    assert_eq!(out, vec![Rgba::new(255, 0, 0, 255), Rgba::new(0, 255, 0, 255), Rgba::new(0, 0, 255, 255)]);
}

#[test]
fn filter_include_and_exclude() {
    let img = Image::from_pixels(
        3,
        1,
        vec![Rgba::new(10, 0, 0, 255), Rgba::new(120, 0, 0, 7), Rgba::new(250, 0, 0, 255)],
    )
    .unwrap();
    let grey = Rgba::new(1, 2, 3, 4);
    let settings = || Filter {
        filter_type: FilterType::Include,
        filter_param: FilterParam::Red,
        threshold_ranges: vec![ThresholdRange::new(0, 20), ThresholdRange::new(100, 200)],
    };
    let inc = filter(img.clone(), None, settings(), grey);
    assert_eq!(inc.pixels().clone(), vec![Rgba::new(10, 0, 0, 255), Rgba::new(120, 0, 0, 7), grey]);
    let mut ex = settings();
    ex.filter_type = FilterType::Exclude;
    let exc = filter(img.clone(), None, ex, grey);
    assert_eq!(exc.pixels().clone(), vec![grey, grey, Rgba::new(250, 0, 0, 255)]);
    let remapped = filter(img, Some(vec!["g".to_string(), "g".to_string(), "g".to_string()]), settings(), grey);
    assert_eq!(remapped.pixels().clone(), vec![grey, grey, grey]);
}

#[test]
fn greyscale_uses_integer_luma() {
    let img = Image::filled(2, 2, Rgba::new(255, 0, 0, 200));
    let out = greyscale(img);
    assert_eq!(out.get_pixel(1, 1), Rgba::new(54, 54, 54, 200));
}

#[test]
fn light_mask_keeps_bright_pixels() {
    let img = Image::from_pixels(3, 1, vec![Rgba::new(255, 255, 255, 9), Rgba::new(10, 10, 10, 255), Rgba::new(100, 100, 100, 255)])
        .unwrap();
    let out = light_mask(&img, 50, None);
    assert_eq!(out.pixels().clone(), vec![Rgba::new(255, 255, 255, 9), Rgba::new(0, 0, 0, 0), Rgba::new(100, 100, 100, 255)]);
    let out = light_mask(&img, 50, Some(200));
    assert_eq!(out.pixels().clone(), vec![Rgba::new(0, 0, 0, 0), Rgba::new(0, 0, 0, 0), Rgba::new(100, 100, 100, 255)]);
    let out = light_mask(&img, 100, None);
    assert_eq!(out.get_pixel(2, 0), Rgba::new(0, 0, 0, 0));
}

#[test]
fn image_from_pixels_checks_size() {
    assert!(Image::from_pixels(2, 2, vec![Rgba::new(0, 0, 0, 0); 3]).is_none());
    let img = Image::new(2, 3);
    assert_eq!(img.get_pixel(1, 2), Rgba::new(0, 0, 0, 0));
    let mut img = img;
    img.put_pixel(1, 2, Rgba::new(1, 1, 1, 1));
    assert_eq!(img.pixels()[5], Rgba::new(1, 1, 1, 1));
}
