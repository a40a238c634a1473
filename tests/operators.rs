use pixel_ops::{
    add, and, apply_channel, average, bitshift, div, mult, or, overlay, pow, screen, sub, xor,
    BitshiftDirection, Image, Operator, Rgb, Rgba,
};

fn solid(p: Rgba) -> Image {
    Image::filled(4, 3, p)
}

fn red() -> Image {
    solid(Rgba::new(255, 0, 0, 255))
}

fn rgb_names() -> Option<Vec<String>> {
    Some(vec!["r".to_string(), "g".to_string(), "b".to_string()])
}

#[test]
fn test_add() {
    let out = add(red(), None, None, Rgb::new(0, 0, 255), false);
    assert_eq!(out.get_pixel(0, 0).to_rgb(), Rgb::new(255, 0, 255));
}

#[test]
fn test_sub() {
    let out = sub(red(), None, None, Rgb::new(0, 0, 255), false);
    assert_eq!(out.get_pixel(0, 0).to_rgb(), Rgb::new(255, 0, 255));
}

#[test]
fn test_mult() {
    let out = mult(red(), None, None, Rgb::new(0, 0, 255));
    assert_eq!(out.get_pixel(0, 0).to_rgb(), Rgb::new(0, 0, 0));
}

#[test]
fn test_div() {
    let out = div(red(), None, None, Rgb::new(0, 0, 255));
    assert_eq!(out.get_pixel(0, 0).to_rgb(), Rgb::new(255, 0, 0));
}

#[test]
fn test_left() {
    let out = bitshift(red(), BitshiftDirection::LEFT, rgb_names(), 1, false);
    assert_eq!(out.get_pixel(0, 0).to_rgb(), Rgb::new(255, 0, 0));
}

#[test]
fn test_right() {
    let out = bitshift(red(), BitshiftDirection::RIGHT, rgb_names(), 1, false);
    assert_eq!(out.get_pixel(0, 0).to_rgb(), Rgb::new(127, 0, 0));
}

#[test]
fn test_or() {
    let out = or(red(), rgb_names(), None, Rgb::new(0, 0, 255), false);
    assert_eq!(out.get_pixel(0, 0).to_rgb(), Rgb::new(255, 0, 255));
}

#[test]
fn test_and() {
    let out = and(red(), rgb_names(), None, Rgb::new(0, 0, 255), false);
    assert_eq!(out.get_pixel(0, 0).to_rgb(), Rgb::new(0, 0, 0));
}

#[test]
fn test_xor() {
    let out = xor(red(), rgb_names(), None, Rgb::new(0, 0, 255), false);
    assert_eq!(out.get_pixel(0, 0).to_rgb(), Rgb::new(255, 0, 255));
}

#[test]
fn test_overlay() {
    let out = overlay(red(), None, None, Rgb::new(255, 0, 0));
    assert_eq!(out.get_pixel(0, 0).to_rgb(), Rgb::new(255, 0, 0));
}

#[test]
fn test_screen() {
    let out = screen(red(), None, None, Rgb::new(0, 0, 255));
    assert_eq!(out.get_pixel(0, 0).to_rgb(), Rgb::new(255, 0, 255));
}

#[test]
fn test_average() {
    let out = average(red(), None, None, Rgb::new(0, 0, 255));
    assert_eq!(out.get_pixel(0, 0).to_rgb(), Rgb::new(127, 0, 127));
}

#[test]
fn red_against_blue_scenarios_keep_alpha() {
    let blue = Rgb::new(0, 0, 255);
    let outs = vec![
        add(red(), None, None, blue, false),
        sub(red(), None, None, blue, false),
        mult(red(), None, None, blue),
        div(red(), None, None, blue),
        overlay(red(), None, None, Rgb::new(255, 0, 0)),
    ];
    let expected = vec![
        Rgba::new(255, 0, 255, 255),
        Rgba::new(255, 0, 255, 255),
        Rgba::new(0, 0, 0, 255),
        Rgba::new(255, 0, 0, 255),
        Rgba::new(255, 0, 0, 255),
    ];
    for (out, want) in outs.iter().zip(expected.iter()) {
        for y in 0..3 {
            for x in 0..4 {
                assert_eq!(out.get_pixel(x, y), *want);
            }
        }
    }
}

#[test]
fn every_operator_keeps_size_and_alpha() {
    let mut pixels = Vec::new();
    for i in 0..15u32 {
        pixels.push(Rgba::new((i * 17) as u8, (i * 5) as u8, (250 - i * 9) as u8, (i * 13) as u8));
    }
    let img = Image::from_pixels(5, 3, pixels).unwrap();
    let c = Rgb::new(90, 140, 33);
    let outs = vec![
        add(img.clone(), None, None, c, true),
        sub(img.clone(), None, None, c, true),
        pow(img.clone(), None, None, c),
        or(img.clone(), None, None, c, true),
        bitshift(img.clone(), BitshiftDirection::LEFT, None, 3, true),
        average(img.clone(), None, None, c),
        screen(img.clone(), None, None, c),
    ];
    for out in outs.iter() {
        assert_eq!(out.width(), 5);
        assert_eq!(out.height(), 3);
        for y in 0..3 {
            for x in 0..5 {
                assert_eq!(out.get_pixel(x, y).a, img.get_pixel(x, y).a);
            }
        }
    }
}

#[test]
fn raw_add_and_sub_wrap() {
    let img = solid(Rgba::new(200, 10, 0, 9));
    let c = Rgb::new(100, 20, 0);
    assert_eq!(add(img.clone(), None, None, c, true).get_pixel(1, 1), Rgba::new(44, 30, 0, 9));
    assert_eq!(add(img.clone(), None, None, c, false).get_pixel(1, 1), Rgba::new(255, 30, 0, 9));
    assert_eq!(sub(img.clone(), None, None, c, true).get_pixel(1, 1), Rgba::new(100, 246, 0, 9));
    assert_eq!(sub(img, None, None, c, false).get_pixel(1, 1), Rgba::new(100, 10, 0, 9));
}

#[test]
fn channel_formulas() {
    assert_eq!(apply_channel(Operator::Mult, 20, 13), 4);
    assert_eq!(apply_channel(Operator::Pow, 3, 5), 243);
    assert_eq!(apply_channel(Operator::Pow, 2, 8), 0);
    assert_eq!(apply_channel(Operator::Pow, 7, 0), 1);
    assert_eq!(apply_channel(Operator::Div, 77, 0), 77);
    assert_eq!(apply_channel(Operator::Div, 77, 10), 7);
    assert_eq!(apply_channel(Operator::Average, 255, 254), 254);
    assert_eq!(apply_channel(Operator::Overlay, 100, 200), 156);
    assert_eq!(apply_channel(Operator::Overlay, 200, 100), 189);
    assert_eq!(apply_channel(Operator::Screen, 100, 100), 161);
    assert_eq!(apply_channel(Operator::And { negate: true }, 0b1100, 0b1010), 0b1111_0111);
    assert_eq!(apply_channel(Operator::Xor { negate: false }, 0b1100, 0b1010), 0b0110);
}

#[test]
fn shifts_saturate_wrap_and_empty() {
    assert_eq!(apply_channel(Operator::ShiftLeft { bits: 1, raw: false }, 200, 0), 255);
    assert_eq!(apply_channel(Operator::ShiftLeft { bits: 1, raw: true }, 200, 0), 144);
    assert_eq!(apply_channel(Operator::ShiftLeft { bits: 9, raw: true }, 1, 0), 0);
    assert_eq!(apply_channel(Operator::ShiftLeft { bits: 20, raw: false }, 1, 0), 255);
    assert_eq!(apply_channel(Operator::ShiftLeft { bits: 20, raw: false }, 0, 0), 0);
    assert_eq!(apply_channel(Operator::ShiftRight { bits: 3 }, 200, 0), 25);
    assert_eq!(apply_channel(Operator::ShiftRight { bits: 8 }, 255, 0), 0);
}

#[test]
fn negated_or_complements() {
    let out = or(red(), None, None, Rgb::new(0, 0, 255), true);
    assert_eq!(out.get_pixel(2, 2), Rgba::new(0, 255, 0, 255));
}

#[test]
fn remap_tokens_pick_channels() {
    let img = solid(Rgba::new(10, 20, 30, 40));
    let lhs = Some(vec!["B".to_string(), "r".to_string(), "alpha".to_string()]);
    let out = add(img.clone(), lhs, None, Rgb::new(0, 0, 0), false);
    assert_eq!(out.get_pixel(0, 0), Rgba::new(30, 10, 0, 40));
    let rhs = Some(vec!["g".to_string(), "g".to_string(), "r".to_string()]);
    let out = add(img, None, rhs, Rgb::new(1, 2, 3), false);
    assert_eq!(out.get_pixel(3, 2), Rgba::new(12, 22, 31, 40));
}
