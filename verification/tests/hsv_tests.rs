use ledstrip::hsv::Hsv;

#[test]
fn primary_hues() {
    let red = Hsv::new(0, 255, 255).to_rgb();
    assert_eq!((red.r, red.g, red.b), (255, 0, 0));
    let green = Hsv::new(120_000, 255, 255).to_rgb();
    assert_eq!((green.r, green.g, green.b), (0, 255, 0));
    let blue = Hsv::new(240_000, 255, 255).to_rgb();
    assert_eq!((blue.r, blue.g, blue.b), (0, 0, 255));
}

#[test]
fn zero_saturation_is_gray_at_value() {
    let g = Hsv::new(123_456, 0, 128).to_rgb();
    assert_eq!((g.r, g.g, g.b), (128, 128, 128));
    let g2 = Hsv::new(0, 0, 128).to_rgb();
    assert_eq!((g2.r, g2.g, g2.b), (128, 128, 128));
}

#[test]
fn hue_wraps_past_a_full_turn() {
    let red = Hsv::new(360_000, 255, 255).to_rgb();
    assert_eq!((red.r, red.g, red.b), (255, 0, 0));
    let green = Hsv::new(480_000, 255, 255).to_rgb();
    assert_eq!((green.r, green.g, green.b), (0, 255, 0));
}

#[test]
fn secondary_hues() {
    let yellow = Hsv::new(60_000, 255, 255).to_rgb();
    assert_eq!((yellow.r, yellow.g, yellow.b), (255, 255, 0));
    let cyan = Hsv::new(180_000, 255, 255).to_rgb();
    assert_eq!((cyan.r, cyan.g, cyan.b), (0, 255, 255));
    let magenta = Hsv::new(300_000, 255, 255).to_rgb();
    assert_eq!((magenta.r, magenta.g, magenta.b), (255, 0, 255));
}

#[test]
fn zero_value_is_black() {
    let b = Hsv::new(45_000, 200, 0).to_rgb();
    assert_eq!((b.r, b.g, b.b), (0, 0, 0));
}

#[test]
fn zero_is_all_zero() {
    let z = Hsv::zero();
    assert_eq!((z.hue_mdeg, z.saturation, z.value), (0, 0, 0));
}
