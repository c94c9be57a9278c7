use ledstrip::color::Rgb8;
use ledstrip::effect::{Bounce, ColorPattern, ColorWheel, StripInfo};
use ledstrip::fx::{Effect, Effects};

fn buffer(n: usize) -> Vec<Rgb8> {
    let mut v: Vec<Rgb8> = Vec::new();
    let mut i: usize = 0;
    while i < n {
        v.push(Rgb8::new(7, 7, 7));
        i += 1;
    }
    v
}

#[test]
fn pattern_at_time_zero_tiles_the_palette() {
    let p = ColorPattern {
        colors: vec![Rgb8::new(255, 0, 0), Rgb8::new(0, 255, 0)],
        speed_permille: 1000,
    };
    let info = StripInfo { leds: 4, rev: false };
    let mut buf = buffer(6);
    p.render(&info, &mut buf, 0);
    assert_eq!(buf[0], Rgb8::new(255, 0, 0));
    assert_eq!(buf[1], Rgb8::new(0, 255, 0));
    assert_eq!(buf[2], Rgb8::new(255, 0, 0));
    assert_eq!(buf[3], Rgb8::new(0, 255, 0));
    // pixels past the configured length stay untouched
    assert_eq!(buf[4], Rgb8::new(7, 7, 7));
    assert_eq!(buf[5], Rgb8::new(7, 7, 7));
}

#[test]
fn pattern_shift_slides_the_palette_backward() {
    // speed 1.0: one full two-entry cycle per second, so one step each 500 ms
    let p = ColorPattern {
        colors: vec![Rgb8::new(255, 0, 0), Rgb8::new(0, 255, 0)],
        speed_permille: 1000,
    };
    let info = StripInfo { leds: 2, rev: false };
    let mut buf = buffer(2);
    p.render(&info, &mut buf, 500);
    // shift of 1: buffer[i] = palette[(i - 1) mod 2]
    assert_eq!(buf[0], Rgb8::new(0, 255, 0));
    assert_eq!(buf[1], Rgb8::new(255, 0, 0));
}

#[test]
fn wheel_starts_on_red_and_walks_the_hue_circle() {
    let w = ColorWheel::default();
    let info = StripInfo { leds: 300, rev: false };
    let mut buf = buffer(300);
    w.render(&info, &mut buf, 0);
    // pixel 0 at time 0: hue 0, full saturation and value: pure red
    assert_eq!(buf[0], Rgb8::new(255, 0, 0));
    // pixel 250: hue has fallen by 250 * 0.72 = 180 degrees: cyan
    assert_eq!(buf[250], Rgb8::new(0, 255, 255));
}

#[test]
fn wheel_defaults() {
    let w = ColorWheel::default();
    assert_eq!(w.saturation, 255);
    assert_eq!(w.value, 255);
    assert_eq!(w.mdeg_per_px, 720);
    assert_eq!(w.mdeg_per_sec, 30000);
}

#[test]
fn bounce_lights_one_pixel() {
    let b = Bounce { color: Rgb8::new(9, 8, 7) };
    let info = StripInfo { leds: 5, rev: false };
    let mut buf = buffer(5);
    b.render_at(&info, &mut buf, 3);
    let mut i: usize = 0;
    while i < 5 {
        if i == 3 {
            assert_eq!(buf[i], Rgb8::new(9, 8, 7));
        } else {
            assert_eq!(buf[i], Rgb8::zero());
        }
        i += 1;
    }
}

#[test]
fn effect_enum_dispatches() {
    let e = Effect::Pattern(ColorPattern { colors: vec![Rgb8::new(1, 2, 3)], speed_permille: 0 });
    let info = StripInfo { leds: 1, rev: false };
    let mut buf = buffer(1);
    e.update(&info, &mut buf, 12345);
    // a one-entry palette is constant in time, gamma-corrected
    assert_eq!(buf[0], Rgb8::new(1, 2, 3).gamma_correct());
    let _ = Effects::new(vec![e]);
}
