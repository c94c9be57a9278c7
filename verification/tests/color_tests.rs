use ledstrip::color::{gamma_lookup, MapColor, Rgb8, ZipColor};

#[test]
fn constructors_store_channels() {
    let c = Rgb8::new(1, 2, 3);
    assert_eq!(c.r, 1);
    assert_eq!(c.g, 2);
    assert_eq!(c.b, 3);
    let g = Rgb8::gray(9);
    assert_eq!((g.r, g.g, g.b), (9, 9, 9));
    let z = Rgb8::zero();
    assert_eq!((z.r, z.g, z.b), (0, 0, 0));
}

#[test]
fn gamma_endpoints() {
    assert_eq!(gamma_lookup(0), 0);
    assert_eq!(gamma_lookup(255), 255);
    assert_eq!(gamma_lookup(28), 1);
    assert_eq!(gamma_lookup(100), 19);
    assert_eq!(gamma_lookup(128), 37);
}

#[test]
fn gamma_monotonic_and_closed_over_all_bytes() {
    let mut prev: u8 = gamma_lookup(0);
    let mut c: u16 = 1;
    while c <= 255 {
        let v = gamma_lookup(c as u8);
        assert!(v >= prev);
        prev = v;
        c += 1;
    }
}

#[test]
fn gamma_correct_applies_per_channel() {
    let c = Rgb8::new(0, 28, 255).gamma_correct();
    assert_eq!((c.r, c.g, c.b), (0, 1, 255));
}

#[test]
fn brightness_rounds_to_nearest_and_clamps() {
    let c = Rgb8::new(255, 1, 0).brightness(1, 2);
    assert_eq!((c.r, c.g, c.b), (128, 1, 0));
    let d = Rgb8::new(5, 0, 0).brightness(1, 2);
    assert_eq!(d.r, 3);
    let e = Rgb8::new(200, 2, 0).brightness(3, 1);
    assert_eq!((e.r, e.g, e.b), (255, 6, 0));
    let f = Rgb8::new(10, 10, 10).brightness(0, 7);
    assert_eq!((f.r, f.g, f.b), (0, 0, 0));
}

#[test]
fn channel_sums_clamp_at_the_top() {
    let c = Rgb8::new(200, 100, 0).saturating_add(Rgb8::new(100, 100, 5));
    assert_eq!((c.r, c.g, c.b), (255, 200, 5));
}

#[test]
fn channel_differences_clamp_at_zero() {
    let c = Rgb8::new(200, 100, 0).saturating_sub(Rgb8::new(250, 40, 5));
    assert_eq!((c.r, c.g, c.b), (0, 60, 0));
}

#[test]
fn channel_products_scale_as_fractions() {
    let c = Rgb8::new(255, 128, 0).mul_channels(Rgb8::new(255, 128, 200));
    // 255/255 * 255/255 = 1; 128 * 128 / 255 rounds to 64; anything times 0
    // is 0
    assert_eq!((c.r, c.g, c.b), (255, 64, 0));
}

#[test]
fn lerp_walks_between_the_endpoints() {
    let a = Rgb8::new(0, 200, 100);
    let b = Rgb8::new(255, 100, 100);
    let mid = a.lerp(b, 1, 2);
    assert_eq!((mid.r, mid.g, mid.b), (128, 150, 100));
    let start = a.lerp(b, 0, 1);
    assert_eq!((start.r, start.g, start.b), (0, 200, 100));
    let end = a.lerp(b, 1, 1);
    assert_eq!((end.r, end.g, end.b), (255, 100, 100));
}

#[test]
fn map_and_zip_run_channelwise() {
    let c = Rgb8::new(1, 2, 3).map(|x: u8| x + 10);
    assert_eq!((c.r, c.g, c.b), (11, 12, 13));
    let z = Rgb8::new(1, 2, 3).zip(Rgb8::new(10, 20, 30), |a: u8, b: u8| a + b);
    assert_eq!((z.r, z.g, z.b), (11, 22, 33));
}
