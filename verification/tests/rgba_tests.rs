use ledstrip::color::Rgb8;
use ledstrip::rgba::Rgba8;

#[test]
fn new_premultiplies_each_channel_by_alpha() {
    let c = Rgba8::new(100, 200, 50, 128);
    assert_eq!((c.r, c.g, c.b, c.a), (50, 100, 25, 128));
    let opaque = Rgba8::new(10, 20, 30, 255);
    assert_eq!((opaque.r, opaque.g, opaque.b, opaque.a), (10, 20, 30, 255));
    let clear = Rgba8::new(10, 20, 30, 0);
    assert_eq!((clear.r, clear.g, clear.b, clear.a), (0, 0, 0, 0));
}

#[test]
fn new_premultiplied_stores_inputs_verbatim() {
    let c = Rgba8::new_premultiplied(100, 200, 50, 128);
    assert_eq!((c.r, c.g, c.b, c.a), (100, 200, 50, 128));
}

#[test]
fn zero_is_fully_transparent_black() {
    let z = Rgba8::zero();
    assert_eq!((z.r, z.g, z.b, z.a), (0, 0, 0, 0));
}

#[test]
fn from_rgb_premultiplies() {
    let c = Rgba8::from_rgb(Rgb8::new(100, 200, 50), 128);
    assert_eq!((c.r, c.g, c.b, c.a), (50, 100, 25, 128));
}

#[test]
fn opaque_blend_replaces_background() {
    let fg = Rgba8::new_premultiplied(10, 20, 30, 255);
    let bg = Rgba8::new_premultiplied(200, 100, 50, 255);
    let out = fg.blend_over(bg);
    assert_eq!((out.r, out.g, out.b, out.a), (10, 20, 30, 255));
}

#[test]
fn transparent_blend_passes_background_through() {
    let fg = Rgba8::zero();
    let bg = Rgba8::new_premultiplied(200, 100, 50, 255);
    let out = fg.blend_over(bg);
    assert_eq!((out.r, out.g, out.b, out.a), (200, 100, 50, 255));
}

#[test]
fn half_coverage_blend_mixes() {
    let fg = Rgba8::new_premultiplied(10, 20, 30, 128);
    let bg = Rgba8::new_premultiplied(100, 100, 100, 255);
    let out = fg.blend_over(bg);
    assert_eq!((out.r, out.g, out.b, out.a), (60, 70, 80, 255));
}

#[test]
fn rgb_drops_alpha() {
    let c = Rgba8::new_premultiplied(1, 2, 3, 77).rgb();
    assert_eq!((c.r, c.g, c.b), (1, 2, 3));
}
