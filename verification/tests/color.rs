use raytracer::color::clamp_channel;
use raytracer::color::Rgb;

fn scaled(component: f64) -> i64 {
    (component * 255.9) as i64
}

#[test]
fn negative_component_maps_to_zero() {
    assert_eq!(clamp_channel(scaled(-0.1)), 0);
    assert_eq!(clamp_channel(-1), 0);
    assert_eq!(clamp_channel(i64::MIN), 0);
}

#[test]
fn zero_component_maps_to_zero() {
    assert_eq!(clamp_channel(scaled(0.0)), 0);
    assert_eq!(clamp_channel(0), 0);
}

#[test]
fn component_just_below_one_maps_to_255() {
    assert_eq!(scaled(0.999), 255);
    assert_eq!(clamp_channel(scaled(0.999)), 255);
}

#[test]
fn component_of_one_and_above_maps_to_255() {
    assert_eq!(clamp_channel(scaled(1.0)), 255);
    assert_eq!(clamp_channel(scaled(1.5)), 255);
    assert_eq!(clamp_channel(scaled(1.0e30)), 255);
    assert_eq!(clamp_channel(256), 255);
    assert_eq!(clamp_channel(i64::MAX), 255);
}

#[test]
fn components_in_range_follow_the_floor_formula() {
    assert_eq!(clamp_channel(scaled(0.5)), 127);
    assert_eq!(clamp_channel(scaled(0.08)), 20);
    assert_eq!(clamp_channel(scaled(0.082)), 20);
    assert_eq!(clamp_channel(scaled(0.25)), 63);
    assert_eq!(clamp_channel(1), 1);
    assert_eq!(clamp_channel(254), 254);
    assert_eq!(clamp_channel(255), 255);
}

#[test]
fn clamp_is_monotone_on_a_sweep() {
    let mut last: u8 = 0;
    let mut s: i64 = -300;
    while s <= 600 {
        let c = clamp_channel(s);
        assert!(c >= last);
        last = c;
        s += 1;
    }
    assert_eq!(last, 255);
}

#[test]
fn from_scaled_quantises_each_channel() {
    let c = Rgb::from_scaled(-5, 100, 1000);
    assert_eq!(c, Rgb { r: 0, g: 100, b: 255 });
    let background = Rgb::from_scaled(scaled(0.08), scaled(0.082), scaled(0.08));
    assert_eq!(background, Rgb { r: 20, g: 20, b: 20 });
}

#[test]
fn black_has_no_intensity() {
    assert_eq!(Rgb::black(), Rgb { r: 0, g: 0, b: 0 });
}
