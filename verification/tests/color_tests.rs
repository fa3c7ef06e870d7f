use eadkp::Color;

#[test]
fn pack_components_exact() {
    assert_eq!(Color::from_components(10, 20, 30).rgb565, 0x529E);
    assert_eq!(Color::from_components(31, 63, 31).rgb565, 0xFFFF);
    assert_eq!(Color::from_components(0, 0, 0).rgb565, 0);
}

#[test]
fn components_round_trip() {
    let c = Color::from_components(10, 20, 30);
    assert_eq!(c.get_components(), (10, 20, 30));
}

#[test]
fn from_888_keeps_top_bits() {
    assert_eq!(Color::from_888(255, 0, 0).get_components(), (31, 0, 0));
    assert_eq!(Color::from_888(0, 255, 0).get_components(), (0, 63, 0));
    assert_eq!(Color::from_888(0, 0, 255).get_components(), (0, 0, 31));
    assert_eq!(Color::from_888(0x08, 0x04, 0x08).get_components(), (1, 1, 1));
}

#[test]
fn get_888_widens_channels() {
    assert_eq!(Color::from_888(255, 255, 255).get_888(), (255, 255, 255));
    assert_eq!(Color::from_888(0, 0, 0).get_888(), (0, 0, 0));
    // a lone low bit of a 5-bit channel widens to 0b00001000 | 0b00000000
    assert_eq!(Color::from_components(1, 0, 0).get_888(), (8, 0, 0));
}

#[test]
fn apply_light_scales_and_caps() {
    let c = Color::from_components(20, 40, 10);
    // full brightness keeps every channel
    assert_eq!(c.apply_light(255).get_components(), (20, 40, 10));
    // darkness clears every channel
    assert_eq!(c.apply_light(0).get_components(), (0, 0, 0));
    // half brightness scales down proportionally: v * 127 / 255
    assert_eq!(c.apply_light(127).get_components(), (9, 19, 4));
}
