use eadkp::battery::{is_charging, level, BatteryCharge};
use eadkp::random::{needs_reseed, randint_step, randint_uses_wide_draw, xorshift32};

#[test]
fn charge_from_raw_byte() {
    assert_eq!(BatteryCharge::from(0), BatteryCharge::Empty);
    assert_eq!(BatteryCharge::from(1), BatteryCharge::Critical);
    assert_eq!(BatteryCharge::from(2), BatteryCharge::Low);
    assert_eq!(BatteryCharge::from(3), BatteryCharge::Medium);
    assert_eq!(BatteryCharge::from(4), BatteryCharge::High);
    assert_eq!(BatteryCharge::from(5), BatteryCharge::Full);
    assert_eq!(BatteryCharge::from(200), BatteryCharge::Full);
}

#[test]
fn charge_names() {
    assert_eq!(BatteryCharge::Empty.to_str(), "Empty");
    assert_eq!(BatteryCharge::Critical.to_str(), "Critical");
    assert_eq!(BatteryCharge::Low.to_str(), "Low");
    assert_eq!(BatteryCharge::Medium.to_str(), "Medium");
    assert_eq!(BatteryCharge::High.to_str(), "High");
    assert_eq!(BatteryCharge::Full.to_str(), "Full");
}

#[test]
fn host_placeholders() {
    assert_eq!(level(), BatteryCharge::High);
    assert!(!is_charging());
}

#[test]
fn xorshift_step_exact() {
    assert_eq!(xorshift32(0x12345678), 0x87985AA5);
    assert_eq!(xorshift32(1), 0x00042021);
}

#[test]
fn reseed_every_256_states() {
    assert!(needs_reseed(0x100));
    assert!(needs_reseed(0));
    assert!(!needs_reseed(0x101));
    assert!(!needs_reseed(0xFF));
}

#[test]
fn randint_degenerate_range() {
    assert_eq!(randint_step(7, 7, 0), Some(7));
}

#[test]
fn randint_power_of_two_masks() {
    // range 8: the low three bits of the draw land on [0, 7]
    assert_eq!(randint_step(0, 7, 13), Some(5));
    assert_eq!(randint_step(100, 103, 6), Some(102));
}

#[test]
fn randint_rejection_sampling() {
    // range 3: the largest multiple of 3 below 2^32 is 2^32 - 1
    assert_eq!(randint_step(10, 12, 4), Some(11));
    assert_eq!(randint_step(10, 12, 0xFFFF_FFFF), None);
}

#[test]
fn randint_wide_draw_detection() {
    assert!(!randint_uses_wide_draw(0, 0xFFFF_FFFE));
    assert!(randint_uses_wide_draw(0, 0xFFFF_FFFF_0000_0000));
}
