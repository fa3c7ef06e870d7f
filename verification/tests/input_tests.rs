use eadkp::input::{Event, Key, KeyboardState};

#[test]
fn key_codes_match_bit_positions() {
    assert_eq!(Key::Left.code(), 0);
    assert_eq!(Key::Okay.code(), 4);
    assert_eq!(Key::OnOff.code(), 8);
    assert_eq!(Key::Shift.code(), 12);
    assert_eq!(Key::Nine.code(), 32);
    assert_eq!(Key::Exe.code(), 52);
}

#[test]
fn key_down_reads_single_bits() {
    let state = KeyboardState::from_raw((1u64 << 52) | (1u64 << 4));
    assert!(state.key_down(Key::Exe));
    assert!(state.key_down(Key::Okay));
    assert!(!state.key_down(Key::Left));
    assert!(!KeyboardState::new().key_down(Key::Exe));
    assert!(!KeyboardState::default().key_down(Key::Okay));
}

#[test]
fn just_pressed_and_released() {
    let before = KeyboardState::from_raw(0b0011);
    let now = KeyboardState::from_raw(0b0110);
    let pressed = now.get_just_pressed(before);
    assert!(pressed.key_down(Key::Down));
    assert!(!pressed.key_down(Key::Up));
    assert!(!pressed.key_down(Key::Left));
    let released = now.get_just_realeased(before);
    assert!(released.key_down(Key::Left));
    assert!(!released.key_down(Key::Up));
    assert!(!released.key_down(Key::Down));
}

#[test]
fn digit_events() {
    assert!(Event::Seven.is_digit());
    assert_eq!(Event::Seven.to_digit(), Some(7));
    assert_eq!(Event::Zero.to_digit(), Some(0));
    assert_eq!(Event::Nine.to_digit(), Some(9));
    assert!(!Event::Plus.is_digit());
    assert_eq!(Event::Plus.to_digit(), None);
    assert!(!Event::LowerA.is_digit());
    assert_eq!(Event::LowerA.to_digit(), None);
}
