use ledstrip::color::Rgb8;
use ledstrip::effect::{ColorPattern, StripInfo};
use ledstrip::fx::{Effect, Effects};
use ledstrip::net::{apply_server_message, ServerMessage, StripMode, UdpMessage};
use ledstrip::strip::{State, StripState};

#[test]
fn command_bytes_decode_exactly() {
    assert!(matches!(UdpMessage::from_byte(0), Some(UdpMessage::SetBufferToMany)));
    assert!(matches!(UdpMessage::from_byte(1), Some(UdpMessage::SetBufferToSingle)));
    assert!(matches!(UdpMessage::from_byte(2), Some(UdpMessage::SetSinglePixel)));
    assert!(matches!(UdpMessage::from_byte(3), Some(UdpMessage::SetBufferToManyAlpha)));
    assert!(matches!(UdpMessage::from_byte(4), Some(UdpMessage::SetBufferToSingleAlpha)));
    assert!(UdpMessage::from_byte(5).is_none());
    assert!(UdpMessage::from_byte(255).is_none());
}

#[test]
fn default_mode_is_effects() {
    let m: StripMode = Default::default();
    assert_eq!(m, StripMode::Effects);
}

fn two_strips() -> State {
    State::new(vec![
        StripState::new(StripInfo { leds: 3, rev: false }),
        StripState::new(StripInfo { leds: 3, rev: true }),
    ])
}

fn one_effect() -> Effects {
    Effects::new(vec![
        Effect::Pattern(ColorPattern { colors: vec![Rgb8::zero()], speed_permille: 0 }),
        Effect::Pattern(ColorPattern { colors: vec![Rgb8::gray(1)], speed_permille: 0 }),
    ])
}

#[test]
fn set_strip_mode_lands_on_the_addressed_strip() {
    let mut state = two_strips();
    let mut fx = one_effect();
    apply_server_message(&mut state, &mut fx, ServerMessage::SetStripMode(1, StripMode::Off));
    assert_eq!(state.strips[0].mode, StripMode::Hybrid);
    assert_eq!(state.strips[1].mode, StripMode::Off);
}

#[test]
fn set_strip_mode_out_of_range_is_dropped() {
    let mut state = two_strips();
    let mut fx = one_effect();
    apply_server_message(&mut state, &mut fx, ServerMessage::SetStripMode(9, StripMode::Off));
    assert_eq!(state.strips[0].mode, StripMode::Hybrid);
    assert_eq!(state.strips[1].mode, StripMode::Hybrid);
}

#[test]
fn shift_effect_mode_moves_the_selector() {
    let mut state = two_strips();
    let mut fx = one_effect();
    apply_server_message(&mut state, &mut fx, ServerMessage::ShiftEffectMode(-1));
    assert_eq!(fx.index(), 1);
    apply_server_message(&mut state, &mut fx, ServerMessage::ShiftEffectMode(3));
    assert_eq!(fx.index(), 0);
}
