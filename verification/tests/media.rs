use chariot::file_formats::palette::PaletteColor;
use chariot::media::{to_rgba, update_key_states, Key, KeyState, KeyStates, MouseButton, Rect};
use std::collections::HashMap;

#[test]
fn key_states_follow_the_pressed_keys() {
    let none: KeyStates<u32> = KeyStates::new(HashMap::new());
    let pressed: Vec<u32> = vec![1u32, 2];
    let s1 = update_key_states(&none, &pressed);
    assert_eq!(KeyState::TransitionDown, s1.key_state(1));
    assert!(s1.is_down(2));
    assert!(s1.is_up(3));

    let only_two: Vec<u32> = vec![2u32];
    let s2 = update_key_states(&s1, &only_two);
    assert_eq!(KeyState::TransitionUp, s2.key_state(1));
    assert_eq!(KeyState::Down, s2.key_state(2));

    let s3 = update_key_states(&s2, &[]);
    assert_eq!(KeyState::Up, s3.key_state(1));
    assert_eq!(KeyState::TransitionUp, s3.key_state(2));

    let s4 = update_key_states(&s3, &only_two);
    assert_eq!(KeyState::TransitionDown, s4.key_state(2));
    assert_eq!(KeyState::Up, s4.key_state(1));
    assert_eq!(2, s4.0.len());
}

#[test]
fn game_keys_follow_the_pressed_keys() {
    let none: KeyStates<Key> = KeyStates::new(HashMap::new());
    let s1 = update_key_states(&none, &[Key::Space, Key::Left, Key::Space]);
    assert_eq!(KeyState::TransitionDown, s1.key_state(Key::Space));
    assert!(s1.is_down(Key::Left));
    assert!(s1.is_up(Key::Right) && !s1.is_down(Key::Right));
    let s2 = update_key_states(&s1, &[Key::Left]);
    assert_eq!(KeyState::TransitionUp, s2.key_state(Key::Space));
    assert_eq!(KeyState::Down, s2.key_state(Key::Left));
    assert_eq!(KeyState::Up, s2.key_state(Key::CtrlLeft));

    let buttons: KeyStates<MouseButton> = KeyStates::new(HashMap::new());
    let b1 = update_key_states(&buttons, &[MouseButton::Middle]);
    assert!(b1.is_down(MouseButton::Middle) && b1.is_up(MouseButton::Left));
    assert_eq!(1, b1.0.len());
}

#[test]
fn key_state_predicates() {
    assert!(KeyState::TransitionDown.is_down() && KeyState::Down.is_down());
    assert!(KeyState::TransitionUp.is_up() && KeyState::Up.is_up());
    assert!(!KeyState::Down.is_up() && !KeyState::Up.is_down());
}

#[test]
fn palette_images_to_rgba() {
    let palette = [0u32, 0x11223344, 0xAABBCCDD];
    let pixels = [0u8, 1, 2, 1];
    let out = to_rgba(&palette, &pixels, 2, 2);
    assert_eq!(vec![0, 0, 0, 0, 0x44, 0x33, 0x22, 0x11, 0xDD, 0xCC, 0xBB, 0xAA, 0x44, 0x33, 0x22, 0x11], out);
}

#[test]
fn palette_color_as_rgba() {
    assert_eq!(0x102030FF, PaletteColor { r: 0x10, g: 0x20, b: 0x30 }.to_rgba8888());
}

#[test]
fn rect_extend_and_translate() {
    let mut r = Rect::new();
    r.extend(&Rect::of(4, 0, 3, 30));
    assert_eq!(Rect::of(0, 0, 7, 30), r);
    r.translate(2, -1);
    assert_eq!(Rect::of(2, -1, 7, 30), r);
}
