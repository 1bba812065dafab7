use speedhack::keyboard::{is_key_held, KeyState, KeyboardManager};

const A: u16 = 0x41;
const B: u16 = 0x42;

#[test]
fn chord_pressed_together_fires_on_first_tick_only() {
    let mut kb = KeyboardManager::new();
    let chord = vec![A, B];
    let held = vec![true, true];
    assert!(kb.all_pressed(&chord, &held));
    kb.end_frame();
    for _ in 0..3 {
        assert!(!kb.all_pressed(&chord, &held));
        assert_eq!(kb.get_key_state(A, true), KeyState::Down);
        assert_eq!(kb.get_key_state(B, true), KeyState::Down);
        kb.end_frame();
    }
}

#[test]
fn key_classification_follows_edges() {
    let mut kb = KeyboardManager::new();
    assert_eq!(kb.get_key_state(A, false), KeyState::Up);
    assert_eq!(kb.get_key_state(A, true), KeyState::Pressed);
    kb.end_frame();
    assert_eq!(kb.get_key_state(A, true), KeyState::Down);
    kb.end_frame();
    assert_eq!(kb.get_key_state(A, false), KeyState::Released);
    kb.end_frame();
    assert_eq!(kb.get_key_state(A, false), KeyState::Up);
}

#[test]
fn same_tick_queries_see_one_snapshot() {
    let mut kb = KeyboardManager::new();
    assert_eq!(kb.get_key_state(A, true), KeyState::Pressed);
    assert_eq!(kb.get_key_state(A, true), KeyState::Pressed);
}

#[test]
fn empty_chord_never_fires() {
    let mut kb = KeyboardManager::new();
    assert!(!kb.all_pressed(&vec![], &vec![]));
    assert!(!kb.any_released(&vec![], &vec![]));
}

#[test]
fn chord_held_before_observation_does_not_fire() {
    let mut kb = KeyboardManager::new();
    assert_eq!(kb.get_key_state(A, true), KeyState::Pressed);
    assert_eq!(kb.get_key_state(B, true), KeyState::Pressed);
    kb.end_frame();
    assert!(!kb.all_pressed(&vec![A, B], &vec![true, true]));
}

#[test]
fn chord_completed_by_a_fresh_press_fires() {
    let mut kb = KeyboardManager::new();
    assert_eq!(kb.get_key_state(A, true), KeyState::Pressed);
    kb.end_frame();
    assert!(kb.all_pressed(&vec![A, B], &vec![true, true]));
}

#[test]
fn partial_chord_does_not_fire() {
    let mut kb = KeyboardManager::new();
    assert!(!kb.all_pressed(&vec![A, B], &vec![true, false]));
}

#[test]
fn release_of_one_key_is_reported() {
    let mut kb = KeyboardManager::new();
    assert!(kb.all_pressed(&vec![A, B], &vec![true, true]));
    kb.end_frame();
    assert!(kb.any_released(&vec![A, B], &vec![true, false]));
    kb.end_frame();
    assert!(!kb.any_released(&vec![A, B], &vec![true, false]));
}

#[test]
fn high_bit_of_async_state_means_held() {
    assert!(is_key_held(i16::MIN));
    assert!(is_key_held(-1));
    assert!(!is_key_held(0));
    assert!(!is_key_held(1));
    assert!(!is_key_held(i16::MAX));
}
