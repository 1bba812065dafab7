use speedhack::clock::{RealTime, SpeedHackManager};
use speedhack::config::SpeedStateConfig;
use speedhack::control::{apply_speed_states, end_startup};
use speedhack::keyboard::KeyboardManager;
use speedhack::speed::Speed;

const CTRL: u16 = 0x11;
const SHIFT: u16 = 0x10;

fn at(ms: u32) -> RealTime {
    RealTime { tick_count: ms, tick_count_64: ms as u64, performance_counter: ms as i64 }
}

fn binding(keys: Vec<u16>, micros: u64, is_toggle: bool) -> SpeedStateConfig {
    SpeedStateConfig { keys, speed: Speed::from_micros(micros), is_toggle }
}

fn tick(
    kb: &mut KeyboardManager,
    m: &mut SpeedHackManager,
    states: &Vec<SpeedStateConfig>,
    held: Vec<Vec<bool>>,
    now: u32,
) {
    apply_speed_states(kb, m, states, &held, at(now));
    kb.end_frame();
}

#[test]
fn toggle_switches_off_when_multiplier_already_matches() {
    let states = vec![binding(vec![CTRL], 5_000_000, true)];
    let mut kb = KeyboardManager::new();
    let mut m = SpeedHackManager::new(at(0));
    tick(&mut kb, &mut m, &states, vec![vec![true]], 16);
    assert_eq!(m.speed(), Speed::from_micros(5_000_000));
    tick(&mut kb, &mut m, &states, vec![vec![false]], 32);
    assert_eq!(m.speed(), Speed::from_micros(5_000_000));
    tick(&mut kb, &mut m, &states, vec![vec![true]], 48);
    assert_eq!(m.speed(), Speed::one());
}

#[test]
fn toggle_reads_equal_multiplier_set_elsewhere_as_active() {
    let states = vec![binding(vec![CTRL], 5_000_000, true)];
    let mut kb = KeyboardManager::new();
    let mut m = SpeedHackManager::new(at(0));
    m.set_speed(Speed::from_micros(5_000_000), at(10));
    tick(&mut kb, &mut m, &states, vec![vec![true]], 16);
    assert_eq!(m.speed(), Speed::one());
}

#[test]
fn hold_binding_applies_while_held_and_resets_on_release() {
    let states = vec![binding(vec![CTRL, SHIFT], 10_000_000, false)];
    let mut kb = KeyboardManager::new();
    let mut m = SpeedHackManager::new(at(0));
    tick(&mut kb, &mut m, &states, vec![vec![true, true]], 16);
    assert_eq!(m.speed(), Speed::from_micros(10_000_000));
    tick(&mut kb, &mut m, &states, vec![vec![true, true]], 32);
    assert_eq!(m.speed(), Speed::from_micros(10_000_000));
    assert_eq!(m.get_tick_count(42), 16 + 26 * 10);
    tick(&mut kb, &mut m, &states, vec![vec![true, false]], 48);
    assert_eq!(m.speed(), Speed::one());
    assert_eq!(m.get_tick_count(48), 16 + 32 * 10);
    assert_eq!(m.get_tick_count(50), 16 + 32 * 10 + 2);
}

#[test]
fn no_binding_fires_leaves_manager_unchanged() {
    let states = vec![binding(vec![CTRL], 2_000_000, false)];
    let mut kb = KeyboardManager::new();
    let mut m = SpeedHackManager::new(at(0));
    let before = m;
    tick(&mut kb, &mut m, &states, vec![vec![false]], 16);
    assert_eq!(m, before);
}

#[test]
fn earlier_binding_wins_on_the_same_tick() {
    let states = vec![
        binding(vec![CTRL], 2_000_000, false),
        binding(vec![CTRL], 3_000_000, false),
    ];
    let mut kb = KeyboardManager::new();
    let mut m = SpeedHackManager::new(at(0));
    tick(&mut kb, &mut m, &states, vec![vec![true], vec![true]], 16);
    assert_eq!(m.speed(), Speed::from_micros(2_000_000));
}

#[test]
fn toggle_on_is_not_undone_by_a_later_hold_release() {
    let states = vec![
        binding(vec![CTRL], 5_000_000, true),
        binding(vec![SHIFT], 3_000_000, false),
    ];
    let mut kb = KeyboardManager::new();
    let mut m = SpeedHackManager::new(at(0));
    tick(&mut kb, &mut m, &states, vec![vec![false], vec![true]], 16);
    assert_eq!(m.speed(), Speed::from_micros(3_000_000));
    tick(&mut kb, &mut m, &states, vec![vec![true], vec![false]], 32);
    assert_eq!(m.speed(), Speed::from_micros(5_000_000));
    tick(&mut kb, &mut m, &states, vec![vec![false], vec![false]], 48);
    assert_eq!(m.speed(), Speed::from_micros(5_000_000));
}

#[test]
fn later_chords_are_still_sampled_after_an_earlier_binding_acts() {
    let states = vec![
        binding(vec![CTRL], 2_000_000, false),
        binding(vec![SHIFT], 3_000_000, false),
    ];
    let mut kb = KeyboardManager::new();
    let mut m = SpeedHackManager::new(at(0));
    tick(&mut kb, &mut m, &states, vec![vec![true], vec![true]], 16);
    assert_eq!(m.speed(), Speed::from_micros(2_000_000));
    tick(&mut kb, &mut m, &states, vec![vec![true], vec![true]], 32);
    assert_eq!(m.speed(), Speed::from_micros(2_000_000));
}

#[test]
fn startup_speed_reverts_only_if_untouched() {
    let mut m = SpeedHackManager::new(at(0));
    m.set_speed(Speed::from_micros(4_000_000), at(0));
    end_startup(&mut m, Speed::from_micros(4_000_000), at(100));
    assert_eq!(m.speed(), Speed::one());
    assert_eq!(m.get_tick_count(100), 400);

    let mut m = SpeedHackManager::new(at(0));
    m.set_speed(Speed::from_micros(4_000_000), at(0));
    m.set_speed(Speed::from_micros(2_000_000), at(50));
    end_startup(&mut m, Speed::from_micros(4_000_000), at(100));
    assert_eq!(m.speed(), Speed::from_micros(2_000_000));
}
