use speedhack::clock::{RealTime, SpeedHackManager};
use speedhack::speed::Speed;

fn at(tick_count: u32, tick_count_64: u64, performance_counter: i64) -> RealTime {
    RealTime { tick_count, tick_count_64, performance_counter }
}

#[test]
fn new_starts_at_real_time() {
    let m = SpeedHackManager::new(at(100, 200, 300));
    assert_eq!(m.speed(), Speed::one());
    assert_eq!(m.get_tick_count(100), 100);
    assert_eq!(m.get_tick_count_64(200), 200);
    assert_eq!(m.get_performance_counter(300), 300);
    assert_eq!(m.get_tick_count(150), 150);
}

#[test]
fn tick_count_wraps_at_32_bits() {
    let m = SpeedHackManager::new(at(0xFFFF_FFF0, 0, 0));
    assert_eq!(m.get_tick_count(0x10), 0x10);
}

#[test]
fn double_speed_doubles_elapsed_time() {
    let mut m = SpeedHackManager::new(at(1000, 1000, 1000));
    m.set_speed(Speed::from_micros(2_000_000), at(1000, 1000, 1000));
    assert_eq!(m.get_tick_count(1100), 1200);
    assert_eq!(m.get_tick_count_64(1100), 1200);
    assert_eq!(m.get_performance_counter(1100), 1200);
}

#[test]
fn half_speed_rounds_down() {
    let mut m = SpeedHackManager::new(at(0, 0, 0));
    m.set_speed(Speed::from_micros(500_000), at(0, 0, 0));
    assert_eq!(m.get_tick_count(3), 1);
    assert_eq!(m.get_tick_count_64(3), 1);
    assert_eq!(m.get_performance_counter(3), 1);
}

#[test]
fn change_of_speed_keeps_time_continuous() {
    let mut m = SpeedHackManager::new(at(0, 0, 0));
    m.set_speed(Speed::from_micros(3_000_000), at(10, 10, 10));
    let now = at(50, 60, 70);
    let before = (m.get_tick_count(50), m.get_tick_count_64(60), m.get_performance_counter(70));
    assert_eq!(before, (130, 160, 190));
    m.set_speed(Speed::from_micros(250_000), now);
    let after = (m.get_tick_count(50), m.get_tick_count_64(60), m.get_performance_counter(70));
    assert_eq!(before, after);
    assert_eq!(m.get_tick_count_64(100), 170);
}

#[test]
fn performance_counter_scales_negative_delta_toward_zero() {
    let mut m = SpeedHackManager::new(at(0, 0, 1000));
    m.set_speed(Speed::from_micros(1_500_000), at(0, 0, 1000));
    assert_eq!(m.get_performance_counter(997), 1000 - 4);
}

#[test]
fn scaled_delta_wraps_in_counter_width() {
    let mut m = SpeedHackManager::new(at(0, 0, 0));
    m.set_speed(Speed::from_micros(4_000_000), at(0, 0, 0));
    assert_eq!(m.get_tick_count_64(u64::MAX / 2), u64::MAX - 3);
    assert_eq!(m.get_tick_count(u32::MAX / 2), u32::MAX - 3);
    assert_eq!(m.get_performance_counter(i64::MAX / 2), -4);
}

#[test]
fn virtual_time_keeps_advancing_past_counter_width() {
    let mut m = SpeedHackManager::new(at(0, 0, 0));
    m.set_speed(Speed::from_micros(4_000_000), at(0, 0, 0));
    assert_eq!(m.get_tick_count(0x8000_0000), 0);
    assert_eq!(m.get_tick_count(0x8000_0001), 4);
    let a = m.get_tick_count_64(1 << 63);
    let b = m.get_tick_count_64((1 << 63) + 1);
    assert_eq!(b.wrapping_sub(a), 4);
    let a = m.get_performance_counter(1 << 62);
    let b = m.get_performance_counter((1 << 62) + 1);
    assert_eq!(b.wrapping_sub(a), 4);
}

#[test]
fn reapplying_the_same_speed_keeps_later_readings() {
    let mut m = SpeedHackManager::new(at(0, 0, 0));
    m.set_speed(Speed::from_micros(4_000_000), at(0, 0, 0));
    assert_eq!(m.get_tick_count(0x5000_0000), 0x4000_0000);
    m.set_speed(Speed::from_micros(4_000_000), at(0x3000_0000, 0x3000_0000, 0x3000_0000));
    assert_eq!(m.get_tick_count(0x5000_0000), 0x4000_0000);
    assert_eq!(m.get_tick_count_64(0x5000_0000), 0x1_4000_0000);
    assert_eq!(m.get_performance_counter(0x5000_0000), 0x1_4000_0000);
}
