use speedhack::clock::{RealTime, SpeedHackManager};
use speedhack::hooks::{HookLedger, TimeSource};

#[test]
fn teardown_twice_releases_each_hook_once() {
    let mut l = HookLedger::new();
    l.record_installed(TimeSource::TickCount);
    l.record_installed(TimeSource::TickCount64);
    l.record_installed(TimeSource::PerformanceCounter);
    assert_eq!(
        l.teardown(),
        vec![TimeSource::TickCount, TimeSource::TickCount64, TimeSource::PerformanceCounter]
    );
    assert_eq!(l.teardown(), vec![]);
    assert!(!l.is_installed(TimeSource::TickCount));
}

#[test]
fn partial_install_rolls_back_only_what_was_installed() {
    let mut l = HookLedger::new();
    l.record_installed(TimeSource::TickCount64);
    assert!(l.is_installed(TimeSource::TickCount64));
    assert!(!l.is_installed(TimeSource::PerformanceCounter));
    assert_eq!(l.teardown(), vec![TimeSource::TickCount64]);
}

#[test]
fn manager_detach_twice_releases_each_hook_once() {
    let now = RealTime { tick_count: 5, tick_count_64: 6, performance_counter: 7 };
    let mut m = SpeedHackManager::new(now);
    m.record_hook(TimeSource::TickCount);
    m.record_hook(TimeSource::PerformanceCounter);
    assert_eq!(m.detach(), vec![TimeSource::TickCount, TimeSource::PerformanceCounter]);
    assert_eq!(m.detach(), vec![]);
    assert_eq!(m.get_tick_count(5), 5);
}
