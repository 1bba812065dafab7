use speedhack::config::{
    console_action, validate_config, ConfigError, ConsoleAction, SpeedStateConfig, SpeedhackConfig, StartupConfig, VK_CONTROL,
    VK_R, VK_SHIFT,
};
use speedhack::speed::Speed;

#[test]
fn default_config_is_valid() {
    let c = SpeedhackConfig::default();
    assert!(!c.console);
    assert_eq!(c.wait_with_hook_ms, Some(250));
    assert_eq!(c.reload_config_keys, Some(vec![VK_CONTROL, VK_SHIFT, VK_R]));
    assert_eq!(c.speed_states.len(), 1);
    assert_eq!(c.speed_states[0].keys, vec![VK_CONTROL, VK_SHIFT]);
    assert_eq!(c.speed_states[0].speed, Speed::from_micros(10_000_000));
    assert!(!c.speed_states[0].is_toggle);
    assert_eq!(validate_config(&c), Ok(()));
}

#[test]
fn every_problem_is_reported_in_order() {
    let c = SpeedhackConfig {
        console: false,
        wait_with_hook_ms: None,
        reload_config_keys: Some(vec![VK_CONTROL, 300]),
        startup_state: Some(StartupConfig { speed: Speed::from_micros(0), duration_ms: 10 }),
        speed_states: vec![
            SpeedStateConfig { keys: vec![0x41], speed: Speed::from_micros(1), is_toggle: false },
            SpeedStateConfig { keys: vec![256, 0x41, 999], speed: Speed::from_micros(0), is_toggle: true },
        ],
    };
    assert_eq!(
        validate_config(&c),
        Err(vec![
            ConfigError::NonPositiveStartupSpeed,
            ConfigError::ReloadKeyOutOfRange { key: 300 },
            ConfigError::NonPositiveSpeed { state: 1 },
            ConfigError::KeyOutOfRange { state: 1, key: 256 },
            ConfigError::KeyOutOfRange { state: 1, key: 999 },
        ])
    );
}

#[test]
fn highest_key_code_is_accepted() {
    let c = SpeedhackConfig {
        console: true,
        wait_with_hook_ms: None,
        reload_config_keys: None,
        startup_state: None,
        speed_states: vec![SpeedStateConfig { keys: vec![255], speed: Speed::one(), is_toggle: false }],
    };
    assert_eq!(validate_config(&c), Ok(()));
}

fn with_console(console: bool) -> SpeedhackConfig {
    SpeedhackConfig {
        console,
        wait_with_hook_ms: None,
        reload_config_keys: None,
        startup_state: None,
        speed_states: vec![],
    }
}

#[test]
fn console_follows_reloaded_setting() {
    assert_eq!(console_action(&with_console(true), &with_console(false)), ConsoleAction::Close);
    assert_eq!(console_action(&with_console(false), &with_console(true)), ConsoleAction::Open);
    assert_eq!(console_action(&with_console(true), &with_console(true)), ConsoleAction::Keep);
    assert_eq!(console_action(&with_console(false), &with_console(false)), ConsoleAction::Keep);
}
