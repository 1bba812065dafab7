use vstd::prelude::*;
use crate::speed::Speed;
use crate::keyboard::KEY_COUNT;

verus! {

/// Virtual key code of the Control key.
pub const VK_CONTROL: u16 = 0x11;
/// Virtual key code of the Shift key.
pub const VK_SHIFT: u16 = 0x10;
/// Virtual key code of the R key.
pub const VK_R: u16 = 0x52;

/// One key binding: a chord and the multiplier it selects.
pub struct SpeedStateConfig {
    /// Virtual key codes that must all be held for the binding to fire.
    pub keys: Vec<u16>,
    /// The multiplier to run at; must be positive.
    pub speed: Speed,
    /// Whether the chord toggles the multiplier instead of holding it.
    pub is_toggle: bool,
}

/// A multiplier applied for a while right after startup.
pub struct StartupConfig {
    pub speed: Speed,
    /// How long to keep it, in milliseconds.
    pub duration_ms: u64,
}

/// Everything the control loop is configured with.
pub struct SpeedhackConfig {
    /// Whether to open a console for logging.
    pub console: bool,
    /// How long to wait before hooking the time sources, in milliseconds.
    pub wait_with_hook_ms: Option<u64>,
    /// A chord that reloads the configuration, if any.
    pub reload_config_keys: Option<Vec<u16>>,
    pub startup_state: Option<StartupConfig>,
    /// The bindings, in priority order.
    pub speed_states: Vec<SpeedStateConfig>,
}

/// A problem that makes a configuration unusable.
#[derive(Clone, Copy, Debug, PartialEq, Eq, Structural)]
pub enum ConfigError {
    /// The binding at index `state` has a multiplier that is not positive.
    NonPositiveSpeed { state: usize },
    /// The binding at index `state` names a key code the tracker does not cover.
    KeyOutOfRange { state: usize, key: u16 },
    /// The reload chord names a key code the tracker does not cover.
    ReloadKeyOutOfRange { key: u16 },
    /// The startup multiplier is not positive.
    NonPositiveStartupSpeed,
}

impl Default for SpeedhackConfig {
    /// No console, a 250 ms wait, Ctrl+Shift+R to reload, and Ctrl+Shift
    /// held for ten times the speed.
    fn default() -> (r: SpeedhackConfig)
        ensures
            !r.console,
            r.wait_with_hook_ms == Some(250u64),
            r.reload_config_keys.is_some(),
            r.reload_config_keys.unwrap()@ == seq![VK_CONTROL, VK_SHIFT, VK_R],
            r.startup_state.is_none(),
            r.speed_states@.len() == 1,
            r.speed_states@[0].keys@ == seq![VK_CONTROL, VK_SHIFT],
            r.speed_states@[0].speed.micros == 10_000_000,
            !r.speed_states@[0].is_toggle,
    {
        let state = SpeedStateConfig {
            keys: vec![VK_CONTROL, VK_SHIFT],
            speed: Speed::from_micros(10_000_000),
            is_toggle: false,
        };
        SpeedhackConfig {
            console: false,
            wait_with_hook_ms: Some(250),
            reload_config_keys: Some(vec![VK_CONTROL, VK_SHIFT, VK_R]),
            startup_state: None,
            speed_states: vec![state],
        }
    }
}

/// The out-of-range keys among `keys`, in order: reported for the binding at
/// index `state`, or for the reload chord where `state` is `None`.
pub open spec fn key_errors(keys: Seq<u16>, state: Option<usize>) -> Seq<ConfigError>
    decreases keys.len(),
{
    if keys.len() == 0 {
        seq![]
    } else {
        let key = keys.last();
        key_errors(keys.drop_last(), state) + if key < KEY_COUNT {
            seq![]
        } else {
            match state {
                Some(s) => seq![ConfigError::KeyOutOfRange { state: s, key }],
                None => seq![ConfigError::ReloadKeyOutOfRange { key }],
            }
        }
    }
}

/// The problems of the binding at index `i`: its multiplier, then its keys.
pub open spec fn state_errors(s: SpeedStateConfig, i: usize) -> Seq<ConfigError> {
    (if s.speed.micros == 0 {
        seq![ConfigError::NonPositiveSpeed { state: i }]
    } else {
        seq![]
    }) + key_errors(s.keys@, Some(i))
}

/// The problems of all bindings, binding by binding.
pub open spec fn states_errors(states: Seq<SpeedStateConfig>) -> Seq<ConfigError>
    decreases states.len(),
{
    if states.len() == 0 {
        seq![]
    } else {
        states_errors(states.drop_last()) + state_errors(
            states.last(),
            (states.len() - 1) as usize,
        )
    }
}

/// Every problem of a configuration: the startup multiplier, the reload
/// chord, then the bindings.
pub open spec fn config_errors(c: SpeedhackConfig) -> Seq<ConfigError> {
    (match c.startup_state {
        Some(st) => if st.speed.micros == 0 {
            seq![ConfigError::NonPositiveStartupSpeed]
        } else {
            seq![]
        },
        None => seq![],
    }) + (match c.reload_config_keys {
        Some(keys) => key_errors(keys@, None),
        None => seq![],
    }) + states_errors(c.speed_states@)
}

/// Appends the out-of-range keys of `keys` to `errors`.
fn check_keys(keys: &Vec<u16>, state: Option<usize>, errors: &mut Vec<ConfigError>)
    ensures
        final(errors)@ == old(errors)@ + key_errors(keys@, state),
{
    let ghost start = errors@;
    let mut i: usize = 0;
    while i < keys.len()
        invariant
            i <= keys@.len(),
            errors@ == start + key_errors(keys@.take(i as int), state),
        decreases keys@.len() - i,
    {
        let key = keys[i];
        proof {
            assert(keys@.take(i as int + 1).drop_last() =~= keys@.take(i as int));
        }
        if key as usize >= KEY_COUNT {
            match state {
                Some(s) => errors.push(ConfigError::KeyOutOfRange { state: s, key }),
                None => errors.push(ConfigError::ReloadKeyOutOfRange { key }),
            }
        }
        i = i + 1;
        proof {
            assert(start + key_errors(keys@.take(i as int), state) =~= errors@);
        }
    }
    proof {
        assert(keys@.take(i as int) =~= keys@);
    }
}

/// Checks a configuration: `Ok` exactly when it has no problem, else every
/// problem in order.
pub fn validate_config(config: &SpeedhackConfig) -> (r: Result<(), Vec<ConfigError>>)
    ensures
        r.is_ok() <==> config_errors(*config).len() == 0,
        r matches Err(errs) ==> errs@ == config_errors(*config),
{
    let mut errors: Vec<ConfigError> = Vec::new();
    match &config.startup_state {
        Some(st) => {
            if st.speed.micros == 0 {
                errors.push(ConfigError::NonPositiveStartupSpeed);
            }
        },
        None => {},
    }
    match &config.reload_config_keys {
        Some(keys) => check_keys(keys, None, &mut errors),
        None => {},
    }
    let ghost head = errors@;
    let mut i: usize = 0;
    while i < config.speed_states.len()
        invariant
            i <= config.speed_states@.len(),
            errors@ == head + states_errors(config.speed_states@.take(i as int)),
        decreases config.speed_states@.len() - i,
    {
        let state = &config.speed_states[i];
        proof {
            assert(config.speed_states@.take(i as int + 1).drop_last() =~= config.speed_states@.take(
                i as int,
            ));
        }
        if state.speed.micros == 0 {
            errors.push(ConfigError::NonPositiveSpeed { state: i });
        }
        check_keys(&state.keys, Some(i), &mut errors);
        i = i + 1;
        proof {
            assert(head + states_errors(config.speed_states@.take(i as int)) =~= errors@);
        }
    }
    proof {
        assert(config.speed_states@.take(i as int) =~= config.speed_states@);
        assert(errors@ =~= config_errors(*config));
    }
    if errors.len() == 0 {
        Ok(())
    } else {
        Err(errors)
    }
}

/// What a configuration reload does to the logging console.
#[derive(Clone, Copy, Debug, PartialEq, Eq, Structural)]
pub enum ConsoleAction {
    Open,
    Close,
    Keep,
}

/// The console follows the new configuration: it is opened or closed only
/// where the `console` setting changed.
pub fn console_action(old: &SpeedhackConfig, new: &SpeedhackConfig) -> (r: ConsoleAction)
    ensures
        r == (if old.console && !new.console {
            ConsoleAction::Close
        } else if !old.console && new.console {
            ConsoleAction::Open
        } else {
            ConsoleAction::Keep
        }),
{
    if old.console && !new.console {
        ConsoleAction::Close
    } else if !old.console && new.console {
        ConsoleAction::Open
    } else {
        ConsoleAction::Keep
    }
}

} // verus!
