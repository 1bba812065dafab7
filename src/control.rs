use vstd::prelude::*;
use crate::speed::Speed;
use crate::clock::{RealTime, SpeedHackManager, reanchored};
use crate::keyboard::{
    KeyboardManager,
    chord_fires,
    chord_released,
    changes_key,
    keys_in_range,
    staged_after,
};
use crate::config::SpeedStateConfig;

verus! {

/// What one binding does to the multiplier `cur` on a tick, if anything.
///
/// A firing chord selects the binding's multiplier; a toggle binding whose
/// multiplier is already current switches back to normal speed instead. A
/// released chord of a hold binding switches back to normal speed.
pub open spec fn state_step(
    cur: Speed,
    committed: Seq<bool>,
    st: SpeedStateConfig,
    held: Seq<bool>,
) -> Option<Speed> {
    if chord_fires(committed, st.keys@, held) {
        if st.is_toggle && cur == st.speed {
            Some(Speed::spec_one())
        } else {
            Some(st.speed)
        }
    } else if !st.is_toggle && chord_released(committed, st.keys@, held) {
        Some(Speed::spec_one())
    } else {
        None
    }
}

/// The multiplier that the bindings, taken in order, set on a tick that
/// starts at `cur`: the first binding that acts decides, so earlier bindings
/// take priority where chords overlap; `None` where none of them acts.
pub open spec fn tick_speed(
    cur: Speed,
    committed: Seq<bool>,
    states: Seq<SpeedStateConfig>,
    held: Seq<Vec<bool>>,
) -> Option<Speed>
    decreases states.len(),
{
    if states.len() == 0 {
        None
    } else {
        match tick_speed(cur, committed, states.drop_last(), held.drop_last()) {
            Some(s) => Some(s),
            None => state_step(cur, committed, states.last(), held.last()@),
        }
    }
}

/// Some binding's chord changed key `k` from its committed state.
pub open spec fn any_changes_key(
    committed: Seq<bool>,
    states: Seq<SpeedStateConfig>,
    held: Seq<Vec<bool>>,
    k: int,
) -> bool {
    exists|j: int| 0 <= j < states.len() && #[trigger] changes_key(committed, states[j].keys@, held[j]@, k)
}

/// The staged key table after sampling the chords of all bindings.
pub open spec fn staged_after_states(
    staged: Seq<bool>,
    committed: Seq<bool>,
    states: Seq<SpeedStateConfig>,
    held: Seq<Vec<bool>>,
) -> Seq<bool> {
    Seq::new(
        staged.len(),
        |k: int|
            if any_changes_key(committed, states, held, k) {
                !committed[k]
            } else {
                staged[k]
            },
    )
}

/// The bindings can be evaluated: `held[j][i]` samples key `i` of binding
/// `j`, every key is covered by the tracker, every multiplier is positive.
pub open spec fn states_ready(states: Seq<SpeedStateConfig>, held: Seq<Vec<bool>>) -> bool {
    &&& states.len() == held.len()
    &&& forall|j: int|
        0 <= j < states.len() ==> {
            &&& (#[trigger] states[j]).speed.is_valid()
            &&& keys_in_range(states[j].keys@)
            &&& held[j]@.len() == states[j].keys@.len()
        }
}

/// Evaluates the bindings in order on one tick: the first binding that acts
/// changes the multiplier of `manager` at the instant `now`; the chords of
/// all bindings are sampled. `held[j]` holds the current samples of the keys
/// of `states[j]`.
pub fn apply_speed_states(
    keyboard: &mut KeyboardManager,
    manager: &mut SpeedHackManager,
    states: &Vec<SpeedStateConfig>,
    held: &Vec<Vec<bool>>,
    now: RealTime,
)
    requires
        old(keyboard).wf(),
        states_ready(states@, held@),
    ensures
        final(keyboard).wf(),
        final(keyboard)@.committed == old(keyboard)@.committed,
        final(keyboard)@.staged == staged_after_states(
            old(keyboard)@.staged,
            old(keyboard)@.committed,
            states@,
            held@,
        ),
        *final(manager) == match tick_speed(
            old(manager).speed,
            old(keyboard)@.committed,
            states@,
            held@,
        ) {
            Some(s) => reanchored(*old(manager), s, now),
            None => *old(manager),
        },
{
    let ghost committed = keyboard@.committed;
    let ghost staged0 = keyboard@.staged;
    let ghost m0 = *manager;
    let mut j: usize = 0;
    let mut acted = false;
    proof {
        assert(staged_after_states(staged0, committed, states@.take(0), held@.take(0)) =~= staged0);
    }
    while j < states.len()
        invariant
            keyboard.wf(),
            states_ready(states@, held@),
            j <= states@.len(),
            keyboard@.committed == committed,
            staged0.len() == committed.len(),
            keyboard@.staged == staged_after_states(
                staged0,
                committed,
                states@.take(j as int),
                held@.take(j as int),
            ),
            acted == tick_speed(m0.speed, committed, states@.take(j as int), held@.take(j as int)).is_some(),
            *manager == match tick_speed(
                m0.speed,
                committed,
                states@.take(j as int),
                held@.take(j as int),
            ) {
                Some(s) => reanchored(m0, s, now),
                None => m0,
            },
        decreases states@.len() - j,
    {
        let ghost staged_j = keyboard@.staged;
        let ghost prior = tick_speed(m0.speed, committed, states@.take(j as int), held@.take(j as int));
        let state = &states[j];
        let keys_held = &held[j];
        assert(states@[j as int].speed.is_valid());
        if keyboard.all_pressed(&state.keys, keys_held) {
            if !acted {
                if state.is_toggle && manager.speed() == state.speed {
                    manager.set_speed(Speed::one(), now);
                } else {
                    manager.set_speed(state.speed, now);
                }
            }
            acted = true;
        } else if keyboard.any_released(&state.keys, keys_held) && !state.is_toggle {
            if !acted {
                manager.set_speed(Speed::one(), now);
            }
            acted = true;
        }
        proof {
            let st = states@.take(j as int + 1);
            let ht = held@.take(j as int + 1);
            assert(st.drop_last() =~= states@.take(j as int));
            assert(ht.drop_last() =~= held@.take(j as int));
            assert(st.last() == *state);
            assert(ht.last() == *keys_held);
            let once = staged_after(staged_j, committed, state.keys@, keys_held@);
            assert(staged_after(once, committed, state.keys@, keys_held@) =~= once);
            assert forall|k: int| 0 <= k < committed.len() implies #[trigger] any_changes_key(
                committed,
                st,
                ht,
                k,
            ) == (any_changes_key(committed, states@.take(j as int), held@.take(j as int), k)
                || changes_key(committed, state.keys@, keys_held@, k)) by {
                if any_changes_key(committed, st, ht, k) {
                    let i = choose|i: int| 0 <= i < st.len() && #[trigger] changes_key(committed, st[i].keys@, ht[i]@, k);
                    if i < j {
                        assert(states@.take(j as int)[i] == st[i]);
                        assert(held@.take(j as int)[i] == ht[i]);
                    }
                }
                if any_changes_key(committed, states@.take(j as int), held@.take(j as int), k) {
                    let i = choose|i: int| 0 <= i < j && #[trigger] changes_key(committed, states@.take(j as int)[i].keys@, held@.take(j as int)[i]@, k);
                    assert(states@.take(j as int)[i] == st[i]);
                    assert(held@.take(j as int)[i] == ht[i]);
                }
                if changes_key(committed, state.keys@, keys_held@, k) {
                    assert(st[j as int] == *state);
                    assert(ht[j as int] == *keys_held);
                }
            }
            assert(keyboard@.staged =~= staged_after_states(staged0, committed, st, ht));
        }
        j = j + 1;
    }
    proof {
        assert(states@.take(j as int) =~= states@);
        assert(held@.take(j as int) =~= held@);
    }
}

/// Ends the startup multiplier `startup`: back to normal speed at the
/// instant `now`, unless something changed the multiplier meanwhile.
pub fn end_startup(manager: &mut SpeedHackManager, startup: Speed, now: RealTime)
    ensures
        *final(manager) == if old(manager).speed == startup {
            reanchored(*old(manager), Speed::spec_one(), now)
        } else {
            *old(manager)
        },
{
    if manager.speed() == startup {
        manager.set_speed(Speed::one(), now);
    }
}

} // verus!
