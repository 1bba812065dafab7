use vstd::prelude::*;

verus! {

/// Number of key codes the tracker covers: every code below this value.
pub const KEY_COUNT: usize = 256;

/// Whether a key is held, from the state word the platform reports for it:
/// the key is held when the most significant bit is set.
pub fn is_key_held(async_state: i16) -> (r: bool)
    ensures
        r <==> async_state < 0,
{
    async_state < 0
}

/// How a key is classified on one tick.
///
/// `Pressed` and `Released` are single-tick edges; `Down` and `Up` are the
/// steady states in between.
#[derive(Clone, Copy, Debug, PartialEq, Eq, Structural)]
pub enum KeyState {
    Pressed,
    Down,
    Up,
    Released,
}

/// The classification of a key that was held (`before`) at the last commit
/// and is held (`now`) on this sample.
pub open spec fn classify(before: bool, now: bool) -> KeyState {
    if now && !before {
        KeyState::Pressed
    } else if !now && before {
        KeyState::Released
    } else if now {
        KeyState::Down
    } else {
        KeyState::Up
    }
}

pub open spec fn is_held_state(s: KeyState) -> bool {
    s == KeyState::Pressed || s == KeyState::Down
}

/// Every key of the chord is held, and at least one of them was pressed on
/// this tick. `held[i]` is what was sampled for `keys[i]`.
pub open spec fn chord_fires(committed: Seq<bool>, keys: Seq<u16>, held: Seq<bool>) -> bool {
    &&& forall|i: int| 0 <= i < keys.len() ==> is_held_state(
        #[trigger] classify(committed[keys[i] as int], held[i]),
    )
    &&& exists|i: int| 0 <= i < keys.len() && #[trigger] classify(committed[keys[i] as int], held[i])
        == KeyState::Pressed
}

/// At least one key of the chord was released on this tick.
pub open spec fn chord_released(committed: Seq<bool>, keys: Seq<u16>, held: Seq<bool>) -> bool {
    exists|i: int| 0 <= i < keys.len() && #[trigger] classify(committed[keys[i] as int], held[i])
        == KeyState::Released
}

/// Some key of the chord that is `k` changed from its committed state.
pub open spec fn changes_key(committed: Seq<bool>, keys: Seq<u16>, held: Seq<bool>, k: int) -> bool {
    exists|i: int| 0 <= i < keys.len() && keys[i] == k && #[trigger] held[i] != committed[keys[i] as int]
}

/// The staged table after sampling `keys`: a key whose sample differs from
/// its committed state is staged as flipped; every other entry is kept.
pub open spec fn staged_after(
    staged: Seq<bool>,
    committed: Seq<bool>,
    keys: Seq<u16>,
    held: Seq<bool>,
) -> Seq<bool> {
    Seq::new(
        staged.len(),
        |k: int|
            if changes_key(committed, keys, held, k) {
                !committed[k]
            } else {
                staged[k]
            },
    )
}

/// All key codes of the chord are covered by the tracker.
pub open spec fn keys_in_range(keys: Seq<u16>) -> bool {
    forall|i: int| 0 <= i < keys.len() ==> (#[trigger] keys[i]) < KEY_COUNT
}

/// The two tables of a tracker: what was held at the last commit, and what
/// the next commit will make current.
pub struct KeyboardModel {
    pub committed: Seq<bool>,
    pub staged: Seq<bool>,
}

/// Tracks, for every key code, whether it was held on the previous tick, and
/// classifies fresh samples against that.
pub struct KeyboardManager {
    keys: Vec<bool>,
    next_frame: Vec<bool>,
}

impl View for KeyboardManager {
    type V = KeyboardModel;

    closed spec fn view(&self) -> KeyboardModel {
        KeyboardModel { committed: self.keys@, staged: self.next_frame@ }
    }
}

impl KeyboardManager {
    /// Both tables cover every key code.
    pub open spec fn wf(&self) -> bool {
        &&& self@.committed.len() == KEY_COUNT
        &&& self@.staged.len() == KEY_COUNT
    }

    /// No key is held.
    pub fn new() -> (r: KeyboardManager)
        ensures
            r.wf(),
            r@.committed == Seq::new(KEY_COUNT as nat, |k: int| false),
            r@.staged == Seq::new(KEY_COUNT as nat, |k: int| false),
    {
        let mut keys: Vec<bool> = Vec::new();
        let mut i: usize = 0;
        while i < KEY_COUNT
            invariant
                i <= KEY_COUNT,
                keys@ == Seq::new(i as nat, |k: int| false),
            decreases KEY_COUNT - i,
        {
            keys.push(false);
            i = i + 1;
        }
        let next_frame = keys.clone();
        KeyboardManager { keys, next_frame }
    }

    /// Classifies `key`, sampled as `held`, against its committed state; a
    /// changed key is staged for the next commit.
    pub fn get_key_state(&mut self, key: u16, held: bool) -> (r: KeyState)
        requires
            old(self).wf(),
            key < KEY_COUNT,
        ensures
            final(self).wf(),
            r == classify(old(self)@.committed[key as int], held),
            final(self)@.committed == old(self)@.committed,
            final(self)@.staged == (if held != old(self)@.committed[key as int] {
                old(self)@.staged.update(key as int, held)
            } else {
                old(self)@.staged
            }),
    {
        let before = self.keys[key as usize];
        if held != before {
            self.next_frame.set(key as usize, held);
        }
        if held && !before {
            KeyState::Pressed
        } else if !held && before {
            KeyState::Released
        } else if held {
            KeyState::Down
        } else {
            KeyState::Up
        }
    }

    /// Samples every key of a chord: `r[i]` classifies `keys[i]` sampled as
    /// `held[i]`.
    fn sample_chord(&mut self, keys: &Vec<u16>, held: &Vec<bool>) -> (r: Vec<KeyState>)
        requires
            old(self).wf(),
            keys_in_range(keys@),
            keys@.len() == held@.len(),
        ensures
            final(self).wf(),
            r@.len() == keys@.len(),
            forall|i: int|
                0 <= i < keys@.len() ==> #[trigger] r@[i] == classify(
                    old(self)@.committed[keys@[i] as int],
                    held@[i],
                ),
            final(self)@.committed == old(self)@.committed,
            final(self)@.staged == staged_after(
                old(self)@.staged,
                old(self)@.committed,
                keys@,
                held@,
            ),
    {
        let ghost committed = self@.committed;
        let ghost staged0 = self@.staged;
        let mut states: Vec<KeyState> = Vec::new();
        let mut i: usize = 0;
        proof {
            assert(staged_after(staged0, committed, keys@.take(0), held@.take(0)) =~= staged0);
        }
        while i < keys.len()
            invariant
                self.wf(),
                i <= keys@.len(),
                keys_in_range(keys@),
                keys@.len() == held@.len(),
                self@.committed == committed,
                committed.len() == KEY_COUNT,
                staged0.len() == KEY_COUNT,
                states@.len() == i,
                forall|j: int|
                    0 <= j < i ==> #[trigger] states@[j] == classify(
                        committed[keys@[j] as int],
                        held@[j],
                    ),
                self@.staged == staged_after(staged0, committed, keys@.take(i as int), held@.take(i as int)),
            decreases keys@.len() - i,
        {
            let ghost before = self@.staged;
            let key = keys[i];
            assert(keys@[i as int] < KEY_COUNT);
            let st = self.get_key_state(key, held[i]);
            states.push(st);
            proof {
                let ks = keys@.take(i as int + 1);
                let hs = held@.take(i as int + 1);
                let ks0 = keys@.take(i as int);
                let hs0 = held@.take(i as int);
                assert forall|k: int| 0 <= k < KEY_COUNT implies #[trigger] changes_key(committed, ks, hs, k)
                    == (changes_key(committed, ks0, hs0, k) || (k == key && held@[i as int]
                    != committed[k])) by {
                    if changes_key(committed, ks, hs, k) {
                        let j = choose|j: int| 0 <= j < ks.len() && ks[j] == k && #[trigger] hs[j] != committed[ks[j] as int];
                        if j < i {
                            assert(ks0[j] == ks[j] && hs0[j] == hs[j]);
                        }
                    }
                    if changes_key(committed, ks0, hs0, k) {
                        let j = choose|j: int| 0 <= j < ks0.len() && ks0[j] == k && #[trigger] hs0[j] != committed[ks0[j] as int];
                        assert(ks0[j] == ks[j] && hs0[j] == hs[j]);
                    }
                    if k == key && held@[i as int] != committed[k] {
                        assert(ks[i as int] == k && hs[i as int] != committed[ks[i as int] as int]);
                    }
                }
                assert(self@.staged =~= staged_after(staged0, committed, ks, hs));
            }
            i = i + 1;
        }
        proof {
            assert(keys@.take(i as int) =~= keys@);
            assert(held@.take(i as int) =~= held@);
        }
        states
    }

    /// Every key of the chord is held and at least one was freshly pressed on
    /// this tick. An empty chord never fires. `held[i]` is the current sample
    /// of `keys[i]`.
    pub fn all_pressed(&mut self, keys: &Vec<u16>, held: &Vec<bool>) -> (r: bool)
        requires
            old(self).wf(),
            keys_in_range(keys@),
            keys@.len() == held@.len(),
        ensures
            final(self).wf(),
            r == chord_fires(old(self)@.committed, keys@, held@),
            final(self)@.committed == old(self)@.committed,
            final(self)@.staged == staged_after(
                old(self)@.staged,
                old(self)@.committed,
                keys@,
                held@,
            ),
    {
        let ghost committed = self@.committed;
        let states = self.sample_chord(keys, held);
        let mut any_pressed = false;
        let mut all_held = true;
        let mut i: usize = 0;
        while i < states.len()
            invariant
                i <= states@.len(),
                states@.len() == keys@.len(),
                forall|j: int|
                    0 <= j < keys@.len() ==> #[trigger] states@[j] == classify(
                        committed[keys@[j] as int],
                        held@[j],
                    ),
                any_pressed == exists|j: int| 0 <= j < i && #[trigger] states@[j] == KeyState::Pressed,
                all_held == forall|j: int| 0 <= j < i ==> is_held_state(#[trigger] states@[j]),
            decreases states@.len() - i,
        {
            let st = states[i];
            if st == KeyState::Pressed {
                any_pressed = true;
            }
            if !(st == KeyState::Pressed || st == KeyState::Down) {
                all_held = false;
            }
            i = i + 1;
        }
        proof {
            if any_pressed {
                let j = choose|j: int| 0 <= j < i && #[trigger] states@[j] == KeyState::Pressed;
                assert(classify(committed[keys@[j] as int], held@[j]) == KeyState::Pressed);
            } else {
                assert forall|j: int| 0 <= j < keys@.len() implies #[trigger] classify(
                    committed[keys@[j] as int],
                    held@[j],
                ) != KeyState::Pressed by {
                    assert(states@[j] != KeyState::Pressed);
                }
            }
            if all_held {
                assert forall|j: int| 0 <= j < keys@.len() implies is_held_state(
                    #[trigger] classify(committed[keys@[j] as int], held@[j]),
                ) by {
                    assert(is_held_state(states@[j]));
                }
            } else {
                let j = choose|j: int| 0 <= j < i && !is_held_state(#[trigger] states@[j]);
                assert(!is_held_state(classify(committed[keys@[j] as int], held@[j])));
            }
        }
        any_pressed && all_held
    }

    /// Some key of the chord was released on this tick. `held[i]` is the
    /// current sample of `keys[i]`.
    pub fn any_released(&mut self, keys: &Vec<u16>, held: &Vec<bool>) -> (r: bool)
        requires
            old(self).wf(),
            keys_in_range(keys@),
            keys@.len() == held@.len(),
        ensures
            final(self).wf(),
            r == chord_released(old(self)@.committed, keys@, held@),
            final(self)@.committed == old(self)@.committed,
            final(self)@.staged == staged_after(
                old(self)@.staged,
                old(self)@.committed,
                keys@,
                held@,
            ),
    {
        let ghost committed = self@.committed;
        let states = self.sample_chord(keys, held);
        let mut released = false;
        let mut i: usize = 0;
        while i < states.len()
            invariant
                i <= states@.len(),
                states@.len() == keys@.len(),
                forall|j: int|
                    0 <= j < keys@.len() ==> #[trigger] states@[j] == classify(
                        committed[keys@[j] as int],
                        held@[j],
                    ),
                released == exists|j: int| 0 <= j < i && #[trigger] states@[j] == KeyState::Released,
            decreases states@.len() - i,
        {
            if states[i] == KeyState::Released {
                released = true;
            }
            i = i + 1;
        }
        proof {
            if released {
                let j = choose|j: int| 0 <= j < i && #[trigger] states@[j] == KeyState::Released;
                assert(classify(committed[keys@[j] as int], held@[j]) == KeyState::Released);
            } else {
                assert forall|j: int| 0 <= j < keys@.len() implies #[trigger] classify(
                    committed[keys@[j] as int],
                    held@[j],
                ) != KeyState::Released by {
                    assert(states@[j] != KeyState::Released);
                }
            }
        }
        released
    }

    /// Makes the staged table current, so that the next tick compares
    /// against what was sampled on this one.
    pub fn end_frame(&mut self)
        requires
            old(self).wf(),
        ensures
            final(self).wf(),
            final(self)@.committed == old(self)@.staged,
            final(self)@.staged == old(self)@.staged,
            final(self)@.staged == final(self)@.committed,
    {
        self.keys = self.next_frame.clone();
    }
}

/// Chord edges. A tick starts with the staged table equal to the committed
/// one (as `new` and `end_frame` leave it). On a tick where every key of the
/// chord is sampled held: if all of them were not held before, the chord
/// fires. Whatever they were before, once that tick is committed, every
/// further tick on which they stay held classifies each of them as `Down`,
/// leaves both tables as they are, and does not fire.
pub proof fn lemma_fresh_chord_fires_once(committed: Seq<bool>, keys: Seq<u16>)
    requires
        committed.len() == KEY_COUNT,
        keys_in_range(keys),
    ensures
        ({
            let held = Seq::new(keys.len(), |i: int| true);
            let next = staged_after(committed, committed, keys, held);
            &&& (keys.len() > 0 && forall|i: int|
                0 <= i < keys.len() ==> !committed[#[trigger] keys[i] as int]) ==> chord_fires(
                committed,
                keys,
                held,
            )
            &&& forall|i: int|
                0 <= i < keys.len() ==> #[trigger] classify(next[keys[i] as int], held[i])
                    == KeyState::Down
            &&& !chord_fires(next, keys, held)
            &&& staged_after(next, next, keys, held) == next
        }),
{
    let held = Seq::new(keys.len(), |i: int| true);
    let next = staged_after(committed, committed, keys, held);
    if keys.len() > 0 && forall|i: int| 0 <= i < keys.len() ==> !committed[#[trigger] keys[i] as int] {
        assert(!committed[keys[0] as int]);
        assert(classify(committed[keys[0] as int], held[0]) == KeyState::Pressed);
        assert forall|i: int| 0 <= i < keys.len() implies is_held_state(
            #[trigger] classify(committed[keys[i] as int], held[i]),
        ) by {
            assert(held[i]);
        }
    }
    assert forall|i: int| 0 <= i < keys.len() implies next[#[trigger] keys[i] as int] by {
        assert(keys[i] < KEY_COUNT);
        if !committed[keys[i] as int] {
            assert(changes_key(committed, keys, held, keys[i] as int)) by {
                assert(held[i] != committed[keys[i] as int]);
            }
        } else {
            if changes_key(committed, keys, held, keys[i] as int) {
                let j = choose|j: int| 0 <= j < keys.len() && keys[j] == keys[i] && #[trigger] held[j] != committed[keys[j] as int];
                assert(held[j]);
            }
        }
    }
    assert forall|i: int| 0 <= i < keys.len() implies #[trigger] classify(
        next[keys[i] as int],
        held[i],
    ) == KeyState::Down by {
        assert(next[keys[i] as int]);
    }
    assert forall|i: int| 0 <= i < keys.len() implies #[trigger] classify(
        next[keys[i] as int],
        held[i],
    ) != KeyState::Pressed by {
        assert(next[keys[i] as int]);
    }
    assert forall|k: int| 0 <= k < KEY_COUNT implies !#[trigger] changes_key(next, keys, held, k) by {
        if changes_key(next, keys, held, k) {
            let i = choose|i: int| 0 <= i < keys.len() && keys[i] == k && #[trigger] held[i] != next[keys[i] as int];
            assert(next[keys[i] as int]);
        }
    }
    assert(staged_after(next, next, keys, held) =~= next);
}

} // verus!
