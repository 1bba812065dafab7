use vstd::prelude::*;

verus! {

/// One of the three time sources whose query functions are intercepted.
#[derive(Clone, Copy, Debug, PartialEq, Eq, Structural)]
pub enum TimeSource {
    TickCount,
    TickCount64,
    PerformanceCounter,
}

/// Which interception hooks are currently installed, so that each is
/// removed exactly once: on teardown, or to roll back a partial install.
#[derive(Clone, Copy, Debug, PartialEq, Eq, Structural)]
pub struct HookLedger {
    pub tick_count: bool,
    pub tick_count_64: bool,
    pub performance_counter: bool,
}

impl HookLedger {
    pub open spec fn spec_empty() -> HookLedger {
        HookLedger { tick_count: false, tick_count_64: false, performance_counter: false }
    }

    pub open spec fn installed(self, src: TimeSource) -> bool {
        match src {
            TimeSource::TickCount => self.tick_count,
            TimeSource::TickCount64 => self.tick_count_64,
            TimeSource::PerformanceCounter => self.performance_counter,
        }
    }

    /// The installed hooks, in the order in which they are installed.
    pub open spec fn installed_sources(self) -> Seq<TimeSource> {
        (if self.tick_count { seq![TimeSource::TickCount] } else { seq![] }) + (if self.tick_count_64 {
            seq![TimeSource::TickCount64]
        } else {
            seq![]
        }) + (if self.performance_counter { seq![TimeSource::PerformanceCounter] } else { seq![] })
    }

    /// Nothing is installed.
    pub fn new() -> (r: HookLedger)
        ensures
            r == HookLedger::spec_empty(),
    {
        HookLedger { tick_count: false, tick_count_64: false, performance_counter: false }
    }

    /// Records that the hook of `src` was installed.
    pub fn record_installed(&mut self, src: TimeSource)
        ensures
            final(self).installed(src),
            forall|o: TimeSource| o != src ==> final(self).installed(o) == old(self).installed(o),
    {
        match src {
            TimeSource::TickCount => self.tick_count = true,
            TimeSource::TickCount64 => self.tick_count_64 = true,
            TimeSource::PerformanceCounter => self.performance_counter = true,
        }
    }

    pub fn is_installed(&self, src: TimeSource) -> (r: bool)
        ensures
            r == self.installed(src),
    {
        match src {
            TimeSource::TickCount => self.tick_count,
            TimeSource::TickCount64 => self.tick_count_64,
            TimeSource::PerformanceCounter => self.performance_counter,
        }
    }

    /// The hooks to remove, in install order; afterwards none is recorded,
    /// so a second teardown removes nothing.
    pub fn teardown(&mut self) -> (r: Vec<TimeSource>)
        ensures
            r@ == old(self).installed_sources(),
            *final(self) == HookLedger::spec_empty(),
    {
        let mut released: Vec<TimeSource> = Vec::new();
        if self.tick_count {
            released.push(TimeSource::TickCount);
        }
        if self.tick_count_64 {
            released.push(TimeSource::TickCount64);
        }
        if self.performance_counter {
            released.push(TimeSource::PerformanceCounter);
        }
        proof {
            assert(released@ =~= self.installed_sources());
        }
        self.tick_count = false;
        self.tick_count_64 = false;
        self.performance_counter = false;
        released
    }
}

/// Teardown is idempotent: a teardown lists every installed hook once and
/// no other, and a second teardown after it lists nothing.
pub proof fn lemma_teardown_idempotent(l: HookLedger)
    ensures
        l.installed_sources().no_duplicates(),
        forall|src: TimeSource| l.installed_sources().contains(src) <==> l.installed(src),
        HookLedger::spec_empty().installed_sources() == Seq::<TimeSource>::empty(),
{
    let s = l.installed_sources();
    assert(HookLedger::spec_empty().installed_sources() =~= Seq::<TimeSource>::empty());
    assert forall|src: TimeSource| s.contains(src) <==> l.installed(src) by {
        if l.installed(src) {
            match src {
                TimeSource::TickCount => assert(s[0] == src),
                TimeSource::TickCount64 => {
                    if l.tick_count { assert(s[1] == src); } else { assert(s[0] == src); }
                },
                TimeSource::PerformanceCounter => assert(s[s.len() - 1] == src),
            }
        }
    }
}

} // verus!
