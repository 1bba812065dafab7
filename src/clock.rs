use vstd::prelude::*;
use crate::speed::{MICROS_PER_UNIT, Speed, scale, scale_magnitude};
use crate::hooks::{HookLedger, TimeSource};
use vstd::arithmetic::div_mod::{
    lemma_add_mod_noop,
    lemma_add_mod_noop_right,
    lemma_div_is_ordered,
    lemma_fundamental_div_mod,
    lemma_mod_add_multiples_vanish,
    lemma_mod_bound,
    lemma_mod_pos_bound,
    lemma_mod_twice,
    lemma_sub_mod_noop,
    lemma_sub_mod_noop_right,
};

verus! {

/// One reading of each of the three real time sources, taken at one instant.
#[derive(Clone, Copy, Debug, PartialEq, Eq, Structural)]
pub struct RealTime {
    /// Milliseconds since boot, 32 bits wide.
    pub tick_count: u32,
    /// Milliseconds since boot, 64 bits wide.
    pub tick_count_64: u64,
    /// The high-resolution performance counter.
    pub performance_counter: i64,
}

/// Rescales the three time sources by a multiplier.
///
/// For each source, `base` is the real reading and `offset` the virtual
/// reading at the last re-anchoring; a virtual reading is
/// `offset + (real - base) * speed`. It also records which interception
/// hooks are installed, so that each is removed exactly once.
#[derive(Clone, Copy, Debug, PartialEq, Eq, Structural)]
pub struct SpeedHackManager {
    pub speed: Speed,
    pub hooks: HookLedger,
    pub gtc_basetime: u32,
    pub gtc_offset_time: u32,
    pub gtc_64_basetime: u64,
    pub gtc_64_offset_time: u64,
    pub qpc_basetime: i64,
    pub qpc_offset_time: i64,
}

/// `x` reduced into the unsigned range of the given width.
pub open spec fn wrap_unsigned(x: int, modulus: int) -> int {
    x % modulus
}

/// `x` reduced into the range of `i64`, as two's complement arithmetic does.
pub open spec fn wrap_i64(x: int) -> int {
    (x - i64::MIN) % 0x1_0000_0000_0000_0000 + i64::MIN
}

/// The virtual 32-bit tick count for a real reading:
/// `offset + (reading - base) * speed`, with the delta and the sum taken
/// modulo 2^32 as the native counter wraps.
pub open spec fn virtual_tick_count(m: SpeedHackManager, reading: u32) -> u32 {
    let d = wrap_unsigned(reading - m.gtc_basetime, 0x1_0000_0000);
    wrap_unsigned(m.gtc_offset_time + scale(d, m.speed), 0x1_0000_0000) as u32
}

/// The virtual 64-bit tick count for a real reading: as the 32-bit one,
/// modulo 2^64.
pub open spec fn virtual_tick_count_64(m: SpeedHackManager, reading: u64) -> u64 {
    let d = wrap_unsigned(reading - m.gtc_64_basetime, 0x1_0000_0000_0000_0000);
    wrap_unsigned(m.gtc_64_offset_time + scale(d, m.speed), 0x1_0000_0000_0000_0000) as u64
}

/// The virtual performance counter for a real reading, in signed 64-bit
/// two's complement arithmetic: the delta and the sum wrap.
pub open spec fn virtual_performance_counter(m: SpeedHackManager, reading: i64) -> i64 {
    let d = wrap_i64(reading - m.qpc_basetime);
    wrap_i64(m.qpc_offset_time + scale(d, m.speed)) as i64
}

/// The state after changing the multiplier at the instant `now`: each base
/// becomes the real reading and each offset the virtual reading under the
/// old multiplier.
pub open spec fn reanchored(m: SpeedHackManager, s: Speed, now: RealTime) -> SpeedHackManager {
    SpeedHackManager {
        speed: s,
        hooks: m.hooks,
        gtc_basetime: now.tick_count,
        gtc_offset_time: virtual_tick_count(m, now.tick_count),
        gtc_64_basetime: now.tick_count_64,
        gtc_64_offset_time: virtual_tick_count_64(m, now.tick_count_64),
        qpc_basetime: now.performance_counter,
        qpc_offset_time: virtual_performance_counter(m, now.performance_counter),
    }
}

impl SpeedHackManager {
    /// Starts at normal speed, with virtual time equal to real time at `now`
    /// and no hook installed yet.
    pub fn new(now: RealTime) -> (r: SpeedHackManager)
        ensures
            r.speed == Speed::spec_one(),
            r.hooks == HookLedger::spec_empty(),
            r.gtc_basetime == now.tick_count,
            r.gtc_offset_time == now.tick_count,
            r.gtc_64_basetime == now.tick_count_64,
            r.gtc_64_offset_time == now.tick_count_64,
            r.qpc_basetime == now.performance_counter,
            r.qpc_offset_time == now.performance_counter,
    {
        SpeedHackManager {
            speed: Speed::one(),
            hooks: HookLedger::new(),
            gtc_basetime: now.tick_count,
            gtc_offset_time: now.tick_count,
            gtc_64_basetime: now.tick_count_64,
            gtc_64_offset_time: now.tick_count_64,
            qpc_basetime: now.performance_counter,
            qpc_offset_time: now.performance_counter,
        }
    }

    /// Records that the hook of `src` was installed.
    pub fn record_hook(&mut self, src: TimeSource)
        ensures
            *final(self) == (SpeedHackManager { hooks: final(self).hooks, ..*old(self) }),
            final(self).hooks.installed(src),
            forall|o: TimeSource| o != src ==> final(self).hooks.installed(o) == old(self).hooks.installed(o),
    {
        self.hooks.record_installed(src);
    }

    /// The hooks to remove, in install order; afterwards none is recorded,
    /// so detaching again removes nothing. Nothing else changes.
    pub fn detach(&mut self) -> (r: Vec<TimeSource>)
        ensures
            r@ == old(self).hooks.installed_sources(),
            *final(self) == (SpeedHackManager { hooks: HookLedger::spec_empty(), ..*old(self) }),
    {
        self.hooks.teardown()
    }

    /// The current multiplier.
    pub fn speed(&self) -> (r: Speed)
        ensures
            r == self.speed,
    {
        self.speed
    }

    /// The virtual 32-bit tick count when the real one reads `reading`.
    pub fn get_tick_count(&self, reading: u32) -> (r: u32)
        ensures
            r == virtual_tick_count(*self, reading),
    {
        let d: u32 = reading.wrapping_sub(self.gtc_basetime);
        let scaled: u128 = scale_magnitude(d as u64, self.speed);
        let low: u32 = (scaled % 0x1_0000_0000u128) as u32;
        proof {
            lemma_add_mod_noop_right(self.gtc_offset_time as int, scaled as int, 0x1_0000_0000);
        }
        self.gtc_offset_time.wrapping_add(low)
    }

    /// The virtual 64-bit tick count when the real one reads `reading`.
    pub fn get_tick_count_64(&self, reading: u64) -> (r: u64)
        ensures
            r == virtual_tick_count_64(*self, reading),
    {
        let d: u64 = reading.wrapping_sub(self.gtc_64_basetime);
        let scaled: u128 = scale_magnitude(d, self.speed);
        let low: u64 = (scaled % 0x1_0000_0000_0000_0000u128) as u64;
        proof {
            lemma_add_mod_noop_right(
                self.gtc_64_offset_time as int,
                scaled as int,
                0x1_0000_0000_0000_0000,
            );
        }
        self.gtc_64_offset_time.wrapping_add(low)
    }

    /// The virtual performance counter when the real one reads `reading`.
    pub fn get_performance_counter(&self, reading: i64) -> (r: i64)
        ensures
            r == virtual_performance_counter(*self, reading),
    {
        let d: i64 = reading.wrapping_sub(self.qpc_basetime);
        let modulus: u128 = 0x1_0000_0000_0000_0000u128;
        let ghost o = self.qpc_offset_time as int;
        // The scaled delta, as the non-negative amount to add modulo 2^64.
        let step: u64 = if d >= 0 {
            let q: u128 = scale_magnitude(d as u64, self.speed);
            proof {
                lemma_add_mod_noop_right(o - i64::MIN, q as int, modulus as int);
            }
            (q % modulus) as u64
        } else {
            let mag: u64 = (0i128 - d as i128) as u64;
            let q: u128 = scale_magnitude(mag, self.speed);
            let low: u128 = q % modulus;
            proof {
                lemma_sub_mod_noop_right(o - i64::MIN, q as int, modulus as int);
                lemma_mod_add_multiples_vanish(o - i64::MIN - low, modulus as int);
                lemma_add_mod_noop_right(o - i64::MIN, modulus - low, modulus as int);
            }
            ((modulus - low) % modulus) as u64
        };
        self.qpc_offset_time.wrapping_add_unsigned(step)
    }

    /// Changes the multiplier to `speed`, first re-anchoring every source at
    /// the instant `now` so that virtual time does not jump.
    pub fn set_speed(&mut self, speed: Speed, now: RealTime)
        requires
            speed.is_valid(),
        ensures
            *final(self) == reanchored(*old(self), speed, now),
    {
        let gtc = self.get_tick_count(now.tick_count);
        let gtc_64 = self.get_tick_count_64(now.tick_count_64);
        let qpc = self.get_performance_counter(now.performance_counter);
        self.gtc_offset_time = gtc;
        self.gtc_basetime = now.tick_count;
        self.gtc_64_offset_time = gtc_64;
        self.gtc_64_basetime = now.tick_count_64;
        self.qpc_offset_time = qpc;
        self.qpc_basetime = now.performance_counter;
        self.speed = speed;
    }
}

/// Changing the multiplier never makes time jump: at the instant of a
/// change, each source reads the same before and after it.
pub proof fn lemma_continuity(m: SpeedHackManager, s: Speed, now: RealTime)
    ensures
        virtual_tick_count(reanchored(m, s, now), now.tick_count) == virtual_tick_count(
            m,
            now.tick_count,
        ),
        virtual_tick_count_64(reanchored(m, s, now), now.tick_count_64) == virtual_tick_count_64(
            m,
            now.tick_count_64,
        ),
        virtual_performance_counter(reanchored(m, s, now), now.performance_counter)
            == virtual_performance_counter(m, now.performance_counter),
{
    let r = reanchored(m, s, now);
    assert(scale(0, s) == 0);
    assert(wrap_unsigned(now.tick_count - r.gtc_basetime, 0x1_0000_0000) == 0);
    assert(wrap_unsigned(now.tick_count_64 - r.gtc_64_basetime, 0x1_0000_0000_0000_0000) == 0);
    assert(wrap_i64(now.performance_counter - r.qpc_basetime) == 0);
    assert(wrap_i64(r.qpc_offset_time + 0) == r.qpc_offset_time);
}

/// The state after a series of multiplier changes, each at its own instant.
pub open spec fn after_changes(m: SpeedHackManager, changes: Seq<(Speed, RealTime)>) -> SpeedHackManager
    decreases changes.len(),
{
    if changes.len() == 0 {
        m
    } else {
        let (s, now) = changes.last();
        reanchored(after_changes(m, changes.drop_last()), s, now)
    }
}

/// Over any series of multiplier changes, every source reads the same just
/// after each change as just before it.
pub proof fn lemma_continuity_over_changes(m: SpeedHackManager, changes: Seq<(Speed, RealTime)>, i: int)
    requires
        0 <= i < changes.len(),
    ensures
        ({
            let before = after_changes(m, changes.take(i));
            let after = after_changes(m, changes.take(i + 1));
            let now = changes[i].1;
            &&& virtual_tick_count(after, now.tick_count) == virtual_tick_count(before, now.tick_count)
            &&& virtual_tick_count_64(after, now.tick_count_64) == virtual_tick_count_64(
                before,
                now.tick_count_64,
            )
            &&& virtual_performance_counter(after, now.performance_counter)
                == virtual_performance_counter(before, now.performance_counter)
        }),
{
    assert(changes.take(i + 1).drop_last() =~= changes.take(i));
    let before = after_changes(m, changes.take(i));
    lemma_continuity(before, changes[i].0, changes[i].1);
}

/// Scaling two non-negative deltas: the scaled deltas are ordered as the
/// deltas are, and their difference is the scaled difference up to rounding
/// (less than one unit either way).
pub proof fn lemma_scale_difference(d1: int, d2: int, s: Speed)
    requires
        0 <= d1 <= d2,
    ensures
        0 <= scale(d1, s) <= scale(d2, s),
        (scale(d2, s) - scale(d1, s)) * MICROS_PER_UNIT > (d2 - d1) * s.micros - MICROS_PER_UNIT,
        (scale(d2, s) - scale(d1, s)) * MICROS_PER_UNIT < (d2 - d1) * s.micros + MICROS_PER_UNIT,
{
    let u = MICROS_PER_UNIT as int;
    let mu = s.micros as int;
    let a = d1 * mu;
    let b = d2 * mu;
    assert(0 <= a <= b) by (nonlinear_arith)
        requires
            0 <= d1 <= d2,
            0 <= mu,
            a == d1 * mu,
            b == d2 * mu,
    ;
    lemma_div_is_ordered(a, b, u);
    lemma_fundamental_div_mod(a, u);
    lemma_fundamental_div_mod(b, u);
    lemma_mod_pos_bound(a, u);
    lemma_mod_pos_bound(b, u);
    vstd::arithmetic::div_mod::lemma_div_pos_is_pos(a, u);
    let q1 = a / u;
    let q2 = b / u;
    assert((q2 - q1) * u == (b - b % u) - (a - a % u)) by (nonlinear_arith)
        requires
            a == u * q1 + a % u,
            b == u * q2 + b % u,
    ;
    assert(b - a == (d2 - d1) * mu) by (nonlinear_arith)
        requires
            a == d1 * mu,
            b == d2 * mu,
    ;
}

/// Splitting a delta at `d0` and scaling both parts loses at most one unit
/// to rounding, never gains.
pub proof fn lemma_scale_split(d0: int, d: int, s: Speed)
    requires
        0 <= d0 <= d,
    ensures
        scale(d, s) - 1 <= scale(d0, s) + scale(d - d0, s) <= scale(d, s),
{
    let u = MICROS_PER_UNIT as int;
    let mu = s.micros as int;
    let a = d0 * mu;
    let b = (d - d0) * mu;
    assert(0 <= a && 0 <= b && a + b == d * mu) by (nonlinear_arith)
        requires
            0 <= d0 <= d,
            0 <= mu,
            a == d0 * mu,
            b == (d - d0) * mu,
    ;
    lemma_fundamental_div_mod(a, u);
    lemma_fundamental_div_mod(b, u);
    lemma_fundamental_div_mod(a + b, u);
    lemma_mod_pos_bound(a, u);
    lemma_mod_pos_bound(b, u);
    lemma_mod_pos_bound(a + b, u);
    let k = (a + b) / u - a / u - b / u;
    assert(u * k == a % u + b % u - (a + b) % u) by (nonlinear_arith)
        requires
            a == u * (a / u) + a % u,
            b == u * (b / u) + b % u,
            a + b == u * ((a + b) / u) + (a + b) % u,
            k == (a + b) / u - a / u - b / u,
    ;
    assert(0 <= k <= 1) by (nonlinear_arith)
        requires
            u == 1_000_000,
            u * k == a % u + b % u - (a + b) % u,
            0 <= a % u < u,
            0 <= b % u < u,
            0 <= (a + b) % u < u,
    ;
}

/// Virtual time runs at the multiplier, on the 32-bit tick count: with no
/// change in between, for readings `d1 <= d2` milliseconds past the anchor
/// (counted modulo 2^32), the virtual readings differ, modulo 2^32, by the
/// difference of the scaled deltas, which is `(d2 - d1) * speed` up to
/// rounding (less than one unit either way).
pub proof fn lemma_linear_scaling_tick_count(m: SpeedHackManager, r1: u32, r2: u32)
    requires
        wrap_unsigned(r1 - m.gtc_basetime, 0x1_0000_0000) <= wrap_unsigned(
            r2 - m.gtc_basetime,
            0x1_0000_0000,
        ),
    ensures
        ({
            let d1 = wrap_unsigned(r1 - m.gtc_basetime, 0x1_0000_0000);
            let d2 = wrap_unsigned(r2 - m.gtc_basetime, 0x1_0000_0000);
            let dv = scale(d2, m.speed) - scale(d1, m.speed);
            &&& d2 - d1 == wrap_unsigned(r2 - r1, 0x1_0000_0000)
            &&& wrap_unsigned(virtual_tick_count(m, r2) - virtual_tick_count(m, r1), 0x1_0000_0000)
                == wrap_unsigned(dv, 0x1_0000_0000)
            &&& dv * MICROS_PER_UNIT > (d2 - d1) * m.speed.micros - MICROS_PER_UNIT
            &&& dv * MICROS_PER_UNIT < (d2 - d1) * m.speed.micros + MICROS_PER_UNIT
        }),
{
    let md = 0x1_0000_0000int;
    let d1 = wrap_unsigned(r1 - m.gtc_basetime, md);
    let d2 = wrap_unsigned(r2 - m.gtc_basetime, md);
    lemma_scale_difference(d1, d2, m.speed);
    let o = m.gtc_offset_time as int;
    lemma_sub_mod_noop(o + scale(d2, m.speed), o + scale(d1, m.speed), md);
}

/// Virtual time runs at the multiplier, on the 64-bit tick count; as
/// `lemma_linear_scaling_tick_count`, modulo 2^64.
pub proof fn lemma_linear_scaling_tick_count_64(m: SpeedHackManager, r1: u64, r2: u64)
    requires
        wrap_unsigned(r1 - m.gtc_64_basetime, 0x1_0000_0000_0000_0000) <= wrap_unsigned(
            r2 - m.gtc_64_basetime,
            0x1_0000_0000_0000_0000,
        ),
    ensures
        ({
            let d1 = wrap_unsigned(r1 - m.gtc_64_basetime, 0x1_0000_0000_0000_0000);
            let d2 = wrap_unsigned(r2 - m.gtc_64_basetime, 0x1_0000_0000_0000_0000);
            let dv = scale(d2, m.speed) - scale(d1, m.speed);
            &&& d2 - d1 == wrap_unsigned(r2 - r1, 0x1_0000_0000_0000_0000)
            &&& wrap_unsigned(
                virtual_tick_count_64(m, r2) - virtual_tick_count_64(m, r1),
                0x1_0000_0000_0000_0000,
            ) == wrap_unsigned(dv, 0x1_0000_0000_0000_0000)
            &&& dv * MICROS_PER_UNIT > (d2 - d1) * m.speed.micros - MICROS_PER_UNIT
            &&& dv * MICROS_PER_UNIT < (d2 - d1) * m.speed.micros + MICROS_PER_UNIT
        }),
{
    let md = 0x1_0000_0000_0000_0000int;
    let d1 = wrap_unsigned(r1 - m.gtc_64_basetime, md);
    let d2 = wrap_unsigned(r2 - m.gtc_64_basetime, md);
    lemma_scale_difference(d1, d2, m.speed);
    let o = m.gtc_64_offset_time as int;
    lemma_sub_mod_noop(o + scale(d2, m.speed), o + scale(d1, m.speed), md);
}

/// Two's complement subtraction: wrapping each operand first does not
/// change the wrapped difference.
pub proof fn lemma_wrap_i64_sub(x: int, y: int)
    ensures
        wrap_i64(wrap_i64(x) - wrap_i64(y)) == wrap_i64(x - y),
{
    let md = 0x1_0000_0000_0000_0000int;
    let p = x - i64::MIN;
    let q = y - i64::MIN;
    let k = -i64::MIN;
    assert(wrap_i64(x) - wrap_i64(y) == p % md - q % md);
    lemma_sub_mod_noop(p, q, md);
    lemma_add_mod_noop(p % md - q % md, k, md);
    lemma_add_mod_noop(p - q, k, md);
    assert(p % md - q % md + k == wrap_i64(x) - wrap_i64(y) - i64::MIN);
    assert(p - q + k == x - y - i64::MIN);
}

/// A value in the range of `i64` wraps to itself.
pub proof fn lemma_wrap_i64_small(x: int)
    requires
        i64::MIN <= x <= i64::MAX,
    ensures
        wrap_i64(x) == x,
{
    vstd::arithmetic::div_mod::lemma_small_mod((x - i64::MIN) as nat, 0x1_0000_0000_0000_0000nat);
}

/// Virtual time runs at the multiplier, on the performance counter; as
/// `lemma_linear_scaling_tick_count`, in two's complement 64-bit arithmetic,
/// for readings at non-negative deltas `d1 <= d2` past the anchor.
pub proof fn lemma_linear_scaling_performance_counter(m: SpeedHackManager, r1: i64, r2: i64)
    requires
        0 <= wrap_i64(r1 - m.qpc_basetime) <= wrap_i64(r2 - m.qpc_basetime),
    ensures
        ({
            let d1 = wrap_i64(r1 - m.qpc_basetime);
            let d2 = wrap_i64(r2 - m.qpc_basetime);
            let dv = scale(d2, m.speed) - scale(d1, m.speed);
            &&& d2 - d1 == wrap_i64(r2 - r1)
            &&& wrap_i64(virtual_performance_counter(m, r2) - virtual_performance_counter(m, r1))
                == wrap_i64(dv)
            &&& dv * MICROS_PER_UNIT > (d2 - d1) * m.speed.micros - MICROS_PER_UNIT
            &&& dv * MICROS_PER_UNIT < (d2 - d1) * m.speed.micros + MICROS_PER_UNIT
        }),
{
    let b = m.qpc_basetime as int;
    let d1 = wrap_i64(r1 - b);
    let d2 = wrap_i64(r2 - b);
    lemma_scale_difference(d1, d2, m.speed);
    assert(i64::MIN <= d1 <= i64::MAX && i64::MIN <= d2 <= i64::MAX) by {
        lemma_mod_bound(r1 - b - i64::MIN, 0x1_0000_0000_0000_0000);
        lemma_mod_bound(r2 - b - i64::MIN, 0x1_0000_0000_0000_0000);
    }
    lemma_wrap_i64_sub(r2 - b, r1 - b);
    assert((r2 - b) - (r1 - b) == r2 - r1);
    lemma_wrap_i64_small(d2 - d1);
    let o = m.qpc_offset_time as int;
    let s1 = scale(d1, m.speed);
    let s2 = scale(d2, m.speed);
    lemma_wrap_i64_sub(o + s2, o + s1);
    assert((o + s2) - (o + s1) == s2 - s1);
    lemma_mod_bound(o + s2 - i64::MIN, 0x1_0000_0000_0000_0000);
    lemma_mod_bound(o + s1 - i64::MIN, 0x1_0000_0000_0000_0000);
    assert(virtual_performance_counter(m, r2) as int == wrap_i64(o + s2));
    assert(virtual_performance_counter(m, r1) as int == wrap_i64(o + s1));
}

/// Deltas from a common anchor, counted modulo `md`: when `b` lies no later
/// than `c`, the delta from `b` to `c` is the difference of their deltas.
pub proof fn lemma_wrapped_delta_split(a: int, b: int, c: int, md: int)
    requires
        md > 0,
        wrap_unsigned(b - a, md) <= wrap_unsigned(c - a, md),
    ensures
        wrap_unsigned(c - b, md) == wrap_unsigned(c - a, md) - wrap_unsigned(b - a, md),
{
    lemma_sub_mod_noop(c - a, b - a, md);
    assert((c - a) - (b - a) == c - b);
    lemma_mod_bound(c - a, md);
    lemma_mod_bound(b - a, md);
    let z = (c - a) % md - (b - a) % md;
    vstd::arithmetic::div_mod::lemma_small_mod(z as nat, md as nat);
}

/// Setting the multiplier it already has, at the instant `now`, moves no
/// later 32-bit reading by more than one unit: each reads the same as
/// before or one less, the rounding of the split delta.
pub proof fn lemma_reapply_speed_tick_count(m: SpeedHackManager, now: RealTime, reading: u32)
    requires
        wrap_unsigned(now.tick_count - m.gtc_basetime, 0x1_0000_0000) <= wrap_unsigned(
            reading - m.gtc_basetime,
            0x1_0000_0000,
        ),
    ensures
        ({
            let after = virtual_tick_count(reanchored(m, m.speed, now), reading);
            let before = virtual_tick_count(m, reading);
            before == after || before == wrap_unsigned(after + 1, 0x1_0000_0000)
        }),
{
    let md = 0x1_0000_0000int;
    let d0 = wrap_unsigned(now.tick_count - m.gtc_basetime, md);
    let d = wrap_unsigned(reading - m.gtc_basetime, md);
    lemma_scale_split(d0, d, m.speed);
    let o = m.gtc_offset_time as int;
    let s0 = scale(d0, m.speed);
    let rest = scale(d - d0, m.speed);
    lemma_wrapped_delta_split(m.gtc_basetime as int, now.tick_count as int, reading as int, md);
    lemma_add_mod_noop(o + s0, rest, md);
    lemma_mod_twice(rest, md);
    lemma_add_mod_noop((o + s0) % md, rest, md);
    lemma_add_mod_noop(o + s0 + rest, 1, md);
    lemma_mod_twice(o + s0 + rest, md);
}

/// Setting the multiplier it already has moves no later 64-bit reading by
/// more than one unit; as `lemma_reapply_speed_tick_count`.
pub proof fn lemma_reapply_speed_tick_count_64(m: SpeedHackManager, now: RealTime, reading: u64)
    requires
        wrap_unsigned(now.tick_count_64 - m.gtc_64_basetime, 0x1_0000_0000_0000_0000)
            <= wrap_unsigned(reading - m.gtc_64_basetime, 0x1_0000_0000_0000_0000),
    ensures
        ({
            let after = virtual_tick_count_64(reanchored(m, m.speed, now), reading);
            let before = virtual_tick_count_64(m, reading);
            before == after || before == wrap_unsigned(after + 1, 0x1_0000_0000_0000_0000)
        }),
{
    let md = 0x1_0000_0000_0000_0000int;
    let d0 = wrap_unsigned(now.tick_count_64 - m.gtc_64_basetime, md);
    let d = wrap_unsigned(reading - m.gtc_64_basetime, md);
    lemma_scale_split(d0, d, m.speed);
    let o = m.gtc_64_offset_time as int;
    let s0 = scale(d0, m.speed);
    let rest = scale(d - d0, m.speed);
    lemma_wrapped_delta_split(m.gtc_64_basetime as int, now.tick_count_64 as int, reading as int, md);
    lemma_add_mod_noop(o + s0, rest, md);
    lemma_mod_twice(rest, md);
    lemma_add_mod_noop((o + s0) % md, rest, md);
    lemma_add_mod_noop(o + s0 + rest, 1, md);
    lemma_mod_twice(o + s0 + rest, md);
}

/// Two's complement addition: wrapping the left operand first does not
/// change the wrapped sum.
pub proof fn lemma_wrap_i64_add(x: int, y: int)
    ensures
        wrap_i64(wrap_i64(x) + y) == wrap_i64(x + y),
{
    let md = 0x1_0000_0000_0000_0000int;
    let p = x - i64::MIN;
    lemma_add_mod_noop_right(y, p, md);
    assert(wrap_i64(x) + y - i64::MIN == y + p % md);
    assert(x + y - i64::MIN == y + p);
}

/// Setting the multiplier it already has, at the instant `now`, moves no
/// later performance-counter reading by more than one unit; as
/// `lemma_reapply_speed_tick_count`, for non-negative deltas past the anchor.
pub proof fn lemma_reapply_speed_performance_counter(m: SpeedHackManager, now: RealTime, reading: i64)
    requires
        0 <= wrap_i64(now.performance_counter - m.qpc_basetime) <= wrap_i64(reading - m.qpc_basetime),
    ensures
        ({
            let after = virtual_performance_counter(reanchored(m, m.speed, now), reading);
            let before = virtual_performance_counter(m, reading);
            before == after || before == wrap_i64(after + 1)
        }),
{
    let b = m.qpc_basetime as int;
    let n = now.performance_counter as int;
    let r = reading as int;
    let d0 = wrap_i64(n - b);
    let d = wrap_i64(r - b);
    assert(d <= i64::MAX) by {
        lemma_mod_bound(r - b - i64::MIN, 0x1_0000_0000_0000_0000);
    }
    lemma_wrap_i64_sub(r - b, n - b);
    assert((r - b) - (n - b) == r - n);
    lemma_wrap_i64_small(d - d0);
    lemma_scale_split(d0, d, m.speed);
    let o = m.qpc_offset_time as int;
    let s0 = scale(d0, m.speed);
    let rest = scale(d - d0, m.speed);
    lemma_mod_bound(o + s0 - i64::MIN, 0x1_0000_0000_0000_0000);
    lemma_wrap_i64_add(o + s0, rest);
    let after = wrap_i64(o + s0 + rest);
    lemma_mod_bound(o + s0 + rest - i64::MIN, 0x1_0000_0000_0000_0000);
    lemma_wrap_i64_add(o + s0 + rest, 1);
    assert(virtual_performance_counter(reanchored(m, m.speed, now), reading) as int == after);
}

} // verus!
