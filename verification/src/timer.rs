//! A GBA hardware timer: a 16-bit up-counter with prescaler, reload value,
//! cascade and IRQ enable.
use vstd::prelude::*;
use vstd::arithmetic::power2::{lemma2_to64, pow2};

verus! {

#[derive(Clone, Copy)]
pub struct Timer {
    pub counter: u16,
    pub reload: u16,
    pub enabled: bool,
    pub irq_enabled: bool,
    pub cascade: bool,
    pub prescaler: u32,
    pub cycle_count: u32,
}

impl Timer {
    /// Whether the timer is running.
    pub open spec fn is_enabled(self) -> bool {
        self.enabled
    }

    /// Cycles per counter increment (1, 64, 256 or 1024).
    pub open spec fn prescale(self) -> u32 {
        self.prescaler
    }

    /// Cycles accumulated towards the next increment.
    pub open spec fn pending_cycles(self) -> u32 {
        self.cycle_count
    }

    /// The timer after `cycles` more cycles, and whether the counter overflowed.
    /// A running timer adds the cycles; once at least one prescaler period has
    /// accumulated it subtracts one period and increments the counter (modulo
    /// 2^16); on wrapping to 0 the counter takes the reload value and an overflow is
    /// reported. A stopped timer does nothing.
    pub open spec fn ticked(self, cycles: u32) -> (Timer, bool) {
        if !self.enabled {
            (self, false)
        } else {
            let cc = self.cycle_count + cycles;
            if cc >= self.prescaler {
                let c = ((self.counter + 1) % 0x1_0000) as u16;
                let t = Timer { cycle_count: (cc - self.prescaler) as u32, counter: c, ..self };
                if c == 0 {
                    (Timer { counter: self.reload, ..t }, true)
                } else {
                    (t, false)
                }
            } else {
                (Timer { cycle_count: cc as u32, ..self }, false)
            }
        }
    }

    /// The prescaler that control bits 1-0 select.
    pub open spec fn prescaler_of(value: u16) -> u32 {
        let sel = value & 3;
        if sel == 0 {
            1
        } else if sel == 1 {
            64
        } else if sel == 2 {
            256
        } else {
            1024
        }
    }

    /// The timer after a write of its control register: bits 1-0 select the
    /// prescaler, bit 2 cascade, bit 6 IRQ enable and bit 7 start. Starting a
    /// stopped timer reloads the counter and clears the pending cycles.
    pub open spec fn controlled(self, value: u16) -> Timer {
        let en = (value >> 7) & 1 == 1;
        let t = Timer {
            prescaler: Self::prescaler_of(value),
            cascade: (value >> 2) & 1 == 1,
            irq_enabled: (value >> 6) & 1 == 1,
            enabled: en,
            ..self
        };
        if !self.enabled && en {
            Timer { counter: self.reload, cycle_count: 0, ..t }
        } else {
            t
        }
    }

    /// Whether the prescaler is one of the hardware periods' range (1-1024) and the
    /// pending cycles do not exceed 1024.
    pub open spec fn bounded(self) -> bool {
        1 <= self.prescaler <= 1024 && self.cycle_count <= 1024
    }

    /// A timer that counts one cycle at a time never lets its pending cycle count
    /// grow past 1024, and control writes keep that bound: such a timer can always
    /// take the next cycle.
    pub proof fn lemma_single_cycles_stay_bounded(t: Timer, value: u16)
        requires
            t.bounded(),
        ensures
            t.ticked(1).0.bounded(),
            t.controlled(value).bounded(),
            t.is_enabled() ==> t.pending_cycles() + 1 <= u32::MAX,
    {
    }

    /// The timer after `k` single cycles.
    pub open spec fn ticked_times(self, k: nat) -> Timer
        decreases k,
    {
        if k == 0 {
            self
        } else {
            self.ticked_times((k - 1) as nat).ticked(1).0
        }
    }

    proof fn lemma_counting(t: Timer, k: nat)
        requires
            t.enabled,
            t.cycle_count == 0,
            t.prescaler >= 1,
            k < (0x10000 - t.counter) * t.prescaler,
        ensures
            t.ticked_times(k) == (Timer {
                counter: (t.counter + (k as int) / (t.prescaler as int)) as u16,
                cycle_count: ((k as int) % (t.prescaler as int)) as u32,
                ..t
            }),
            t.counter + (k as int) / (t.prescaler as int) < 0x10000,
            k > 0 ==> !t.ticked_times((k - 1) as nat).ticked(1).1,
        decreases k,
    {
        let p = t.prescaler as int;
        let c = t.counter as int;
        if k > 0 {
            let k1 = (k - 1) as nat;
            assert(k1 < (0x10000 - c) * p);
            Self::lemma_counting(t, k1);
            let q = (k1 as int) / p;
            let r = (k1 as int) % p;
            vstd::arithmetic::div_mod::lemma_fundamental_div_mod(k1 as int, p);
            assert(0 <= r < p);
            if r + 1 == p {
                assert(k == (q + 1) * p + 0) by (nonlinear_arith)
                    requires
                        k1 == p * q + r,
                        r + 1 == p,
                        k == k1 + 1,
                ;
                vstd::arithmetic::div_mod::lemma_fundamental_div_mod_converse(k as int, p, q + 1, 0);
                assert(c + q + 1 < 0x10000) by (nonlinear_arith)
                    requires
                        k == (q + 1) * p,
                        k < (0x10000 - c) * p,
                        p >= 1,
                ;
            } else {
                assert(k == q * p + (r + 1)) by (nonlinear_arith)
                    requires
                        k1 == p * q + r,
                        k == k1 + 1,
                ;
                vstd::arithmetic::div_mod::lemma_fundamental_div_mod_converse(k as int, p, q, r + 1);
            }
        } else {
            assert(0int / (t.prescaler as int) == 0 && 0int % (t.prescaler as int) == 0) by (nonlinear_arith)
                requires
                    t.prescaler >= 1,
            ;
        }
    }

    /// A running timer started from a fresh prescaler period (no pending cycles)
    /// with counter `c` and prescaler `p` overflows first on its `(0x10000 - c) * p`-th
    /// cycle, and is then back at its reload value with no pending cycles: no
    /// earlier cycle overflows.
    pub proof fn lemma_overflow_period(t: Timer)
        requires
            t.is_enabled(),
            t.pending_cycles() == 0,
            t.prescale() >= 1,
        ensures
            forall|k: nat|
                k + 1 < (0x10000 - t.counter) * t.prescale() ==> !(#[trigger] t.ticked_times(k)).ticked(1).1,
            t.ticked_times(((0x10000 - t.counter) * t.prescale() - 1) as nat).ticked(1) == (
                Timer { counter: t.reload, cycle_count: 0, ..t },
                true,
            ),
    {
        let p = t.prescaler as int;
        let c = t.counter as int;
        let n = (0x10000 - c) * p;
        assert(n >= 1) by (nonlinear_arith)
            requires
                n == (0x10000 - c) * p,
                p >= 1,
                c < 0x10000,
        ;
        assert forall|k: nat| k + 1 < n implies !(#[trigger] t.ticked_times(k)).ticked(1).1 by {
            Self::lemma_counting(t, k + 1);
        }
        let last = (n - 1) as nat;
        Self::lemma_counting(t, last);
        assert(last == (0xFFFF - c) * p + (p - 1)) by (nonlinear_arith)
            requires
                last == n - 1,
                n == (0x10000 - c) * p,
        ;
        vstd::arithmetic::div_mod::lemma_fundamental_div_mod_converse(last as int, p, 0xFFFF - c, p - 1);
    }

    /// A stopped timer with counter and reload 0 and prescaler 1.
    pub fn new() -> (t: Timer)
        ensures
            t.counter == 0,
            t.reload == 0,
            !t.is_enabled(),
            !t.irq_enabled,
            !t.cascade,
            t.prescale() == 1,
            t.pending_cycles() == 0,
            t.bounded(),
    {
        Timer {
            counter: 0,
            reload: 0,
            enabled: false,
            irq_enabled: false,
            cascade: false,
            prescaler: 1,
            cycle_count: 0,
        }
    }

    /// Advances the timer (see `ticked`); returns whether it overflowed.
    /// The pending cycle count of a running timer must not pass 2^32 - 1.
    pub fn tick(&mut self, cycles: u32) -> (overflow: bool)
        requires
            old(self).is_enabled() ==> old(self).pending_cycles() + cycles <= u32::MAX,
        ensures
            (*final(self), overflow) == old(self).ticked(cycles),
            overflow ==> final(self).counter == old(self).reload,
    {
        if !self.enabled {
            return false;
        }
        self.cycle_count += cycles;
        if self.cycle_count >= self.prescaler {
            self.cycle_count -= self.prescaler;
            self.counter = self.counter.wrapping_add(1);
            if self.counter == 0 {
                self.counter = self.reload;
                return true;
            }
        }
        false
    }

    /// Writes the control register (see `controlled`).
    pub fn update_control(&mut self, value: u16)
        ensures
            *final(self) == old(self).controlled(value),
            !old(self).is_enabled() && (value >> 7) & 1 == 1 ==> final(self).counter
                == old(self).reload,
            final(self).is_enabled() == ((value >> 7) & 1 == 1),
    {
        let was_enabled = self.enabled;
        let sel = value & 0b11;
        self.prescaler = if sel == 0 {
            1
        } else if sel == 1 {
            64
        } else if sel == 2 {
            256
        } else {
            1024
        };
        self.cascade = (value >> 2) & 1 == 1;
        self.irq_enabled = (value >> 6) & 1 == 1;
        self.enabled = (value >> 7) & 1 == 1;
        if !was_enabled && self.enabled {
            self.counter = self.reload;
            self.cycle_count = 0;
        }
    }
}

/// The prescaler periods: after a control write, the timer counts once every
/// 2^0, 2^6, 2^8 or 2^10 cycles (1, 64, 256 or 1024) for control bits 1-0 equal to
/// 0, 1, 2 or 3; each select quadruples the period of the one before, except that
/// select 1 is 64 times select 0. Every other control bit leaves the period alone.
pub proof fn lemma_prescaler_select(t: Timer, value: u16, other: u16)
    ensures
        ({
            let sel = value & 3;
            let p = t.controlled(value).prescaler;
            &&& p == pow2(if sel == 0 { 0nat } else { (4 + 2 * sel) as nat })
            &&& sel == 0 ==> p == 1
            &&& sel == 1 ==> p == 64
            &&& sel == 2 ==> p == 256
            &&& sel == 3 ==> p == 1024
            &&& other & 3 == sel ==> t.controlled(other).prescaler == p
        }),
{
    lemma2_to64();
    assert(value & 3 <= 3) by (bit_vector);
}

} // verus!
