//! Scanline timing: 1232 cycles per line, H-blank from cycle 960, 228 lines per
//! frame with V-blank from line 160; the DISPSTAT flags, VCOUNT, the interrupts
//! they request and the DMA transfers they start.
use vstd::prelude::*;
use vstd::array::spec_array_update;
use crate::cpu::CPU;
use crate::cpu::exceptions::irq_entered;
use crate::memory_bus::{
    MemoryBus, lemma_read_dispstat, lemma_read_io_u16, lemma_read_irq_flags, lemma_write_irq_flags,
    timed_dma_fuel, timed_dma_ok, timed_dma_spec,
};
use crate::ppu::{PPU, PpuMode};
use crate::ppu::compositor::io16;
use crate::ppu::scanline::line_rendered;
use crate::ppu::sprites::sprites_fit;

verus! {

broadcast use crate::bits::lemma_and_bound;

/// The bus with I/O byte `off` replaced by `v`.
pub open spec fn with_io(b: MemoryBus, off: int, v: u8) -> MemoryBus {
    MemoryBus { io: spec_array_update(b.io, off, v), ..b }
}

/// The bus with interrupt request flag `bit` set in IF (0x202-0x203).
pub open spec fn if_raised(b: MemoryBus, bit: u16) -> MemoryBus {
    if bit < 8 {
        with_io(b, 0x202, b.io[0x202] | (1u8 << (bit as u8)))
    } else {
        with_io(b, 0x203, b.io[0x203] | (1u8 << ((bit - 8) as u8)))
    }
}

/// Whether the CPU takes interrupt `bit`: CPSR's I bit (7) is clear, IME bit 0 is
/// set and IE enables the interrupt.
pub open spec fn irq_taken(c: CPU, b: MemoryBus, bit: u16) -> bool {
    &&& (c.cpsr >> 7) & 1 == 0
    &&& io16(b.io, 0x208) & 1 == 1
    &&& (io16(b.io, 0x200) >> bit) & 1 == 1
}

/// The CPU and bus after interrupt `bit` (0 V-blank, 1 H-blank, 2 V-counter) is
/// requested: its IF flag is set and, when taken, the CPU enters IRQ mode.
pub open spec fn irq_requested(c: CPU, b: MemoryBus, bit: u16) -> (CPU, MemoryBus) {
    let b1 = if_raised(b, bit);
    (if irq_taken(c, b1, bit) { irq_entered(c) } else { c }, b1)
}

/// The bus as H-blank starts: DISPSTAT bit 1 set.
pub open spec fn hblank_flagged(b: MemoryBus) -> MemoryBus {
    with_io(b, 4, b.io[4] | 2)
}

/// The renderer, CPU and bus after entering H-blank: the flag is set, the H-blank
/// DMA transfers run, the mode becomes H-blank and, when DISPSTAT bit 4 enables
/// it, the H-blank interrupt is requested.
pub open spec fn hblank_entered(p: PPU, c: CPU, b: MemoryBus) -> (PPU, CPU, MemoryBus) {
    let b2 = timed_dma_spec(hblank_flagged(b), 2);
    let q = PPU { mode: PpuMode::HBlank, ..p };
    if (b2.io[4] >> 4u8) & 1 == 1 {
        let (c2, b3) = irq_requested(c, b2, 1);
        (q, c2, b3)
    } else {
        (q, c, b2)
    }
}

/// The bus with VCOUNT (0x06-0x07) holding `v`.
pub open spec fn vcount_stored(b: MemoryBus, v: u16) -> MemoryBus {
    with_io(with_io(b, 6, (v & 0xFF) as u8), 7, (v >> 8) as u8)
}

/// The bus as V-blank starts: DISPSTAT bit 0 set.
pub open spec fn vblank_flagged(b: MemoryBus) -> MemoryBus {
    with_io(b, 4, b.io[4] | 1)
}

/// The CPU and bus after V-blank starts on `b` (already flagged): the V-blank DMA
/// transfers run, bit 0 of the BIOS interrupt flags at 0x03007FF8 is set, and when
/// DISPSTAT bit 3 enables it the V-blank interrupt is requested.
pub open spec fn vblank_started(c: CPU, b: MemoryBus) -> (CPU, MemoryBus) {
    let b2 = timed_dma_spec(b, 1);
    let flags = ((b2.iwram[0x7FF8] + b2.iwram[0x7FF9] * 256) as u16 | 1) as u32;
    let b3 = MemoryBus {
        iwram: spec_array_update(
            spec_array_update(b2.iwram, 0x7FF8, (flags & 0xFF) as u8),
            0x7FF9,
            ((flags >> 8) & 0xFF) as u8,
        ),
        ..b2
    };
    if (b3.io[4] >> 3u8) & 1 == 1 {
        irq_requested(c, b3, 0)
    } else {
        (c, b3)
    }
}

/// The CPU and bus after comparing line `v` with LYC (DISPSTAT's high byte, I/O
/// 0x05): on a match DISPSTAT bit 2 is set and, when bit 5 enables it, the
/// V-counter interrupt is requested; otherwise bit 2 is cleared.
pub open spec fn vcount_matched(v: u16, c: CPU, b: MemoryBus) -> (CPU, MemoryBus) {
    if (v as u8) == b.io[5] {
        let b1 = with_io(b, 4, b.io[4] | 4);
        if (b1.io[4] >> 5u8) & 1 == 1 {
            irq_requested(c, b1, 2)
        } else {
            (c, b1)
        }
    } else {
        (c, with_io(b, 4, b.io[4] & !4u8))
    }
}

/// The line that follows line `v`, modulo 228.
pub open spec fn next_line(v: u16) -> u16 {
    ((v + 1) % 228) as u16
}

/// The bus at the end of a scanline before V-blank starts: H-blank flag cleared
/// and VCOUNT advanced.
pub open spec fn line_advanced(p: PPU, b: MemoryBus) -> MemoryBus {
    vcount_stored(with_io(b, 4, b.io[4] & !2u8), next_line(p.vcount))
}

/// The line number, mode, CPU and bus after a scanline ends (rendering aside):
/// H-blank flag cleared, VCOUNT advanced; line 160 starts V-blank, line 227 ends it
/// (DISPSTAT bit 0 cleared, mode back to OAM scan); then the V-counter compare.
pub open spec fn scanline_end_effects(p: PPU, c: CPU, b: MemoryBus) -> (u16, PpuMode, CPU, MemoryBus) {
    let v = next_line(p.vcount);
    let b2 = line_advanced(p, b);
    let (m1, c1, b3) = if v == 160 {
        let (c1, b3) = vblank_started(c, vblank_flagged(b2));
        (PpuMode::Vblank, c1, b3)
    } else {
        (p.mode, c, b2)
    };
    let (m2, b4) = if v == 227 {
        (PpuMode::Oam, with_io(b3, 4, b3.io[4] & !1u8))
    } else {
        (m1, b3)
    };
    let (c2, b5) = vcount_matched(v, c1, b4);
    (v, m2, c2, b5)
}

/// What a scanline's end needs: a line number that can advance, sprites of a
/// visible line that sample VRAM only, and V-blank DMA transfers that finish.
pub open spec fn scanline_end_ok(p: PPU, b: MemoryBus) -> bool {
    &&& p.vcount < 0xFFFF
    &&& p.vcount < 160 ==> sprites_fit(b.oam, io16(b.io, 0), io16(b.io, 0x4C), p.vcount as usize)
    &&& next_line(p.vcount) == 160 ==> timed_dma_ok(vblank_flagged(line_advanced(p, b)), 1)
}

/// Whether `q`, `c2`, `b2` are the renderer, CPU and bus after scanline `p.vcount`
/// ends: a visible line is rendered (with the H-blank flag already cleared), then
/// the line number, mode, CPU and bus follow `scanline_end_effects`.
pub open spec fn scanline_ended(p: PPU, q: PPU, c: CPU, c2: CPU, b: MemoryBus, b2: MemoryBus) -> bool {
    let b1 = with_io(b, 4, b.io[4] & !2u8);
    let (v, m, c3, b3) = scanline_end_effects(p, c, b);
    &&& if p.vcount < 160 {
        exists|r: PPU|
            #[trigger] line_rendered(p, r, b1, io16(b1.io, 0)) && q == (PPU { vcount: v, mode: m, ..r })
    } else {
        q == (PPU { vcount: v, mode: m, ..p })
    }
    &&& c2 == c3
    &&& b2 == b3
}

impl PPU {
    /// Requests interrupt `bit` (see `irq_requested`).
    fn fire_irq(&self, cpu: &mut CPU, bus: &mut MemoryBus, bit: u16)
        requires
            bit < 16,
        ensures
            (*final(cpu), *final(bus)) == irq_requested(*old(cpu), *old(bus), bit),
    {
        if bit < 8 {
            bus.io[0x202] |= 1u8 << (bit as u8);
        } else {
            bus.io[0x203] |= 1u8 << ((bit - 8) as u8);
        }
        proof {
            lemma_read_io_u16(*bus, 0x200);
            lemma_read_io_u16(*bus, 0x208);
        }
        let ie = bus.read_u16(0x04000200);
        let ime = bus.read_u16(0x04000208);
        let cpsr_irq_disabled = (cpu.cpsr >> 7) & 1 == 1;
        if !cpsr_irq_disabled && ime & 1 == 1 && (ie >> bit) & 1 == 1 {
            cpu.trigger_irq(bus);
        }
    }

    /// Enters H-blank (see `hblank_entered`); the H-blank transfers must finish.
    fn enter_hblank(&mut self, cpu: &mut CPU, bus: &mut MemoryBus)
        requires
            timed_dma_ok(hblank_flagged(*old(bus)), 2),
        ensures
            (*final(self), *final(cpu), *final(bus)) == hblank_entered(*old(self), *old(cpu), *old(bus)),
    {
        bus.io[4] |= 0x02;
        bus.trigger_hblank_dma();
        self.mode = PpuMode::HBlank;
        proof {
            lemma_read_dispstat(*bus);
        }
        let dispstat = bus.read_u16(0x04000004);
        if (dispstat >> 4) & 1 == 1 {
            self.fire_irq(cpu, bus, 1);
        }
    }

    /// Stores the line number in VCOUNT (see `vcount_stored`).
    fn update_vcount_register(&self, bus: &mut MemoryBus)
        ensures
            *final(bus) == vcount_stored(*old(bus), self.vcount),
    {
        bus.io[6] = (self.vcount & 0xFF) as u8;
        bus.io[7] = (self.vcount >> 8) as u8;
    }

    /// Compares the line number with LYC (see `vcount_matched`).
    fn update_vcount_match(&mut self, cpu: &mut CPU, bus: &mut MemoryBus)
        ensures
            *final(self) == *old(self),
            (*final(cpu), *final(bus)) == vcount_matched(old(self).vcount, *old(cpu), *old(bus)),
    {
        let compare_val = bus.io[5];
        if self.vcount as u8 == compare_val {
            bus.io[4] |= 0x04;
            proof {
                lemma_read_dispstat(*bus);
            }
            let dispstat = bus.read_u16(0x04000004);
            if (dispstat >> 5) & 1 == 1 {
                self.fire_irq(cpu, bus, 2);
            }
        } else {
            bus.io[4] &= !0x04;
        }
    }

    /// Ends the scanline (see `scanline_ended`).
    fn end_scanline(&mut self, cpu: &mut CPU, bus: &mut MemoryBus)
        requires
            scanline_end_ok(*old(self), *old(bus)),
        ensures
            scanline_ended(*old(self), *final(self), *old(cpu), *final(cpu), *old(bus), *final(bus)),
    {
        let ghost p0 = *self;
        let ghost c0 = *cpu;
        let ghost b0 = *bus;
        bus.io[4] &= !0x02;
        let ghost b1 = *bus;
        assert(b1 == with_io(b0, 4, b0.io[4] & !2u8));
        proof {
            lemma_read_io_u16(*bus, 0);
        }
        let dispcnt = bus.read_u16(0x04000000);
        if self.vcount < 160 {
            self.render_current_line(bus, dispcnt);
        }
        let ghost r = *self;
        assert(if p0.vcount < 160 {
            line_rendered(p0, r, b1, io16(b1.io, 0))
        } else {
            r == p0
        });
        assert(*bus == b1);
        self.vcount = (self.vcount + 1) % 228;
        self.update_vcount_register(bus);
        assert(*bus == line_advanced(p0, b0));
        let ghost c1 = *cpu;
        let ghost b3 = *bus;
        if self.vcount == 160 {
            bus.io[4] |= 0x01;
            self.mode = PpuMode::Vblank;
            bus.trigger_vblank_dma();
            proof {
                lemma_read_irq_flags(*bus);
            }
            let intrflag = bus.read_u16(0x03007FF8);
            proof {
                lemma_write_irq_flags(*bus, (intrflag | 1) as u32);
            }
            bus.write_u16(0x03007FF8, (intrflag | 1) as u32);
            proof {
                lemma_read_dispstat(*bus);
            }
            let dispstat = bus.read_u16(0x04000004);
            if (dispstat >> 3) & 1 == 1 {
                self.fire_irq(cpu, bus, 0);
            }
        }
        assert(self.vcount == 160 ==> (*cpu, *bus) == vblank_started(c0, vblank_flagged(line_advanced(p0, b0))));
        assert(self.vcount != 160 ==> *cpu == c0 && *bus == line_advanced(p0, b0) && self.mode == p0.mode);
        if self.vcount == 227 {
            bus.io[4] &= !0x01;
            self.mode = PpuMode::Oam;
        }
        self.update_vcount_match(cpu, bus);
        proof {
            assert(self.vcount == next_line(p0.vcount));
            assert(*self == (PPU { vcount: self.vcount, mode: self.mode, ..r }));
        }
    }
}

/// What a tick needs: a cycle counter that can advance, H-blank transfers that
/// finish when H-blank starts (cycle 960), and a scanline that can end when it
/// ends (cycle 1232).
pub open spec fn tick_ok(p: PPU, b: MemoryBus) -> bool {
    &&& p.line_cycle < 0xFFFF
    &&& p.line_cycle + 1 == 960 ==> timed_dma_ok(hblank_flagged(b), 2)
    &&& p.line_cycle + 1 == 1232 ==> scanline_end_ok(p, b)
}

/// Whether `q`, `c2`, `b2` are the renderer, CPU and bus after one cycle from `p`,
/// `c`, `b`: cycle 960 of a line enters H-blank (see `hblank_entered`); cycle 1232
/// ends the scanline (see `scanline_ended`) and starts the next line at cycle 0;
/// other cycles only count.
pub open spec fn ticked(p: PPU, c: CPU, b: MemoryBus, q: PPU, c2: CPU, b2: MemoryBus) -> bool {
    let lc = (p.line_cycle + 1) as u16;
    let p1 = PPU { line_cycle: lc, ..p };
    if lc == 960 {
        (q, c2, b2) == hblank_entered(p1, c, b)
    } else if lc == 1232 {
        &&& q.line_cycle == 0
        &&& scanline_ended(p1, PPU { line_cycle: 1232, ..q }, c, c2, b, b2)
    } else {
        &&& q == p1
        &&& c2 == c
        &&& b2 == b
    }
}

/// Whether a DMA channel of `b` is armed for start timing `timing` (1 V-blank,
/// 2 H-blank): enabled (control bit 15) with that timing in bits 13-12.
pub open spec fn dma_armed(b: MemoryBus, timing: u32) -> bool {
    exists|ch: int|
        0 <= ch < 4 && #[trigger] b.dma_control[ch] & 0x8000 != 0 && (b.dma_control[ch] >> 12) & 3
            == timing
}

proof fn lemma_no_timed_dma(b: MemoryBus, timing: u32)
    requires
        !dma_armed(b, timing),
    ensures
        timed_dma_ok(b, timing),
        timed_dma_spec(b, timing) == b,
{
    assert forall|f: nat| #[trigger] timed_dma_fuel(b, timing, 0, f) == Some(b) by {
        reveal_with_fuel(timed_dma_fuel, 5);
        assert(!(b.dma_control[0] & 0x8000 != 0 && (b.dma_control[0] >> 12) & 3 == timing));
        assert(!(b.dma_control[1] & 0x8000 != 0 && (b.dma_control[1] >> 12) & 3 == timing));
        assert(!(b.dma_control[2] & 0x8000 != 0 && (b.dma_control[2] >> 12) & 3 == timing));
        assert(!(b.dma_control[3] & 0x8000 != 0 && (b.dma_control[3] >> 12) & 3 == timing));
    }
    assert(timed_dma_fuel(b, timing, 0, 0) is Some);
}

/// H-blank entry: the tick from cycle 959 of a line moves to cycle 960 of the same
/// line in H-blank mode and leaves the H-blank flag (DISPSTAT bit 1) set, when no
/// H-blank DMA transfer is armed (an armed one may rewrite DISPSTAT).
pub proof fn lemma_hblank_flag(p: PPU, c: CPU, b: MemoryBus, q: PPU, c2: CPU, b2: MemoryBus)
    requires
        p.line_cycle == 959,
        !dma_armed(b, 2),
        ticked(p, c, b, q, c2, b2),
    ensures
        q.line_cycle == 960,
        q.vcount == p.vcount,
        q.mode is HBlank,
        b2.io[4] & 2 != 0,
{
    let hb = hblank_flagged(b);
    assert(hb.dma_control == b.dma_control);
    lemma_no_timed_dma(hb, 2);
    crate::bits::lemma_or_sets_bit1(b.io[4]);
    assert(hb.io[4] & 2 != 0);
}

/// A frame position: a line of the 228 and a cycle of the 1232 of a line.
pub open spec fn timing_wf(p: PPU) -> bool {
    p.vcount < 228 && p.line_cycle < 1232
}

impl PPU {
    /// Advances the renderer one cycle (see `ticked`).
    pub fn tick(&mut self, cpu: &mut CPU, bus: &mut MemoryBus)
        requires
            tick_ok(*old(self), *old(bus)),
        ensures
            ticked(*old(self), *old(cpu), *old(bus), *final(self), *final(cpu), *final(bus)),
            final(self).line_cycle == if old(self).line_cycle + 1 == 1232 {
                0
            } else {
                old(self).line_cycle + 1
            },
            final(self).vcount == if old(self).line_cycle + 1 == 1232 {
                next_line(old(self).vcount)
            } else {
                old(self).vcount
            },
            timing_wf(*old(self)) ==> timing_wf(*final(self)),
            timing_wf(*old(self)) ==> (final(self).line_cycle as int, final(self).vcount as int)
                == tick_position(old(self).line_cycle as int, old(self).vcount as int),
    {
        self.line_cycle += 1;
        if self.line_cycle == 960 {
            self.enter_hblank(cpu, bus);
        }
        if self.line_cycle == 1232 {
            self.end_scanline(cpu, bus);
            self.line_cycle = 0;
        }
    }
}

/// The frame position (cycle in the line, line) that one tick moves to.
pub open spec fn tick_position(lc: int, v: int) -> (int, int) {
    if lc + 1 == 1232 {
        (0, (v + 1) % 228)
    } else {
        (lc + 1, v)
    }
}

/// The frame position after `n` ticks from (`lc`, `v`).
pub open spec fn position_after(lc: int, v: int, n: nat) -> (int, int)
    decreases n,
{
    if n == 0 {
        (lc, v)
    } else {
        let p = position_after(lc, v, (n - 1) as nat);
        tick_position(p.0, p.1)
    }
}

proof fn lemma_position_closed_form(lc: int, v: int, n: nat)
    requires
        0 <= lc < 1232,
        0 <= v < 228,
    ensures
        position_after(lc, v, n) == ((lc + n) % 1232, (v + (lc + n) / 1232) % 228),
    decreases n,
{
    if n > 0 {
        let m = (n - 1) as nat;
        lemma_position_closed_form(lc, v, m);
        let t = lc + m;
        let q = t / 1232;
        let r = t % 1232;
        assert(t == q * 1232 + r && 0 <= r < 1232) by (nonlinear_arith)
            requires
                t >= 0,
                q == t / 1232,
                r == t % 1232,
        ;
        if r + 1 == 1232 {
            assert((t + 1) % 1232 == 0 && (t + 1) / 1232 == q + 1) by (nonlinear_arith)
                requires
                    t == q * 1232 + r,
                    r + 1 == 1232,
            ;
            let a = v + q;
            assert(((a % 228) + 1) % 228 == (a + 1) % 228) by (nonlinear_arith)
                requires
                    a >= 0,
            {
                vstd::arithmetic::div_mod::lemma_add_mod_noop(a, 1, 228);
                vstd::arithmetic::div_mod::lemma_small_mod(1nat, 228nat);
            }
        } else {
            assert((t + 1) % 1232 == r + 1 && (t + 1) / 1232 == q) by (nonlinear_arith)
                requires
                    t == q * 1232 + r,
                    0 <= r,
                    r + 1 < 1232,
            ;
        }
    }
}

/// A frame lasts 280896 cycles (228 lines of 1232 cycles): after that many ticks
/// the renderer is back at the same cycle of the same line.
pub proof fn lemma_frame_period(lc: int, v: int)
    requires
        0 <= lc < 1232,
        0 <= v < 228,
    ensures
        position_after(lc, v, 280896) == (lc, v),
{
    lemma_position_closed_form(lc, v, 280896);
    assert((lc + 280896) % 1232 == lc && (lc + 280896) / 1232 == 228) by (nonlinear_arith)
        requires
            0 <= lc < 1232,
    ;
    assert((v + 228) % 228 == v) by (nonlinear_arith)
        requires
            0 <= v < 228,
    ;
}

} // verus!
