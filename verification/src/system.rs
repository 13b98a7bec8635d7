//! One machine cycle: the renderer's tick, fetching and executing the next CPU
//! instruction, and stepping the four hardware timers with their overflow
//! interrupts and cascades.
use vstd::prelude::*;
use crate::bits::lemma_and_bound;
use crate::cpu::CPU;
use crate::cpu::dispatch::{arm_halts, arm_step};
use crate::cpu::exceptions::{irq_entered, set_reg};
use crate::memory_bus::{
    MemoryBus, add32, lemma_read_io_u16, read_u16_spec, read_u32_spec, readable_n, timed_dma_ok,
    with_timer,
};
use crate::ppu::PPU;
use crate::ppu::compositor::{io16, read_io16};
use crate::ppu::sprites::sprites_fit;
use crate::ppu::timing::{
    hblank_flagged, line_advanced, next_line, ticked, timing_wf, vblank_flagged, with_io,
};
use crate::thumb::thumb_step;
use crate::timer::Timer;

verus! {

broadcast use lemma_and_bound;

/// Whether the CPU is in THUMB state (CPSR bit 5).
pub open spec fn in_thumb(c: CPU) -> bool {
    (c.cpsr >> 5) & 1 == 1
}

/// The next instruction: fetched at the PC (a halfword in THUMB state, a word in
/// ARM state), the PC advanced past it, then executed. `None` when the fetch is not
/// defined or the instruction stops the emulator or is otherwise not defined.
pub open spec fn cpu_step(c: CPU, b: MemoryBus) -> Option<(CPU, MemoryBus)> {
    let pc = c.registers[15];
    if in_thumb(c) {
        if readable_n(b, pc, 2) {
            thumb_step(set_reg(c, 15, add32(pc, 2)), b, read_u16_spec(b, pc))
        } else {
            None
        }
    } else {
        if readable_n(b, pc, 4) {
            arm_step(set_reg(c, 15, add32(pc, 4)), b, read_u32_spec(b, pc))
        } else {
            None
        }
    }
}

/// Whether the next instruction stops the emulator: an ARM instruction of an
/// encoding the core does not implement (see `arm_halts`).
pub open spec fn next_halts(c: CPU, b: MemoryBus) -> bool {
    !in_thumb(c) && arm_halts(c.cpsr, read_u32_spec(b, c.registers[15]))
}

/// Whether interrupt `3 + i` (timer `i` overflow) is taken: the timer requests
/// IRQs, CPSR's I bit is clear, IME bit 0 is set and IE enables it.
pub open spec fn timer_irq_taken(c: CPU, b: MemoryBus, i: int) -> bool {
    &&& b.timers[i].irq_enabled
    &&& (c.cpsr >> 7) & 1 == 0
    &&& io16(b.io, 0x208) & 1 == 1
    &&& (io16(b.io, 0x200) >> (3 + i) as u16) & 1 == 1
}

/// Timer `i` of `b` after the overflow of the timer below it, when it counts
/// cascaded: its counter advances, wrapping to its reload value.
pub open spec fn cascaded(t: Timer) -> Timer {
    let c = ((t.counter + 1) % 0x1_0000) as u16;
    Timer { counter: if c == 0 { t.reload } else { c }, ..t }
}

/// The CPU and bus after timers `i`..3 take one cycle in turn. A timer counts
/// the cycle unless it is cascaded (timers 1-3). On overflow a taken interrupt
/// sets the timer's IF bit and enters IRQ mode, and a cascaded next timer counts.
pub open spec fn timers_stepped(c: CPU, b: MemoryBus, i: nat) -> (CPU, MemoryBus)
    decreases 4 - i,
{
    if i >= 4 {
        (c, b)
    } else {
        let t = b.timers[i as int];
        let (t2, overflow) = if t.cascade && i > 0 { (t, false) } else { t.ticked(1) };
        let b1 = with_timer(b, i as int, t2);
        let (c2, b2) = if overflow && timer_irq_taken(c, b1, i as int) {
            (irq_entered(c), with_io(b1, 0x202, b1.io[0x202] | (1u8 << (3 + i) as u8)))
        } else {
            (c, b1)
        };
        let b3 = if overflow && i < 3 && b2.timers[i + 1int].cascade {
            with_timer(b2, i + 1int, cascaded(b2.timers[i + 1int]))
        } else {
            b2
        };
        timers_stepped(c2, b3, i + 1)
    }
}

/// Whether the running timers' pending cycle counts can take one more cycle.
pub open spec fn timers_can_tick(b: MemoryBus) -> bool {
    forall|i: int| 0 <= i < 4 ==> (#[trigger] b.timers[i]).enabled ==> b.timers[i].cycle_count < u32::MAX
}

/// Fetches and executes the next instruction (see `cpu_step`).
pub fn step_cpu(cpu: &mut CPU, bus: &mut MemoryBus)
    requires
        cpu_step(*old(cpu), *old(bus)) is Some,
    ensures
        (*final(cpu), *final(bus)) == cpu_step(*old(cpu), *old(bus))->0,
{
    let t_flag = (cpu.cpsr >> 5) & 1;
    if t_flag == 1 {
        step_thumb(cpu, bus);
    } else {
        step_arm(cpu, bus);
    }
}

/// Fetches and executes a THUMB instruction.
#[verifier::spinoff_prover]
#[verifier::rlimit(80)]
fn step_thumb(cpu: &mut CPU, bus: &mut MemoryBus)
    requires
        readable_n(*old(bus), old(cpu).registers[15], 2),
        thumb_step(
            set_reg(*old(cpu), 15, add32(old(cpu).registers[15], 2)),
            *old(bus),
            read_u16_spec(*old(bus), old(cpu).registers[15]),
        ) is Some,
    ensures
        (*final(cpu), *final(bus)) == thumb_step(
            set_reg(*old(cpu), 15, add32(old(cpu).registers[15], 2)),
            *old(bus),
            read_u16_spec(*old(bus), old(cpu).registers[15]),
        )->0,
{
    let ghost c0 = *cpu;
    let pc = cpu.registers[15];
    let instruction = bus.read_u16(pc);
    cpu.registers[15] = pc.wrapping_add(2);
    assert(*cpu == set_reg(c0, 15, add32(pc, 2)));
    cpu.execute_thumb_instruction(bus, instruction);
}

/// Fetches and executes an ARM instruction.
#[verifier::spinoff_prover]
#[verifier::rlimit(80)]
fn step_arm(cpu: &mut CPU, bus: &mut MemoryBus)
    requires
        readable_n(*old(bus), old(cpu).registers[15], 4),
        arm_step(
            set_reg(*old(cpu), 15, add32(old(cpu).registers[15], 4)),
            *old(bus),
            read_u32_spec(*old(bus), old(cpu).registers[15]),
        ) is Some,
    ensures
        (*final(cpu), *final(bus)) == arm_step(
            set_reg(*old(cpu), 15, add32(old(cpu).registers[15], 4)),
            *old(bus),
            read_u32_spec(*old(bus), old(cpu).registers[15]),
        )->0,
{
    let ghost c0 = *cpu;
    let pc = cpu.registers[15];
    let instruction = bus.read_u32(pc);
    cpu.registers[15] = pc.wrapping_add(4);
    assert(*cpu == set_reg(c0, 15, add32(pc, 4)));
    cpu.execute_instruction(bus, instruction);
}

/// Whether the next instruction stops the emulator (see `next_halts`); the word at
/// the PC must be readable in ARM state.
pub fn cpu_halts(cpu: &CPU, bus: &mut MemoryBus) -> (r: bool)
    requires
        !in_thumb(*cpu) ==> readable_n(*old(bus), cpu.registers[15], 4),
    ensures
        r == next_halts(*cpu, *old(bus)),
        *final(bus) == *old(bus),
{
    if (cpu.cpsr >> 5) & 1 == 1 {
        return false;
    }
    let instruction = bus.read_u32(cpu.registers[15]);
    cpu.arm_halts(instruction)
}

/// Steps the four timers by one cycle (see `timers_stepped`).
pub fn tick_timers(cpu: &mut CPU, bus: &mut MemoryBus)
    requires
        timers_can_tick(*old(bus)),
    ensures
        (*final(cpu), *final(bus)) == timers_stepped(*old(cpu), *old(bus), 0),
{
    let ghost c0 = *cpu;
    let ghost b0 = *bus;
    let mut i: usize = 0;
    while i < 4
        invariant
            i <= 4,
            timers_stepped(*cpu, *bus, i as nat) == timers_stepped(c0, b0, 0),
            forall|j: int| i <= j < 4 ==> (#[trigger] bus.timers[j]).enabled ==> bus.timers[j].cycle_count < u32::MAX,
        decreases 4 - i,
    {
        let ghost cs = *cpu;
        let ghost bs = *bus;
        let mut t = bus.timers[i];
        let overflow = if t.cascade && i > 0 {
            false
        } else {
            t.tick(1)
        };
        bus.timers[i] = t;
        let ghost b1 = *bus;
        assert(b1 == with_timer(bs, i as int, t));
        if overflow {
            if bus.timers[i].irq_enabled {
                proof {
                    lemma_read_io_u16(*bus, 0x200);
                    lemma_read_io_u16(*bus, 0x208);
                }
                let ie = bus.read_u16(0x04000200);
                let ime = bus.read_u16(0x04000208);
                let cpsr_irq_disabled = (cpu.cpsr >> 7) & 1 == 1;
                if !cpsr_irq_disabled && ime & 1 == 1 && (ie >> (3 + i) as u16) & 1 == 1 {
                    bus.io[0x202] |= 1u8 << (3 + i) as u8;
                    cpu.trigger_irq(bus);
                }
            }
            if i < 3 && bus.timers[i + 1].cascade {
                let mut next = bus.timers[i + 1];
                next.counter = next.counter.wrapping_add(1);
                if next.counter == 0 {
                    next.counter = next.reload;
                }
                bus.timers[i + 1] = next;
            }
        }
        i += 1;
    }
}

/// Whether the next instruction can be looked at and, unless it stops the
/// emulator, executed.
pub open spec fn cpu_can_step(c: CPU, b: MemoryBus) -> bool {
    &&& !in_thumb(c) ==> readable_n(b, c.registers[15], 4)
    &&& !next_halts(c, b) ==> cpu_step(c, b) is Some
}

/// Whether sprite tile data past the end of VRAM stops the cycle: the cycle ends
/// a visible line whose sprites do not fit (see `sprites_fit`).
pub open spec fn sprites_overrun(p: PPU, b: MemoryBus) -> bool {
    &&& p.line_cycle + 1 == 1232
    &&& p.vcount < 160
    &&& !sprites_fit(b.oam, io16(b.io, 0), io16(b.io, 0x4C), p.vcount as usize)
}

/// What a machine cycle needs beyond the checks it makes itself: a frame
/// position, H-blank and V-blank DMA that finish, and, after the renderer's tick,
/// a next instruction that can be looked at and executed.
pub open spec fn cycle_ok(p: PPU, c: CPU, b: MemoryBus) -> bool {
    &&& timing_wf(p)
    &&& p.line_cycle + 1 == 960 ==> timed_dma_ok(hblank_flagged(b), 2)
    &&& p.line_cycle + 1 == 1232 && next_line(p.vcount) == 160 ==> timed_dma_ok(
        vblank_flagged(line_advanced(p, b)),
        1,
    )
    &&& forall|q: PPU, c2: CPU, b2: MemoryBus| #[trigger] ticked(p, c, b, q, c2, b2) ==> cpu_can_step(c2, b2)
}

/// How a machine cycle ends.
pub enum CycleEnd {
    /// The renderer, the CPU and the timers each took their step.
    Completed,
    /// Nothing was done: the line's sprites read past the end of VRAM.
    SpritesPastVram,
    /// The renderer ticked, then the next instruction (this ARM word) is one the
    /// core does not implement.
    Unimplemented(u32),
    /// The renderer and the CPU stepped, then a running timer's pending cycle count
    /// cannot take one more cycle.
    TimerOverflow,
}

/// Whether every running timer's pending cycle count can take one more cycle (see
/// `timers_can_tick`).
pub fn timers_can_step(bus: &MemoryBus) -> (r: bool)
    ensures
        r == timers_can_tick(*bus),
{
    let mut i: usize = 0;
    while i < 4
        invariant
            i <= 4,
            forall|j: int| 0 <= j < i ==> (#[trigger] bus.timers[j]).enabled ==> bus.timers[j].cycle_count < u32::MAX,
        decreases 4 - i,
    {
        if bus.timers[i].enabled && bus.timers[i].cycle_count == u32::MAX {
            return false;
        }
        i += 1;
    }
    true
}

/// One machine cycle: the renderer ticks, then the CPU executes its next
/// instruction, then the timers step. It stops before a step that cannot be taken:
/// sprites past the end of VRAM, an unimplemented instruction, a timer whose cycle
/// count would overflow.
pub fn machine_cycle(ppu: &mut PPU, cpu: &mut CPU, bus: &mut MemoryBus) -> (r: CycleEnd)
    requires
        cycle_ok(*old(ppu), *old(cpu), *old(bus)),
    ensures
        (r is SpritesPastVram) == sprites_overrun(*old(ppu), *old(bus)),
        r is SpritesPastVram ==> *final(ppu) == *old(ppu) && *final(cpu) == *old(cpu) && *final(bus)
            == *old(bus),
        r is Unimplemented ==> {
            &&& ticked(*old(ppu), *old(cpu), *old(bus), *final(ppu), *final(cpu), *final(bus))
            &&& next_halts(*final(cpu), *final(bus))
            &&& r->Unimplemented_0 == read_u32_spec(*final(bus), final(cpu).registers[15])
        },
        r is TimerOverflow ==> exists|q: PPU, c2: CPU, b2: MemoryBus|
            {
                &&& #[trigger] ticked(*old(ppu), *old(cpu), *old(bus), q, c2, b2)
                &&& !next_halts(c2, b2)
                &&& *final(ppu) == q
                &&& cpu_step(c2, b2) == Some((*final(cpu), *final(bus)))
                &&& !timers_can_tick(*final(bus))
            },
        r is Completed ==> exists|q: PPU, c2: CPU, b2: MemoryBus, c3: CPU, b3: MemoryBus|
            #![trigger ticked(*old(ppu), *old(cpu), *old(bus), q, c2, b2), timers_stepped(c3, b3, 0)]
            {
                &&& ticked(*old(ppu), *old(cpu), *old(bus), q, c2, b2)
                &&& !next_halts(c2, b2)
                &&& cpu_step(c2, b2) == Some((c3, b3))
                &&& timers_can_tick(b3)
                &&& *final(ppu) == q
                &&& (*final(cpu), *final(bus)) == timers_stepped(c3, b3, 0)
            },
{
    if ppu.line_cycle == 1231 && ppu.vcount < 160 {
        let dispcnt = read_io16(&bus.io, 0);
        let mosaic = read_io16(&bus.io, 0x4C);
        if !PPU::sprites_in_vram(&bus.oam, dispcnt, mosaic, ppu.vcount as usize) {
            return CycleEnd::SpritesPastVram;
        }
    }
    let ghost (p0, c0, b0) = (*ppu, *cpu, *bus);
    ppu.tick(cpu, bus);
    assert(ticked(p0, c0, b0, *ppu, *cpu, *bus));
    assert(cpu_can_step(*cpu, *bus));
    if cpu_halts(cpu, bus) {
        let pc = cpu.registers[15];
        return CycleEnd::Unimplemented(bus.read_u32(pc));
    }
    let ghost (q, c2, b2) = (*ppu, *cpu, *bus);
    step_cpu(cpu, bus);
    if !timers_can_step(bus) {
        return CycleEnd::TimerOverflow;
    }
    tick_timers(cpu, bus);
    CycleEnd::Completed
}

} // verus!
