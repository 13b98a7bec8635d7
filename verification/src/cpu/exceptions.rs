//! Processor modes, register banking and exception entry.
use vstd::prelude::*;
use vstd::array::spec_array_update;
use crate::cpu::CPU;
use crate::memory_bus::MemoryBus;

verus! {

pub const MODE_USR: u32 = 0x10;
pub const MODE_FIQ: u32 = 0x11;
pub const MODE_IRQ: u32 = 0x12;
pub const MODE_SVC: u32 = 0x13;
pub const MODE_ABT: u32 = 0x17;
pub const MODE_UND: u32 = 0x1B;
pub const MODE_SYS: u32 = 0x1F;

/// The CPU with general register `i` replaced by `v`.
pub open spec fn set_reg(s: CPU, i: int, v: u32) -> CPU {
    CPU { registers: spec_array_update(s.registers, i, v), ..s }
}

/// The CPU with R8-R12 saved into the bank shared by the modes other than FIQ.
pub open spec fn saved_shared_high(s: CPU) -> CPU {
    CPU {
        r8_usr: s.registers[8],
        r9_usr: s.registers[9],
        r10_usr: s.registers[10],
        r11_usr: s.registers[11],
        r12_usr: s.registers[12],
        ..s
    }
}

/// Copies the live R13/R14 into the bank of the mode that the CPSR names, and
/// R8-R12 into the FIQ bank in FIQ mode or into the shared bank in any other
/// known mode; an unknown mode saves nothing.
pub open spec fn bank_out(s: CPU) -> CPU {
    let m = s.cpsr & 0x1F;
    if m == MODE_SYS || m == MODE_USR {
        saved_shared_high(CPU { r13_usr: s.registers[13], r14_usr: s.registers[14], ..s })
    } else if m == MODE_SVC {
        saved_shared_high(CPU { r13_svc: s.registers[13], r14_svc: s.registers[14], ..s })
    } else if m == MODE_IRQ {
        saved_shared_high(CPU { r13_irq: s.registers[13], r14_irq: s.registers[14], ..s })
    } else if m == MODE_ABT {
        saved_shared_high(CPU { r13_abt: s.registers[13], r14_abt: s.registers[14], ..s })
    } else if m == MODE_FIQ {
        CPU {
            r13_fiq: s.registers[13],
            r14_fiq: s.registers[14],
            r8_fiq: s.registers[8],
            r9_fiq: s.registers[9],
            r10_fiq: s.registers[10],
            r11_fiq: s.registers[11],
            r12_fiq: s.registers[12],
            ..s
        }
    } else if m == MODE_UND {
        saved_shared_high(CPU { r13_und: s.registers[13], r14_und: s.registers[14], ..s })
    } else {
        s
    }
}

/// The CPU with R8-R12 loaded from the bank shared by the modes other than FIQ.
pub open spec fn loaded_shared_high(s: CPU) -> CPU {
    set_reg(
        set_reg(
            set_reg(set_reg(set_reg(s, 8, s.r8_usr), 9, s.r9_usr), 10, s.r10_usr),
            11,
            s.r11_usr,
        ),
        12,
        s.r12_usr,
    )
}

/// Loads R13/R14 from the bank of mode `m`, and R8-R12 from the FIQ bank for FIQ
/// or from the shared bank for any other known mode; an unknown mode loads nothing.
pub open spec fn bank_in(s: CPU, m: u32) -> CPU {
    if m == MODE_SYS || m == MODE_USR {
        loaded_shared_high(set_reg(set_reg(s, 13, s.r13_usr), 14, s.r14_usr))
    } else if m == MODE_SVC {
        loaded_shared_high(set_reg(set_reg(s, 13, s.r13_svc), 14, s.r14_svc))
    } else if m == MODE_IRQ {
        loaded_shared_high(set_reg(set_reg(s, 13, s.r13_irq), 14, s.r14_irq))
    } else if m == MODE_ABT {
        loaded_shared_high(set_reg(set_reg(s, 13, s.r13_abt), 14, s.r14_abt))
    } else if m == MODE_FIQ {
        set_reg(
            set_reg(
                set_reg(
                    set_reg(
                        set_reg(set_reg(set_reg(s, 13, s.r13_fiq), 14, s.r14_fiq), 8, s.r8_fiq),
                        9,
                        s.r9_fiq,
                    ),
                    10,
                    s.r10_fiq,
                ),
                11,
                s.r11_fiq,
            ),
            12,
            s.r12_fiq,
        )
    } else if m == MODE_UND {
        loaded_shared_high(set_reg(set_reg(s, 13, s.r13_und), 14, s.r14_und))
    } else {
        s
    }
}

/// The state after a mode switch: the old mode's registers are banked, the new
/// mode's registers are loaded, and `new_mode` is or-ed into the cleared mode field.
pub open spec fn switched(s: CPU, new_mode: u32) -> CPU {
    let t = bank_in(bank_out(s), new_mode);
    CPU { cpsr: (s.cpsr & !0x1Fu32) | new_mode, ..t }
}

/// The seven processor modes of the ARM7TDMI.
pub open spec fn is_known_mode(m: u32) -> bool {
    m == MODE_USR || m == MODE_FIQ || m == MODE_IRQ || m == MODE_SVC || m == MODE_ABT || m
        == MODE_UND || m == MODE_SYS
}

proof fn lemma_mode_bits(cpsr: u32, m: u32)
    requires
        m <= 0x1F,
    ensures
        ((cpsr & !0x1Fu32) | m) & 0x1F == m,
        (((cpsr & !0x1Fu32) | m) & !0x1Fu32) | (cpsr & 0x1F) == cpsr,
{
    assert(((cpsr & !0x1Fu32) | m) & 0x1F == m && (((cpsr & !0x1Fu32) | m) & !0x1Fu32) | (cpsr & 0x1F)
        == cpsr) by (bit_vector)
        requires
            m <= 0x1F,
    ;
}

/// Switching from a known mode into another known mode and back again restores
/// every general register and the CPSR.
pub proof fn lemma_switch_mode_round_trip(s: CPU, m: u32)
    requires
        is_known_mode(s.cpsr & 0x1F),
        is_known_mode(m),
    ensures
        switched(switched(s, m), s.cpsr & 0x1F).registers@ == s.registers@,
        switched(switched(s, m), s.cpsr & 0x1F).cpsr == s.cpsr,
        switched(s, m).cpsr & 0x1F == m,
{
    let m1 = s.cpsr & 0x1F;
    lemma_mode_bits(s.cpsr, m);
    let t = switched(s, m);
    let u = switched(t, m1);
    assert(u.registers@ =~= s.registers@);
}

/// The CPSR on exception entry: mode `mode`, IRQs disabled (bit 7), ARM state
/// (bit 5 clear), flags and bit 6 kept.
pub open spec fn entry_cpsr(cpsr: u32, mode: u32) -> u32 {
    ((cpsr & !0x3Fu32) | mode | 0x80) & !0x20u32
}

/// SWI: enter Supervisor mode with LR_svc = the (already advanced) PC, SPSR_svc =
/// the old CPSR, and jump to the SWI vector 0x08.
pub open spec fn swi_entered(s: CPU) -> CPU {
    let t = switched(s, MODE_SVC);
    let lr = s.registers[15];
    set_reg(
        CPU { r14_svc: lr, spsr_svc: s.cpsr, cpsr: entry_cpsr(t.cpsr, MODE_SVC), ..set_reg(t, 14, lr) },
        15,
        8,
    )
}

/// Undefined instruction: enter Undefined mode with LR_und = the (already advanced)
/// PC, SPSR_und = the old CPSR, and jump to the vector 0x04.
pub open spec fn undefined_entered(s: CPU) -> CPU {
    let t = switched(s, MODE_UND);
    let lr = s.registers[15];
    set_reg(
        CPU { r14_und: lr, spsr_und: s.cpsr, cpsr: entry_cpsr(t.cpsr, MODE_UND), ..set_reg(t, 14, lr) },
        15,
        4,
    )
}

/// IRQ: enter IRQ mode with LR_irq = the next instruction's address + 4 (so that
/// the handler's `SUBS PC, LR, #4` resumes there), SPSR_irq = the old CPSR, and
/// jump to the IRQ vector 0x18.
pub open spec fn irq_entered(s: CPU) -> CPU {
    let t = switched(s, MODE_IRQ);
    let lr = ((s.registers[15] + 4) % 0x1_0000_0000) as u32;
    set_reg(
        CPU { r14_irq: lr, spsr_irq: s.cpsr, cpsr: entry_cpsr(t.cpsr, MODE_IRQ), ..set_reg(t, 14, lr) },
        15,
        0x18,
    )
}

/// An exception entry CPSR has the new mode, IRQs disabled and ARM state.
pub proof fn lemma_entry_cpsr(cpsr: u32, mode: u32)
    requires
        mode <= 0x1F,
        mode & 0x20 == 0,
    ensures
        entry_cpsr(cpsr, mode) & 0x1F == mode,
        entry_cpsr(cpsr, mode) & 0x80 == 0x80,
        entry_cpsr(cpsr, mode) & 0x20 == 0,
        entry_cpsr(cpsr, mode) & 0xFFFF_FF40 == cpsr & 0xFFFF_FF40,
{
    assert(((((cpsr & !0x3Fu32) | mode | 0x80) & !0x20u32) & 0x1F == mode) && ((((cpsr & !0x3Fu32)
        | mode | 0x80) & !0x20u32) & 0x80 == 0x80) && ((((cpsr & !0x3Fu32) | mode | 0x80)
        & !0x20u32) & 0x20 == 0) && ((((cpsr & !0x3Fu32) | mode | 0x80) & !0x20u32) & 0xFFFF_FF40
        == cpsr & 0xFFFF_FF40)) by (bit_vector)
        requires
            mode <= 0x1F,
            mode & 0x20 == 0,
    ;
}

impl CPU {
    /// Saves R8-R12 into the bank shared by the modes other than FIQ.
    fn save_shared_high(&mut self)
        ensures
            *final(self) == saved_shared_high(*old(self)),
    {
        self.r8_usr = self.registers[8];
        self.r9_usr = self.registers[9];
        self.r10_usr = self.registers[10];
        self.r11_usr = self.registers[11];
        self.r12_usr = self.registers[12];
    }

    /// Loads R8-R12 from the bank shared by the modes other than FIQ.
    fn load_shared_high(&mut self)
        ensures
            *final(self) == loaded_shared_high(*old(self)),
    {
        self.registers[8] = self.r8_usr;
        self.registers[9] = self.r9_usr;
        self.registers[10] = self.r10_usr;
        self.registers[11] = self.r11_usr;
        self.registers[12] = self.r12_usr;
    }

    /// Switches between banked registers and the live register file.
    pub fn switch_mode(&mut self, new_mode: u32)
        ensures
            *final(self) == switched(*old(self), new_mode),
    {
        let m = self.cpsr & 0x1F;
        if m == 0b11111 || m == 0b10000 {
            self.r13_usr = self.registers[13];
            self.r14_usr = self.registers[14];
            self.save_shared_high();
        } else if m == 0b10011 {
            self.r13_svc = self.registers[13];
            self.r14_svc = self.registers[14];
            self.save_shared_high();
        } else if m == 0b10010 {
            self.r13_irq = self.registers[13];
            self.r14_irq = self.registers[14];
            self.save_shared_high();
        } else if m == 0b10111 {
            self.r13_abt = self.registers[13];
            self.r14_abt = self.registers[14];
            self.save_shared_high();
        } else if m == 0b10001 {
            self.r13_fiq = self.registers[13];
            self.r14_fiq = self.registers[14];
            self.r8_fiq = self.registers[8];
            self.r9_fiq = self.registers[9];
            self.r10_fiq = self.registers[10];
            self.r11_fiq = self.registers[11];
            self.r12_fiq = self.registers[12];
        } else if m == 0b11011 {
            self.r13_und = self.registers[13];
            self.r14_und = self.registers[14];
            self.save_shared_high();
        }
        if new_mode == 0b11111 || new_mode == 0b10000 {
            self.registers[13] = self.r13_usr;
            self.registers[14] = self.r14_usr;
            self.load_shared_high();
        } else if new_mode == 0b10011 {
            self.registers[13] = self.r13_svc;
            self.registers[14] = self.r14_svc;
            self.load_shared_high();
        } else if new_mode == 0b10010 {
            self.registers[13] = self.r13_irq;
            self.registers[14] = self.r14_irq;
            self.load_shared_high();
        } else if new_mode == 0b10111 {
            self.registers[13] = self.r13_abt;
            self.registers[14] = self.r14_abt;
            self.load_shared_high();
        } else if new_mode == 0b10001 {
            self.registers[13] = self.r13_fiq;
            self.registers[14] = self.r14_fiq;
            self.registers[8] = self.r8_fiq;
            self.registers[9] = self.r9_fiq;
            self.registers[10] = self.r10_fiq;
            self.registers[11] = self.r11_fiq;
            self.registers[12] = self.r12_fiq;
        } else if new_mode == 0b11011 {
            self.registers[13] = self.r13_und;
            self.registers[14] = self.r14_und;
            self.load_shared_high();
        }
        self.cpsr = (self.cpsr & !0x1F) | new_mode;
    }
    /// Software interrupt (see `swi_entered`); the bus and the instruction's
    /// comment field are not used.
    pub fn execute_swi(&mut self, _bus: &mut MemoryBus, _instruction: u32)
        ensures
            *final(self) == swi_entered(*old(self)),
            *final(_bus) == *old(_bus),
    {
        let saved_cpsr = self.cpsr;
        self.switch_mode(0b10011);
        self.registers[14] = self.registers[15];
        self.r14_svc = self.registers[15];
        self.spsr_svc = saved_cpsr;
        self.cpsr = (self.cpsr & !0x3F) | 0x13 | 0x80;
        self.cpsr &= !0x20u32;
        self.registers[15] = 0x00000008;
    }

    /// Undefined-instruction trap (see `undefined_entered`).
    pub fn trigger_undefined(&mut self)
        ensures
            *final(self) == undefined_entered(*old(self)),
    {
        let saved_cpsr = self.cpsr;
        self.switch_mode(0b11011);
        self.registers[14] = self.registers[15];
        self.r14_und = self.registers[14];
        self.spsr_und = saved_cpsr;
        self.cpsr = (self.cpsr & !0x3F) | 0x1B | 0x80;
        self.cpsr &= !0x20u32;
        self.registers[15] = 0x00000004;
    }

    /// Interrupt request (see `irq_entered`); the bus is not used.
    pub fn trigger_irq(&mut self, _bus: &mut MemoryBus)
        ensures
            *final(self) == irq_entered(*old(self)),
            *final(_bus) == *old(_bus),
    {
        let return_addr = self.registers[15].wrapping_add(4);
        let saved_cpsr = self.cpsr;
        self.switch_mode(0b10010);
        self.registers[14] = return_addr;
        self.r14_irq = return_addr;
        self.spsr_irq = saved_cpsr;
        self.cpsr = (self.cpsr & !0x3F) | 0x12 | 0x80;
        self.cpsr &= !0x20u32;
        self.registers[15] = 0x00000018;
    }
}

} // verus!
