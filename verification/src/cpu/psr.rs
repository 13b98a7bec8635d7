//! MRS / MSR: moves between a general register and the CPSR or the current mode's SPSR.
use vstd::prelude::*;
use crate::bits::{bit, lemma_and_bound};
use crate::cpu::CPU;
use crate::cpu::exceptions::{set_reg, switched};
use crate::cpu::shifter::{ror, rotate_right};

verus! {

broadcast use lemma_and_bound;

/// The SPSR of the current mode; User/System mode (or an unknown mode) has none
/// and reads the CPSR instead.
pub open spec fn spsr_of(s: CPU) -> u32 {
    let m = s.cpsr & 0x1F;
    if m == 0x13 {
        s.spsr_svc
    } else if m == 0x12 {
        s.spsr_irq
    } else if m == 0x11 {
        s.spsr_fiq
    } else if m == 0x17 {
        s.spsr_abt
    } else if m == 0x1B {
        s.spsr_und
    } else {
        s.cpsr
    }
}

/// The CPU with the current mode's SPSR replaced; without an SPSR nothing changes.
pub open spec fn with_spsr(s: CPU, v: u32) -> CPU {
    let m = s.cpsr & 0x1F;
    if m == 0x13 {
        CPU { spsr_svc: v, ..s }
    } else if m == 0x12 {
        CPU { spsr_irq: v, ..s }
    } else if m == 0x11 {
        CPU { spsr_fiq: v, ..s }
    } else if m == 0x17 {
        CPU { spsr_abt: v, ..s }
    } else if m == 0x1B {
        CPU { spsr_und: v, ..s }
    } else {
        s
    }
}

/// MSR source operand: a rotated 8-bit immediate or register Rm.
pub open spec fn msr_operand(s: CPU, instruction: u32) -> u32 {
    if bit(instruction, 25) {
        ror(instruction & 0xFF, (((instruction >> 8) & 0xF) * 2) as u32)
    } else {
        s.registers[(instruction & 0xF) as int]
    }
}

/// The effect of an MRS or MSR instruction. MSR to the CPSR writes the flag byte
/// (field bit 19) and, with the control field (bit 16), switches to the new mode
/// (banking registers) and takes bits 5-7; MSR to the SPSR writes the flag byte
/// and the control byte. MRS copies the chosen PSR into Rd.
pub open spec fn psr_result(s: CPU, instruction: u32) -> CPU {
    if bit(instruction, 21) {
        let value = msr_operand(s, instruction);
        if !bit(instruction, 22) {
            let s1 = if bit(instruction, 19) {
                CPU { cpsr: (s.cpsr & 0x00FF_FFFF) | (value & 0xFF00_0000), ..s }
            } else {
                s
            };
            if bit(instruction, 16) {
                let s2 = if (value & 0x1F) != (s1.cpsr & 0x1F) {
                    switched(s1, value & 0x1F)
                } else {
                    s1
                };
                CPU { cpsr: (s2.cpsr & !0xE0u32) | (value & 0xE0), ..s2 }
            } else {
                s1
            }
        } else {
            let p0 = spsr_of(s);
            let p1 = if bit(instruction, 19) {
                (p0 & 0x00FF_FFFF) | (value & 0xFF00_0000)
            } else {
                p0
            };
            let p2 = if bit(instruction, 16) {
                (p1 & 0xFFFF_FF00) | (value & 0xFF)
            } else {
                p1
            };
            with_spsr(s, p2)
        }
    } else {
        set_reg(
            s,
            ((instruction >> 12) & 0xF) as int,
            if !bit(instruction, 22) { s.cpsr } else { spsr_of(s) },
        )
    }
}

impl CPU {
    /// Executes MRS / MSR (see `psr_result`).
    pub(crate) fn execute_psr(&mut self, instruction: u32)
        ensures
            *final(self) == psr_result(*old(self), instruction),
    {
        let i = (instruction >> 25) & 1;
        let source_dest = (instruction >> 22) & 1;
        let opcode = (instruction >> 21) & 1;
        if opcode == 1 {
            let value = if i == 1 {
                let ror = (instruction >> 8) & 0xF;
                rotate_right(instruction & 0xFF, ror * 2)
            } else {
                self.registers[(instruction & 0xF) as usize]
            };
            if source_dest == 0 {
                if (instruction >> 19) & 1 == 1 {
                    self.cpsr = (self.cpsr & 0x00FFFFFF) | (value & 0xFF000000);
                }
                if (instruction >> 16) & 1 == 1 {
                    let new_mode = value & 0x1F;
                    let old_mode = self.cpsr & 0x1F;
                    if new_mode != old_mode {
                        self.switch_mode(new_mode);
                    }
                    self.cpsr = (self.cpsr & !0xE0) | (value & 0xE0);
                }
            } else {
                let mut spsr = self.get_spsr();
                if (instruction >> 19) & 1 == 1 {
                    spsr = (spsr & 0x00FFFFFF) | (value & 0xFF000000);
                }
                if (instruction >> 16) & 1 == 1 {
                    spsr = (spsr & 0xFFFFFF00) | (value & 0x000000FF);
                }
                self.set_spsr(spsr);
            }
        } else {
            let rd = (instruction >> 12) & 0xF;
            self.registers[rd as usize] = if source_dest == 0 {
                self.cpsr
            } else {
                self.get_spsr()
            };
        }
    }

    /// The current mode's SPSR (see `spsr_of`).
    pub(crate) fn get_spsr(&self) -> (r: u32)
        ensures
            r == spsr_of(*self),
    {
        let m = self.cpsr & 0x1F;
        if m == 0b10011 {
            self.spsr_svc
        } else if m == 0b10010 {
            self.spsr_irq
        } else if m == 0b10001 {
            self.spsr_fiq
        } else if m == 0b10111 {
            self.spsr_abt
        } else if m == 0b11011 {
            self.spsr_und
        } else {
            self.cpsr
        }
    }

    /// Writes the current mode's SPSR (see `with_spsr`).
    pub(crate) fn set_spsr(&mut self, value: u32)
        ensures
            *final(self) == with_spsr(*old(self), value),
    {
        let m = self.cpsr & 0x1F;
        if m == 0b10011 {
            self.spsr_svc = value;
        } else if m == 0b10010 {
            self.spsr_irq = value;
        } else if m == 0b10001 {
            self.spsr_fiq = value;
        } else if m == 0b10111 {
            self.spsr_abt = value;
        } else if m == 0b11011 {
            self.spsr_und = value;
        }
    }
}

} // verus!
