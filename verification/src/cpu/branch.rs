//! B, BL and BX.
use vstd::prelude::*;
use crate::bits::{bit, lemma_and_bound};
use crate::cpu::CPU;
use crate::cpu::exceptions::set_reg;

verus! {

broadcast use lemma_and_bound;

/// The signed 24-bit word offset of a branch, in bytes, as a 32-bit word:
/// the field sign-extended and multiplied by 4.
pub open spec fn branch_offset(instruction: u32) -> u32 {
    let f = instruction & 0x00FF_FFFF;
    if f >= 0x80_0000 {
        (f * 4 + 0xFC00_0000) as u32
    } else {
        (f * 4) as u32
    }
}

/// B / BL: with the link bit, LR takes the (already advanced) PC; the PC moves by
/// the offset plus 4 (modulo 2^32).
pub open spec fn branch_result(s: CPU, instruction: u32) -> CPU {
    let s1 = if bit(instruction, 24) {
        set_reg(s, 14, s.registers[15])
    } else {
        s
    };
    set_reg(s1, 15, ((s.registers[15] + branch_offset(instruction) + 4) % 0x1_0000_0000) as u32)
}

/// BX Rn: bit 0 of Rn selects Thumb state (CPSR bit 5); the PC takes Rn with bit 0 cleared.
pub open spec fn branch_exchange_result(s: CPU, instruction: u32) -> CPU {
    let target = s.registers[(instruction & 0xF) as int];
    let cpsr = if target & 1 == 1 {
        s.cpsr | 0x20
    } else {
        s.cpsr & !0x20u32
    };
    set_reg(CPU { cpsr, ..s }, 15, target & !1u32)
}

proof fn lemma_branch_offset(f: u32)
    requires
        f <= 0x00FF_FFFF,
    ensures
        (((((f << 2u32) << 6u32) >> 6u32) | (if ((f << 2u32) << 6u32) >= 0x8000_0000 {
            0xFC00_0000u32
        } else {
            0u32
        })) == (if f >= 0x80_0000 {
            (f * 4 + 0xFC00_0000) as u32
        } else {
            (f * 4) as u32
        })),
{
    assert((((((f << 2u32) << 6u32) >> 6u32) | (if ((f << 2u32) << 6u32) >= 0x8000_0000 {
        0xFC00_0000u32
    } else {
        0u32
    })) == (if f >= 0x80_0000 {
        (f * 4 + 0xFC00_0000) as u32
    } else {
        (f * 4) as u32
    }))) by (bit_vector)
        requires
            f <= 0x00FF_FFFF,
    ;
}

impl CPU {
    /// Executes B / BL (see `branch_result`).
    pub(crate) fn decode_branch(&mut self, instruction: u32)
        ensures
            *final(self) == branch_result(*old(self), instruction),
    {
        let field = instruction & 0x00FFFFFF;
        let shifted = (field << 2) << 6;
        // arithmetic shift right by 6 sign-extends the 26-bit byte offset
        let offset = (shifted >> 6) | (if shifted >= 0x8000_0000 {
            0xFC00_0000u32
        } else {
            0u32
        });
        proof {
            lemma_branch_offset(field);
        }
        if (instruction >> 24) & 1 == 1 {
            self.registers[14] = self.registers[15];
        }
        self.registers[15] = self.registers[15].wrapping_add(offset).wrapping_add(4);
    }

    /// Executes BX (see `branch_exchange_result`). Only the BX form (bits 7-4 = 0001)
    /// is implemented; other encodings of this group stop the emulator and are left
    /// out by the precondition.
    pub(crate) fn decode_branch_exchange(&mut self, instruction: u32)
        requires
            (instruction >> 4) & 0xF == 1,
        ensures
            *final(self) == branch_exchange_result(*old(self), instruction),
    {
        let rn = instruction & 0xF;
        let target = self.registers[rn as usize];
        let thumb = target & 1;
        if thumb == 1 {
            self.cpsr |= 0x20;
        } else {
            self.cpsr &= !0x20u32;
        }
        self.registers[15] = target & !1;
    }
}

} // verus!
