//! The barrel shifter and the second-operand decoder of data-processing instructions.
use vstd::prelude::*;
use crate::bits::{bit, lemma_and_bound, lemma_bit0};
use crate::cpu::CPU;

verus! {

broadcast use lemma_and_bound;

/// Rotation right by `s` bits (taken modulo 32).
pub open spec fn ror(x: u32, s: u32) -> u32 {
    let k = s % 32;
    if k == 0 {
        x
    } else {
        (x >> k) | (x << ((32 - k) as u32))
    }
}

/// Arithmetic shift right by `s < 32` bits: copies of bit 31 are shifted in.
pub open spec fn asr(x: u32, s: u32) -> u32 {
    if x >= 0x8000_0000 {
        !((!x) >> s)
    } else {
        x >> s
    }
}

/// Rotates `x` right by `s` bits, `s` taken modulo 32.
pub fn rotate_right(x: u32, s: u32) -> (r: u32)
    ensures
        r == ror(x, s),
{
    let k = s % 32;
    if k == 0 {
        x
    } else {
        (x >> k) | (x << (32 - k))
    }
}

pub(crate) fn arithmetic_shift_right(x: u32, s: u32) -> (r: u32)
    requires
        s < 32,
    ensures
        r == asr(x, s),
{
    if x >= 0x8000_0000 {
        !((!x) >> s)
    } else {
        x >> s
    }
}

/// The barrel shifter: (value, carry out) for shifting `rm` by `shift` with shift
/// type 0 = LSL, 1 = LSR, 2 = ASR, 3 = ROR. A shift amount of 0 given by a register
/// leaves the value and carry unchanged; given as an immediate it encodes LSR #32,
/// ASR #32 or RRX.
pub open spec fn shifted(rm: u32, shift_type: u32, shift: u32, carry_in: bool, is_register: bool) -> (u32, bool) {
    if shift_type == 0 {
        if shift == 0 {
            (rm, carry_in)
        } else if shift < 32 {
            (rm << shift, bit(rm, (32 - shift) as u32))
        } else if shift == 32 {
            (0, bit(rm, 0))
        } else {
            (0, false)
        }
    } else if shift_type == 1 {
        if shift == 0 {
            if is_register { (rm, carry_in) } else { (0, bit(rm, 31)) }
        } else if shift < 32 {
            (rm >> shift, bit(rm, (shift - 1) as u32))
        } else if shift == 32 {
            (0, bit(rm, 31))
        } else {
            (0, false)
        }
    } else if shift_type == 2 {
        if shift == 0 {
            if is_register { (rm, carry_in) } else { (asr(rm, 31), bit(rm, 31)) }
        } else if shift < 32 {
            (asr(rm, shift), bit(rm, (shift - 1) as u32))
        } else {
            (asr(rm, 31), bit(rm, 31))
        }
    } else if shift_type == 3 {
        if shift == 0 {
            if is_register {
                (rm, carry_in)
            } else {
                ((if carry_in { 0x8000_0000u32 } else { 0u32 }) | (rm >> 1), bit(rm, 0))
            }
        } else if shift % 32 == 0 {
            (rm, bit(rm, 31))
        } else {
            (ror(rm, shift), bit(rm, ((shift % 32) - 1) as u32))
        }
    } else {
        (rm, carry_in)
    }
}

/// The value of register `index` as an operand: R15 reads as the (already advanced)
/// PC plus 4, word aligned.
pub open spec fn operand_register(s: CPU, index: u32) -> u32 {
    if index == 15 {
        ((s.registers[15] + 4) % 0x1_0000_0000) as u32 & !3u32
    } else {
        s.registers[index as int]
    }
}

/// The second operand of a data-processing instruction and the shifter carry:
/// an 8-bit immediate rotated right by twice the 4-bit rotate field, or a
/// register shifted by an immediate or by the bottom byte of a register.
pub open spec fn operand2(s: CPU, instruction: u32) -> (u32, bool) {
    let carry_in = bit(s.cpsr, 29);
    if bit(instruction, 25) {
        let rot = (instruction >> 8) & 0xF;
        let value = ror(instruction & 0xFF, (rot * 2) as u32);
        (value, if rot == 0 { carry_in } else { bit(value, 31) })
    } else {
        let is_register = bit(instruction, 4);
        let shift = if is_register {
            s.registers[((instruction >> 8) & 0xF) as int] & 0xFF
        } else {
            (instruction >> 7) & 0x1F
        };
        shifted(operand_register(s, instruction & 0xF), (instruction >> 5) & 3, shift, carry_in, is_register)
    }
}

impl CPU {
    /// The barrel shifter (see `shifted`).
    pub fn apply_shift(&self, rm: u32, shift_type: u32, shift: u32, carry_in: bool, is_register: bool) -> (res: (u32, bool))
        ensures
            res == shifted(rm, shift_type, shift, carry_in, is_register),
    {
        if shift_type == 0 {
            if shift == 0 {
                (rm, carry_in)
            } else if shift < 32 {
                (rm << shift, (rm >> (32 - shift)) & 1 == 1)
            } else if shift == 32 {
                proof {
                    lemma_bit0(rm);
                }
                (0, rm & 1 == 1)
            } else {
                (0, false)
            }
        } else if shift_type == 1 {
            if shift == 0 {
                if is_register {
                    (rm, carry_in)
                } else {
                    (0, (rm >> 31) & 1 == 1)
                }
            } else if shift < 32 {
                (rm >> shift, (rm >> (shift - 1)) & 1 == 1)
            } else if shift == 32 {
                (0, (rm >> 31) & 1 == 1)
            } else {
                (0, false)
            }
        } else if shift_type == 2 {
            if shift == 0 {
                if is_register {
                    (rm, carry_in)
                } else {
                    (arithmetic_shift_right(rm, 31), (rm >> 31) & 1 == 1)
                }
            } else if shift < 32 {
                (arithmetic_shift_right(rm, shift), (rm >> (shift - 1)) & 1 == 1)
            } else {
                (arithmetic_shift_right(rm, 31), (rm >> 31) & 1 == 1)
            }
        } else if shift_type == 3 {
            if shift == 0 {
                if is_register {
                    (rm, carry_in)
                } else {
                    proof {
                        lemma_bit0(rm);
                    }
                    ((if carry_in { 0x8000_0000u32 } else { 0u32 }) | (rm >> 1), rm & 1 == 1)
                }
            } else {
                let s = shift % 32;
                if s == 0 {
                    (rm, (rm >> 31) & 1 == 1)
                } else {
                    (rotate_right(rm, s), (rm >> (s - 1)) & 1 == 1)
                }
            }
        } else {
            (rm, carry_in)
        }
    }

    /// Reads a register as an operand (see `operand_register`).
    pub(crate) fn read_register(&self, index: u32) -> (r: u32)
        requires
            index < 16,
        ensures
            r == operand_register(*self, index),
    {
        if index == 15 {
            (self.registers[15].wrapping_add(4)) & !3
        } else {
            self.registers[index as usize]
        }
    }

    /// Decodes the second operand of a data-processing instruction (see `operand2`).
    pub(crate) fn decode_op2(&mut self, instruction: u32) -> (res: (u32, bool))
        ensures
            *final(self) == *old(self),
            res == operand2(*old(self), instruction),
    {
        let op_flag = (instruction >> 25) & 1;
        let carry_in = (self.cpsr >> 29) & 1 == 1;
        if op_flag == 1 {
            let ror_shift = (instruction >> 8) & 0xF;
            let value = rotate_right(instruction & 0xFF, ror_shift * 2);
            let carry = if ror_shift == 0 {
                (self.cpsr >> 29) & 1 == 1
            } else {
                (value >> 31) & 1 == 1
            };
            (value, carry)
        } else {
            let shift_type = (instruction >> 5) & 0b11;
            let source_register = instruction & 0xF;
            let rm = self.read_register(source_register);
            let shift = if (instruction >> 4) & 1 == 0 {
                (instruction >> 7) & 0x1F
            } else {
                self.registers[((instruction >> 8) & 0xF) as usize] & 0xFF
            };
            let is_register = (instruction >> 4) & 1 == 1;
            self.apply_shift(rm, shift_type, shift, carry_in, is_register)
        }
    }
}

} // verus!
