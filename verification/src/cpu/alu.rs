//! Data-processing instructions: MOV, MVN, arithmetic, logical and compare operations.
use vstd::prelude::*;
use crate::bits::{bit, wrap32, lemma_and_bound};
use crate::cpu::CPU;
use crate::cpu::exceptions::{set_reg, switched};
use crate::cpu::flags::{
    with_nzcv, add_nzcv, sub_nzcv, adc_nzcv, sbc_nzcv, logical_nzcv,
};
use crate::cpu::psr::spsr_of;
use crate::cpu::shifter::{operand2, operand_register};

verus! {

broadcast use lemma_and_bound;

/// Exception return: the CPSR is restored from the current mode's SPSR after
/// switching to the mode that the SPSR names.
pub open spec fn restored_from_spsr(s: CPU) -> CPU {
    let spsr = spsr_of(s);
    CPU { cpsr: spsr, ..switched(s, spsr & 0x1F) }
}

/// Destination register field (bits 15-12).
pub open spec fn rd_field(instruction: u32) -> int {
    ((instruction >> 12) & 0xF) as int
}

/// First operand register field (bits 19-16).
pub open spec fn rn_field(instruction: u32) -> u32 {
    (instruction >> 16) & 0xF
}

/// The CPSR carry flag as 0 or 1.
pub open spec fn carry_bit(cpsr: u32) -> u32 {
    (cpsr >> 29) & 1
}

/// MOV: Rd := op2. Writing the PC clears bit 0 and, with S, returns from an
/// exception; without S, bit 0 of op2 selects Thumb state. Otherwise S sets N, Z, C.
pub open spec fn mov_result(s: CPU, instruction: u32) -> CPU {
    let (op2, c) = operand2(s, instruction);
    if rd_field(instruction) == 15 {
        let s1 = set_reg(s, 15, op2 & !1u32);
        if bit(instruction, 20) {
            restored_from_spsr(s1)
        } else {
            CPU { cpsr: if op2 & 1 == 1 { s1.cpsr | 0x20 } else { s1.cpsr & !0x20u32 }, ..s1 }
        }
    } else {
        let s1 = set_reg(s, rd_field(instruction), op2);
        if bit(instruction, 20) {
            with_nzcv(s1, logical_nzcv(op2, c))
        } else {
            s1
        }
    }
}

/// ADD / SUB: Rd := Rn +/- op2 (mod 2^32). With S and Rd = PC the CPSR is restored
/// from the SPSR; with S otherwise the arithmetic flags are set.
pub open spec fn add_sub_result(s: CPU, instruction: u32, is_sub: bool) -> CPU {
    let rn = operand_register(s, rn_field(instruction));
    let op2 = operand2(s, instruction).0;
    let r = if is_sub { wrap32(rn - op2) } else { wrap32(rn + op2) };
    let s1 = set_reg(s, rd_field(instruction), r);
    if rd_field(instruction) == 15 && bit(instruction, 20) {
        restored_from_spsr(s1)
    } else if bit(instruction, 20) {
        with_nzcv(s1, if is_sub { sub_nzcv(rn, op2) } else { add_nzcv(rn, op2) })
    } else {
        s1
    }
}

/// A logical operation writing Rd (AND, EOR, ORR, BIC, MVN): with S, N and Z follow
/// the result and C takes the shifter carry.
pub open spec fn logical_result(s: CPU, instruction: u32, r: u32) -> CPU {
    let c = operand2(s, instruction).1;
    let s1 = set_reg(s, rd_field(instruction), r);
    if bit(instruction, 20) {
        with_nzcv(s1, logical_nzcv(r, c))
    } else {
        s1
    }
}

/// ADC / SBC / RSC / RSB: Rd := r; with S the flags become `f`.
pub open spec fn carry_op_result(s: CPU, instruction: u32, r: u32, f: (bool, bool, bool, bool)) -> CPU {
    let s1 = set_reg(s, rd_field(instruction), r);
    if bit(instruction, 20) {
        with_nzcv(s1, f)
    } else {
        s1
    }
}

/// The effect of a data-processing instruction with opcode bits 24-21.
/// Compare/test opcodes (TST, TEQ, CMP, CMN) set flags whatever the S bit.
/// RSB and RSC with S set the flags of the reversed subtraction op2 - Rn (with the
/// carry for RSC).
pub open spec fn alu_result(s: CPU, instruction: u32) -> CPU {
    let opcode = (instruction >> 21) & 0xF;
    let rn = operand_register(s, rn_field(instruction));
    let (op2, c) = operand2(s, instruction);
    let cy = carry_bit(s.cpsr);
    if opcode == 0xD {
        mov_result(s, instruction)
    } else if opcode == 0x4 {
        add_sub_result(s, instruction, false)
    } else if opcode == 0x2 {
        add_sub_result(s, instruction, true)
    } else if opcode == 0xA {
        with_nzcv(s, sub_nzcv(rn, op2))
    } else if opcode == 0xB {
        with_nzcv(s, add_nzcv(rn, op2))
    } else if opcode == 0x9 {
        with_nzcv(s, logical_nzcv(rn ^ op2, c))
    } else if opcode == 0x8 {
        with_nzcv(s, logical_nzcv(rn & op2, c))
    } else if opcode == 0x0 {
        logical_result(s, instruction, rn & op2)
    } else if opcode == 0x1 {
        logical_result(s, instruction, rn ^ op2)
    } else if opcode == 0xC {
        logical_result(s, instruction, rn | op2)
    } else if opcode == 0xE {
        logical_result(s, instruction, rn & !op2)
    } else if opcode == 0xF {
        logical_result(s, instruction, !op2)
    } else if opcode == 0x5 {
        carry_op_result(s, instruction, wrap32(rn + op2 + cy), adc_nzcv(rn, op2, cy))
    } else if opcode == 0x6 {
        carry_op_result(s, instruction, wrap32(rn - op2 + cy - 1), sbc_nzcv(rn, op2, cy))
    } else if opcode == 0x3 {
        carry_op_result(s, instruction, wrap32(op2 - rn), sub_nzcv(op2, rn))
    } else {
        carry_op_result(s, instruction, wrap32(op2 - rn + cy - 1), sbc_nzcv(op2, rn, cy))
    }
}

/// What each data-processing opcode (bits 24-21) writes to a destination other
/// than the PC, from Rn and the shifter operand (and the carry for ADC, SBC,
/// RSC): AND, EOR, SUB, RSB, ADD, ADC, SBC, RSC, ORR, MOV, BIC, MVN, modulo 2^32.
/// The compare and test opcodes (8-11) write no register. No register other than
/// Rd changes, and without the S bit the flags are kept by every opcode that
/// writes a register.
pub proof fn lemma_data_processing_values(s: CPU, instruction: u32)
    requires
        rd_field(instruction) != 15,
    ensures
        ({
            let op = (instruction >> 21) & 0xF;
            let rn = operand_register(s, rn_field(instruction));
            let op2 = operand2(s, instruction).0;
            let cy = carry_bit(s.cpsr);
            let r = alu_result(s, instruction);
            let d = rd_field(instruction);
            let v = r.registers[d];
            &&& op == 0x0 ==> v == rn & op2
            &&& op == 0x1 ==> v == rn ^ op2
            &&& op == 0x2 ==> v as int == (rn - op2) % 0x1_0000_0000
            &&& op == 0x3 ==> v as int == (op2 - rn) % 0x1_0000_0000
            &&& op == 0x4 ==> v as int == (rn + op2) % 0x1_0000_0000
            &&& op == 0x5 ==> v as int == (rn + op2 + cy) % 0x1_0000_0000
            &&& op == 0x6 ==> v as int == (rn - op2 + cy - 1) % 0x1_0000_0000
            &&& op == 0x7 ==> v as int == (op2 - rn + cy - 1) % 0x1_0000_0000
            &&& op == 0xC ==> v == rn | op2
            &&& op == 0xD ==> v == op2
            &&& op == 0xE ==> v == rn & !op2
            &&& op == 0xF ==> v == !op2
            &&& 8 <= op <= 0xB ==> r.registers == s.registers
            &&& forall|i: int| 0 <= i < 16 && i != d ==> r.registers[i] == s.registers[i]
            &&& !bit(instruction, 20) && !(8 <= op <= 0xB) ==> r.cpsr == s.cpsr
        }),
{
}

proof fn lemma_carry_bit(cpsr: u32)
    ensures
        carry_bit(cpsr) <= 1,
        (carry_bit(cpsr) == 1) == bit(cpsr, 29),
{
    assert(((cpsr >> 29) & 1) <= 1) by (bit_vector);
}

impl CPU {
    /// Executes a data-processing instruction (see `alu_result`).
    pub(crate) fn decode_alu(&mut self, instruction: u32)
        ensures
            *final(self) == alu_result(*old(self), instruction),
    {
        let opcode = (instruction >> 21) & 0xF;
        proof {
            lemma_carry_bit(self.cpsr);
        }
        if opcode == 0xD {
            self.execute_mov(instruction)
        } else if opcode == 0b100 {
            self.execute_add(instruction)
        } else if opcode == 0b10 {
            self.execute_sub(instruction)
        } else if opcode == 0xA {
            self.execute_cmp(instruction)
        } else if opcode == 0b1001 {
            self.execute_teq(instruction)
        } else if opcode == 0b0000 {
            self.execute_and(instruction)
        } else if opcode == 0b1100 {
            self.execute_orr(instruction)
        } else if opcode == 0b1110 {
            self.execute_bic(instruction)
        } else if opcode == 0x8 {
            self.execute_tst(instruction)
        } else if opcode == 0xF {
            self.execute_mvn(instruction)
        } else if opcode == 0x5 {
            self.execute_adc(instruction)
        } else if opcode == 0x6 {
            self.execute_subc(instruction)
        } else if opcode == 0x1 {
            self.execute_xor(instruction)
        } else if opcode == 0x3 {
            self.execute_rsb(instruction)
        } else if opcode == 0x7 {
            self.execute_rsc(instruction)
        } else {
            self.execute_cmn(instruction)
        }
    }

    fn execute_mov(&mut self, instruction: u32)
        ensures
            *final(self) == mov_result(*old(self), instruction),
    {
        let dest = (instruction >> 12) & 0xF;
        let (op2, carry) = self.decode_op2(instruction);
        if dest == 15 {
            let target = op2 & !1;
            self.registers[15] = target;
            if (instruction >> 20) & 1 == 1 {
                let spsr = self.get_spsr();
                self.switch_mode(spsr & 0x1F);
                self.cpsr = spsr;
            } else {
                if op2 & 1 == 1 {
                    self.cpsr |= 0x20;
                } else {
                    self.cpsr &= !0x20u32;
                }
            }
        } else {
            self.registers[dest as usize] = op2;
            if (instruction >> 20) & 1 == 1 {
                let (n, z, c, v) = self.logical_flags(op2, carry);
                self.set_flags(n, z, c, v);
            }
        }
    }

    fn execute_add(&mut self, instruction: u32)
        ensures
            *final(self) == add_sub_result(*old(self), instruction, false),
    {
        let dest_register = (instruction >> 12) & 0xF;
        let rn = self.read_register((instruction >> 16) & 0xF);
        let (op2, _carry) = self.decode_op2(instruction);
        self.registers[dest_register as usize] = rn.wrapping_add(op2);
        if dest_register == 15 && (instruction >> 20) & 1 == 1 {
            let spsr = self.get_spsr();
            self.switch_mode(spsr & 0x1F);
            self.cpsr = spsr;
            return;
        }
        if (instruction >> 20) & 1 == 1 {
            let (n, z, c, v) = self.add_flags(rn, op2);
            self.set_flags(n, z, c, v);
        }
    }

    fn execute_sub(&mut self, instruction: u32)
        ensures
            *final(self) == add_sub_result(*old(self), instruction, true),
    {
        let dest_register = (instruction >> 12) & 0xF;
        let rn = self.read_register((instruction >> 16) & 0xF);
        let (op2, _carry) = self.decode_op2(instruction);
        let result = rn.wrapping_sub(op2);
        self.registers[dest_register as usize] = result;
        if dest_register == 15 && (instruction >> 20) & 1 == 1 {
            let spsr = self.get_spsr();
            self.switch_mode(spsr & 0x1F);
            self.cpsr = spsr;
            return;
        }
        if (instruction >> 20) & 1 == 1 {
            let (n, z, c, v) = self.sub_flags(rn, op2);
            self.set_flags(n, z, c, v);
        }
    }

    fn execute_cmp(&mut self, instruction: u32)
        ensures
            *final(self) == with_nzcv(
                *old(self),
                sub_nzcv(
                    operand_register(*old(self), rn_field(instruction)),
                    operand2(*old(self), instruction).0,
                ),
            ),
    {
        let rn = self.read_register((instruction >> 16) & 0xF);
        let (op2, _carry) = self.decode_op2(instruction);
        let (n, z, c, v) = self.sub_flags(rn, op2);
        self.set_flags(n, z, c, v);
    }

    fn execute_cmn(&mut self, instruction: u32)
        ensures
            *final(self) == with_nzcv(
                *old(self),
                add_nzcv(
                    operand_register(*old(self), rn_field(instruction)),
                    operand2(*old(self), instruction).0,
                ),
            ),
    {
        let rn = self.read_register((instruction >> 16) & 0xF);
        let (op2, _carry) = self.decode_op2(instruction);
        let (n, z, c, v) = self.add_flags(rn, op2);
        self.set_flags(n, z, c, v);
    }

    fn execute_teq(&mut self, instruction: u32)
        ensures
            *final(self) == with_nzcv(
                *old(self),
                logical_nzcv(
                    operand_register(*old(self), rn_field(instruction)) ^ operand2(
                        *old(self),
                        instruction,
                    ).0,
                    operand2(*old(self), instruction).1,
                ),
            ),
    {
        let rn = self.read_register((instruction >> 16) & 0xF);
        let (op2, carry) = self.decode_op2(instruction);
        let result = rn ^ op2;
        let (n, z, c, v) = self.logical_flags(result, carry);
        self.set_flags(n, z, c, v);
    }

    fn execute_tst(&mut self, instruction: u32)
        ensures
            *final(self) == with_nzcv(
                *old(self),
                logical_nzcv(
                    operand_register(*old(self), rn_field(instruction)) & operand2(
                        *old(self),
                        instruction,
                    ).0,
                    operand2(*old(self), instruction).1,
                ),
            ),
    {
        let rn = self.read_register((instruction >> 16) & 0xF);
        let (op2, carry) = self.decode_op2(instruction);
        let result = rn & op2;
        let (n, z, c, v) = self.logical_flags(result, carry);
        self.set_flags(n, z, c, v);
    }

    fn execute_and(&mut self, instruction: u32)
        ensures
            *final(self) == logical_result(
                *old(self),
                instruction,
                operand_register(*old(self), rn_field(instruction)) & operand2(
                    *old(self),
                    instruction,
                ).0,
            ),
    {
        let rd = (instruction >> 12) & 0xF;
        let rn = self.read_register((instruction >> 16) & 0xF);
        let (op2, carry) = self.decode_op2(instruction);
        let result = rn & op2;
        self.registers[rd as usize] = result;
        if (instruction >> 20) & 1 == 1 {
            let (n, z, c, v) = self.logical_flags(result, carry);
            self.set_flags(n, z, c, v);
        }
    }

    fn execute_orr(&mut self, instruction: u32)
        ensures
            *final(self) == logical_result(
                *old(self),
                instruction,
                operand_register(*old(self), rn_field(instruction)) | operand2(
                    *old(self),
                    instruction,
                ).0,
            ),
    {
        let rd = (instruction >> 12) & 0xF;
        let rn = self.read_register((instruction >> 16) & 0xF);
        let (op2, carry) = self.decode_op2(instruction);
        let result = rn | op2;
        self.registers[rd as usize] = rn | op2;
        if (instruction >> 20) & 1 == 1 {
            let (n, z, c, v) = self.logical_flags(result, carry);
            self.set_flags(n, z, c, v);
        }
    }

    fn execute_bic(&mut self, instruction: u32)
        ensures
            *final(self) == logical_result(
                *old(self),
                instruction,
                operand_register(*old(self), rn_field(instruction)) & !operand2(
                    *old(self),
                    instruction,
                ).0,
            ),
    {
        let rd = (instruction >> 12) & 0xF;
        let rn = self.read_register((instruction >> 16) & 0xF);
        let (op2, carry) = self.decode_op2(instruction);
        let result = rn & (!op2);
        self.registers[rd as usize] = result;
        if (instruction >> 20) & 1 == 1 {
            let (n, z, c, v) = self.logical_flags(result, carry);
            self.set_flags(n, z, c, v);
        }
    }

    fn execute_mvn(&mut self, instruction: u32)
        ensures
            *final(self) == logical_result(*old(self), instruction, !operand2(*old(self), instruction).0),
    {
        let rd = (instruction >> 12) & 0xF;
        let (op2, carry) = self.decode_op2(instruction);
        let result = !op2;
        self.registers[rd as usize] = result;
        if (instruction >> 20) & 1 == 1 {
            let (n, z, c, v) = self.logical_flags(result, carry);
            self.set_flags(n, z, c, v);
        }
    }

    fn execute_xor(&mut self, instruction: u32)
        ensures
            *final(self) == logical_result(
                *old(self),
                instruction,
                operand_register(*old(self), rn_field(instruction)) ^ operand2(
                    *old(self),
                    instruction,
                ).0,
            ),
    {
        let rd = (instruction >> 12) & 0xF;
        let rn = self.read_register((instruction >> 16) & 0xF);
        let (op2, carry) = self.decode_op2(instruction);
        let result = rn ^ op2;
        self.registers[rd as usize] = result;
        if (instruction >> 20) & 1 == 1 {
            let (n, z, c, v) = self.logical_flags(result, carry);
            self.set_flags(n, z, c, v);
        }
    }

    fn execute_adc(&mut self, instruction: u32)
        ensures
            ({
                let s = *old(self);
                let rn = operand_register(s, rn_field(instruction));
                let op2 = operand2(s, instruction).0;
                let cy = carry_bit(s.cpsr);
                *final(self) == carry_op_result(s, instruction, wrap32(rn + op2 + cy), adc_nzcv(rn, op2, cy))
            }),
    {
        let rn = self.read_register((instruction >> 16) & 0xF);
        let rd = (instruction >> 12) & 0xF;
        let (op2, _carry) = self.decode_op2(instruction);
        let carry = (self.cpsr >> 29) & 1;
        self.registers[rd as usize] = rn.wrapping_add(op2).wrapping_add(carry);
        if (instruction >> 20) & 1 == 1 {
            let (n, z, c, v) = self.adc_flags(rn, op2, carry);
            self.set_flags(n, z, c, v);
        }
    }

    fn execute_subc(&mut self, instruction: u32)
        ensures
            ({
                let s = *old(self);
                let rn = operand_register(s, rn_field(instruction));
                let op2 = operand2(s, instruction).0;
                let cy = carry_bit(s.cpsr);
                *final(self) == carry_op_result(s, instruction, wrap32(rn - op2 + cy - 1), sbc_nzcv(rn, op2, cy))
            }),
    {
        let rn = self.read_register((instruction >> 16) & 0xF);
        let rd = (instruction >> 12) & 0xF;
        let (op2, _carry) = self.decode_op2(instruction);
        let carry = (self.cpsr >> 29) & 1;
        proof {
            lemma_carry_bit(self.cpsr);
        }
        self.registers[rd as usize] = rn.wrapping_sub(op2).wrapping_add(carry).wrapping_sub(1);
        if (instruction >> 20) & 1 == 1 {
            let (n, z, c, v) = self.sbc_flags(rn, op2, carry);
            self.set_flags(n, z, c, v);
        }
    }

    fn execute_rsb(&mut self, instruction: u32)
        ensures
            ({
                let s = *old(self);
                let rn = operand_register(s, rn_field(instruction));
                let op2 = operand2(s, instruction).0;
                *final(self) == carry_op_result(s, instruction, wrap32(op2 - rn), sub_nzcv(op2, rn))
            }),
    {
        let rd = (instruction >> 12) & 0xF;
        let rn = self.read_register((instruction >> 16) & 0xF);
        let (op2, _carry) = self.decode_op2(instruction);
        let result = op2.wrapping_sub(rn);
        self.registers[rd as usize] = result;
        if (instruction >> 20) & 1 == 1 {
            let (n, z, c, v) = self.sub_flags(op2, rn);
            self.set_flags(n, z, c, v);
        }
    }

    fn execute_rsc(&mut self, instruction: u32)
        ensures
            ({
                let s = *old(self);
                let rn = operand_register(s, rn_field(instruction));
                let op2 = operand2(s, instruction).0;
                let cy = carry_bit(s.cpsr);
                *final(self) == carry_op_result(s, instruction, wrap32(op2 - rn + cy - 1), sbc_nzcv(op2, rn, cy))
            }),
    {
        let rn = self.read_register((instruction >> 16) & 0xF);
        let rd = (instruction >> 12) & 0xF;
        let (op2, _carry) = self.decode_op2(instruction);
        let carry = (self.cpsr >> 29) & 1;
        proof {
            lemma_carry_bit(self.cpsr);
        }
        self.registers[rd as usize] = op2.wrapping_sub(rn).wrapping_add(carry).wrapping_sub(1);
        if (instruction >> 20) & 1 == 1 {
            let (n, z, c, v) = self.sbc_flags(op2, rn, carry);
            self.set_flags(n, z, c, v);
        }
    }
}

} // verus!
