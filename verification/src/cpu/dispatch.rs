//! Condition codes and the ARM-state instruction decoder.
use vstd::prelude::*;
use crate::bits::{bit, lemma_and_bound};
use crate::cpu::CPU;
use crate::bits::wrap32;
use crate::cpu::alu::{alu_result, add_sub_result, mov_result, restored_from_spsr};
use crate::cpu::exceptions::{irq_entered, is_known_mode, lemma_entry_cpsr, lemma_switch_mode_round_trip, switched, set_reg, MODE_IRQ, MODE_SVC};
use crate::cpu::psr::spsr_of;
use crate::cpu::shifter::{ror, operand_register};
use crate::cpu::branch::{branch_result, branch_exchange_result};
use crate::cpu::exceptions::{swi_entered, undefined_entered};
use crate::cpu::memory::{ldr_str_result, halfword_result, block_result};
use crate::cpu::mul::{mul_result, mul_implemented};
use crate::cpu::psr::psr_result;
use crate::memory_bus::MemoryBus;

verus! {

broadcast use lemma_and_bound;

/// Whether condition code `cond` (0 EQ, 1 NE, 2 CS, 3 CC, 4 MI, 5 PL, 6 VS, 7 VC,
/// 8 HI, 9 LS, 10 GE, 11 LT, 12 GT, 13 LE, 14 AL, 15 NV) holds for the N, Z, C, V
/// flags of `cpsr`.
pub open spec fn condition_passed(cpsr: u32, cond: u32) -> bool {
    let n = bit(cpsr, 31);
    let z = bit(cpsr, 30);
    let c = bit(cpsr, 29);
    let v = bit(cpsr, 28);
    if cond == 0 {
        z
    } else if cond == 1 {
        !z
    } else if cond == 2 {
        c
    } else if cond == 3 {
        !c
    } else if cond == 4 {
        n
    } else if cond == 5 {
        !n
    } else if cond == 6 {
        v
    } else if cond == 7 {
        !v
    } else if cond == 8 {
        c && !z
    } else if cond == 9 {
        !c || z
    } else if cond == 10 {
        n == v
    } else if cond == 11 {
        n != v
    } else if cond == 12 {
        !z && n == v
    } else if cond == 13 {
        z || n != v
    } else if cond == 14 {
        true
    } else {
        false
    }
}

/// Condition codes come in complementary pairs: flipping the low bit of any of
/// the sixteen codes negates it (EQ/NE, ..., GT/LE, AL/NV).
pub proof fn lemma_condition_pairs(cpsr: u32, cond: u32)
    requires
        cond < 16,
    ensures
        condition_passed(cpsr, cond ^ 1) == !condition_passed(cpsr, cond),
{
    assert(cond < 16 ==> (cond ^ 1) == (if cond % 2 == 0 { cond + 1 } else { cond - 1 })) by (bit_vector);
}

/// The ARM encodings that stop the emulator: a passing instruction of the BX group
/// other than BX itself, or a multiply outside MUL/MLA/UMULL/UMLAL/SMLAL.
pub open spec fn arm_halts(cpsr: u32, instruction: u32) -> bool {
    let g = (instruction >> 25) & 7;
    &&& condition_passed(cpsr, instruction >> 28)
    &&& (instruction >> 24) & 0xF != 0xF
    &&& (g == 0 || g == 1)
    &&& if (instruction >> 8) & 0xFFFFF == 0x12FFF {
        (instruction >> 4) & 0xF != 1
    } else {
        !(!bit(instruction, 25) && bit(instruction, 4) && bit(instruction, 7) && (instruction >> 5) & 3
            != 0) && !((instruction >> 23) & 3 == 2 && !bit(instruction, 20)) && (instruction >> 4)
            & 0xF == 9 && !bit(instruction, 25) && !mul_implemented(instruction)
    }
}

/// One ARM instruction (the PC already points past it). An instruction whose
/// condition fails does nothing. Otherwise bits 27-24 = 1111 is SWI; bits 27-25
/// select undefined (11x), single data transfer (01x), branch (101), block
/// transfer (100), or (00x) BX, halfword transfer, PSR transfer, multiply or data
/// processing. `None` when the instruction stops the emulator (`arm_halts`) or a
/// memory access it makes is not defined.
pub open spec fn arm_step(s: CPU, b: MemoryBus, instruction: u32) -> Option<(CPU, MemoryBus)> {
    let g = (instruction >> 25) & 7;
    if !condition_passed(s.cpsr, instruction >> 28) {
        Some((s, b))
    } else if (instruction >> 24) & 0xF == 0xF {
        Some((swi_entered(s), b))
    } else if g == 6 || g == 7 {
        Some((undefined_entered(s), b))
    } else if g == 2 || g == 3 {
        ldr_str_result(s, b, instruction)
    } else if g == 0 || g == 1 {
        if (instruction >> 8) & 0xFFFFF == 0x12FFF {
            if (instruction >> 4) & 0xF == 1 {
                Some((branch_exchange_result(s, instruction), b))
            } else {
                None
            }
        } else if !bit(instruction, 25) && bit(instruction, 4) && bit(instruction, 7) && (instruction
            >> 5) & 3 != 0 {
            halfword_result(s, b, instruction)
        } else if (instruction >> 23) & 3 == 2 && !bit(instruction, 20) {
            Some((psr_result(s, instruction), b))
        } else if (instruction >> 4) & 0xF == 9 && !bit(instruction, 25) {
            if mul_implemented(instruction) {
                Some((mul_result(s, instruction), b))
            } else {
                None
            }
        } else {
            Some((alu_result(s, instruction), b))
        }
    } else if g == 5 {
        Some((branch_result(s, instruction), b))
    } else {
        block_result(s, b, instruction)
    }
}

/// Returning from an interrupt: after IRQ entry from any mode but IRQ itself
/// (entering IRQ mode again overwrites LR_irq), the handler's return instruction `SUBS PC, LR, #4` (0xE25EF004) resumes at the
/// interrupted instruction with the interrupted CPSR and register file, and leaves
/// memory alone.
pub proof fn lemma_irq_return(s: CPU, b: MemoryBus)
    requires
        is_known_mode(s.cpsr & 0x1F),
        s.cpsr & 0x1F != MODE_IRQ,
    ensures
        arm_step(irq_entered(s), b, 0xE25E_F004) is Some,
        (arm_step(irq_entered(s), b, 0xE25E_F004)->0).1 == b,
        (arm_step(irq_entered(s), b, 0xE25E_F004)->0).0.registers@ == s.registers@,
        (arm_step(irq_entered(s), b, 0xE25E_F004)->0).0.cpsr == s.cpsr,
{
    let i: u32 = 0xE25E_F004;
    assert((i >> 28) == 14 && (i >> 24) & 0xF == 2 && (i >> 25) & 7 == 1 && (i >> 8) & 0xFFFFF
        == 0x25EF0 && (i >> 25) & 1 == 1 && (i >> 23) & 3 == 0 && (i >> 4) & 0xF == 0 && (i >> 21)
        & 0xF == 2 && (i >> 20) & 1 == 1 && (i >> 16) & 0xF == 14 && (i >> 12) & 0xF == 15 && (i
        >> 8) & 0xF == 0 && i & 0xFF == 4 && 0x12u32 & 0x20 == 0) by (bit_vector)
        requires
            i == 0xE25E_F004u32,
    ;
    assert(ror(4, 0) == 4);
    let m = s.cpsr & 0x1F;
    let t = irq_entered(s);
    lemma_entry_cpsr(switched(s, MODE_IRQ).cpsr, MODE_IRQ);
    assert(t.cpsr & 0x1F == MODE_IRQ);
    assert(spsr_of(t) == s.cpsr);
    let u = set_reg(t, 15, s.registers[15]);
    assert(operand_register(t, 14) == ((s.registers[15] + 4) % 0x1_0000_0000) as u32);
    assert(wrap32(operand_register(t, 14) - 4) == s.registers[15]);
    assert(add_sub_result(t, i, true) == restored_from_spsr(u));
    lemma_switch_mode_round_trip(s, MODE_IRQ);
    let r = restored_from_spsr(u);
    let w = switched(switched(s, MODE_IRQ), m);
    assert(r.registers@ =~= w.registers@);
}

/// Returning from a software interrupt: after SWI entry from any mode but
/// Supervisor (entering Supervisor mode again overwrites LR_svc), the BIOS return
/// `MOVS PC, LR` (0xE1B0F00E) resumes after the SWI, at an even address, with the
/// caller's CPSR and register file, and leaves memory alone.
pub proof fn lemma_swi_return(s: CPU, b: MemoryBus)
    requires
        is_known_mode(s.cpsr & 0x1F),
        s.cpsr & 0x1F != MODE_SVC,
        s.registers[15] % 2 == 0,
    ensures
        arm_step(swi_entered(s), b, 0xE1B0_F00E) is Some,
        (arm_step(swi_entered(s), b, 0xE1B0_F00E)->0).1 == b,
        (arm_step(swi_entered(s), b, 0xE1B0_F00E)->0).0.registers@ == s.registers@,
        (arm_step(swi_entered(s), b, 0xE1B0_F00E)->0).0.cpsr == s.cpsr,
{
    let i: u32 = 0xE1B0_F00E;
    let pc = s.registers[15];
    assert((i >> 28) == 14 && (i >> 24) & 0xF == 1 && (i >> 25) & 7 == 0 && (i >> 8) & 0xFFFFF
        == 0x1B0F0 && (i >> 25) & 1 == 0 && (i >> 4) & 1 == 0 && (i >> 7) & 1 == 0 && (i >> 23) & 3
        == 3 && (i >> 4) & 0xF == 0 && (i >> 21) & 0xF == 0xD && (i >> 20) & 1 == 1 && (i >> 12) & 0xF
        == 15 && i & 0xF == 14 && (i >> 5) & 3 == 0 && (i >> 7) & 0x1F == 0 && 0x13u32 & 0x20 == 0 && (
    pc % 2 == 0 ==> pc & !1u32 == pc)) by (bit_vector)
        requires
            i == 0xE1B0_F00Eu32,
    ;
    let m = s.cpsr & 0x1F;
    let t = swi_entered(s);
    lemma_entry_cpsr(switched(s, MODE_SVC).cpsr, MODE_SVC);
    assert(t.cpsr & 0x1F == MODE_SVC);
    assert(spsr_of(t) == s.cpsr);
    assert(operand_register(t, 14) == pc);
    let u = set_reg(t, 15, pc);
    assert(mov_result(t, i) == restored_from_spsr(u));
    assert(alu_result(t, i) == mov_result(t, i));
    lemma_switch_mode_round_trip(s, MODE_SVC);
    let r = restored_from_spsr(u);
    let w = switched(switched(s, MODE_SVC), m);
    assert(r.registers@ =~= w.registers@);
}

/// Subroutine call and return: an unconditional BL (top byte 0xEB) taken in ARM
/// state from an even return address, followed at its target by `MOV PC, LR`
/// (0xE1A0F00E), resumes at the instruction after the BL in ARM state, with R0-R13
/// and the CPSR as before the call and LR holding the return address. `pc` is the
/// PC that the fetch of the return instruction left; neither step touches memory.
pub proof fn lemma_call_return(s: CPU, b: MemoryBus, bl: u32, pc: u32)
    requires
        bl >> 24 == 0xEB,
        s.registers[15] % 2 == 0,
        s.cpsr & 0x20 == 0,
    ensures
        arm_step(s, b, bl) == Some((branch_result(s, bl), b)),
        arm_step(set_reg(branch_result(s, bl), 15, pc), b, 0xE1A0_F00E) is Some,
        ({
            let (r, rb) = arm_step(set_reg(branch_result(s, bl), 15, pc), b, 0xE1A0_F00E)->0;
            &&& rb == b
            &&& r.registers[15] == s.registers[15]
            &&& r.registers[14] == s.registers[15]
            &&& forall|i: int| 0 <= i < 14 ==> r.registers[i] == s.registers[i]
            &&& r.cpsr == s.cpsr
        }),
{
    let i: u32 = 0xE1A0_F00E;
    let ret = s.registers[15];
    let c = s.cpsr;
    assert((bl >> 28) == 14 && (bl >> 24) & 0xF == 0xB && (bl >> 25) & 7 == 5 && (bl >> 24) & 1 == 1
        && (i >> 28) == 14 && (i >> 24) & 0xF == 1 && (i >> 25) & 7 == 0 && (i >> 8) & 0xFFFFF
        == 0x1A0F0 && (i >> 25) & 1 == 0 && (i >> 4) & 1 == 0 && (i >> 7) & 1 == 0 && (i >> 23) & 3
        == 3 && (i >> 4) & 0xF == 0 && (i >> 21) & 0xF == 0xD && (i >> 20) & 1 == 0 && (i >> 12) & 0xF
        == 15 && i & 0xF == 14 && (i >> 5) & 3 == 0 && (i >> 7) & 0x1F == 0 && (ret % 2 == 0 ==> ret
        & !1u32 == ret && ret & 1 == 0) && (c & 0x20 == 0 ==> c & !0x20u32 == c)) by (bit_vector)
        requires
            bl >> 24 == 0xEB,
            i == 0xE1A0_F00Eu32,
    ;
    let t = set_reg(branch_result(s, bl), 15, pc);
    assert(t.registers[14] == ret);
    assert(operand_register(t, 14) == ret);
    assert(alu_result(t, i) == mov_result(t, i));
}

proof fn lemma_field_bits(x: u32)
    ensures
        (x >> 28) < 16,
        (x >> 28) & 0xF == x >> 28,
        ((x >> 25) & 1 == 1) == bit(x, 25),
        ((x >> 4) & 1 == 1) == bit(x, 4),
        ((x >> 7) & 1 == 1) == bit(x, 7),
        ((x >> 20) & 1 == 0) == !bit(x, 20),
        ((x >> 25) & 1 == 0) == !bit(x, 25),
{
    assert((x >> 28) < 16 && (x >> 28) & 0xF == x >> 28 && ((x >> 25) & 1 == 0) == !((x >> 25) & 1
        == 1) && ((x >> 20) & 1 == 0) == !((x >> 20) & 1 == 1)) by (bit_vector);
}

fn passes(cpsr: u32, condition: u32) -> (r: bool)
    requires
        condition < 16,
    ensures
        r == condition_passed(cpsr, condition),
{
    let n = (cpsr >> 31) & 1 == 1;
    let z = (cpsr >> 30) & 1 == 1;
    let c = (cpsr >> 29) & 1 == 1;
    let v = (cpsr >> 28) & 1 == 1;
    if condition == 0 {
        z
    } else if condition == 1 {
        !z
    } else if condition == 2 {
        c
    } else if condition == 3 {
        !c
    } else if condition == 4 {
        n
    } else if condition == 5 {
        !n
    } else if condition == 6 {
        v
    } else if condition == 7 {
        !v
    } else if condition == 8 {
        c && !z
    } else if condition == 9 {
        !c || z
    } else if condition == 10 {
        n == v
    } else if condition == 11 {
        n != v
    } else if condition == 12 {
        !z && (n == v)
    } else if condition == 13 {
        z || (n != v)
    } else if condition == 14 {
        true
    } else {
        false
    }
}

impl CPU {
    /// Whether condition code `condition` holds (see `condition_passed`).
    pub fn check_condition(&mut self, condition: u32) -> (r: bool)
        requires
            condition < 16,
        ensures
            r == condition_passed(old(self).cpsr, condition),
            *final(self) == *old(self),
    {
        passes(self.cpsr, condition)
    }

    fn check_flags(&mut self, instruction: u32) -> (r: bool)
        ensures
            r == condition_passed(old(self).cpsr, instruction >> 28),
            *final(self) == *old(self),
    {
        proof {
            lemma_field_bits(instruction);
        }
        self.check_condition((instruction >> 28) & 0xF)
    }

    /// Whether executing `instruction` in the current state would stop the
    /// emulator (see `arm_halts`).
    pub fn arm_halts(&self, instruction: u32) -> (r: bool)
        ensures
            r == arm_halts(self.cpsr, instruction),
    {
        proof {
            lemma_field_bits(instruction);
        }
        if !passes(self.cpsr, (instruction >> 28) & 0xF) {
            return false;
        }
        if (instruction >> 24) & 0xF == 0xF {
            return false;
        }
        let g = (instruction >> 25) & 0b111;
        if g != 0 && g != 1 {
            return false;
        }
        if (instruction >> 8) & 0xFFFFF == 0x12FFF {
            (instruction >> 4) & 0xF != 1
        } else {
            let op = (instruction >> 21) & 0xF;
            !((instruction >> 25) & 1 == 0 && (instruction >> 4) & 1 == 1 && (instruction >> 7) & 1
                == 1 && (instruction >> 5) & 0b11 != 0) && !((instruction >> 23) & 0b11 == 0b10
                && (instruction >> 20) & 1 == 0) && (instruction >> 4) & 0xF == 0b1001 && (
            instruction >> 25) & 1 == 0 && !(op == 0 || op == 1 || op == 4 || op == 5 || op == 7)
        }
    }

    /// Executes one ARM instruction (see `arm_step`). The instruction must not stop
    /// the emulator and its memory accesses must be defined.
    pub fn execute_instruction(&mut self, bus: &mut MemoryBus, instruction: u32)
        requires
            arm_step(*old(self), *old(bus), instruction) is Some,
        ensures
            (*final(self), *final(bus)) == arm_step(*old(self), *old(bus), instruction)->0,
    {
        proof {
            lemma_field_bits(instruction);
        }
        if !self.check_flags(instruction) {
            return;
        }
        let bits_27_24 = (instruction >> 24) & 0xF;
        if bits_27_24 == 0b1111 {
            self.execute_swi(bus, instruction);
        } else {
            let bits_27_25 = (instruction >> 25) & 0b111;
            if bits_27_25 == 0b110 || bits_27_25 == 0b111 {
                self.trigger_undefined();
            } else if bits_27_25 == 0b010 || bits_27_25 == 0b011 {
                self.execute_ldr_str(bus, instruction);
            } else if bits_27_25 == 0b000 || bits_27_25 == 0b001 {
                if (instruction >> 8) & 0xFFFFF == 0b00010010111111111111 {
                    self.decode_branch_exchange(instruction);
                } else if (instruction >> 25) & 1 == 0 && (instruction >> 4) & 1 == 1 && (instruction
                    >> 7) & 1 == 1 && (instruction >> 5) & 0b11 != 0 {
                    self.execute_halfword_transfer(bus, instruction);
                } else {
                    if (instruction >> 23) & 0b11 == 0b10 && (instruction >> 20) & 1 == 0b0 {
                        self.execute_psr(instruction);
                    } else if ((instruction >> 4) & 0xF == 0b1001) && (instruction >> 25) & 1 == 0 {
                        self.execute_mul_and_mul_acc_fullwords(instruction);
                    } else {
                        self.decode_alu(instruction);
                    }
                }
            } else if bits_27_25 == 0b101 {
                self.decode_branch(instruction);
            } else {
                self.decode_memory(bus, instruction);
            }
        }
    }
}

} // verus!
