//! The 16-bit THUMB instruction set, executed by the same CPU (CPSR bit 5 set).
use vstd::prelude::*;
use crate::bits::{bit, wrap32, signed, fits_i32, lemma_and_bound, lemma_and_bound16};
use crate::cpu::CPU;
use crate::cpu::alu::carry_bit;
use crate::cpu::dispatch::condition_passed;
use crate::cpu::exceptions::{set_reg, swi_entered};
use crate::cpu::flags::{with_nzcv, add_nzcv, sub_nzcv, adc_nzcv, sbc_nzcv, logical_nzcv};
use crate::cpu::memory::{sext8, sext16, with_pc_exchange, popcount};
use crate::cpu::shifter::shifted;
use crate::memory_bus::{
    MemoryBus, add32, load8, load16, load32, store16, store32, cpu_stored_byte,
};

verus! {

broadcast use lemma_and_bound, lemma_and_bound16;

/// The field of a THUMB instruction at bit `lo` under `mask`.
pub open spec fn field(instruction: u16, lo: u16, mask: u16) -> int {
    if lo == 0 {
        (instruction & mask) as int
    } else {
        ((instruction >> lo) & mask) as int
    }
}

/// THUMB.1 LSL/LSR/ASR Rd, Rs, #offset: the barrel shifter with an immediate
/// amount; N, Z and C are set, V is cleared.
pub open spec fn move_shifted_result(s: CPU, instruction: u16) -> CPU {
    let rm = s.registers[field(instruction, 3, 7)];
    let (r, c) = shifted(
        rm,
        ((instruction >> 11) & 3) as u32,
        ((instruction >> 6) & 0x1F) as u32,
        bit(s.cpsr, 29),
        false,
    );
    with_nzcv(set_reg(s, field(instruction, 0, 7), r), logical_nzcv(r, c))
}

/// THUMB.2 ADD/SUB Rd, Rs, Rn or #3-bit immediate, setting all flags.
pub open spec fn add_subtract_result(s: CPU, instruction: u16) -> CPU {
    let op = (instruction >> 9) & 3;
    let rsv = s.registers[field(instruction, 3, 7)];
    let nn = ((instruction >> 6) & 7) as u32;
    let operand = if op == 0 || op == 1 { s.registers[nn as int] } else { nn };
    let rd = field(instruction, 0, 7);
    if op == 0 || op == 2 {
        with_nzcv(set_reg(s, rd, wrap32(rsv + operand)), add_nzcv(rsv, operand))
    } else {
        with_nzcv(set_reg(s, rd, wrap32(rsv - operand)), sub_nzcv(rsv, operand))
    }
}

/// THUMB.3 MOV/CMP/ADD/SUB Rd, #8-bit immediate. MOV sets N and Z and keeps C and V;
/// the others set all flags (CMP writes no register).
pub open spec fn mov_compare_add_sub_result(s: CPU, instruction: u16) -> CPU {
    let op = (instruction >> 11) & 3;
    let rd = field(instruction, 8, 7);
    let v = s.registers[rd];
    let nn = (instruction & 0xFF) as u32;
    if op == 0 {
        with_nzcv(set_reg(s, rd, nn), (nn >= 0x8000_0000, nn == 0, bit(s.cpsr, 29), bit(s.cpsr, 28)))
    } else if op == 1 {
        with_nzcv(s, sub_nzcv(v, nn))
    } else if op == 2 {
        with_nzcv(set_reg(s, rd, wrap32(v + nn)), add_nzcv(v, nn))
    } else {
        with_nzcv(set_reg(s, rd, wrap32(v - nn)), sub_nzcv(v, nn))
    }
}

/// A register-shift ALU operation: Rd shifted by the whole value of Rs.
pub open spec fn alu_shift_result(s: CPU, rd: int, rdv: u32, shift_type: u32, rsv: u32) -> CPU {
    let (r, c) = shifted(rdv, shift_type, rsv, bit(s.cpsr, 29), true);
    with_nzcv(set_reg(s, rd, r), logical_nzcv(r, c))
}

/// THUMB.4 ALU operations Rd := Rd op Rs with opcode bits 9-6: AND, EOR, LSL, LSR,
/// ASR, ADC, SBC, ROR, TST, NEG, CMP, CMN, ORR, MUL, BIC, MVN. Logical operations
/// keep C (shifts take the shifter carry); MUL keeps C and V.
pub open spec fn thumb_alu_result(s: CPU, instruction: u16) -> CPU {
    let op = (instruction >> 6) & 0xF;
    let rd = field(instruction, 0, 7);
    let rdv = s.registers[rd];
    let rsv = s.registers[field(instruction, 3, 7)];
    let c = bit(s.cpsr, 29);
    let cy = carry_bit(s.cpsr);
    if op == 0 {
        with_nzcv(set_reg(s, rd, rdv & rsv), logical_nzcv(rdv & rsv, c))
    } else if op == 1 {
        with_nzcv(set_reg(s, rd, rdv ^ rsv), logical_nzcv(rdv ^ rsv, c))
    } else if op == 2 {
        alu_shift_result(s, rd, rdv, 0, rsv)
    } else if op == 3 {
        alu_shift_result(s, rd, rdv, 1, rsv)
    } else if op == 4 {
        alu_shift_result(s, rd, rdv, 2, rsv)
    } else if op == 5 {
        with_nzcv(set_reg(s, rd, wrap32(rdv + rsv + cy)), adc_nzcv(rdv, rsv, cy))
    } else if op == 6 {
        with_nzcv(set_reg(s, rd, wrap32(rdv - rsv - (1 - cy))), sbc_nzcv(rdv, rsv, cy))
    } else if op == 7 {
        alu_shift_result(s, rd, rdv, 3, rsv)
    } else if op == 8 {
        with_nzcv(s, logical_nzcv(rdv & rsv, c))
    } else if op == 9 {
        with_nzcv(set_reg(s, rd, wrap32(0 - rsv)), sub_nzcv(0, rsv))
    } else if op == 10 {
        with_nzcv(s, sub_nzcv(rdv, rsv))
    } else if op == 11 {
        with_nzcv(s, add_nzcv(rdv, rsv))
    } else if op == 12 {
        with_nzcv(set_reg(s, rd, rdv | rsv), logical_nzcv(rdv | rsv, c))
    } else if op == 13 {
        let r = wrap32(rdv * rsv);
        with_nzcv(set_reg(s, rd, r), (r >= 0x8000_0000, r == 0, c, bit(s.cpsr, 28)))
    } else if op == 14 {
        with_nzcv(set_reg(s, rd, rdv & !rsv), logical_nzcv(rdv & !rsv, c))
    } else {
        with_nzcv(set_reg(s, rd, !rsv), logical_nzcv(!rsv, c))
    }
}

/// THUMB.5 operations on R0-R15: ADD (no flags), CMP (flags), MOV (to R15 it also
/// sets Thumb state from bit 0 and clears bit 0), BX.
pub open spec fn hi_register_result(s: CPU, instruction: u16) -> CPU {
    let op = (instruction >> 8) & 3;
    let rs = field(instruction, 3, 7) + 8 * field(instruction, 6, 1);
    let rd = field(instruction, 0, 7) + 8 * field(instruction, 7, 1);
    let source = s.registers[rs];
    let dest = s.registers[rd];
    if op == 0 {
        set_reg(s, rd, wrap32(dest + source))
    } else if op == 1 {
        with_nzcv(s, sub_nzcv(dest, source))
    } else if op == 2 {
        if rd == 15 {
            with_pc_exchange(s, source)
        } else {
            set_reg(s, rd, source)
        }
    } else {
        with_pc_exchange(s, source)
    }
}

/// THUMB.6 LDR Rd, [PC, #nn*4]: the (advanced) PC plus 2 with bit 1 cleared, plus the offset.
pub open spec fn load_pc_relative_result(s: CPU, b: MemoryBus, instruction: u16) -> Option<(CPU, MemoryBus)> {
    let address = add32(add32(s.registers[15], 2) & !2u32, (instruction & 0xFF) * 4);
    match load32(b, address) {
        Some(v) => Some((set_reg(s, field(instruction, 8, 7), v), b)),
        None => None,
    }
}

/// THUMB.7 STR/STRB/LDR/LDRB Rd, [Rb, Ro].
pub open spec fn register_offset_result(s: CPU, b: MemoryBus, instruction: u16) -> Option<(CPU, MemoryBus)> {
    let op = (instruction >> 10) & 3;
    let rd = field(instruction, 0, 7);
    let address = add32(s.registers[field(instruction, 3, 7)], s.registers[field(instruction, 6, 7)] as int);
    if op == 0 {
        match store32(b, address, s.registers[rd]) {
            Some(b2) => Some((s, b2)),
            None => None,
        }
    } else if op == 1 {
        Some((s, cpu_stored_byte(b, address, s.registers[rd] as u8)))
    } else if op == 2 {
        match load32(b, address) {
            Some(v) => Some((set_reg(s, rd, v), b)),
            None => None,
        }
    } else {
        match load8(b, address) {
            Some(v) => Some((set_reg(s, rd, v as u32), b)),
            None => None,
        }
    }
}

/// THUMB.8 STRH (the low halfword of Rd), LDSB, LDRH, LDSH [Rb, Ro].
pub open spec fn sign_extended_result(s: CPU, b: MemoryBus, instruction: u16) -> Option<(CPU, MemoryBus)> {
    let op = (instruction >> 10) & 3;
    let rd = field(instruction, 0, 7);
    let address = add32(s.registers[field(instruction, 3, 7)], s.registers[field(instruction, 6, 7)] as int);
    if op == 0 {
        match store16(b, address, s.registers[rd]) {
            Some(b2) => Some((s, b2)),
            None => None,
        }
    } else if op == 1 {
        match load8(b, address) {
            Some(v) => Some((set_reg(s, rd, sext8(v)), b)),
            None => None,
        }
    } else if op == 2 {
        match load16(b, address) {
            Some(v) => Some((set_reg(s, rd, v as u32), b)),
            None => None,
        }
    } else {
        match load16(b, address) {
            Some(v) => Some((set_reg(s, rd, sext16(v)), b)),
            None => None,
        }
    }
}

/// THUMB.8 loads by value: at the address Rb + Ro, LDSB (opcode 1) and LDSH
/// (opcode 3) leave in Rd a word whose two's-complement value is the signed value
/// of the byte or halfword read, LDRH (opcode 2) the halfword read, unsigned; STRH
/// (opcode 0) stores the low halfword of Rd. No other register and no flag
/// changes, and loads leave memory alone.
pub proof fn lemma_sign_extended_transfers(s: CPU, b: MemoryBus, instruction: u16)
    requires
        sign_extended_result(s, b, instruction) is Some,
    ensures
        ({
            let op = (instruction >> 10) & 3;
            let rd = field(instruction, 0, 7);
            let address = add32(s.registers[field(instruction, 3, 7)], s.registers[field(instruction, 6, 7)] as int);
            let (r, b2) = sign_extended_result(s, b, instruction)->0;
            &&& r.cpsr == s.cpsr
            &&& forall|i: int| 0 <= i < 16 && i != rd ==> r.registers[i] == s.registers[i]
            &&& op == 0 ==> r == s && store16(b, address, s.registers[rd]) == Some(b2)
            &&& op == 1 ==> b2 == b && load8(b, address) is Some && signed(r.registers[rd]) == (if load8(
                b,
                address,
            )->0 >= 0x80 {
                load8(b, address)->0 - 0x100
            } else {
                load8(b, address)->0 as int
            })
            &&& op == 2 ==> b2 == b && load16(b, address) is Some && r.registers[rd] == load16(b, address)->0
            &&& op == 3 ==> b2 == b && load16(b, address) is Some && signed(r.registers[rd]) == (if load16(
                b,
                address,
            )->0 >= 0x8000 {
                load16(b, address)->0 - 0x1_0000
            } else {
                load16(b, address)->0 as int
            })
        }),
{
}

/// THUMB.9 STR/LDR (offset nn*4) and STRB/LDRB (offset nn) Rd, [Rb, #nn].
pub open spec fn immediate_offset_result(s: CPU, b: MemoryBus, instruction: u16) -> Option<(CPU, MemoryBus)> {
    let op = (instruction >> 11) & 3;
    let rd = field(instruction, 0, 7);
    let nn = field(instruction, 6, 0x1F);
    let address = add32(s.registers[field(instruction, 3, 7)], if op >= 2 { nn } else { nn * 4 });
    if op == 0 {
        match store32(b, address, s.registers[rd]) {
            Some(b2) => Some((s, b2)),
            None => None,
        }
    } else if op == 1 {
        match load32(b, address) {
            Some(v) => Some((set_reg(s, rd, v), b)),
            None => None,
        }
    } else if op == 2 {
        Some((s, cpu_stored_byte(b, address, s.registers[rd] as u8)))
    } else {
        match load8(b, address) {
            Some(v) => Some((set_reg(s, rd, v as u32), b)),
            None => None,
        }
    }
}

/// THUMB.10 halfword transfer at Rb + nn*2: LDRH when bit 11 (L) is set, STRH of
/// the low halfword of Rd otherwise.
pub open spec fn halfword_imm_result(s: CPU, b: MemoryBus, instruction: u16) -> Option<(CPU, MemoryBus)> {
    let rd = field(instruction, 0, 7);
    let address = add32(s.registers[field(instruction, 3, 7)], field(instruction, 6, 0x1F) * 2);
    if bit(instruction as u32, 11) {
        match load16(b, address) {
            Some(v) => Some((set_reg(s, rd, v as u32), b)),
            None => None,
        }
    } else {
        match store16(b, address, s.registers[rd]) {
            Some(b2) => Some((s, b2)),
            None => None,
        }
    }
}

/// THUMB.11 transfer at SP + nn*4: STR Rd when bit 11 (L) is clear, LDR otherwise.
pub open spec fn sp_relative_result(s: CPU, b: MemoryBus, instruction: u16) -> Option<(CPU, MemoryBus)> {
    let rd = field(instruction, 8, 7);
    let address = add32(s.registers[13], field(instruction, 0, 0xFF) * 4);
    if !bit(instruction as u32, 11) {
        match store32(b, address, s.registers[rd]) {
            Some(b2) => Some((s, b2)),
            None => None,
        }
    } else {
        match load32(b, address) {
            Some(v) => Some((set_reg(s, rd, v), b)),
            None => None,
        }
    }
}

/// THUMB.12 ADD Rd, PC/SP, #nn*4: the PC + 2 with bit 1 cleared when bit 11 is
/// clear, SP when it is set.
pub open spec fn relative_address_result(s: CPU, instruction: u16) -> CPU {
    let off = field(instruction, 0, 0xFF) * 4;
    let v = if !bit(instruction as u32, 11) {
        add32(add32(s.registers[15], 2) & !2u32, off)
    } else {
        add32(s.registers[13], off)
    };
    set_reg(s, field(instruction, 8, 7), v)
}

/// THUMB.13 ADD SP, #+/-nn*4.
pub open spec fn offset_sp_result(s: CPU, instruction: u16) -> CPU {
    let nn = field(instruction, 0, 0x7F) * 4;
    set_reg(s, 13, if bit(instruction as u32, 7) { add32(s.registers[13], -nn) } else { add32(s.registers[13], nn) })
}

/// Registers `k-1` down to 0 of a PUSH list, each stored at SP after SP drops by 4.
#[verifier::opaque]
pub open spec fn push_loop(s: CPU, b: MemoryBus, rlist: u32, k: nat) -> Option<(CPU, MemoryBus)>
    decreases k,
{
    if k == 0 {
        Some((s, b))
    } else if !bit(rlist, (k - 1) as u32) {
        push_loop(s, b, rlist, (k - 1) as nat)
    } else {
        let sp = add32(s.registers[13], -4);
        let s1 = set_reg(s, 13, sp);
        match store32(b, sp, s1.registers[k - 1]) {
            None => None,
            Some(b2) => push_loop(s1, b2, rlist, (k - 1) as nat),
        }
    }
}

/// Registers `i` .. 7 of a POP list, each loaded from SP, SP then rising by 4.
#[verifier::opaque]
pub open spec fn pop_loop(s: CPU, b: MemoryBus, rlist: u32, i: nat) -> Option<(CPU, MemoryBus)>
    decreases 8 - i,
{
    if i >= 8 {
        Some((s, b))
    } else if !bit(rlist, i as u32) {
        pop_loop(s, b, rlist, i + 1)
    } else {
        match load32(b, s.registers[13]) {
            None => None,
            Some(v) => {
                let s1 = set_reg(s, i as int, v);
                pop_loop(set_reg(s1, 13, add32(s1.registers[13], 4)), b, rlist, i + 1)
            },
        }
    }
}

/// THUMB.14 PUSH {Rlist, LR} (LR first, then the list from R7 down, SP falling) and
/// POP {Rlist, PC} (the list from R0 up, then the PC with Thumb state from bit 0).
pub open spec fn push_pop_result(s: CPU, b: MemoryBus, instruction: u16) -> Option<(CPU, MemoryBus)> {
    let rlist = (instruction & 0xFF) as u32;
    let lr = bit(instruction as u32, 8);
    if !bit(instruction as u32, 11) {
        if lr {
            let sp = add32(s.registers[13], -4);
            let s1 = set_reg(s, 13, sp);
            match store32(b, sp, s1.registers[14]) {
                None => None,
                Some(b1) => push_loop(s1, b1, rlist, 8),
            }
        } else {
            push_loop(s, b, rlist, 8)
        }
    } else {
        match pop_loop(s, b, rlist, 0) {
            None => None,
            Some((s1, b1)) => if lr {
                match load32(b1, s1.registers[13]) {
                    None => None,
                    Some(v) => Some((with_pc_exchange(set_reg(s1, 13, add32(s1.registers[13], 4)), v), b1)),
                }
            } else {
                Some((s1, b1))
            },
        }
    }
}

/// Registers `i` .. 7 of an LDMIA/STMIA list at ascending addresses from `address`.
#[verifier::opaque]
pub open spec fn multiple_loop(s: CPU, b: MemoryBus, instruction: u16, i: nat, address: u32) -> Option<(CPU, MemoryBus)>
    decreases 8 - i,
{
    if i >= 8 {
        Some((s, b))
    } else if !bit((instruction & 0xFF) as u32, i as u32) {
        multiple_loop(s, b, instruction, i + 1, address)
    } else if bit(instruction as u32, 11) {
        match load32(b, address) {
            None => None,
            Some(v) => multiple_loop(set_reg(s, i as int, v), b, instruction, i + 1, add32(address, 4)),
        }
    } else {
        match store32(b, address, s.registers[i as int]) {
            None => None,
            Some(b2) => multiple_loop(s, b2, instruction, i + 1, add32(address, 4)),
        }
    }
}

/// THUMB.15 LDMIA/STMIA Rb!, {Rlist}: the base is then set to its old value plus 4
/// per listed register (also when it was loaded).
pub open spec fn multiple_result(s: CPU, b: MemoryBus, instruction: u16) -> Option<(CPU, MemoryBus)> {
    let base = field(instruction, 8, 7);
    let rb = s.registers[base];
    match multiple_loop(s, b, instruction, 0, rb) {
        None => None,
        Some((s1, b1)) => Some(
            (set_reg(s1, base, add32(rb, 4 * popcount((instruction & 0xFF) as u32, 8) as int)), b1),
        ),
    }
}

/// Sign-extension of an 8-bit branch offset.
pub open spec fn sext8_int(x: int) -> int {
    if x >= 0x80 { x - 0x100 } else { x }
}

/// Sign-extension of an 11-bit branch offset.
pub open spec fn sext11_int(x: int) -> int {
    if x >= 0x400 { x - 0x800 } else { x }
}

/// The target of a THUMB branch computed in signed 32-bit arithmetic: PC + 2 +
/// 2 * offset. `None` when that sum overflows.
pub open spec fn branch_target(pc: u32, offset: int) -> Option<u32> {
    if fits_i32(signed(pc) + 2 + 2 * offset) {
        Some(wrap32(pc + 2 + 2 * offset))
    } else {
        None
    }
}

/// THUMB.16 B{cond}: when the condition holds the PC moves by the signed 8-bit
/// offset times 2 (plus 2). `None` when the target overflows a signed word.
pub open spec fn conditional_branch_result(s: CPU, instruction: u16) -> Option<CPU> {
    if condition_passed(s.cpsr, ((instruction >> 8) & 0xF) as u32) {
        match branch_target(s.registers[15], sext8_int(field(instruction, 0, 0xFF))) {
            Some(t) => Some(set_reg(s, 15, t)),
            None => None,
        }
    } else {
        Some(s)
    }
}

/// THUMB.18 B: the PC moves by the signed 11-bit offset times 2 (plus 2).
pub open spec fn unconditional_branch_result(s: CPU, instruction: u16) -> Option<CPU> {
    match branch_target(s.registers[15], sext11_int(field(instruction, 0, 0x7FF))) {
        Some(t) => Some(set_reg(s, 15, t)),
        None => None,
    }
}

/// THUMB.19 long branch with link. First half (11110): LR := PC + 2 + signed
/// offset * 4096. Second half (11111): PC := LR + nn*2, LR := old PC | 1. BLX
/// suffix (11101): PC := (LR + nn*2) with bit 0 cleared, LR := (old PC + 2) | 1,
/// ARM state.
pub open spec fn long_branch_result(s: CPU, instruction: u16) -> CPU {
    let op = (instruction >> 11) & 0x1F;
    let nn = field(instruction, 0, 0x7FF);
    if op == 0x1E {
        set_reg(s, 14, wrap32(s.registers[15] + 2 + sext11_int(nn) * 4096))
    } else if op == 0x1F {
        set_reg(set_reg(s, 15, wrap32(s.registers[14] + nn * 2)), 14, s.registers[15] | 1)
    } else {
        set_reg(
            set_reg(CPU { cpsr: s.cpsr & !0x20u32, ..s }, 15, wrap32(s.registers[14] + nn * 2) & !1u32),
            14,
            add32(s.registers[15], 2) | 1,
        )
    }
}

/// One THUMB instruction (the PC already points past it), decoded by its top bits.
/// `None` when a memory access is not defined or a branch target overflows.
pub open spec fn thumb_step(s: CPU, b: MemoryBus, instruction: u16) -> Option<(CPU, MemoryBus)> {
    let top3 = (instruction >> 13) & 7;
    let top4 = (instruction >> 12) & 0xF;
    let top5 = (instruction >> 11) & 0x1F;
    let top6 = (instruction >> 10) & 0x3F;
    if top3 == 0 {
        if (instruction >> 11) & 3 == 3 {
            Some((add_subtract_result(s, instruction), b))
        } else {
            Some((move_shifted_result(s, instruction), b))
        }
    } else if top3 == 1 {
        Some((mov_compare_add_sub_result(s, instruction), b))
    } else if top3 == 3 {
        immediate_offset_result(s, b, instruction)
    } else if top4 == 0xD {
        if (instruction >> 8) == 0xDF {
            Some((swi_entered(s), b))
        } else {
            match conditional_branch_result(s, instruction) {
                Some(s2) => Some((s2, b)),
                None => None,
            }
        }
    } else if top4 == 0xC {
        multiple_result(s, b, instruction)
    } else if top4 == 0x8 {
        halfword_imm_result(s, b, instruction)
    } else if top4 == 0xA {
        Some((relative_address_result(s, instruction), b))
    } else if top4 == 0x9 {
        sp_relative_result(s, b, instruction)
    } else if top4 == 0x5 {
        if !bit(instruction as u32, 9) {
            register_offset_result(s, b, instruction)
        } else {
            sign_extended_result(s, b, instruction)
        }
    } else if top4 == 0xB {
        if (instruction >> 8) == 0xB0 {
            Some((offset_sp_result(s, instruction), b))
        } else {
            push_pop_result(s, b, instruction)
        }
    } else if top5 == 0x1E || top5 == 0x1F || top5 == 0x1D {
        Some((long_branch_result(s, instruction), b))
    } else if top5 == 0x1C {
        match unconditional_branch_result(s, instruction) {
            Some(s2) => Some((s2, b)),
            None => None,
        }
    } else if top5 == 0x9 {
        load_pc_relative_result(s, b, instruction)
    } else if top6 == 0x10 {
        Some((thumb_alu_result(s, instruction), b))
    } else {
        Some((hi_register_result(s, instruction), b))
    }
}

proof fn lemma_thumb_fields(i: u16)
    ensures
        (i >> 13) & 7 == 0 || (i >> 13) & 7 == 1 || (i >> 13) & 7 == 3 || (i >> 12) & 0xF == 0xD
            || (i >> 12) & 0xF == 0xC || (i >> 12) & 0xF == 0x8 || (i >> 12) & 0xF == 0xA || (i
            >> 12) & 0xF == 0x9 || (i >> 12) & 0xF == 0x5 || (i >> 12) & 0xF == 0xB || (i >> 11)
            & 0x1F == 0x1E || (i >> 11) & 0x1F == 0x1F || (i >> 11) & 0x1F == 0x1D || (i >> 11)
            & 0x1F == 0x1C || (i >> 11) & 0x1F == 0x9 || (i >> 10) & 0x3F == 0x10 || (i >> 10)
            & 0x3F == 0x11,
        ((i >> 9) & 1 == 0) == !bit(i as u32, 9),
        ((i >> 8) & 1 == 1) == bit(i as u32, 8),
        ((i >> 11) & 1 == 0) == !bit(i as u32, 11),
        ((i >> 7) & 1 == 1) == bit(i as u32, 7),
        ((i >> 7) & 1) <= 1,
        ((i >> 8) & 1) <= 1,
        ((i >> 11) & 1) <= 1,
        ((i >> 9) & 1) <= 1,
{
    let x = i as u32;
    assert(((i >> 13) & 7 == 0 || (i >> 13) & 7 == 1 || (i >> 13) & 7 == 3 || (i >> 12) & 0xF
        == 0xD || (i >> 12) & 0xF == 0xC || (i >> 12) & 0xF == 0x8 || (i >> 12) & 0xF == 0xA || (i
        >> 12) & 0xF == 0x9 || (i >> 12) & 0xF == 0x5 || (i >> 12) & 0xF == 0xB || (i >> 11)
        & 0x1F == 0x1E || (i >> 11) & 0x1F == 0x1F || (i >> 11) & 0x1F == 0x1D || (i >> 11) & 0x1F
        == 0x1C || (i >> 11) & 0x1F == 0x9 || (i >> 10) & 0x3F == 0x10 || (i >> 10) & 0x3F == 0x11)
        && ((i >> 9) & 1 == 0) == ((x >> 9) & 1 != 1) && ((i >> 8) & 1 == 1) == ((x >> 8) & 1 == 1)
        && ((i >> 11) & 1 == 0) == ((x >> 11) & 1 != 1) && ((i >> 7) & 1 == 1) == ((x >> 7) & 1
        == 1)) by (bit_vector)
        requires
            x == i as u32,
    ;
}

/// Subroutine call and return in THUMB state: the BL pair (a prefix `p` with top
/// five bits 11110, then a suffix `q` with 11111) branches to PC + 2 + offset, and
/// `BX LR` (0x4770) at the target resumes at the instruction after the pair, still
/// in THUMB state, with R0-R13 and the CPSR as before the call and LR holding the
/// return address with bit 0 set. `pc1` and `pc2` are the PCs that the fetches of
/// the suffix and of the return instruction left (`pc1` is the return address);
/// no step touches memory.
pub proof fn lemma_thumb_call_return(s: CPU, b: MemoryBus, p: u16, q: u16, pc1: u32, pc2: u32)
    requires
        p >> 11 == 0x1E,
        q >> 11 == 0x1F,
        pc1 % 2 == 0,
        s.cpsr & 0x20 != 0,
    ensures
        thumb_step(s, b, p) == Some((long_branch_result(s, p), b)),
        thumb_step(set_reg(long_branch_result(s, p), 15, pc1), b, q) == Some(
            (long_branch_result(set_reg(long_branch_result(s, p), 15, pc1), q), b),
        ),
        long_branch_result(set_reg(long_branch_result(s, p), 15, pc1), q).registers[15] == wrap32(
            wrap32(s.registers[15] + 2 + sext11_int((p & 0x7FF) as int) * 4096) + (q & 0x7FF) * 2,
        ),
        ({
            let callee = long_branch_result(set_reg(long_branch_result(s, p), 15, pc1), q);
            let (r, rb) = thumb_step(set_reg(callee, 15, pc2), b, 0x4770)->0;
            &&& thumb_step(set_reg(callee, 15, pc2), b, 0x4770) is Some
            &&& rb == b
            &&& r.registers[15] == pc1
            &&& r.registers[14] == pc1 | 1
            &&& forall|i: int| 0 <= i < 14 ==> r.registers[i] == s.registers[i]
            &&& r.cpsr == s.cpsr
        }),
{
    let x: u16 = 0x4770;
    let c = s.cpsr;
    assert((p >> 13) & 7 == 7 && (p >> 12) & 0xF == 0xF && (p >> 11) & 0x1F == 0x1E && (q >> 13) & 7
        == 7 && (q >> 12) & 0xF == 0xF && (q >> 11) & 0x1F == 0x1F && (x >> 13) & 7 == 2 && (x >> 12)
        & 0xF == 4 && (x >> 11) & 0x1F == 8 && (x >> 10) & 0x3F == 0x11 && (x >> 8) & 3 == 3 && (x
        >> 3) & 7 == 6 && (x >> 6) & 1 == 1 && (pc1 % 2 == 0 ==> (pc1 | 1) & !1u32 == pc1 && (pc1 | 1)
        & 1 == 1) && (c & 0x20 != 0 ==> c | 0x20 == c)) by (bit_vector)
        requires
            p >> 11 == 0x1E,
            q >> 11 == 0x1F,
            x == 0x4770u16,
    ;
    let s1 = set_reg(long_branch_result(s, p), 15, pc1);
    let callee = long_branch_result(s1, q);
    let t = set_reg(callee, 15, pc2);
    assert(t.registers[14] == pc1 | 1);
    assert(hi_register_result(t, x) == with_pc_exchange(t, pc1 | 1));
}

proof fn lemma_u16_bit(i: u16, k: u16)
    requires
        k < 16,
    ensures
        ((i >> k) & 1 == 1) == bit(i as u32, k as u32),
        ((i >> k) & 1) <= 1,
{
    let x = i as u32;
    let kk = k as u32;
    assert(((i >> k) & 1 == 1) == ((x >> kk) & 1 == 1)) by (bit_vector)
        requires
            x == i as u32,
            kk == k as u32,
            k < 16,
    ;
}

impl CPU {
    /// Executes one THUMB instruction (see `thumb_step`). Every 16-bit encoding
    /// falls in one of the implemented formats.
    pub fn execute_thumb_instruction(&mut self, bus: &mut MemoryBus, instruction: u16)
        requires
            thumb_step(*old(self), *old(bus), instruction) is Some,
        ensures
            (*final(self), *final(bus)) == thumb_step(*old(self), *old(bus), instruction)->0,
    {
        proof {
            lemma_thumb_fields(instruction);
        }
        let bits_13_15 = (instruction >> 13) & 0b111;
        if bits_13_15 == 0b000 {
            if (instruction >> 11) & 0b11 == 0b11 {
                self.execute_add_subtract(instruction)
            } else {
                self.execute_thumb_move_shifted(instruction)
            }
        } else if bits_13_15 == 0b001 {
            self.execute_mov_compare_add_sub(instruction)
        } else if bits_13_15 == 0b011 {
            self.execute_ldr_str_with_immediate_offset(bus, instruction)
        } else {
            let bits_15_12 = (instruction >> 12) & 0xF;
            if bits_15_12 == 0b1101 {
                if (instruction >> 8) == 0xDF {
                    self.execute_swi_thumb(bus);
                } else {
                    self.execute_conditional_branch(instruction);
                }
            } else if bits_15_12 == 0b1100 {
                self.execute_multiple_ldr_str(bus, instruction)
            } else if bits_15_12 == 0b1000 {
                self.execute_ldr_str_halfword(bus, instruction)
            } else if bits_15_12 == 0b1010 {
                self.execute_get_relative_address(instruction)
            } else if bits_15_12 == 0b1001 {
                self.execute_ldr_str_sp_relative(bus, instruction)
            } else if bits_15_12 == 0b0101 {
                if (instruction >> 9) & 1 == 0 {
                    self.execute_ldr_str_with_register_offset(bus, instruction)
                } else {
                    self.execute_ldr_str_sign_extended(bus, instruction);
                }
            } else if bits_15_12 == 0b1011 {
                if (instruction >> 8) == 0xB0 {
                    self.execute_offset_stack_pointer(instruction)
                } else {
                    self.execute_push_pop_registers(bus, instruction)
                }
            } else {
                let bits_15_11 = (instruction >> 11) & 0b11111;
                if bits_15_11 == 0b11110 || bits_15_11 == 0b11111 || bits_15_11 == 0b11101 {
                    self.excecute_bl_with_long_offset(instruction)
                } else if bits_15_11 == 0b11100 {
                    self.execute_unconditional_branch(instruction)
                } else if bits_15_11 == 0b1001 {
                    self.execute_load_pc_relative(bus, instruction)
                } else {
                    let bits_15_10 = (instruction >> 10) & 0b111111;
                    if bits_15_10 == 0b010000 {
                        self.decode_thumb_alu(instruction)
                    } else {
                        self.execute_hi_register_ops(instruction)
                    }
                }
            }
        }
    }

    fn execute_thumb_move_shifted(&mut self, instruction: u16)
        ensures
            *final(self) == move_shifted_result(*old(self), instruction),
    {
        let offset = (instruction >> 6) & 0b11111;
        let rs = (instruction >> 3) & 0b111;
        let rd = instruction & 0b111;
        let opcode = (instruction >> 11) & 0b11;
        let rm = self.registers[rs as usize];
        let carry_in = (self.cpsr >> 29) & 1 == 1;
        let (result, carry) = self.apply_shift(rm, opcode as u32, offset as u32, carry_in, false);
        self.registers[rd as usize] = result;
        let (n, z, c, v) = self.logical_flags(result, carry);
        self.set_flags(n, z, c, v);
    }

    #[verifier::rlimit(30)]
    fn execute_add_subtract(&mut self, instruction: u16)
        ensures
            *final(self) == add_subtract_result(*old(self), instruction),
    {
        let opcode = (instruction >> 9) & 0b11;
        let rs = (instruction >> 3) & 0b111;
        let rd = instruction & 0b111;
        let value_rn_nn = (instruction >> 6) & 0b111;
        let rn = self.registers[value_rn_nn as usize];
        let rsv = self.registers[rs as usize];
        if opcode == 0 {
            self.registers[rd as usize] = rsv.wrapping_add(rn);
            let (n, z, c, v) = self.add_flags(rsv, rn);
            self.set_flags(n, z, c, v);
        } else if opcode == 1 {
            self.registers[rd as usize] = rsv.wrapping_sub(rn);
            let (n, z, c, v) = self.sub_flags(rsv, rn);
            self.set_flags(n, z, c, v);
        } else if opcode == 2 {
            self.registers[rd as usize] = rsv.wrapping_add(value_rn_nn as u32);
            let (n, z, c, v) = self.add_flags(rsv, value_rn_nn as u32);
            self.set_flags(n, z, c, v);
        } else {
            self.registers[rd as usize] = rsv.wrapping_sub(value_rn_nn as u32);
            let (n, z, c, v) = self.sub_flags(rsv, value_rn_nn as u32);
            self.set_flags(n, z, c, v);
        }
    }

    fn execute_mov_compare_add_sub(&mut self, instruction: u16)
        ensures
            *final(self) == mov_compare_add_sub_result(*old(self), instruction),
    {
        let opcode = (instruction >> 11) & 0b11;
        let rd = (instruction >> 8) & 0b111;
        let rd_val = self.registers[rd as usize];
        let nn = instruction & 0xFF;
        if opcode == 0 {
            self.registers[rd as usize] = nn as u32;
            let c = (self.cpsr >> 29) & 1 == 1;
            let (n, z, _, _) = self.logical_flags(nn as u32, c);
            let v = (self.cpsr >> 28) & 1 == 1;
            self.set_flags(n, z, c, v);
        } else if opcode == 1 {
            let (n, z, c, v) = self.sub_flags(rd_val, nn as u32);
            self.set_flags(n, z, c, v);
        } else if opcode == 2 {
            self.registers[rd as usize] = rd_val.wrapping_add(nn as u32);
            let (n, z, c, v) = self.add_flags(rd_val, nn as u32);
            self.set_flags(n, z, c, v);
        } else {
            self.registers[rd as usize] = rd_val.wrapping_sub(nn as u32);
            let (n, z, c, v) = self.sub_flags(rd_val, nn as u32);
            self.set_flags(n, z, c, v);
        }
    }
}

impl CPU {
    #[verifier::spinoff_prover]
    #[verifier::rlimit(60)]
    fn decode_thumb_alu(&mut self, instruction: u16)
        ensures
            *final(self) == thumb_alu_result(*old(self), instruction),
    {
        let opcode = (instruction >> 6) & 0xF;
        let rs = (instruction >> 3) & 0b111;
        let rd = instruction & 0b111;
        let rd_val = self.registers[rd as usize];
        let rs_val = self.registers[rs as usize];
        let cflag = (self.cpsr >> 29) & 1 == 1;
        let cpsr = self.cpsr;
        let cy = (cpsr >> 29) & 1;
        assert(cy <= 1) by (bit_vector)
            requires
                cy == (cpsr >> 29) & 1,
        ;
        if opcode == 0x0 {
            let result = rd_val & rs_val;
            self.registers[rd as usize] = rd_val & rs_val;
            let (n, z, c, v) = self.logical_flags(result, cflag);
            self.set_flags(n, z, c, v);
        } else if opcode == 0x1 {
            let result = rd_val ^ rs_val;
            self.registers[rd as usize] = result;
            let (n, z, c, v) = self.logical_flags(result, cflag);
            self.set_flags(n, z, c, v);
        } else if opcode == 0x2 || opcode == 0x3 || opcode == 0x4 || opcode == 0x7 {
            let shift_type: u32 = if opcode == 0x2 {
                0b00
            } else if opcode == 0x3 {
                0b01
            } else if opcode == 0x4 {
                0b10
            } else {
                0b11
            };
            let (result, carry) = self.apply_shift(rd_val, shift_type, rs_val, cflag, true);
            self.registers[rd as usize] = result;
            let (n, z, c, v) = self.logical_flags(result, carry);
            self.set_flags(n, z, c, v);
        } else if opcode == 0x5 {
            let result = rd_val.wrapping_add(rs_val).wrapping_add(cy);
            self.registers[rd as usize] = result;
            let (n, z, c, v) = self.adc_flags(rd_val, rs_val, cy);
            self.set_flags(n, z, c, v);
        } else if opcode == 0x6 {
            let result = rd_val.wrapping_sub(rs_val).wrapping_sub(1 - cy);
            self.registers[rd as usize] = result;
            let (n, z, c, v) = self.sbc_flags(rd_val, rs_val, cy);
            self.set_flags(n, z, c, v);
        } else if opcode == 0x8 {
            let result = rd_val & rs_val;
            let (n, z, c, v) = self.logical_flags(result, cflag);
            self.set_flags(n, z, c, v);
        } else if opcode == 0x9 {
            let result = 0u32.wrapping_sub(rs_val);
            self.registers[rd as usize] = result;
            let (n, z, c, v) = self.sub_flags(0, rs_val);
            self.set_flags(n, z, c, v);
        } else if opcode == 0xA {
            let (n, z, c, v) = self.sub_flags(rd_val, rs_val);
            self.set_flags(n, z, c, v);
        } else if opcode == 0xB {
            let (n, z, c, v) = self.add_flags(rd_val, rs_val);
            self.set_flags(n, z, c, v);
        } else if opcode == 0xC {
            let result = rd_val | rs_val;
            self.registers[rd as usize] = result;
            let (n, z, c, v) = self.logical_flags(result, cflag);
            self.set_flags(n, z, c, v);
        } else if opcode == 0xD {
            let result = rd_val.wrapping_mul(rs_val);
            self.registers[rd as usize] = result;
            let v = (self.cpsr >> 28) & 1 == 1;
            proof {
                crate::bits::lemma_bit31(result);
            }
            let n = (result >> 31) == 1;
            let z = result == 0;
            self.set_flags(n, z, cflag, v);
        } else if opcode == 0xE {
            let result = rd_val & (!rs_val);
            self.registers[rd as usize] = result;
            let (n, z, c, v) = self.logical_flags(result, cflag);
            self.set_flags(n, z, c, v);
        } else {
            let result = !rs_val;
            self.registers[rd as usize] = result;
            let (n, z, c, v) = self.logical_flags(result, cflag);
            self.set_flags(n, z, c, v);
        }
    }

    fn execute_hi_register_ops(&mut self, instruction: u16)
        ensures
            *final(self) == hi_register_result(*old(self), instruction),
    {
        let opcode = (instruction >> 8) & 0b11;
        let msbs = (instruction >> 6) & 1;
        let msbd = (instruction >> 7) & 1;
        let rs = ((instruction >> 3) & 0b111) + (msbs * 8);
        let rd = (instruction & 0b111) + (msbd * 8);
        let source_reg = self.registers[rs as usize];
        let dest_reg = self.registers[rd as usize];
        if opcode == 0 {
            self.registers[rd as usize] = dest_reg.wrapping_add(source_reg);
        } else if opcode == 1 {
            let (n, z, c, v) = self.sub_flags(dest_reg, source_reg);
            self.set_flags(n, z, c, v);
        } else if opcode == 2 {
            if rd == 15 {
                if source_reg & 1 == 1 {
                    self.cpsr |= 0x20;
                } else {
                    self.cpsr &= !0x20u32;
                }
                self.registers[15] = source_reg & !1;
            } else {
                self.registers[rd as usize] = source_reg;
            }
        } else {
            if source_reg & 1 == 1 {
                self.cpsr |= 0x20;
            } else {
                self.cpsr &= !0x20u32;
            }
            self.registers[15] = source_reg & !1;
        }
    }

    fn execute_load_pc_relative(&mut self, bus: &mut MemoryBus, instruction: u16)
        requires
            load_pc_relative_result(*old(self), *old(bus), instruction) is Some,
        ensures
            (*final(self), *final(bus)) == load_pc_relative_result(*old(self), *old(bus), instruction)->0,
    {
        let rd = (instruction >> 8) & 0b111;
        let nn = (instruction & 0xFF) as u32 * 4;
        let address = (self.registers[15].wrapping_add(2) & !2).wrapping_add(nn);
        assert(address == add32(add32(old(self).registers[15], 2) & !2u32, (instruction & 0xFF) * 4));
        self.registers[rd as usize] = bus.read_u32(address);
    }

    fn execute_ldr_str_with_register_offset(&mut self, bus: &mut MemoryBus, instruction: u16)
        requires
            register_offset_result(*old(self), *old(bus), instruction) is Some,
        ensures
            (*final(self), *final(bus)) == register_offset_result(*old(self), *old(bus), instruction)->0,
    {
        let ro = (instruction >> 6) & 0b111;
        let rb = (instruction >> 3) & 0b111;
        let rd = instruction & 0b111;
        let opcode = (instruction >> 10) & 0b11;
        let rb_register = self.registers[rb as usize];
        let rd_register = self.registers[rd as usize];
        let ro_register = self.registers[ro as usize];
        let address = rb_register.wrapping_add(ro_register);
        if opcode == 0 {
            bus.write_u32(address, rd_register);
        } else if opcode == 1 {
            bus.write_u8(address, rd_register as u8);
        } else if opcode == 2 {
            self.registers[rd as usize] = bus.read_u32(address);
        } else {
            self.registers[rd as usize] = bus.read_u8(address) as u32;
        }
    }

    fn execute_ldr_str_sign_extended(&mut self, bus: &mut MemoryBus, instruction: u16)
        requires
            sign_extended_result(*old(self), *old(bus), instruction) is Some,
        ensures
            (*final(self), *final(bus)) == sign_extended_result(*old(self), *old(bus), instruction)->0,
    {
        let ro = (instruction >> 6) & 0b111;
        let rb = (instruction >> 3) & 0b111;
        let rd = instruction & 0b111;
        let opcode = (instruction >> 10) & 0b11;
        let rb_register = self.registers[rb as usize];
        let rd_register = self.registers[rd as usize];
        let ro_register = self.registers[ro as usize];
        let address = rb_register.wrapping_add(ro_register);
        if opcode == 0 {
            bus.write_u16(address, rd_register);
        } else if opcode == 1 {
            let byte = bus.read_u8(address);
            proof {
                crate::bits::lemma_sign_fill(byte, 0);
            }
            let sign_extended = if byte >= 0x80 {
                (byte as u32) | 0xFFFF_FF00
            } else {
                byte as u32
            };
            self.registers[rd as usize] = sign_extended;
        } else if opcode == 2 {
            let halfword = bus.read_u16(address);
            self.registers[rd as usize] = halfword as u32;
        } else {
            let halfword = bus.read_u16(address);
            proof {
                crate::bits::lemma_sign_fill(0, halfword);
            }
            let sign_extended = if halfword >= 0x8000 {
                (halfword as u32) | 0xFFFF_0000
            } else {
                halfword as u32
            };
            self.registers[rd as usize] = sign_extended;
        }
    }

    fn execute_ldr_str_with_immediate_offset(&mut self, bus: &mut MemoryBus, instruction: u16)
        requires
            immediate_offset_result(*old(self), *old(bus), instruction) is Some,
        ensures
            (*final(self), *final(bus)) == immediate_offset_result(*old(self), *old(bus), instruction)->0,
    {
        let rb = (instruction >> 3) & 0b111;
        let rd = instruction & 0b111;
        let nn = (instruction >> 6) & 0b11111;
        let rb_register = self.registers[rb as usize];
        let rd_register = self.registers[rd as usize];
        let opcode = (instruction >> 11) & 0b11;
        let is_byte = opcode >= 2;
        let scaled_nn = if is_byte {
            nn as u32
        } else {
            nn as u32 * 4
        };
        let address = rb_register.wrapping_add(scaled_nn);
        if opcode == 0 {
            bus.write_u32(address, rd_register);
        } else if opcode == 1 {
            self.registers[rd as usize] = bus.read_u32(address);
        } else if opcode == 2 {
            bus.write_u8(address, rd_register as u8);
        } else {
            self.registers[rd as usize] = bus.read_u8(address) as u32;
        }
    }

    fn execute_ldr_str_halfword(&mut self, bus: &mut MemoryBus, instruction: u16)
        requires
            halfword_imm_result(*old(self), *old(bus), instruction) is Some,
        ensures
            (*final(self), *final(bus)) == halfword_imm_result(*old(self), *old(bus), instruction)->0,
    {
        let offset = (instruction >> 6) & 0b11111;
        let base = (instruction >> 3) & 0b111;
        let rb = self.registers[base as usize];
        let source_dest = instruction & 0b111;
        let address = rb.wrapping_add((offset as u32) << 1);
        proof {
            crate::bits::lemma_small_shifts(offset);
            lemma_u16_bit(instruction, 11);
        }
        if (instruction >> 11) & 1 == 1 {
            self.registers[source_dest as usize] = bus.read_u16(address) as u32;
        } else {
            bus.write_u16(address, self.registers[source_dest as usize]);
        }
    }

    fn execute_ldr_str_sp_relative(&mut self, bus: &mut MemoryBus, instruction: u16)
        requires
            sp_relative_result(*old(self), *old(bus), instruction) is Some,
        ensures
            (*final(self), *final(bus)) == sp_relative_result(*old(self), *old(bus), instruction)->0,
    {
        let rd = (instruction >> 8) & 0b111;
        let offset = (instruction & 0xFF) << 2;
        proof {
            crate::bits::lemma_small_shifts(instruction & 0xFF);
            lemma_u16_bit(instruction, 11);
        }
        let address = self.registers[13].wrapping_add(offset as u32);
        if (instruction >> 11) & 1 == 0 {
            bus.write_u32(address, self.registers[rd as usize]);
        } else {
            self.registers[rd as usize] = bus.read_u32(address);
        }
    }

    fn execute_get_relative_address(&mut self, instruction: u16)
        ensures
            *final(self) == relative_address_result(*old(self), instruction),
    {
        let dest = (instruction >> 8) & 0b111;
        let offset = (instruction & 0xFF) << 2;
        proof {
            crate::bits::lemma_small_shifts(instruction & 0xFF);
            lemma_u16_bit(instruction, 11);
        }
        if (instruction >> 11) & 1 == 0 {
            let pc_aligned = (self.registers[15].wrapping_add(2)) & !2;
            self.registers[dest as usize] = pc_aligned.wrapping_add(offset as u32);
        } else {
            self.registers[dest as usize] = self.registers[13].wrapping_add(offset as u32);
        }
    }

    fn execute_offset_stack_pointer(&mut self, instruction: u16)
        ensures
            *final(self) == offset_sp_result(*old(self), instruction),
    {
        let nn = (instruction & 0b1111111) * 4;
        let opcode = (instruction >> 7) & 1;
        proof {
            lemma_u16_bit(instruction, 7);
        }
        if opcode == 0 {
            self.registers[13] = self.registers[13].wrapping_add(nn as u32);
        } else {
            self.registers[13] = self.registers[13].wrapping_sub(nn as u32);
        }
    }

    fn execute_swi_thumb(&mut self, bus: &mut MemoryBus)
        ensures
            *final(self) == swi_entered(*old(self)),
            *final(bus) == *old(bus),
    {
        self.execute_swi(bus, 0);
    }
}

proof fn lemma_branch_offsets(x: u32)
    ensures
        x <= 0xFF ==> (if x >= 0x80 { (x << 1u32) | 0xFFFF_FE00 } else { x << 1u32 }) == wrap32(
            2 * sext8_int(x as int),
        ),
        x <= 0x7FF ==> (if x >= 0x400 { (x << 1u32) | 0xFFFF_F000 } else { x << 1u32 }) == wrap32(
            2 * sext11_int(x as int),
        ),
        x <= 0x7FF ==> ((if x >= 0x400 { x | 0xFFFF_F800 } else { x }) << 12u32) == wrap32(
            sext11_int(x as int) * 4096,
        ),
        x <= 0x7FF ==> (x << 1u32) == x * 2,
{
    assert((x <= 0xFF && x >= 0x80 ==> (x << 1u32) | 0xFFFF_FE00 == (x * 2 + 0xFFFF_FE00) as u32)
        && (x <= 0xFF && x < 0x80 ==> (x << 1u32) == x * 2) && (x <= 0x7FF && x >= 0x400 ==> (x
        << 1u32) | 0xFFFF_F000 == (x * 2 + 0xFFFF_F000) as u32) && (x <= 0x7FF ==> (x << 1u32) == x
        * 2) && (x <= 0x7FF && x >= 0x400 ==> ((x | 0xFFFF_F800) << 12u32) == ((x * 4096) as u32
        & 0x7F_F000) | 0xFF80_0000) && (x <= 0x7FF && x < 0x400 ==> (x << 12u32) == x * 4096) && (x
        <= 0x7FF && x >= 0x400 ==> ((x * 4096) as u32 & 0x7F_F000) | 0xFF80_0000 == (x * 4096
        + 0xFF80_0000) as u32)) by (bit_vector);
}

impl CPU {
    fn execute_conditional_branch(&mut self, instruction: u16)
        requires
            conditional_branch_result(*old(self), instruction) is Some,
        ensures
            *final(self) == conditional_branch_result(*old(self), instruction)->0,
    {
        let opcode = ((instruction >> 8) & 0xF) as u32;
        if self.check_condition(opcode) {
            let x = (instruction & 0xFF) as u32;
            proof {
                lemma_branch_offsets(x);
                vstd::arithmetic::div_mod::lemma_add_mod_noop(
                    self.registers[15] + 2,
                    2 * sext8_int(x as int),
                    0x1_0000_0000,
                );
            }
            let off2: u32 = if x >= 0x80 {
                (x << 1) | 0xFFFF_FE00
            } else {
                x << 1
            };
            self.registers[15] = self.registers[15].wrapping_add(2).wrapping_add(off2);
        }
    }

    fn execute_unconditional_branch(&mut self, instruction: u16)
        requires
            unconditional_branch_result(*old(self), instruction) is Some,
        ensures
            *final(self) == unconditional_branch_result(*old(self), instruction)->0,
    {
        let x = (instruction & 0x7FF) as u32;
        proof {
            lemma_branch_offsets(x);
            vstd::arithmetic::div_mod::lemma_add_mod_noop(
                self.registers[15] + 2,
                2 * sext11_int(x as int),
                0x1_0000_0000,
            );
        }
        let off2: u32 = if x >= 0x400 {
            (x << 1) | 0xFFFF_F000
        } else {
            x << 1
        };
        self.registers[15] = self.registers[15].wrapping_add(2).wrapping_add(off2);
    }

    fn excecute_bl_with_long_offset(&mut self, instruction: u16)
        requires
            (instruction >> 11) & 0x1F == 0x1E || (instruction >> 11) & 0x1F == 0x1F || (instruction
                >> 11) & 0x1F == 0x1D,
        ensures
            *final(self) == long_branch_result(*old(self), instruction),
    {
        let opcode = (instruction >> 11) & 0b11111;
        let nn = (instruction & 0x7FF) as u32;
        proof {
            lemma_branch_offsets(nn);
        }
        if opcode == 0b11110 {
            let nn_signed = if nn >= 0x400 {
                nn | 0xFFFF_F800
            } else {
                nn
            };
            proof {
                vstd::arithmetic::div_mod::lemma_add_mod_noop(
                    self.registers[15] + 2,
                    sext11_int(nn as int) * 4096,
                    0x1_0000_0000,
                );
            }
            self.registers[14] = self.registers[15].wrapping_add(2).wrapping_add(nn_signed << 12);
        } else if opcode == 0b11111 {
            let temp = self.registers[15] | 1;
            self.registers[15] = self.registers[14].wrapping_add(nn << 1);
            self.registers[14] = temp;
        } else {
            let temp = self.registers[15].wrapping_add(2) | 1;
            self.registers[15] = self.registers[14].wrapping_add(nn << 1) & !1;
            self.registers[14] = temp;
            self.cpsr &= !0x20u32;
        }
    }

    /// THUMB.14 PUSH {Rlist}{LR} and POP {Rlist}{PC} (see `push_pop_result`).
    pub fn execute_push_pop_registers(&mut self, bus: &mut MemoryBus, instruction: u16)
        requires
            push_pop_result(*old(self), *old(bus), instruction) is Some,
        ensures
            (*final(self), *final(bus)) == push_pop_result(*old(self), *old(bus), instruction)->0,
    {
        let rlist = instruction & 0xFF;
        let pc_lr_bit = (instruction >> 8) & 1;
        let opcode = (instruction >> 11) & 1;
        proof {
            lemma_thumb_fields(instruction);
        }
        if opcode == 0 {
            if pc_lr_bit == 1 {
                self.registers[13] = self.registers[13].wrapping_sub(4);
                bus.write_u32(self.registers[13], self.registers[14]);
            }
            self.push_list(bus, rlist);
        } else {
            self.pop_list(bus, rlist);
            if pc_lr_bit == 1 {
                let value = bus.read_u32(self.registers[13]);
                self.registers[13] = self.registers[13].wrapping_add(4);
                if value & 1 == 1 {
                    self.cpsr |= 0x20;
                } else {
                    self.cpsr &= !0x20u32;
                }
                self.registers[15] = value & !1;
            }
        }
    }

    fn push_list(&mut self, bus: &mut MemoryBus, rlist: u16)
        requires
            rlist <= 0xFF,
            push_loop(*old(self), *old(bus), rlist as u32, 8) is Some,
        ensures
            (*final(self), *final(bus)) == push_loop(*old(self), *old(bus), rlist as u32, 8)->0,
    {
        let ghost s1 = *self;
        let ghost b1 = *bus;
        let ghost rl = rlist as u32;
        let mut k: usize = 8;
        while k > 0
            invariant
                k <= 8,
                rl == rlist as u32,
                push_loop(*self, *bus, rl, k as nat) == push_loop(s1, b1, rl, 8),
                push_loop(s1, b1, rl, 8) is Some,
            decreases k,
        {
            let i = k - 1;
            proof {
                reveal_with_fuel(push_loop, 1);
                lemma_u16_bit(rlist, i as u16);
            }
            if (rlist >> i) & 1 == 1 {
                self.registers[13] = self.registers[13].wrapping_sub(4);
                bus.write_u32(self.registers[13], self.registers[i]);
            }
            k -= 1;
        }
        assert(push_loop(*self, *bus, rl, 0) == Some((*self, *bus))) by {
            reveal_with_fuel(push_loop, 1);
        }
    }

    fn pop_list(&mut self, bus: &mut MemoryBus, rlist: u16)
        requires
            rlist <= 0xFF,
            pop_loop(*old(self), *old(bus), rlist as u32, 0) is Some,
        ensures
            (*final(self), *final(bus)) == pop_loop(*old(self), *old(bus), rlist as u32, 0)->0,
    {
        let ghost s0 = *self;
        let ghost b0 = *bus;
        let ghost rl = rlist as u32;
        let mut i: usize = 0;
        while i < 8
            invariant
                i <= 8,
                rl == rlist as u32,
                pop_loop(*self, *bus, rl, i as nat) == pop_loop(s0, b0, rl, 0),
                pop_loop(s0, b0, rl, 0) is Some,
            decreases 8 - i,
        {
            proof {
                reveal_with_fuel(pop_loop, 1);
                lemma_u16_bit(rlist, i as u16);
            }
            if (rlist >> i) & 1 == 1 {
                self.registers[i] = bus.read_u32(self.registers[13]);
                self.registers[13] = self.registers[13].wrapping_add(4);
            }
            i += 1;
        }
        assert(pop_loop(*self, *bus, rl, 8) == Some((*self, *bus))) by {
            reveal_with_fuel(pop_loop, 1);
        }
    }

    #[verifier::rlimit(40)]
    fn execute_multiple_ldr_str(&mut self, bus: &mut MemoryBus, instruction: u16)
        requires
            multiple_result(*old(self), *old(bus), instruction) is Some,
        ensures
            (*final(self), *final(bus)) == multiple_result(*old(self), *old(bus), instruction)->0,
    {
        let ghost s0 = *self;
        let ghost b0 = *bus;
        let base = (instruction >> 8) & 0b111;
        let rb = self.registers[base as usize];
        let mut address = rb;
        let rlist = instruction & 0xFF;
        let opcode = (instruction >> 11) & 1;
        proof {
            lemma_thumb_fields(instruction);
        }
        let ghost rl = rlist as u32;
        let mut count: u32 = 0;
        let mut i: usize = 0;
        while i < 8
            invariant
                i <= 8,
                count == popcount(rl, i as nat),
                count <= i,
                rl == (instruction & 0xFF) as u32,
                rlist == instruction & 0xFF,
                opcode == (instruction >> 11) & 1,
                (opcode == 1) == bit(instruction as u32, 11),
                multiple_loop(*self, *bus, instruction, i as nat, address) == multiple_loop(
                    s0,
                    b0,
                    instruction,
                    0,
                    rb,
                ),
                multiple_loop(s0, b0, instruction, 0, rb) is Some,
            decreases 8 - i,
        {
            proof {
                reveal_with_fuel(multiple_loop, 1);
                lemma_u16_bit(rlist, i as u16);
                assert(bit(rlist as u32, i as u32) == bit(rl, i as u32));
            }
            if (rlist >> i) & 1 == 1 {
                if opcode == 1 {
                    self.registers[i] = bus.read_u32(address);
                } else {
                    bus.write_u32(address, self.registers[i]);
                }
                address = address.wrapping_add(4);
                count += 1;
            }
            i += 1;
        }
        assert(multiple_loop(*self, *bus, instruction, 8, address) == Some((*self, *bus))) by {
            reveal_with_fuel(multiple_loop, 1);
        }
        let base_idx = ((instruction >> 8) & 0b111) as usize;
        self.registers[base_idx] = rb.wrapping_add(count * 4);
    }
}

} // verus!
