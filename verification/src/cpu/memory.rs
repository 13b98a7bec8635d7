//! Single and halfword data transfers (LDR/STR, LDRH/STRH/LDRSB/LDRSH/LDRD/STRD)
//! and block transfers (LDM/STM).
use vstd::prelude::*;
use crate::bits::{bit, lemma_and_bound};
use crate::cpu::CPU;
use crate::cpu::alu::restored_from_spsr;
use crate::cpu::exceptions::set_reg;
use crate::cpu::shifter::{asr, ror, operand_register, rotate_right, arithmetic_shift_right};
use crate::memory_bus::{
    MemoryBus, add32, load8, load16, load32, store16, store32, cpu_stored_byte, readable,
    readable_n,
};

verus! {

broadcast use lemma_and_bound;

/// A byte sign-extended to a word.
pub open spec fn sext8(x: u8) -> u32 {
    if x >= 0x80 { (x + 0xFFFF_FF00) as u32 } else { x as u32 }
}

/// A halfword sign-extended to a word.
pub open spec fn sext16(x: u16) -> u32 {
    if x >= 0x8000 { (x + 0xFFFF_0000) as u32 } else { x as u32 }
}

/// The CPU after a load into the PC that may change state: the PC takes the value
/// with bit 0 cleared and bit 0 selects Thumb state.
pub open spec fn with_pc_exchange(s: CPU, value: u32) -> CPU {
    set_reg(
        CPU { cpsr: if value & 1 == 1 { s.cpsr | 0x20 } else { s.cpsr & !0x20u32 }, ..s },
        15,
        value & !1u32,
    )
}

/// The offset of LDR/STR: a 12-bit immediate, or register Rm shifted by an
/// immediate (LSL, LSR, ASR, ROR, without the special #0 encodings) or by the
/// bottom byte of a register (LSL by a register leaves Rm unshifted; LSR and ASR
/// shift by the amount modulo 32).
pub open spec fn ldr_str_offset(s: CPU, instruction: u32) -> u32 {
    if !bit(instruction, 25) {
        instruction & 0xFFF
    } else {
        let rm = operand_register(s, instruction & 0xF);
        let t = (instruction >> 5) & 3;
        if !bit(instruction, 4) {
            let sh = (instruction >> 7) & 0x1F;
            if t == 0 {
                rm << sh
            } else if t == 1 {
                rm >> sh
            } else if t == 2 {
                asr(rm, sh)
            } else {
                ror(rm, sh)
            }
        } else {
            let sh = s.registers[((instruction >> 8) & 0xF) as int] & 0xFF;
            if t == 0 {
                rm
            } else if t == 1 {
                rm >> (sh % 32)
            } else if t == 2 {
                asr(rm, sh % 32)
            } else {
                ror(rm, sh)
            }
        }
    }
}

/// LDR/STR/LDRB/STRB. The base reads as an operand (R15 is PC+4, aligned); the
/// address is base +/- offset when pre-indexed, the base when post-indexed. LDRB
/// zero-extends, LDR into R15 also sets Thumb state from bit 0; STR stores Rd (STRB
/// its low byte). Post-indexing, or pre-indexing with write-back, then writes the
/// offset address to the base. `None` when an access is not defined.
pub open spec fn ldr_str_result(s: CPU, b: MemoryBus, instruction: u32) -> Option<(CPU, MemoryBus)> {
    let offset = ldr_str_offset(s, instruction);
    let base = (instruction >> 16) & 0xF;
    let rd = ((instruction >> 12) & 0xF) as int;
    let rn = operand_register(s, base);
    let oa = if bit(instruction, 23) { add32(rn, offset as int) } else { add32(rn, -(offset as int)) };
    let address = if bit(instruction, 24) { oa } else { rn };
    let r: Option<(CPU, MemoryBus)> = if bit(instruction, 20) {
        if bit(instruction, 22) {
            match load8(b, address) {
                Some(v) => Some((set_reg(s, rd, v as u32), b)),
                None => None,
            }
        } else {
            match load32(b, address) {
                Some(v) => Some((if rd == 15 { with_pc_exchange(s, v) } else { set_reg(s, rd, v) }, b)),
                None => None,
            }
        }
    } else {
        let value = s.registers[rd];
        if bit(instruction, 22) {
            Some((s, cpu_stored_byte(b, address, value as u8)))
        } else {
            match store32(b, address, value) {
                Some(b2) => Some((s, b2)),
                None => None,
            }
        }
    };
    match r {
        None => None,
        Some((s2, b2)) => Some(
            (if !bit(instruction, 24) || bit(instruction, 21) { set_reg(s2, base as int, oa) } else { s2 }, b2),
        ),
    }
}

/// Halfword and signed transfers (bits 6-5: 1 = halfword, 2 = signed byte or
/// doubleword, 3 = signed halfword or doubleword). Loads: LDRH zero-extends,
/// LDRSB/LDRSH sign-extend. Stores: STRH stores Rd's low halfword; with op 2 the
/// words at the address and the address + 4 are loaded into Rd and Rd+1, with op
/// 3 Rd and Rd+1 are stored there. The offset is Rm or the split 8-bit immediate.
/// Post-indexing or write-back then adds/subtracts the offset to the base
/// register's current value. `None` when an access is not defined or Rd+1 would
/// be R16.
pub open spec fn halfword_result(s: CPU, b: MemoryBus, instruction: u32) -> Option<(CPU, MemoryBus)> {
    let rn = ((instruction >> 16) & 0xF) as int;
    let offset = halfword_offset(s, instruction);
    match halfword_access(s, b, instruction, halfword_address(s, instruction)) {
        None => None,
        Some((s2, b2)) => Some(
            (
                if bit(instruction, 21) || !bit(instruction, 24) {
                    let cur = s2.registers[rn];
                    set_reg(
                        s2,
                        rn,
                        if bit(instruction, 23) { add32(cur, offset as int) } else { add32(cur, -(offset as int)) },
                    )
                } else {
                    s2
                },
                b2,
            ),
        ),
    }
}

/// The offset of a halfword transfer: Rm, or the 8-bit immediate split over
/// bits 11-8 and 3-0.
pub open spec fn halfword_offset(s: CPU, instruction: u32) -> u32 {
    if !bit(instruction, 22) {
        s.registers[(instruction & 0xF) as int]
    } else {
        (((instruction >> 8) & 0xF) << 4u32) | (instruction & 0xF)
    }
}

/// The address of a halfword transfer: base +/- offset when pre-indexed, else the base.
pub open spec fn halfword_address(s: CPU, instruction: u32) -> u32 {
    let bv = s.registers[((instruction >> 16) & 0xF) as int];
    let offset = halfword_offset(s, instruction);
    if bit(instruction, 24) {
        if bit(instruction, 23) { add32(bv, offset as int) } else { add32(bv, -(offset as int)) }
    } else {
        bv
    }
}

/// The memory access of a halfword transfer at `address` (before write-back).
#[verifier::opaque]
pub open spec fn halfword_access(s: CPU, b: MemoryBus, instruction: u32, address: u32) -> Option<(CPU, MemoryBus)> {
    let rd = ((instruction >> 12) & 0xF) as int;
    let op = (instruction >> 5) & 3;
    if !bit(instruction, 20) {
        if op == 1 {
            match store16(b, address, s.registers[rd]) {
                Some(b2) => Some((s, b2)),
                None => None,
            }
        } else if op == 2 {
            if rd == 15 {
                None
            } else {
                match (load32(b, address), load32(b, add32(address, 4))) {
                    (Some(v1), Some(v2)) => Some((set_reg(set_reg(s, rd, v1), rd + 1, v2), b)),
                    _ => None,
                }
            }
        } else if op == 3 {
            if rd == 15 {
                None
            } else {
                match store32(b, address, s.registers[rd]) {
                    Some(b1) => match store32(b1, add32(address, 4), s.registers[rd + 1]) {
                        Some(b2) => Some((s, b2)),
                        None => None,
                    },
                    None => None,
                }
            }
        } else {
            Some((s, b))
        }
    } else {
        if op == 1 {
            match load16(b, address) {
                Some(v) => Some((set_reg(s, rd, v as u32), b)),
                None => None,
            }
        } else if op == 2 {
            match load8(b, address) {
                Some(v) => Some((set_reg(s, rd, sext8(v)), b)),
                None => None,
            }
        } else if op == 3 {
            match load16(b, address) {
                Some(v) => Some((set_reg(s, rd, sext16(v)), b)),
                None => None,
            }
        } else {
            Some((s, b))
        }
    }
}

/// Number of set bits among bits 0 .. n-1 of `x`.
pub open spec fn popcount(x: u32, n: nat) -> nat
    decreases n,
{
    if n == 0 {
        0
    } else {
        popcount(x, (n - 1) as nat) + if bit(x, (n - 1) as u32) { 1nat } else { 0nat }
    }
}

/// Registers `i` .. 15 of an LDM/STM register list, transferred in ascending
/// order at ascending addresses from `address`. A load into R15 either returns
/// from an exception (S bit set: CPSR restored from SPSR, the PC aligned to the
/// restored state) or sets Thumb state from bit 0.
#[verifier::opaque]
pub open spec fn block_transfer(s: CPU, b: MemoryBus, instruction: u32, i: nat, address: u32) -> Option<(CPU, MemoryBus)>
    decreases 16 - i,
{
    if i >= 16 {
        Some((s, b))
    } else if !bit(instruction & 0xFFFF, i as u32) {
        block_transfer(s, b, instruction, i + 1, address)
    } else if bit(instruction, 20) {
        match load32(b, address) {
            None => None,
            Some(v) => {
                let s2 = if i == 15 {
                    if bit(instruction, 22) {
                        let r = restored_from_spsr(s);
                        set_reg(r, 15, v & (if bit(r.cpsr, 5) { !1u32 } else { !3u32 }))
                    } else {
                        with_pc_exchange(s, v)
                    }
                } else {
                    set_reg(s, i as int, v)
                };
                block_transfer(s2, b, instruction, i + 1, add32(address, 4))
            },
        }
    } else {
        match store32(b, address, s.registers[i as int]) {
            None => None,
            Some(b2) => block_transfer(s, b2, instruction, i + 1, add32(address, 4)),
        }
    }
}

/// LDM/STM: the lowest-numbered register goes to the lowest address; the block
/// starts above (increment) or below (decrement) the base, before or after it as
/// the P bit says. With write-back the base becomes base +/- 4 * count.
pub open spec fn block_result(s: CPU, b: MemoryBus, instruction: u32) -> Option<(CPU, MemoryBus)> {
    let base = ((instruction >> 16) & 0xF) as int;
    let rn = s.registers[base];
    let n = popcount(instruction & 0xFFFF, 16) as int;
    let start = if bit(instruction, 23) {
        if bit(instruction, 24) { add32(rn, 4) } else { rn }
    } else {
        if bit(instruction, 24) { add32(rn, -4 * n) } else { add32(add32(rn, -4 * n), 4) }
    };
    match block_transfer(s, b, instruction, 0, start) {
        None => None,
        Some((s2, b2)) => Some(
            (
                if bit(instruction, 21) {
                    set_reg(s2, base, if bit(instruction, 23) { add32(rn, 4 * n) } else { add32(rn, -4 * n) })
                } else {
                    s2
                },
                b2,
            ),
        ),
    }
}

proof fn lemma_sext(byte: u8, half: u16)
    ensures
        (if byte >= 0x80 { (byte as u32) | 0xFFFF_FF00 } else { byte as u32 }) == sext8(byte),
        (if half >= 0x8000 { (half as u32) | 0xFFFF_0000 } else { half as u32 }) == sext16(half),
{
    crate::bits::lemma_sign_fill(byte, half);
}

proof fn lemma_bit_one(x: u32, i: u32)
    requires
        i < 32,
    ensures
        ((x >> i) & 1 == 1) == bit(x, i),
        ((x >> i) & 1) <= 1,
{
    assert(((x >> i) & 1) <= 1) by (bit_vector);
}

/// Counts the registers in an LDM/STM register list.
fn register_count(rlist: u32) -> (count: u32)
    ensures
        count == popcount(rlist, 16),
        count <= 16,
{
    let mut count: u32 = 0;
    let mut k: u32 = 0;
    while k < 16
        invariant
            k <= 16,
            count == popcount(rlist, k as nat),
            count <= k,
        decreases 16 - k,
    {
        proof {
            lemma_bit_one(rlist, k);
        }
        if (rlist >> k) & 1 == 1 {
            count += 1;
        }
        k += 1;
    }
    count
}

impl CPU {
    /// Executes LDR/STR (see `ldr_str_result`).
    pub(crate) fn execute_ldr_str(&mut self, bus: &mut MemoryBus, instruction: u32)
        requires
            ldr_str_result(*old(self), *old(bus), instruction) is Some,
        ensures
            (*final(self), *final(bus)) == ldr_str_result(*old(self), *old(bus), instruction)->0,
    {
        let is_register = (instruction >> 25) & 1;
        let offset;
        if is_register == 0 {
            offset = instruction & 0xFFF;
        } else {
            let register_flag = (instruction >> 4) & 1;
            let t = (instruction >> 5) & 0b11;
            if register_flag == 0 {
                let shift = (instruction >> 7) & 0x1F;
                let source_register = instruction & 0xF;
                let rm = self.read_register(source_register);
                offset = if t == 0 {
                    rm << shift
                } else if t == 1 {
                    rm >> shift
                } else if t == 2 {
                    arithmetic_shift_right(rm, shift)
                } else {
                    rotate_right(rm, shift)
                };
            } else {
                let register = self.registers[((instruction >> 8) & 0xF) as usize];
                let shift = register & 0xFF;
                let source_register = instruction & 0xF;
                let rm = self.read_register(source_register);
                offset = if t == 0 {
                    rm
                } else if t == 1 {
                    rm.wrapping_shr(shift)
                } else if t == 2 {
                    arithmetic_shift_right(rm, shift % 32)
                } else {
                    rotate_right(rm, shift)
                };
            }
        }
        assert(offset == ldr_str_offset(*old(self), instruction));
        let u = (instruction >> 23) & 1;
        let p = (instruction >> 24) & 1;
        let w = (instruction >> 21) & 1;
        let l = (instruction >> 20) & 1;
        let b = (instruction >> 22) & 1;
        let base_idx = ((instruction >> 16) & 0xF) as usize;
        let rd_idx = ((instruction >> 12) & 0xF) as usize;
        let rn = self.read_register(base_idx as u32);
        let offset_addr = if u == 1 {
            rn.wrapping_add(offset)
        } else {
            rn.wrapping_sub(offset)
        };
        let address = if p == 1 {
            offset_addr
        } else {
            rn
        };
        if l == 1 {
            if b == 1 {
                self.registers[rd_idx] = bus.read_u8(address) as u32;
            } else {
                let value = bus.read_u32(address);
                if rd_idx == 15 {
                    self.registers[15] = value & !1;
                    if value & 1 == 1 {
                        self.cpsr |= 0x20;
                    } else {
                        self.cpsr &= !0x20u32;
                    }
                } else {
                    self.registers[rd_idx] = value;
                }
            }
        } else {
            let value = self.registers[rd_idx];
            if b == 1 {
                bus.write_u8(address, value as u8);
            } else {
                bus.write_u32(address, value);
            }
        }
        if p == 0 {
            self.registers[base_idx] = offset_addr;
        } else if w == 1 {
            self.registers[base_idx] = offset_addr;
        }
    }
    /// Executes a halfword / signed / doubleword transfer (see `halfword_result`).
    #[verifier::spinoff_prover]
    #[verifier::rlimit(60)]
    pub(crate) fn execute_halfword_transfer(&mut self, bus: &mut MemoryBus, instruction: u32)
        requires
            halfword_result(*old(self), *old(bus), instruction) is Some,
        ensures
            (*final(self), *final(bus)) == halfword_result(*old(self), *old(bus), instruction)->0,
    {
        let p = (instruction >> 24) & 1;
        let u = (instruction >> 23) & 1;
        let i = (instruction >> 22) & 1;
        let w = (instruction >> 21) & 1;
        let rn = (instruction >> 16) & 0xF;
        let offset = if i == 0 {
            self.registers[(instruction & 0xF) as usize]
        } else {
            ((instruction >> 8) & 0xF) << 4 | (instruction & 0xF)
        };
        let address = if u == 1 {
            if p == 1 {
                self.registers[rn as usize].wrapping_add(offset)
            } else {
                self.registers[rn as usize]
            }
        } else {
            if p == 1 {
                self.registers[rn as usize].wrapping_sub(offset)
            } else {
                self.registers[rn as usize]
            }
        };
        assert(offset == halfword_offset(*old(self), instruction));
        assert(address == halfword_address(*old(self), instruction));
        let ghost r = halfword_access(*old(self), *old(bus), instruction, address);
        self.halfword_access(bus, instruction, address);
        assert(*self == (r->0).0 && *bus == (r->0).1);
        let ghost s2 = *self;
        if w == 1 || p == 0 {
            let wb = if u == 1 {
                self.registers[rn as usize].wrapping_add(offset)
            } else {
                self.registers[rn as usize].wrapping_sub(offset)
            };
            self.registers[rn as usize] = wb;
            assert(*self == set_reg(s2, rn as int, if bit(instruction, 23) { add32(s2.registers[rn as int], offset as int) } else { add32(s2.registers[rn as int], -(offset as int)) }));
        }
    }

    #[verifier::rlimit(30)]
    fn halfword_access(&mut self, bus: &mut MemoryBus, instruction: u32, address: u32)
        requires
            halfword_access(*old(self), *old(bus), instruction, address) is Some,
        ensures
            (*final(self), *final(bus)) == halfword_access(*old(self), *old(bus), instruction, address)->0,
    {
        reveal(halfword_access);
        let l = (instruction >> 20) & 1;
        let rd = (instruction >> 12) & 0xF;
        let opcode = (instruction >> 5) & 0b11;
        if l == 0 {
            if opcode == 1 {
                bus.write_u16(address, self.registers[rd as usize]);
            } else if opcode == 2 {
                self.registers[rd as usize] = bus.read_u32(address);
                self.registers[(rd + 1) as usize] = bus.read_u32(address.wrapping_add(4));
            } else if opcode == 3 {
                bus.write_u32(address, self.registers[rd as usize]);
                bus.write_u32(address.wrapping_add(4), self.registers[(rd + 1) as usize]);
            }
        } else {
            if opcode == 1 {
                self.registers[rd as usize] = bus.read_u16(address) as u32;
            } else if opcode == 2 {
                let byte = bus.read_u8(address);
                proof {
                    lemma_sext(byte, 0);
                }
                self.registers[rd as usize] = if byte >= 0x80 {
                    (byte as u32) | 0xFFFF_FF00
                } else {
                    byte as u32
                };
            } else if opcode == 3 {
                let half = bus.read_u16(address);
                proof {
                    lemma_sext(0, half);
                }
                self.registers[rd as usize] = if half >= 0x8000 {
                    (half as u32) | 0xFFFF_0000
                } else {
                    half as u32
                };
            }
        }
    }

    /// Executes LDM/STM (see `block_result`).
    #[verifier::spinoff_prover]
    #[verifier::rlimit(60)]
    pub(crate) fn decode_memory(&mut self, bus: &mut MemoryBus, instruction: u32)
        requires
            block_result(*old(self), *old(bus), instruction) is Some,
        ensures
            (*final(self), *final(bus)) == block_result(*old(self), *old(bus), instruction)->0,
    {
        let base = (instruction >> 16) & 0xF;
        let rn = self.registers[base as usize];
        let rlist = instruction & 0xFFFF;
        let p = (instruction >> 24) & 1;
        let u = (instruction >> 23) & 1;
        let write_back = (instruction >> 21) & 1;
        let count = register_count(rlist);
        let address = if u == 1 {
            if p == 1 {
                rn.wrapping_add(4)
            } else {
                rn
            }
        } else {
            if p == 1 {
                rn.wrapping_sub(count * 4)
            } else {
                rn.wrapping_sub(count * 4).wrapping_add(4)
            }
        };
        self.transfer_block(bus, instruction, address);
        if write_back == 1 {
            self.registers[base as usize] = if u == 1 {
                rn.wrapping_add(count * 4)
            } else {
                rn.wrapping_sub(count * 4)
            };
        }
    }

    #[verifier::rlimit(30)]
    fn transfer_block(&mut self, bus: &mut MemoryBus, instruction: u32, start: u32)
        requires
            block_transfer(*old(self), *old(bus), instruction, 0, start) is Some,
        ensures
            (*final(self), *final(bus)) == block_transfer(*old(self), *old(bus), instruction, 0, start)->0,
    {
        let ghost s0 = *self;
        let ghost b0 = *bus;
        let rlist = instruction & 0xFFFF;
        let s = (instruction >> 22) & 1;
        let load = (instruction >> 20) & 1;
        let pc_in_list = (rlist >> 15) & 1 == 1;
        let exception_return = load == 1 && s == 1 && pc_in_list;
        let mut address = start;
        let mut i: usize = 0;
        while i < 16
            invariant
                i <= 16,
                rlist == instruction & 0xFFFF,
                load == (instruction >> 20) & 1,
                exception_return == (load == 1 && bit(instruction, 22) && bit(rlist, 15)),
                block_transfer(*self, *bus, instruction, i as nat, address) == block_transfer(
                    s0,
                    b0,
                    instruction,
                    0,
                    start,
                ),
                block_transfer(s0, b0, instruction, 0, start) is Some,
            decreases 16 - i,
        {
            proof {
                reveal_with_fuel(block_transfer, 1);
                lemma_bit_one(rlist, i as u32);
                lemma_bit_one(instruction, 20);
                lemma_bit_one(instruction, 22);
                lemma_bit_one(rlist, 15);
            }
            if (rlist >> i) & 1 == 1 {
                if load == 1 {
                    let value = bus.read_u32(address);
                    if i == 15 {
                        if exception_return {
                            let spsr = self.get_spsr();
                            self.switch_mode(spsr & 0x1F);
                            self.cpsr = spsr;
                            let mask = if (self.cpsr >> 5) & 1 == 1 {
                                !1u32
                            } else {
                                !3u32
                            };
                            self.registers[15] = value & mask;
                        } else {
                            self.registers[15] = value & !1;
                            if value & 1 == 1 {
                                self.cpsr |= 0x20;
                            } else {
                                self.cpsr &= !0x20u32;
                            }
                        }
                    } else {
                        self.registers[i] = value;
                    }
                } else {
                    bus.write_u32(address, self.registers[i]);
                }
                address = address.wrapping_add(4);
            }
            i += 1;
        }
        assert(block_transfer(*self, *bus, instruction, 16, address) == Some((*self, *bus))) by {
            reveal_with_fuel(block_transfer, 1);
        }
    }
}

} // verus!
