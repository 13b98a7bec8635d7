//! MUL, MLA, UMULL, UMLAL and SMLAL.
use vstd::prelude::*;
use vstd::arithmetic::div_mod::{
    lemma_add_mod_noop, lemma_fundamental_div_mod, lemma_mod_multiples_vanish, lemma_small_mod,
};
use crate::bits::{bit, signed, wrap32, lemma_and_bound, lemma_bit31};
use crate::cpu::CPU;
use crate::cpu::exceptions::set_reg;
use crate::cpu::flags::with_nzcv;

verus! {

broadcast use lemma_and_bound;

/// The multiply opcodes (bits 24-21) that this core implements: MUL, MLA, UMULL,
/// UMLAL and SMLAL. Any other multiply encoding stops the emulator.
pub open spec fn mul_implemented(instruction: u32) -> bool {
    let op = (instruction >> 21) & 0xF;
    op == 0 || op == 1 || op == 4 || op == 5 || op == 7
}

/// Low and high words of a 64-bit result into RdLo (bits 15-12) and RdHi (bits 19-16);
/// RdHi is written last.
pub open spec fn with_long(s: CPU, instruction: u32, p: int) -> CPU {
    set_reg(
        set_reg(s, ((instruction >> 12) & 0xF) as int, (p % 0x1_0000_0000) as u32),
        ((instruction >> 16) & 0xF) as int,
        (p / 0x1_0000_0000) as u32,
    )
}

/// The effect of a multiply. MUL writes Rm*Rs and MLA writes Rm*Rs plus the
/// accumulate register Rn (bits 15-12), both modulo 2^32, to Rd (bits 19-16).
/// UMULL writes the unsigned 64-bit product to RdHi:RdLo; UMLAL adds the unsigned
/// product, and SMLAL the signed product of the operands as two's-complement
/// words, to RdHi:RdLo modulo 2^64. With the S bit, N and Z follow the result (N
/// is bit 31, or bit 63 of a 64-bit result) while C and V are kept.
pub open spec fn mul_result(s: CPU, instruction: u32) -> CPU {
    let a = s.registers[(instruction & 0xF) as int];
    let b = s.registers[((instruction >> 8) & 0xF) as int];
    let rd = (instruction >> 16) & 0xF;
    let rn = (instruction >> 12) & 0xF;
    let op = (instruction >> 21) & 0xF;
    let c = bit(s.cpsr, 29);
    let v = bit(s.cpsr, 28);
    let setflags = bit(instruction, 20);
    if op == 0 || op == 1 {
        let r = if op == 0 {
            wrap32(a * b)
        } else {
            wrap32(a * b + s.registers[rn as int])
        };
        let s1 = set_reg(s, rd as int, r);
        if setflags {
            with_nzcv(s1, (r >= 0x8000_0000, r == 0, c, v))
        } else {
            s1
        }
    } else {
        let acc = if op == 4 {
            0int
        } else {
            s.registers[rd as int] * 0x1_0000_0000 + s.registers[rn as int]
        };
        let product = if op == 7 {
            signed(a) * signed(b)
        } else {
            a * b
        };
        let p = (product + acc) % 0x1_0000_0000_0000_0000;
        let s1 = with_long(s, instruction, p);
        if setflags {
            with_nzcv(s1, (p >= 0x8000_0000_0000_0000, p == 0, c, v))
        } else {
            s1
        }
    }
}

/// The correction that turns the unsigned product of two words into their signed
/// product: each negative operand subtracts the other operand times 2^32.
pub open spec fn sign_correction(a: u32, b: u32) -> int {
    (if a >= 0x8000_0000 { b as int } else { 0 }) + (if b >= 0x8000_0000 { a as int } else { 0 })
}

proof fn lemma_signed_product(a: u32, b: u32)
    ensures
        signed(a) * signed(b) == a * b - sign_correction(a, b) * 0x1_0000_0000 + (if a >= 0x8000_0000
            && b >= 0x8000_0000 {
            0x1_0000_0000_0000_0000int
        } else {
            0int
        }),
{
    let x = a as int;
    let y = b as int;
    if a >= 0x8000_0000 && b >= 0x8000_0000 {
        assert((x - 0x1_0000_0000) * (y - 0x1_0000_0000) == x * y - (y + x) * 0x1_0000_0000
            + 0x1_0000_0000_0000_0000) by (nonlinear_arith);
    } else if a >= 0x8000_0000 {
        assert((x - 0x1_0000_0000) * y == x * y - y * 0x1_0000_0000) by (nonlinear_arith);
    } else if b >= 0x8000_0000 {
        assert(x * (y - 0x1_0000_0000) == x * y - x * 0x1_0000_0000) by (nonlinear_arith);
    }
}

/// Subtracting the sign correction (modulo 2^64) from the unsigned product leaves
/// the signed product modulo 2^64.
proof fn lemma_signed_product_mod(a: u32, b: u32, product: u64, shifted: u64, r: u64)
    requires
        product == a * b,
        shifted == (sign_correction(a, b) * 0x1_0000_0000) % 0x1_0000_0000_0000_0000,
        r == (if product - shifted < 0 {
            product - shifted + 0x1_0000_0000_0000_0000
        } else {
            product - shifted
        }),
    ensures
        r == (signed(a) * signed(b)) % 0x1_0000_0000_0000_0000,
{
    let m: int = 0x1_0000_0000_0000_0000;
    let x = sign_correction(a, b) * 0x1_0000_0000;
    lemma_signed_product(a, b);
    lemma_fundamental_div_mod(x, m);
    let both: int = if a >= 0x8000_0000 && b >= 0x8000_0000 { 1 } else { 0 };
    let sp = signed(a) * signed(b);
    let k: int = x / m - both + (if product - shifted < 0 { 1int } else { 0 });
    assert(r == m * k + sp);
    lemma_mod_multiples_vanish(k, sp, m);
    lemma_small_mod(r as nat, m as nat);
}

proof fn lemma_u64_halves(hi: u32, lo: u32)
    ensures
        (((hi as u64) << 32u64) | (lo as u64)) == hi * 0x1_0000_0000 + lo,
{
    assert((((hi as u64) << 32u64) | (lo as u64)) == (hi as u64) * 0x1_0000_0000u64 + (lo as u64))
        by (bit_vector);
}

proof fn lemma_u64_split(p: u64)
    ensures
        (p as u32) == p % 0x1_0000_0000,
        ((p >> 32u64) as u32) == p / 0x1_0000_0000,
        ((p >> 63u64) == 1) == (p >= 0x8000_0000_0000_0000),
{
    assert((p as u32) == p % 0x1_0000_0000 && ((p >> 32u64) as u32) == p / 0x1_0000_0000 && ((p
        >> 63u64) == 1) == (p >= 0x8000_0000_0000_0000)) by (bit_vector);
}

proof fn lemma_product_bound(a: u32, b: u32)
    ensures
        0 <= a * b <= 0xFFFF_FFFE_0000_0001,
{
    assert(0 <= a * b <= 0xFFFF_FFFE_0000_0001) by (nonlinear_arith)
        requires
            a <= 0xFFFF_FFFF,
            b <= 0xFFFF_FFFF,
    ;
}

/// The 64-bit product of two words, as unsigned or as two's-complement values,
/// modulo 2^64.
fn long_product(a: u32, b: u32, is_signed: bool) -> (r: u64)
    ensures
        r == (if is_signed {
            signed(a) * signed(b)
        } else {
            a * b
        }) % 0x1_0000_0000_0000_0000,
{
    proof {
        lemma_product_bound(a, b);
    }
    let unsigned_product = (a as u64) * (b as u64);
    if is_signed {
        let correction: u64 = (if a >= 0x8000_0000 {
            b as u64
        } else {
            0
        }) + (if b >= 0x8000_0000 {
            a as u64
        } else {
            0
        });
        let shifted = correction.wrapping_mul(0x1_0000_0000);
        let r = unsigned_product.wrapping_sub(shifted);
        proof {
            lemma_signed_product_mod(a, b, unsigned_product, shifted, r);
        }
        r
    } else {
        proof {
            lemma_small_mod(unsigned_product as nat, 0x1_0000_0000_0000_0000);
        }
        unsigned_product
    }
}

impl CPU {
    /// Executes a multiply (see `mul_result`); encodings outside `mul_implemented`
    /// stop the emulator and are left out by the precondition.
    pub(crate) fn execute_mul_and_mul_acc_fullwords(&mut self, instruction: u32)
        requires
            mul_implemented(instruction),
        ensures
            *final(self) == mul_result(*old(self), instruction),
    {
        let opcode = (instruction >> 21) & 0xF;
        if opcode == 0 || opcode == 1 {
            self.execute_mul_word(instruction);
        } else {
            self.execute_mul_long(instruction);
        }
    }

    /// MUL and MLA.
    #[verifier::rlimit(40)]
    fn execute_mul_word(&mut self, instruction: u32)
        requires
            (instruction >> 21) & 0xF == 0 || (instruction >> 21) & 0xF == 1,
        ensures
            *final(self) == mul_result(*old(self), instruction),
    {
        let rd = (instruction >> 16) & 0xF;
        let rn = (instruction >> 12) & 0xF;
        let rs = (instruction >> 8) & 0xF;
        let rm = instruction & 0xF;
        let rm_reg = self.registers[rm as usize];
        let rs_reg = self.registers[rs as usize];
        let opcode = (instruction >> 21) & 0xF;
        let result = if opcode == 0 {
            rm_reg.wrapping_mul(rs_reg)
        } else {
            let acc = self.registers[rn as usize];
            proof {
                lemma_product_bound(rm_reg, rs_reg);
                lemma_add_mod_noop(rm_reg * rs_reg, acc as int, 0x1_0000_0000);
            }
            rm_reg.wrapping_mul(rs_reg).wrapping_add(acc)
        };
        self.registers[rd as usize] = result;
        if (instruction >> 20) & 1 == 1 {
            let c = (self.cpsr >> 29) & 1 == 1;
            let v = (self.cpsr >> 28) & 1 == 1;
            proof {
                lemma_bit31(result);
            }
            let n = (result >> 31) == 1;
            let z = result == 0;
            self.set_flags(n, z, c, v);
        }
    }

    /// UMULL, UMLAL and SMLAL.
    #[verifier::rlimit(40)]
    fn execute_mul_long(&mut self, instruction: u32)
        requires
            (instruction >> 21) & 0xF == 4 || (instruction >> 21) & 0xF == 5 || (instruction >> 21)
                & 0xF == 7,
        ensures
            *final(self) == mul_result(*old(self), instruction),
    {
        let rd = (instruction >> 16) & 0xF;
        let rn = (instruction >> 12) & 0xF;
        let rs = (instruction >> 8) & 0xF;
        let rm = instruction & 0xF;
        let rm_reg = self.registers[rm as usize];
        let rs_reg = self.registers[rs as usize];
        let opcode = (instruction >> 21) & 0xF;
        let product = long_product(rm_reg, rs_reg, opcode == 7);
        let ghost full: int = if opcode == 7 {
            signed(rm_reg) * signed(rs_reg)
        } else {
            rm_reg * rs_reg
        };
        let existing = if opcode == 4 {
            0u64
        } else {
            let rdlo = self.registers[rn as usize];
            let rdhi = self.registers[rd as usize];
            proof {
                lemma_u64_halves(rdhi, rdlo);
            }
            ((rdhi as u64) << 32) | (rdlo as u64)
        };
        let result = product.wrapping_add(existing);
        proof {
            lemma_u64_split(result);
            lemma_add_mod_noop(full, existing as int, 0x1_0000_0000_0000_0000);
            lemma_small_mod(existing as nat, 0x1_0000_0000_0000_0000);
        }
        self.registers[rn as usize] = result as u32;
        self.registers[rd as usize] = (result >> 32) as u32;
        if (instruction >> 20) & 1 == 1 {
            let n = (result >> 63) == 1;
            let z = result == 0;
            let c = (self.cpsr >> 29) & 1 == 1;
            let v = (self.cpsr >> 28) & 1 == 1;
            self.set_flags(n, z, c, v);
        }
    }
}

} // verus!
