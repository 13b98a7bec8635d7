//! Condition flags: N (bit 31), Z (bit 30), C (bit 29) and V (bit 28) of the CPSR.
use vstd::prelude::*;
use crate::bits::{bit, signed, fits_i32, wrap32, lemma_bit31};
use crate::cpu::CPU;

verus! {

/// The CPSR with its four flag bits replaced and every other bit kept.
pub open spec fn with_flags(cpsr: u32, n: bool, z: bool, c: bool, v: bool) -> u32 {
    (cpsr & 0x0FFF_FFFF)
        | (if n { 0x8000_0000u32 } else { 0u32 })
        | (if z { 0x4000_0000u32 } else { 0u32 })
        | (if c { 0x2000_0000u32 } else { 0u32 })
        | (if v { 0x1000_0000u32 } else { 0u32 })
}

/// N, Z, C, V of `a - b`: C means no borrow, V signed overflow.
pub open spec fn sub_nzcv(a: u32, b: u32) -> (bool, bool, bool, bool) {
    (wrap32(a - b) >= 0x8000_0000, wrap32(a - b) == 0, a >= b, !fits_i32(signed(a) - signed(b)))
}

/// N, Z, C, V of `a + b`: C means unsigned carry out, V signed overflow.
pub open spec fn add_nzcv(a: u32, b: u32) -> (bool, bool, bool, bool) {
    (
        wrap32(a + b) >= 0x8000_0000,
        wrap32(a + b) == 0,
        a + b > 0xFFFF_FFFF,
        !fits_i32(signed(a) + signed(b)),
    )
}

/// N, Z, C, V of `a + b + carry`. V is set when the operands share a sign that the
/// wrapped result does not have (for a carry of 0 or 1 this is signed overflow).
pub open spec fn adc_nzcv(a: u32, b: u32, carry: u32) -> (bool, bool, bool, bool) {
    let r = wrap32(a + b + carry);
    (
        r >= 0x8000_0000,
        r == 0,
        a + b + carry > 0xFFFF_FFFF,
        ((a >= 0x8000_0000) == (b >= 0x8000_0000)) && ((r >= 0x8000_0000) != (a >= 0x8000_0000)),
    )
}

/// N, Z, C, V of `a - b - (1 - carry)`: C means no borrow, V signed overflow.
pub open spec fn sbc_nzcv(a: u32, b: u32, carry: u32) -> (bool, bool, bool, bool) {
    let r = wrap32(a - b + carry - 1);
    (r >= 0x8000_0000, r == 0, a >= b + 1 - carry, !fits_i32(signed(a) - signed(b) + carry - 1))
}

/// N, Z, C, V of a logical result with shifter carry `c`; V is cleared.
pub open spec fn logical_nzcv(result: u32, c: bool) -> (bool, bool, bool, bool) {
    (result >= 0x8000_0000, result == 0, c, false)
}

/// The CPU with the four flags of `f` written into the CPSR.
pub open spec fn with_nzcv(s: CPU, f: (bool, bool, bool, bool)) -> CPU {
    CPU { cpsr: with_flags(s.cpsr, f.0, f.1, f.2, f.3), ..s }
}

impl CPU {
    /// Writes the four condition flags and leaves every other bit and register alone.
    pub fn set_flags(&mut self, n: bool, z: bool, c: bool, v: bool)
        ensures
            *final(self) == with_nzcv(*old(self), (n, z, c, v)),
    {
        let x = self.cpsr;
        let r = (x & 0x0FFF_FFFF)
            | (if n { 0x8000_0000u32 } else { 0u32 })
            | (if z { 0x4000_0000u32 } else { 0u32 })
            | (if c { 0x2000_0000u32 } else { 0u32 })
            | (if v { 0x1000_0000u32 } else { 0u32 });
        self.cpsr = r;
    }

    /// Flags of `rn - op2`: N and Z of the wrapped difference, C set when no
    /// borrow occurs (`rn >= op2`), V set on signed overflow.
    pub fn sub_flags(&self, rn: u32, op2: u32) -> (res: (bool, bool, bool, bool))
        ensures
            res == sub_nzcv(rn, op2),
    {
        let result = rn.wrapping_sub(op2);
        let rn_sign = (rn >> 31) & 1;
        let op2_sign = (op2 >> 31) & 1;
        let result_sign = (result >> 31) & 1;
        proof {
            lemma_bit31(rn);
            lemma_bit31(op2);
            lemma_bit31(result);
            assert(result == wrap32(rn - op2));
        }
        let n: bool = (result >> 31) == 1;
        let z: bool = result == 0;
        let c: bool = rn >= op2;
        let v: bool = (rn_sign == 0 && op2_sign == 1 && result_sign == 1) || (rn_sign == 1
            && op2_sign == 0 && result_sign == 0);
        (n, z, c, v)
    }

    /// Flags of `rn + op2`: N and Z of the wrapped sum, C set on unsigned carry
    /// out, V set on signed overflow.
    pub fn add_flags(&self, rn: u32, op2: u32) -> (res: (bool, bool, bool, bool))
        ensures
            res == add_nzcv(rn, op2),
    {
        let result = rn.wrapping_add(op2);
        proof {
            lemma_bit31(rn);
            lemma_bit31(op2);
            lemma_bit31(result);
            assert(result == wrap32(rn + op2));
        }
        let n: bool = (result >> 31) == 1;
        let z: bool = result == 0;
        let c: bool = (rn as u64) + (op2 as u64) > 0xFFFFFFFF;
        let rn_sign = (rn >> 31) & 1;
        let op2_sign = (op2 >> 31) & 1;
        let result_sign = (result >> 31) & 1;
        let v = (rn_sign == 0 && op2_sign == 0 && result_sign == 1) || (rn_sign == 1 && op2_sign
            == 1 && result_sign == 0);
        (n, z, c, v)
    }

    /// Flags of a logical operation: N and Z of the result, C the shifter carry, V clear.
    pub fn logical_flags(&self, result: u32, carry: bool) -> (res: (bool, bool, bool, bool))
        ensures
            res == logical_nzcv(result, carry),
    {
        proof {
            lemma_bit31(result);
        }
        let n = (result >> 31) == 1;
        let z = result == 0;
        let c = carry;
        let v = false;
        (n, z, c, v)
    }

    /// Flags of `rn + op2 + carry`. V compares the sign of the wrapped result with the
    /// common sign of the operands; for a carry of 0 or 1 that is signed overflow.
    pub fn adc_flags(&self, rn: u32, op2: u32, carry: u32) -> (res: (bool, bool, bool, bool))
        ensures
            res == adc_nzcv(rn, op2, carry),
            carry <= 1 ==> res.3 == !fits_i32(signed(rn) + signed(op2) + carry),
    {
        let result = rn.wrapping_add(op2).wrapping_add(carry);
        proof {
            lemma_bit31(rn);
            lemma_bit31(op2);
            lemma_bit31(result);
            assert(result == wrap32(rn + op2 + carry));
        }
        let n = (result >> 31) == 1;
        let z = result == 0;
        let c = (rn as u64) + (op2 as u64) + (carry as u64) > 0xFFFFFFFF;
        let rn_sign = (rn >> 31) & 1;
        let op2_sign = (op2 >> 31) & 1;
        let result_sign = (result >> 31) & 1;
        let v = (rn_sign == 0 && op2_sign == 0 && result_sign == 1) || (rn_sign == 1 && op2_sign
            == 1 && result_sign == 0);
        (n, z, c, v)
    }

    /// Flags of `rn - op2 - (1 - carry)` (subtract with carry). C is set when no
    /// borrow occurs; V is signed overflow.
    pub fn sbc_flags(&self, rn: u32, op2: u32, carry: u32) -> (res: (bool, bool, bool, bool))
        requires
            carry <= 1,
        ensures
            res == sbc_nzcv(rn, op2, carry),
    {
        let result = rn.wrapping_sub(op2).wrapping_add(carry).wrapping_sub(1);
        proof {
            lemma_bit31(rn);
            lemma_bit31(op2);
            lemma_bit31(result);
            assert(result == wrap32(rn - op2 + carry - 1));
        }
        let n = (result >> 31) == 1;
        let z = result == 0;
        let c = (rn as u64) >= (op2 as u64) + (1 - carry as u64);
        let rn_sign = (rn >> 31) & 1;
        let op2_sign = (op2 >> 31) & 1;
        let result_sign = (result >> 31) & 1;
        let v = (rn_sign == 1 && op2_sign == 0 && result_sign == 0) || (rn_sign == 0 && op2_sign
            == 1 && result_sign == 1);
        (n, z, c, v)
    }
}

} // verus!
