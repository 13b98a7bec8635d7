//! Loads give back what stores saved: a word LDR after a word STR to the same
//! RAM address, and `LDMIA SP!, {list}` after `STMDB SP!, {list}` used as a
//! full-descending stack.
use vstd::prelude::*;
use crate::bits::bit;
use crate::cpu::CPU;
use crate::cpu::exceptions::set_reg;
use crate::cpu::memory::{block_result, block_transfer, ldr_str_result, popcount};
use crate::cpu::shifter::operand_register;
use crate::memory_bus::{
    MemoryBus, add32, in_ram, in_work_ram, lemma_ram_word_round_trip, lemma_work_ram_word_other,
    read_u32_spec, readable, readable_n, write_u32_spec,
};

verus! {

proof fn lemma_count_step(x: u32, k: nat)
    requires
        k > 0,
    ensures
        popcount(x, k) == popcount(x, (k - 1) as nat) + if bit(x, (k - 1) as u32) { 1nat } else { 0nat },
{
}

proof fn lemma_count_mono(x: u32, j: nat, k: nat)
    requires
        j <= k,
    ensures
        popcount(x, j) <= popcount(x, k),
        popcount(x, k) <= popcount(x, j) + (k - j),
    decreases k - j,
{
    if j < k {
        lemma_count_mono(x, j, (k - 1) as nat);
    }
}

/// An STM from register `i` on, at `addr` = `start` + 4 * (registers before `i`),
/// stores register `j` at `start + 4 * popcount(j)` and leaves the words between
/// `start` and `addr` and the registers.
proof fn lemma_stm_words(s: CPU, b: MemoryBus, ins: u32, i: nat, addr: int, start: int)
    requires
        i <= 16,
        !bit(ins, 20),
        addr == start + 4 * popcount(ins & 0xFFFF, i),
        0 <= start <= 0xFFFF_FFFF,
        popcount(ins & 0xFFFF, 16) > popcount(ins & 0xFFFF, i) ==> in_work_ram(
            start as u32,
            4 * popcount(ins & 0xFFFF, 16) as int,
        ),
    ensures
        block_transfer(s, b, ins, i, addr as u32) is Some,
        ({
            let (t, m) = block_transfer(s, b, ins, i, addr as u32)->0;
            &&& t == s
            &&& forall|j: nat|
                i <= j < 16 && #[trigger] bit(ins & 0xFFFF, j as u32) ==> read_u32_spec(
                    m,
                    (start + 4 * popcount(ins & 0xFFFF, j)) as u32,
                ) == s.registers[j as int]
            &&& forall|r: u32|
                in_work_ram(r, 4) && (r < 0x0300_0000) == (start < 0x0300_0000) && start <= r && r + 4 <= addr
                    ==> #[trigger] read_u32_spec(m, r) == read_u32_spec(b, r)
        }),
    decreases 16 - i,
{
    reveal_with_fuel(block_transfer, 1);
    let rl = ins & 0xFFFF;
    lemma_count_mono(rl, i, 16);
    lemma_count_mono(rl, 0, 16);
    if i < 16 {
        lemma_count_step(rl, i + 1);
        lemma_count_mono(rl, i + 1, 16);
        if !bit(rl, i as u32) {
            lemma_stm_words(s, b, ins, i + 1, addr, start);
        } else {
            assert(start <= addr && addr + 4 <= start + 4 * popcount(rl, 16));
            assert(0x0200_0000 <= addr && addr + 4 <= 0x0400_0000);
            let a = addr as u32;
            assert(a == addr);
            assert(in_work_ram(a, 4));
            let v = s.registers[i as int];
            lemma_ram_word_round_trip(b, a, v);
            let b2 = write_u32_spec(b, a, v);
            assert(add32(a, 4) == addr + 4);
            assert(block_transfer(s, b, ins, i, a) == block_transfer(s, b2, ins, i + 1, add32(a, 4)));
            lemma_stm_words(s, b2, ins, i + 1, addr + 4, start);
            let (t, m) = block_transfer(s, b2, ins, i + 1, add32(a, 4))->0;
            assert(in_work_ram(a, 4) && (a < 0x0300_0000) == (start < 0x0300_0000));
            assert(read_u32_spec(m, a) == read_u32_spec(b2, a));
            assert forall|j: nat| i <= j < 16 && #[trigger] bit(ins & 0xFFFF, j as u32) implies read_u32_spec(
                m,
                (start + 4 * popcount(ins & 0xFFFF, j)) as u32,
            ) == s.registers[j as int] by {
                if j > i {
                    lemma_count_mono(rl, i + 1, j);
                }
            }
            assert forall|r: u32|
                in_work_ram(r, 4) && (r < 0x0300_0000) == (start < 0x0300_0000) && start <= r && r + 4
                    <= addr implies #[trigger] read_u32_spec(m, r) == read_u32_spec(b, r) by {
                lemma_work_ram_word_other(b, a, v, r);
            }
        }
    }
}

/// An LDM (no S bit) from register `i` on, at `addr` = `start` + 4 * (registers
/// before `i`), loads register `j` from `start + 4 * popcount(j)`; a loaded PC that
/// is even keeps ARM state. Memory and the other registers stay.
proof fn lemma_ldm_words(t: CPU, m: MemoryBus, ins: u32, i: nat, addr: int, start: int)
    requires
        i <= 16,
        bit(ins, 20),
        !bit(ins, 22),
        addr == start + 4 * popcount(ins & 0xFFFF, i),
        0 <= start <= 0xFFFF_FFFF,
        popcount(ins & 0xFFFF, 16) > popcount(ins & 0xFFFF, i) ==> in_work_ram(
            start as u32,
            4 * popcount(ins & 0xFFFF, 16) as int,
        ),
        i <= 15 && bit(ins & 0xFFFF, 15) ==> read_u32_spec(m, (start + 4 * popcount(ins & 0xFFFF, 15)) as u32)
            % 2 == 0 && !bit(t.cpsr, 5),
    ensures
        block_transfer(t, m, ins, i, addr as u32) is Some,
        ({
            let (u, m2) = block_transfer(t, m, ins, i, addr as u32)->0;
            &&& m2 == m
            &&& u == (CPU { registers: u.registers, ..t })
            &&& forall|j: nat|
                i <= j < 16 && #[trigger] bit(ins & 0xFFFF, j as u32) ==> u.registers[j as int] == read_u32_spec(
                    m,
                    (start + 4 * popcount(ins & 0xFFFF, j)) as u32,
                )
            &&& forall|j: int|
                0 <= j < 16 && !(i <= j && bit(ins & 0xFFFF, j as u32)) ==> #[trigger] u.registers[j]
                    == t.registers[j]
        }),
    decreases 16 - i,
{
    reveal_with_fuel(block_transfer, 1);
    let rl = ins & 0xFFFF;
    lemma_count_mono(rl, i, 16);
    lemma_count_mono(rl, 0, 16);
    if i < 16 {
        lemma_count_step(rl, i + 1);
        lemma_count_mono(rl, i + 1, 16);
        if !bit(rl, i as u32) {
            lemma_ldm_words(t, m, ins, i + 1, addr, start);
        } else {
            assert(start <= addr && addr + 4 <= start + 4 * popcount(rl, 16));
            assert(0x0200_0000 <= addr && addr + 4 <= 0x0400_0000);
            let a = addr as u32;
            assert(a == addr);
            assert(readable_n(m, a, 4)) by {
                assert forall|k: int| 0 <= k < 4 implies readable(m, #[trigger] add32(a, k)) by {
                    assert(add32(a, k) == a + k);
                }
            }
            let v = read_u32_spec(m, a);
            assert(add32(a, 4) == addr + 4);
            let t2 = if i == 15 {
                lemma_pc_even(v, t.cpsr);
                crate::cpu::memory::with_pc_exchange(t, v)
            } else {
                set_reg(t, i as int, v)
            };
            assert(block_transfer(t, m, ins, i, a) == block_transfer(t2, m, ins, i + 1, add32(a, 4)));
            assert(t2 == (CPU { registers: t2.registers, ..t }));
            assert(t2.registers[i as int] == v);
            lemma_ldm_words(t2, m, ins, i + 1, addr + 4, start);
            let (u, m2) = block_transfer(t2, m, ins, i + 1, add32(a, 4))->0;
            assert forall|j: nat| i <= j < 16 && #[trigger] bit(ins & 0xFFFF, j as u32) implies u.registers[j as int]
                == read_u32_spec(m, (start + 4 * popcount(ins & 0xFFFF, j)) as u32) by {
                if j > i {
                    lemma_count_mono(rl, i + 1, j);
                } else {
                    assert(u.registers[i as int] == t2.registers[i as int]);
                }
            }
            assert forall|j: int| 0 <= j < 16 && !(i <= j && bit(ins & 0xFFFF, j as u32)) implies #[trigger] u.registers[j]
                == t.registers[j] by {
                assert(u.registers[j] == t2.registers[j]);
            }
        }
    }
}

proof fn lemma_pc_even(v: u32, cpsr: u32)
    ensures
        v % 2 == 0 ==> v & 1 != 1 && v & !1u32 == v,
        !bit(cpsr, 5) ==> cpsr & !0x20u32 == cpsr,
{
    assert((v % 2 == 0 ==> v & 1 != 1 && v & !1u32 == v) && (!((cpsr >> 5u32) & 1 == 1) ==> cpsr
        & !0x20u32 == cpsr)) by (bit_vector);
}

/// `LDMIA SP!, {list}` (0xE8BD0000 | list) after `STMDB SP!, {list}` (0xE92D0000 |
/// list) restores every register, SP included, when the words stored (if any) lie
/// in work RAM (EWRAM or IWRAM, mirrors included) without wrapping; a PC in the
/// list must be even and the CPU in ARM state, so that loading it back changes
/// neither. The load leaves memory as the store left it.
pub proof fn lemma_stm_ldm_round_trip(s: CPU, b: MemoryBus, list: u16)
    requires
        s.registers[13] >= 4 * popcount(list as u32, 16),
        popcount(list as u32, 16) > 0 ==> in_work_ram(
            (s.registers[13] - 4 * popcount(list as u32, 16)) as u32,
            4 * popcount(list as u32, 16) as int,
        ),
        bit(list as u32, 15) ==> s.registers[15] % 2 == 0 && !bit(s.cpsr, 5),
    ensures
        block_result(s, b, 0xE92D_0000u32 | list as u32) is Some,
        ({
            let (s1, b1) = block_result(s, b, 0xE92D_0000u32 | list as u32)->0;
            &&& block_result(s1, b1, 0xE8BD_0000u32 | list as u32) is Some
            &&& block_result(s1, b1, 0xE8BD_0000u32 | list as u32)->0 == (s, b1)
        }),
{
    let l = list as u32;
    let st = 0xE92D_0000u32 | l;
    let ld = 0xE8BD_0000u32 | l;
    assert((st & 0xFFFF) == l && !bit(st, 20) && bit(st, 21) && !bit(st, 23) && bit(st, 24) && (st >> 16)
        & 0xF == 13 && (ld & 0xFFFF) == l && bit(ld, 20) && bit(ld, 21) && bit(ld, 23) && !bit(ld, 24)
        && !bit(ld, 22) && (ld >> 16) & 0xF == 13) by (bit_vector)
        requires
            st == 0xE92D_0000u32 | l,
            ld == 0xE8BD_0000u32 | l,
            l <= 0xFFFF,
    ;
    let sp = s.registers[13];
    let n = popcount(l, 16);
    let start = sp - 4 * n;
    assert(add32(sp, -4 * n) == start);
    lemma_stm_words(s, b, st, 0, start, start);
    let (t, b1) = block_transfer(s, b, st, 0, start as u32)->0;
    let s1 = set_reg(t, 13, start as u32);
    assert(block_result(s, b, st) == Some((s1, b1)));
    assert(s1.registers[13] == start);
    lemma_count_mono(l, 15, 16);
    if bit(l, 15) {
        assert(read_u32_spec(b1, (start + 4 * popcount(l, 15)) as u32) == s.registers[15]);
    }
    lemma_ldm_words(s1, b1, ld, 0, start, start);
    let (u, m2) = block_transfer(s1, b1, ld, 0, start as u32)->0;
    assert(add32(start as u32, 4 * n as int) == sp);
    let u2 = set_reg(u, 13, sp);
    assert(block_result(s1, b1, ld) == Some((u2, b1)));
    assert forall|j: int| 0 <= j < 16 implies u2.registers[j] == s.registers[j] by {
        if j != 13 && bit(l, j as u32) {
            let jj = j as nat;
            assert(bit(ld & 0xFFFF, jj as u32));
            assert(u.registers[j] == read_u32_spec(b1, (start + 4 * popcount(l, jj)) as u32));
        }
    }
    assert(u2.registers =~= s.registers);
}

/// A word LDR reads back what a word STR stored: `STR Rd, [Rn, #imm]` followed by
/// `LDR Re, [Rn, #imm]` (pre-indexed, offset added, no write-back; no register is
/// the PC) leaves the CPU unchanged by the store and sets Re to the stored Rd,
/// when the addressed word lies in RAM. The load leaves memory as it is.
pub proof fn lemma_str_ldr_round_trip(s: CPU, b: MemoryBus, n: u32, d: u32, e: u32, imm: u32)
    requires
        n < 15,
        d < 15,
        e < 15,
        imm < 0x1000,
        in_ram(add32(s.registers[n as int], imm as int), 4),
    ensures
        ({
            let st = 0xE580_0000u32 | (n << 16u32) | (d << 12u32) | imm;
            let ld = 0xE590_0000u32 | (n << 16u32) | (e << 12u32) | imm;
            &&& ldr_str_result(s, b, st) is Some
            &&& (ldr_str_result(s, b, st)->0).0 == s
            &&& ldr_str_result(s, (ldr_str_result(s, b, st)->0).1, ld) == Some(
                (set_reg(s, e as int, s.registers[d as int]), (ldr_str_result(s, b, st)->0).1),
            )
        }),
{
    let st = 0xE580_0000u32 | (n << 16u32) | (d << 12u32) | imm;
    let ld = 0xE590_0000u32 | (n << 16u32) | (e << 12u32) | imm;
    assert((st >> 16) & 0xF == n && (st >> 12) & 0xF == d && !bit(st, 25) && st & 0xFFF == imm && !bit(
        st,
        20,
    ) && !bit(st, 22) && bit(st, 23) && bit(st, 24) && !bit(st, 21) && (ld >> 16) & 0xF == n && (ld
        >> 12) & 0xF == e && !bit(ld, 25) && ld & 0xFFF == imm && bit(ld, 20) && !bit(ld, 22) && bit(
        ld,
        23,
    ) && bit(ld, 24) && !bit(ld, 21)) by (bit_vector)
        requires
            st == 0xE580_0000u32 | (n << 16u32) | (d << 12u32) | imm,
            ld == 0xE590_0000u32 | (n << 16u32) | (e << 12u32) | imm,
            n < 15,
            d < 15,
            e < 15,
            imm < 0x1000,
    ;
    let a = add32(s.registers[n as int], imm as int);
    assert(operand_register(s, n) == s.registers[n as int]);
    let v = s.registers[d as int];
    lemma_ram_word_round_trip(b, a, v);
    let b1 = write_u32_spec(b, a, v);
    assert(ldr_str_result(s, b, st) == Some((s, b1)));
    assert(readable_n(b1, a, 4)) by {
        assert forall|k: int| 0 <= k < 4 implies readable(b1, #[trigger] add32(a, k)) by {
            assert(add32(a, k) == a + k);
        }
    }
    assert(ldr_str_result(s, b1, ld) == Some((set_reg(s, e as int, v), b1)));
}

} // verus!
