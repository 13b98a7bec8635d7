//! The THUMB stack instructions undo each other: a POP of the register list that a
//! PUSH saved to work RAM restores the registers and the stack pointer.
use vstd::prelude::*;
use crate::bits::bit;
use crate::cpu::CPU;
use crate::cpu::exceptions::set_reg;
use crate::cpu::memory::popcount;
use crate::memory_bus::{
    MemoryBus, add32, in_work_ram, lemma_work_ram_word_other, lemma_ram_word_round_trip,
    read_u32_spec, readable_n, write_u32_spec,
};
use crate::thumb::{pop_loop, push_loop, push_pop_result, thumb_step};

verus! {

proof fn lemma_popcount_step(x: u32, k: nat)
    requires
        k > 0,
    ensures
        popcount(x, k) == popcount(x, (k - 1) as nat) + if bit(x, (k - 1) as u32) { 1nat } else { 0nat },
{
}

proof fn lemma_popcount_mono(x: u32, j: nat, k: nat)
    requires
        j <= k,
    ensures
        popcount(x, j) <= popcount(x, k),
        popcount(x, k) <= popcount(x, j) + (k - j),
    decreases k - j,
{
    if j < k {
        lemma_popcount_mono(x, j, (k - 1) as nat);
    }
}

/// Pushing registers `k - 1` down to 0 of `rlist` from SP = `sp` stores register
/// `j` at `sp - 4 * (popcount(k) - popcount(j))`, lowers SP by four per register,
/// and leaves the words from `sp` up.
proof fn lemma_push_words(s: CPU, b: MemoryBus, rlist: u32, k: nat, lo: int)
    requires
        k <= 8,
        lo == s.registers[13] - 4 * popcount(rlist, k),
        lo >= 0,
        popcount(rlist, k) > 0 ==> in_work_ram(lo as u32, 4 * popcount(rlist, k) as int),
    ensures
        push_loop(s, b, rlist, k) is Some,
        ({
            let (t, m) = push_loop(s, b, rlist, k)->0;
            &&& t == set_reg(s, 13, lo as u32)
            &&& forall|j: nat|
                j < k && #[trigger] bit(rlist, j as u32) ==> read_u32_spec(
                    m,
                    (s.registers[13] - 4 * (popcount(rlist, k) - popcount(rlist, j))) as u32,
                ) == s.registers[j as int]
            &&& forall|r: u32|
                in_work_ram(r, 4) && (r < 0x0300_0000) == (lo < 0x0300_0000) && s.registers[13] <= r
                    && r + 4 <= lo + 64 ==> #[trigger] read_u32_spec(m, r) == read_u32_spec(b, r)
        }),
    decreases k,
{
    reveal_with_fuel(push_loop, 1);
    let sp = s.registers[13];
    if k == 0 {
        assert(set_reg(s, 13, sp).registers =~= s.registers);
    } else {
        let k1 = (k - 1) as nat;
        lemma_popcount_step(rlist, k);
        if !bit(rlist, k1 as u32) {
            lemma_push_words(s, b, rlist, k1, lo);
            let (t, m) = push_loop(s, b, rlist, k)->0;
            assert forall|j: nat| j < k && #[trigger] bit(rlist, j as u32) implies read_u32_spec(
                m,
                (sp - 4 * (popcount(rlist, k) - popcount(rlist, j))) as u32,
            ) == s.registers[j as int] by {
                assert(j < k1);
            }
        } else {
            let sp1 = add32(sp, -4);
            assert(sp1 == sp - 4);
            let s1 = set_reg(s, 13, sp1);
            let v = s1.registers[k1 as int];
            assert(v == s.registers[k1 as int]);
            lemma_ram_word_round_trip(b, sp1, v);
            let b2 = write_u32_spec(b, sp1, v);
            assert(push_loop(s, b, rlist, k) == push_loop(s1, b2, rlist, k1));
            lemma_push_words(s1, b2, rlist, k1, lo);
            let (t, m) = push_loop(s1, b2, rlist, k1)->0;
            assert(t == set_reg(s, 13, lo as u32)) by {
                assert(t.registers =~= set_reg(s, 13, lo as u32).registers);
            }
            lemma_popcount_mono(rlist, 0, k);
            assert(in_work_ram(sp1, 4) && (sp1 < 0x0300_0000) == (lo < 0x0300_0000) && sp1 + 4 <= lo + 64);
            assert(read_u32_spec(m, sp1) == read_u32_spec(b2, sp1));
            assert(read_u32_spec(m, sp1) == v);
            assert forall|j: nat| j < k && #[trigger] bit(rlist, j as u32) implies read_u32_spec(
                m,
                (sp - 4 * (popcount(rlist, k) - popcount(rlist, j))) as u32,
            ) == s.registers[j as int] by {
                if j < k1 {
                    assert(s1.registers[j as int] == s.registers[j as int]);
                    assert(sp1 - 4 * (popcount(rlist, k1) - popcount(rlist, j)) == sp - 4 * (popcount(
                        rlist,
                        k,
                    ) - popcount(rlist, j)));
                } else {
                    assert(j == k1);
                }
            }
            assert forall|r: u32|
                in_work_ram(r, 4) && (r < 0x0300_0000) == (lo < 0x0300_0000) && sp <= r && r + 4 <= lo
                    + 64 implies #[trigger] read_u32_spec(m, r) == read_u32_spec(b, r) by {
                lemma_work_ram_word_other(b, sp1, v, r);
            }
        }
    }
}

/// Popping registers `i` .. 7 of `rlist` from SP = `a` loads register `j` from
/// `a + 4 * (popcount(j) - popcount(i))`, raises SP by four per register, leaves
/// memory and the other registers.
proof fn lemma_pop_words(t: CPU, m: MemoryBus, rlist: u32, i: nat)
    requires
        i <= 8,
        popcount(rlist, 8) - popcount(rlist, i) > 0 ==> in_work_ram(
            t.registers[13],
            4 * (popcount(rlist, 8) - popcount(rlist, i)) as int,
        ),
    ensures
        pop_loop(t, m, rlist, i) is Some,
        ({
            let (u, m2) = pop_loop(t, m, rlist, i)->0;
            &&& m2 == m
            &&& u == (CPU { registers: u.registers, ..t })
            &&& u.registers[13] == t.registers[13] + 4 * (popcount(rlist, 8) - popcount(rlist, i))
            &&& forall|j: nat|
                i <= j < 8 && #[trigger] bit(rlist, j as u32) ==> u.registers[j as int] == read_u32_spec(
                    m,
                    (t.registers[13] + 4 * (popcount(rlist, j) - popcount(rlist, i))) as u32,
                )
            &&& forall|j: int|
                0 <= j < 16 && j != 13 && !(i <= j < 8 && bit(rlist, j as u32)) ==> #[trigger] u.registers[j]
                    == t.registers[j]
        }),
    decreases 8 - i,
{
    reveal_with_fuel(pop_loop, 1);
    lemma_popcount_mono(rlist, i, 8);
    if i < 8 {
        lemma_popcount_step(rlist, i + 1);
        lemma_popcount_mono(rlist, i + 1, 8);
        let a = t.registers[13];
        if !bit(rlist, i as u32) {
            lemma_pop_words(t, m, rlist, i + 1);
        } else {
            assert(readable_n(m, a, 4)) by {
                assert forall|k: int| 0 <= k < 4 implies crate::memory_bus::readable(m, #[trigger] add32(a, k)) by {
                    assert(add32(a, k) == a + k);
                }
            }
            let v = read_u32_spec(m, a);
            let s1 = set_reg(t, i as int, v);
            let t1 = set_reg(s1, 13, add32(s1.registers[13], 4));
            assert(add32(s1.registers[13], 4) == a + 4);
            assert(pop_loop(t, m, rlist, i) == pop_loop(t1, m, rlist, i + 1));
            lemma_pop_words(t1, m, rlist, i + 1);
            let (u, m2) = pop_loop(t1, m, rlist, i + 1)->0;
            assert(u == (CPU { registers: u.registers, ..t }));
            assert forall|j: nat| i <= j < 8 && #[trigger] bit(rlist, j as u32) implies u.registers[j as int]
                == read_u32_spec(m, (a + 4 * (popcount(rlist, j) - popcount(rlist, i))) as u32) by {
                if j == i {
                    assert(u.registers[j as int] == t1.registers[j as int]);
                } else {
                    lemma_popcount_mono(rlist, i + 1, j);
                }
            }
            assert forall|j: int|
                0 <= j < 16 && j != 13 && !(i <= j < 8 && bit(rlist, j as u32)) implies #[trigger] u.registers[j]
                    == t.registers[j] by {
                assert(u.registers[j] == t1.registers[j]);
            }
        }
    }
}

/// THUMB PUSH {Rlist} followed by POP {Rlist} with the same list (as decoded by
/// `thumb_step`, which `execute_thumb_instruction` runs) restores every
/// register, the stack pointer included, when the words pushed (if any) lie in
/// work RAM (EWRAM or IWRAM, mirrors included) without wrapping: the POP reads back
/// what the PUSH stored, and it does not touch memory.
pub proof fn lemma_push_pop_round_trip(s: CPU, b: MemoryBus, rlist: u16)
    requires
        rlist <= 0xFF,
        s.registers[13] >= 4 * popcount(rlist as u32, 8),
        popcount(rlist as u32, 8) > 0 ==> in_work_ram(
            (s.registers[13] - 4 * popcount(rlist as u32, 8)) as u32,
            4 * popcount(rlist as u32, 8) as int,
        ),
    ensures
        push_pop_result(s, b, 0xB400u16 | rlist) is Some,
        thumb_step(s, b, 0xB400u16 | rlist) == push_pop_result(s, b, 0xB400u16 | rlist),
        ({
            let (s1, b1) = push_pop_result(s, b, 0xB400u16 | rlist)->0;
            &&& thumb_step(s1, b1, 0xBC00u16 | rlist) == push_pop_result(s1, b1, 0xBC00u16 | rlist)
            &&& push_pop_result(s1, b1, 0xBC00u16 | rlist) is Some
            &&& push_pop_result(s1, b1, 0xBC00u16 | rlist)->0 == (s, b1)
        }),
{
    let push = 0xB400u16 | rlist;
    let pop = 0xBC00u16 | rlist;
    assert((push & 0xFF) == rlist && !bit(push as u32, 8) && !bit(push as u32, 11) && (pop & 0xFF)
        == rlist && !bit(pop as u32, 8) && bit(pop as u32, 11) && (push >> 13) & 7 == 5 && (push >> 12)
        & 0xF == 0xB && (push >> 8) == 0xB4 && (pop >> 13) & 7 == 5 && (pop >> 12) & 0xF == 0xB && (pop
        >> 8) == 0xBC) by (bit_vector)
        requires
            push == 0xB400u16 | rlist,
            pop == 0xBC00u16 | rlist,
            rlist <= 0xFF,
    ;
    let rl = rlist as u32;
    assert(((push & 0xFF) as u32) == rl);
    let n = popcount(rl, 8);
    let lo = s.registers[13] - 4 * n;
    lemma_push_words(s, b, rl, 8, lo);
    let (s1, b1) = push_loop(s, b, rl, 8)->0;
    assert(push_pop_result(s, b, push) == push_loop(s, b, rl, 8));
    lemma_pop_words(s1, b1, rl, 0);
    assert(push_pop_result(s1, b1, pop) == pop_loop(s1, b1, rl, 0));
    let (u, m2) = pop_loop(s1, b1, rl, 0)->0;
    assert forall|j: int| 0 <= j < 16 implies u.registers[j] == s.registers[j] by {
        if 0 <= j < 8 && bit(rl, j as u32) {
            let jj = j as nat;
            assert(bit(rl, jj as u32));
            lemma_popcount_mono(rl, jj, 8);
            assert(u.registers[j] == read_u32_spec(b1, (s1.registers[13] + 4 * (popcount(rl, jj) - popcount(rl, 0))) as u32));
            assert(s1.registers[13] + 4 * (popcount(rl, jj) - popcount(rl, 0)) == s.registers[13] - 4 * (
            popcount(rl, 8) - popcount(rl, jj)));
        }
    }
    assert(u.registers =~= s.registers);
}

} // verus!
