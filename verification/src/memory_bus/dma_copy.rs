//! What an immediate 32-bit DMA transfer with incrementing addresses leaves in
//! memory: the destination words read back as the source words did.
use vstd::prelude::*;
use crate::bits::{lemma_and_bound, lemma_shr_bound};
use super::{
    add32, check_dma_fuel, check_dma_ok, check_dma_spec, dma_count, dma_finished, dma_loop,
    lemma_run_dma_needs_fuel, lemma_unfold_check_dma, lemma_unfold_run_dma, lemma_cell_masks, lemma_unfold_dma_loop,
    lemma_unfold_write_u32, lemma_dma_loop_done, ram_kind, read_u16_spec, read_u32_spec, read_u8_spec,
    readable, stored_byte, stored_word_bytes, MemoryBus,
};

verus! {

broadcast use lemma_and_bound, lemma_shr_bound;

/// The storage cell that a read of `a` reaches: the RAM it reads (1 EWRAM,
/// 2 IWRAM, 3 palette, 4 VRAM, 5 OAM) with the mirror-reduced index, or region 0
/// and the address itself for memory that no byte store of RAM can change.
pub open spec fn storage_cell(a: u32) -> (int, int) {
    if 0x0200_0000 <= a <= 0x02FF_FFFF {
        (1, ((a - 0x0200_0000) as u32 & 0x3FFFF) as int)
    } else if 0x0300_0000 <= a <= 0x03FF_FFFF {
        (2, ((a - 0x0300_0000) as u32 & 0x7FFF) as int)
    } else if 0x0500_0000 <= a <= 0x05FF_FFFF {
        (3, ((a - 0x0500_0000) as u32 & 0x3FF) as int)
    } else if 0x0600_0000 <= a <= 0x06FF_FFFF {
        (4, ((a - 0x0600_0000) as u32 & 0x17FFF) as int)
    } else if 0x0700_0000 <= a <= 0x07FF_FFFF {
        (5, ((a - 0x0700_0000) as u32 & 0x3FF) as int)
    } else {
        (0, a as int)
    }
}

/// Whether the cell that `y` reads is none of the cells of the `len` bytes from `a`.
pub open spec fn outside_block(y: u32, a: u32, len: int) -> bool {
    forall|j: int| 0 <= j < len ==> storage_cell(y) != storage_cell(#[trigger] add32(a, j))
}

/// Whether `n` words can be copied from `src` to `dst` without either block
/// wrapping: every destination byte is RAM and the destination bytes are distinct
/// cells, every source byte is readable, and no source byte shares a cell with a
/// destination byte.
pub open spec fn dma_copy_fits(b: MemoryBus, src: u32, dst: u32, n: nat) -> bool {
    &&& src + 4 * n <= 0x1_0000_0000
    &&& dst + 4 * n <= 0x1_0000_0000
    &&& forall|i: int| 0 <= i < 4 * n ==> ram_kind(#[trigger] add32(dst, i)) != 0
    &&& forall|i: int, j: int|
        0 <= i < 4 * n && 0 <= j < 4 * n && i != j ==> storage_cell(#[trigger] add32(dst, i))
            != storage_cell(#[trigger] add32(dst, j))
    &&& forall|i: int| 0 <= i < 4 * n ==> readable(b, #[trigger] add32(src, i))
    &&& forall|i: int| 0 <= i < 4 * n ==> outside_block(#[trigger] add32(src, i), dst, 4 * n as int)
}

/// A byte store to RAM reads back at its address and leaves every other cell.
proof fn lemma_store_cell(b: MemoryBus, x: u32, v: u8, y: u32)
    requires
        ram_kind(x) != 0,
    ensures
        stored_byte(b, x, v).rom == b.rom,
        read_u8_spec(stored_byte(b, x, v), x) == v,
        storage_cell(y) != storage_cell(x) ==> read_u8_spec(stored_byte(b, x, v), y)
            == read_u8_spec(b, y),
{
    reveal(stored_byte);
    reveal(read_u8_spec);
    let k = ram_kind(x);
    if k == 1 {
        assert(read_u8_spec(stored_byte(b, x, v), x) == v);
    } else if k == 2 {
        assert(read_u8_spec(stored_byte(b, x, v), x) == v);
    } else if k == 3 {
        lemma_cell_masks((x - 0x0500_0000) as u32, 0, 0);
        assert(read_u8_spec(stored_byte(b, x, v), x) == v);
    } else if k == 4 || k == 5 {
        lemma_cell_masks((x - 0x0600_0000) as u32, 0, 0);
        assert(read_u8_spec(stored_byte(b, x, v), x) == v);
    } else {
        assert(read_u8_spec(stored_byte(b, x, v), x) == v);
    }
}

/// A word stored to four distinct RAM cells reads back, and leaves every byte
/// whose cell it does not touch.
proof fn lemma_store_word_cells(b: MemoryBus, a: u32, v: u32)
    requires
        a + 4 <= 0x1_0000_0000,
        forall|i: int| 0 <= i < 4 ==> ram_kind(#[trigger] add32(a, i)) != 0,
        forall|i: int, j: int|
            0 <= i < 4 && 0 <= j < 4 && i != j ==> storage_cell(#[trigger] add32(a, i))
                != storage_cell(#[trigger] add32(a, j)),
    ensures
        stored_word_bytes(b, a, v).rom == b.rom,
        read_u32_spec(stored_word_bytes(b, a, v), a) == v,
        forall|y: u32| outside_block(y, a, 4) ==> #[trigger] read_u8_spec(stored_word_bytes(b, a, v), y)
            == read_u8_spec(b, y),
{
    let c0 = (v & 0xFF) as u8;
    let c1 = ((v >> 8) & 0xFF) as u8;
    let c2 = ((v >> 16) & 0xFF) as u8;
    let c3 = ((v >> 24) & 0xFF) as u8;
    let a0 = add32(a, 0);
    let a1 = add32(a, 1);
    let a2 = add32(a, 2);
    let a3 = add32(a, 3);
    assert(a0 == a);
    assert(ram_kind(a0) != 0 && ram_kind(a1) != 0 && ram_kind(a2) != 0 && ram_kind(a3) != 0);
    assert(storage_cell(a0) != storage_cell(a1) && storage_cell(a0) != storage_cell(a2)
        && storage_cell(a0) != storage_cell(a3) && storage_cell(a1) != storage_cell(a2)
        && storage_cell(a1) != storage_cell(a3) && storage_cell(a2) != storage_cell(a3));
    let s1 = stored_byte(b, a, c0);
    let s2 = stored_byte(s1, a1, c1);
    let s3 = stored_byte(s2, a2, c2);
    let s4 = stored_byte(s3, a3, c3);
    assert forall|y: u32| outside_block(y, a, 4) implies #[trigger] read_u8_spec(s4, y) == read_u8_spec(b, y) by {
        assert(storage_cell(y) != storage_cell(add32(a, 0)));
        assert(storage_cell(y) != storage_cell(add32(a, 1)));
        assert(storage_cell(y) != storage_cell(add32(a, 2)));
        assert(storage_cell(y) != storage_cell(add32(a, 3)));
        lemma_store_cell(s3, a3, c3, y);
        lemma_store_cell(s2, a2, c2, y);
        lemma_store_cell(s1, a1, c1, y);
        lemma_store_cell(b, a, c0, y);
    }
    lemma_store_cell(s3, a3, c3, a0);
    lemma_store_cell(s2, a2, c2, a0);
    lemma_store_cell(s1, a1, c1, a0);
    lemma_store_cell(b, a, c0, a0);
    lemma_store_cell(s3, a3, c3, a1);
    lemma_store_cell(s2, a2, c2, a1);
    lemma_store_cell(s1, a1, c1, a1);
    lemma_store_cell(s3, a3, c3, a2);
    lemma_store_cell(s2, a2, c2, a2);
    lemma_store_cell(s3, a3, c3, a3);
    super::lemma_word_bytes(v);
}

/// The address of word `k` of a block at `a`.
pub open spec fn word_at(a: u32, k: int) -> u32 {
    add32(a, 4 * k)
}

proof fn lemma_add32_add(a: u32, i: int, j: int)
    requires
        0 <= i,
        0 <= j,
        a + i + j < 0x1_0000_0000,
    ensures
        add32(a, i) == a + i,
        add32(add32(a, i), j) == add32(a, i + j),
        add32(a, i + j) == a + i + j,
{
}

/// The remaining `n` words of a 32-bit transfer with incrementing source and
/// destination: each destination word reads back as the source word read before
/// the transfer, and every byte outside the destination block is unchanged.
proof fn lemma_dma_copy_loop(b: MemoryBus, control: u32, src: u32, dst: u32, n: u32, fuel: nat)
    requires
        (control >> 10) & 1 == 1,
        (control >> 7) & 3 == 0,
        (control >> 5) & 3 == 0 || (control >> 5) & 3 == 3,
        dma_copy_fits(b, src, dst, n as nat),
    ensures
        dma_loop(b, control, src, dst, n, fuel) is Some,
        forall|k: int|
            0 <= k < n ==> #[trigger] read_u32_spec(dma_loop(b, control, src, dst, n, fuel)->0, word_at(dst, k))
                == read_u32_spec(b, word_at(src, k)),
        forall|y: u32|
            outside_block(y, dst, 4 * n as int) ==> #[trigger] read_u8_spec(
                dma_loop(b, control, src, dst, n, fuel)->0,
                y,
            ) == read_u8_spec(b, y),
        dma_loop(b, control, src, dst, n, fuel)->0.rom == b.rom,
    decreases n,
{
    if n == 0 {
        lemma_dma_loop_done(b, control, src, dst, fuel);
        return;
    }
    lemma_unfold_dma_loop(b, control, src, dst, n, fuel);
    let v = read_u32_spec(b, src);
    lemma_add32_add(dst, 0, 0);
    assert(ram_kind(add32(dst, 0)) != 0);
    lemma_unfold_write_u32(b, dst, v, fuel);
    let b1 = stored_word_bytes(b, dst, v);
    lemma_store_word_cells(b, dst, v);
    let s2 = add32(src, 4);
    let d2 = add32(dst, 4);
    let m: u32 = (n - 1) as u32;
    if m > 0 {
        lemma_add32_add(src, 4, 0);
        lemma_add32_add(dst, 4, 0);
    }
    assert(dma_copy_fits(b1, s2, d2, m as nat)) by {
        assert forall|i: int| 0 <= i < 4 * m implies ram_kind(#[trigger] add32(d2, i)) != 0 by {
            lemma_add32_add(dst, 4, i);
        }
        assert forall|i: int, j: int|
            0 <= i < 4 * m && 0 <= j < 4 * m && i != j implies storage_cell(#[trigger] add32(d2, i))
                != storage_cell(#[trigger] add32(d2, j)) by {
            lemma_add32_add(dst, 4, i);
            lemma_add32_add(dst, 4, j);
            assert(storage_cell(add32(dst, i + 4)) != storage_cell(add32(dst, j + 4)));
        }
        assert forall|i: int| 0 <= i < 4 * m implies readable(b1, #[trigger] add32(s2, i)) by {
            lemma_add32_add(src, 4, i);
            assert(readable(b, add32(src, i + 4)));
        }
        assert forall|i: int| 0 <= i < 4 * m implies outside_block(#[trigger] add32(s2, i), d2, 4 * m as int) by {
            lemma_add32_add(src, 4, i);
            assert(outside_block(add32(src, i + 4), dst, 4 * n as int));
            assert forall|j: int| 0 <= j < 4 * m implies storage_cell(add32(s2, i)) != storage_cell(#[trigger] add32(d2, j)) by {
                lemma_add32_add(dst, 4, j);
                assert(storage_cell(add32(src, i + 4)) != storage_cell(add32(dst, j + 4)));
            }
        }
    }
    lemma_dma_copy_loop(b1, control, s2, d2, m, fuel);
    let b2 = dma_loop(b1, control, s2, d2, m, fuel)->0;
    assert(dma_loop(b, control, src, dst, n, fuel) == dma_loop(b1, control, s2, d2, m, fuel));
    assert forall|y: u32| outside_block(y, dst, 4 * n as int) implies #[trigger] read_u8_spec(b2, y)
        == read_u8_spec(b, y) by {
        assert forall|j: int| 0 <= j < 4 * m implies storage_cell(y) != storage_cell(#[trigger] add32(d2, j)) by {
            lemma_add32_add(dst, 4, j);
            assert(storage_cell(y) != storage_cell(add32(dst, j + 4)));
        }
        assert(outside_block(y, d2, 4 * m as int));
        assert forall|j: int| 0 <= j < 4 implies storage_cell(y) != storage_cell(#[trigger] add32(dst, j)) by {
            assert(storage_cell(y) != storage_cell(add32(dst, j)));
        }
        assert(outside_block(y, dst, 4));
    }
    assert forall|k: int| 0 <= k < n implies #[trigger] read_u32_spec(b2, word_at(dst, k)) == read_u32_spec(b, word_at(src, k)) by {
        if k == 0 {
            assert(word_at(dst, 0) == dst);
            assert(word_at(src, 0) == src);
            assert forall|j: int| 0 <= j < 4 implies read_u8_spec(b2, #[trigger] add32(dst, j)) == read_u8_spec(b1, add32(dst, j)) by {
                assert forall|i: int| 0 <= i < 4 * m implies storage_cell(add32(dst, j)) != storage_cell(#[trigger] add32(d2, i)) by {
                    lemma_add32_add(dst, 4, i);
                    assert(storage_cell(add32(dst, j)) != storage_cell(add32(dst, i + 4)));
                }
                assert(outside_block(add32(dst, j), d2, 4 * m as int));
            }
            assert(read_u8_spec(b2, add32(dst, 0)) == read_u8_spec(b1, add32(dst, 0)));
            assert(read_u8_spec(b2, add32(dst, 1)) == read_u8_spec(b1, add32(dst, 1)));
            assert(read_u8_spec(b2, add32(dst, 2)) == read_u8_spec(b1, add32(dst, 2)));
            assert(read_u8_spec(b2, add32(dst, 3)) == read_u8_spec(b1, add32(dst, 3)));
        } else {
            lemma_add32_add(dst, 4, 4 * (k - 1));
            lemma_add32_add(src, 4, 4 * (k - 1));
            assert(word_at(dst, k) == word_at(d2, k - 1));
            assert(word_at(src, k) == word_at(s2, k - 1));
            assert(read_u32_spec(b2, word_at(d2, k - 1)) == read_u32_spec(b1, word_at(s2, k - 1)));
            let w = word_at(src, k);
            assert forall|j: int| 0 <= j < 4 implies read_u8_spec(b1, #[trigger] add32(w, j)) == read_u8_spec(b, add32(w, j)) by {
                lemma_add32_add(src, 4 * k, j);
                assert(outside_block(add32(src, 4 * k + j), dst, 4 * n as int));
                assert forall|i: int| 0 <= i < 4 implies storage_cell(add32(w, j)) != storage_cell(#[trigger] add32(dst, i)) by {
                    assert(storage_cell(add32(src, 4 * k + j)) != storage_cell(add32(dst, i)));
                }
                assert(outside_block(add32(w, j), dst, 4));
            }
            assert(read_u8_spec(b1, add32(w, 0)) == read_u8_spec(b, add32(w, 0)));
            assert(read_u8_spec(b1, add32(w, 1)) == read_u8_spec(b, add32(w, 1)));
            assert(read_u8_spec(b1, add32(w, 2)) == read_u8_spec(b, add32(w, 2)));
            assert(read_u8_spec(b1, add32(w, 3)) == read_u8_spec(b, add32(w, 3)));
        }
    }
}

/// The source address register of DMA channel `channel`.
pub open spec fn dma_source(b: MemoryBus, channel: usize) -> u32 {
    read_u32_spec(b, (0x0400_00B0 + channel * 0xC) as u32)
}

/// The destination address register of DMA channel `channel`.
pub open spec fn dma_dest(b: MemoryBus, channel: usize) -> u32 {
    read_u32_spec(b, add32((0x0400_00B0 + channel * 0xC) as u32, 4))
}

/// The number of units that DMA channel `channel` moves.
pub open spec fn dma_units(b: MemoryBus, channel: usize) -> nat {
    dma_count(read_u16_spec(b, add32((0x0400_00B0 + channel * 0xC) as u32, 8)), channel)
}

proof fn lemma_finished_keeps_ram(b: MemoryBus, channel: usize, control: u32, y: u32)
    requires
        ram_kind(y) != 0,
    ensures
        read_u8_spec(dma_finished(b, channel, control), y) == read_u8_spec(b, y),
{
    reveal(read_u8_spec);
}

/// DMA copy: a control write that starts channel `channel` at once for 32-bit
/// units with incrementing source and destination (destination mode 0 or 3),
/// whose blocks fit as `dma_copy_fits` says, finishes; afterwards each of the
/// `dma_units` destination words reads back as the source word read before, and
/// every other RAM byte is unchanged.
pub proof fn lemma_dma_copy(b: MemoryBus, channel: usize, control: u32)
    requires
        channel < 4,
        control & 0x8000 != 0,
        (control >> 12) & 3 == 0,
        (control >> 10) & 1 == 1,
        (control >> 7) & 3 == 0,
        (control >> 5) & 3 == 0 || (control >> 5) & 3 == 3,
        dma_copy_fits(b, dma_source(b, channel), dma_dest(b, channel), dma_units(b, channel)),
    ensures
        check_dma_ok(b, channel, control),
        forall|k: int|
            0 <= k < dma_units(b, channel) ==> #[trigger] read_u32_spec(
                check_dma_spec(b, channel, control),
                word_at(dma_dest(b, channel), k),
            ) == read_u32_spec(b, word_at(dma_source(b, channel), k)),
        forall|y: u32|
            ram_kind(y) != 0 && outside_block(y, dma_dest(b, channel), 4 * dma_units(b, channel) as int)
                ==> #[trigger] read_u8_spec(check_dma_spec(b, channel, control), y) == read_u8_spec(b, y),
{
    let src = dma_source(b, channel);
    let dst = dma_dest(b, channel);
    let n = dma_units(b, channel);
    assert(n <= 0x10000);
    let nn = n as u32;
    lemma_unfold_check_dma(b, channel, control, 1);
    lemma_unfold_run_dma(b, channel, control, 1);
    lemma_dma_copy_loop(b, control, src, dst, nn, 0);
    assert(check_dma_fuel(b, channel, control, 1) is Some);
    let f = choose|f: nat| #[trigger] check_dma_fuel(b, channel, control, f) is Some;
    assert(check_dma_fuel(b, channel, control, f) is Some);
    if f == 0 {
        lemma_unfold_check_dma(b, channel, control, 0);
        lemma_run_dma_needs_fuel(b, channel, control);
    }
    lemma_unfold_check_dma(b, channel, control, f);
    lemma_unfold_run_dma(b, channel, control, f);
    lemma_dma_copy_loop(b, control, src, dst, nn, (f - 1) as nat);
    let b2 = dma_loop(b, control, src, dst, nn, (f - 1) as nat)->0;
    let bf = check_dma_spec(b, channel, control);
    assert(bf == dma_finished(b2, channel, control));
    assert forall|y: u32| ram_kind(y) != 0 && outside_block(y, dst, 4 * n as int) implies #[trigger] read_u8_spec(bf, y)
        == read_u8_spec(b, y) by {
        lemma_finished_keeps_ram(b2, channel, control, y);
    }
    assert forall|k: int| 0 <= k < n implies #[trigger] read_u32_spec(bf, word_at(dst, k)) == read_u32_spec(b, word_at(src, k)) by {
        let w = word_at(dst, k);
        assert(read_u32_spec(b2, w) == read_u32_spec(b, word_at(src, k)));
        assert forall|j: int| 0 <= j < 4 implies read_u8_spec(bf, #[trigger] add32(w, j)) == read_u8_spec(b2, add32(w, j)) by {
            lemma_add32_add(dst, 4 * k, j);
            assert(ram_kind(add32(dst, 4 * k + j)) != 0);
            lemma_finished_keeps_ram(b2, channel, control, add32(w, j));
        }
        assert(read_u8_spec(bf, add32(w, 0)) == read_u8_spec(b2, add32(w, 0)));
        assert(read_u8_spec(bf, add32(w, 1)) == read_u8_spec(b2, add32(w, 1)));
        assert(read_u8_spec(bf, add32(w, 2)) == read_u8_spec(b2, add32(w, 2)));
        assert(read_u8_spec(bf, add32(w, 3)) == read_u8_spec(b2, add32(w, 3)));
    }
}

} // verus!
