//! The GBA memory map: BIOS, work RAM, I/O registers, palette, VRAM, OAM, cartridge
//! ROM and flash, little-endian accesses, timers and DMA.
use vstd::prelude::*;
use vstd::array::spec_array_update;
use crate::bits::{lemma_and_bound, lemma_shr_bound};
use crate::flash::FlashState;
use crate::timer::Timer;

pub mod dma_copy;

verus! {

broadcast use lemma_and_bound, lemma_shr_bound;

pub struct MemoryBus {
    pub rom: Vec<u8>,
    pub bios: [u8; 16384],
    pub ewram: [u8; 262144],
    pub iwram: [u8; 32768],
    pub io: [u8; 1024],
    pub palette: [u8; 1024],
    pub vram: [u8; 98304],
    pub oam: [u8; 1024],
    pub sram: [u8; 65536],
    pub timers: [Timer; 4],
    pub dma_control: [u32; 4],
    pub keyinput: u16,
    pub flash: FlashState,
}

/// `a + k` modulo 2^32.
pub open spec fn add32(a: u32, k: int) -> u32 {
    ((a + k) % 0x1_0000_0000) as u32
}

/// Whether `addr` lies in one of the three mirrors of cartridge ROM.
pub open spec fn is_rom_addr(addr: u32) -> bool {
    0x0800_0000 <= addr <= 0x0DFF_FFFF
}

/// Whether a read of `addr` is defined: ROM reads wrap modulo the ROM size and
/// so need a non-empty ROM.
pub open spec fn readable(b: MemoryBus, addr: u32) -> bool {
    b.rom@.len() > 0 || !is_rom_addr(addr)
}

/// Whether `n` consecutive bytes from `addr` (wrapping) are readable.
pub open spec fn readable_n(b: MemoryBus, addr: u32, n: int) -> bool {
    forall|k: int| 0 <= k < n ==> readable(b, #[trigger] add32(addr, k))
}

/// The byte that a read of `addr` returns.
/// BIOS, EWRAM (mirrored every 256 KiB), IWRAM (every 32 KiB), palette and OAM
/// (every 1 KiB) and VRAM (offset masked with 0x17FFF) read their storage; I/O
/// reads the register block, except that DISPSTAT (0x04000004) reports the
/// V-blank flag from VCOUNT (set when VCOUNT >= 160) and the two KEYINPUT bytes
/// read the key state, low byte first; flash reads go to the flash chip; the three ROM
/// mirrors read the ROM modulo its length; everything else reads 0xFF.
#[verifier::opaque]
pub open spec fn read_u8_spec(b: MemoryBus, addr: u32) -> u8 {
    if addr <= 0x3FFF {
        b.bios[addr as int]
    } else if 0x0200_0000 <= addr <= 0x02FF_FFFF {
        b.ewram[((addr - 0x0200_0000) as u32 & 0x3FFFF) as int]
    } else if 0x0300_0000 <= addr <= 0x03FF_FFFF {
        b.iwram[((addr - 0x0300_0000) as u32 & 0x7FFF) as int]
    } else if 0x0400_0000 <= addr <= 0x0400_03FE {
        if addr == 0x0400_0004 {
            if b.io[6] >= 160 {
                b.io[4] | 1
            } else {
                b.io[4] & !1u8
            }
        } else if addr == 0x0400_0130 {
            b.keyinput as u8
        } else if addr == 0x0400_0131 {
            (b.keyinput >> 8) as u8
        } else {
            b.io[addr - 0x0400_0000]
        }
    } else if 0x0500_0000 <= addr <= 0x05FF_FFFF {
        b.palette[((addr - 0x0500_0000) as u32 & 0x3FF) as int]
    } else if 0x0600_0000 <= addr <= 0x06FF_FFFF {
        b.vram[((addr - 0x0600_0000) as u32 & 0x17FFF) as int]
    } else if 0x0700_0000 <= addr <= 0x07FF_FFFF {
        b.oam[((addr - 0x0700_0000) as u32 & 0x3FF) as int]
    } else if 0x0E00_0000 <= addr <= 0x0E00_FFFF {
        b.flash.read_spec(addr)
    } else if 0x0800_0000 <= addr <= 0x09FF_FFFF {
        b.rom@[(addr - 0x0800_0000) % b.rom@.len() as int]
    } else if 0x0A00_0000 <= addr <= 0x0BFF_FFFF {
        b.rom@[(addr - 0x0A00_0000) % b.rom@.len() as int]
    } else if 0x0C00_0000 <= addr <= 0x0DFF_FFFF {
        b.rom@[(addr - 0x0C00_0000) % b.rom@.len() as int]
    } else {
        0xFF
    }
}

/// A little-endian 32-bit read: four byte reads at `addr` .. `addr + 3` (wrapping).
pub open spec fn read_u32_spec(b: MemoryBus, addr: u32) -> u32 {
    (read_u8_spec(b, addr) + read_u8_spec(b, add32(addr, 1)) * 0x100 + read_u8_spec(
        b,
        add32(addr, 2),
    ) * 0x1_0000 + read_u8_spec(b, add32(addr, 3)) * 0x100_0000) as u32
}

/// A 16-bit read: the four timer counter registers read the live counters; any
/// other address reads two bytes little-endian.
pub open spec fn read_u16_spec(b: MemoryBus, addr: u32) -> u16 {
    if addr == 0x0400_0100 {
        b.timers[0].counter
    } else if addr == 0x0400_0104 {
        b.timers[1].counter
    } else if addr == 0x0400_0108 {
        b.timers[2].counter
    } else if addr == 0x0400_010C {
        b.timers[3].counter
    } else {
        (read_u8_spec(b, addr) + read_u8_spec(b, add32(addr, 1)) * 0x100) as u16
    }
}

proof fn lemma_le32(b0: u8, b1: u8, b2: u8, b3: u8)
    ensures
        (b0 as u32) | ((b1 as u32) << 8u32) | ((b2 as u32) << 16u32) | ((b3 as u32) << 24u32)
            == b0 + b1 * 0x100 + b2 * 0x1_0000 + b3 * 0x100_0000,
{
    assert((b0 as u32) | ((b1 as u32) << 8u32) | ((b2 as u32) << 16u32) | ((b3 as u32) << 24u32)
        == (b0 as u32) + (b1 as u32) * 0x100u32 + (b2 as u32) * 0x1_0000u32 + (b3 as u32)
        * 0x100_0000u32) by (bit_vector);
}

proof fn lemma_le16(b0: u8, b1: u8)
    ensures
        (b0 as u16) | ((b1 as u16) << 8u16) == b0 + b1 * 0x100,
{
    assert((b0 as u16) | ((b1 as u16) << 8u16) == (b0 as u16) + (b1 as u16) * 0x100u16)
        by (bit_vector);
}


/// The bus after the byte store that word and halfword writes are made of.
/// BIOS and unmapped addresses ignore it; EWRAM, IWRAM and OAM store with their
/// mirroring; in the I/O block DISPSTAT (offset 4) keeps its three read-only low
/// bits, IF (offsets 0x202, 0x203) clears the bits written as 1, and other
/// registers store the byte; palette (0x05000000-0x050003FF) and VRAM
/// (0x06000000-0x06017FFF) store without mirroring; flash takes the write.
#[verifier::opaque]
pub open spec fn stored_byte(b: MemoryBus, addr: u32, v: u8) -> MemoryBus {
    if addr <= 0x3FFF {
        b
    } else if 0x0200_0000 <= addr <= 0x02FF_FFFF {
        MemoryBus {
            ewram: spec_array_update(b.ewram, ((addr - 0x0200_0000) as u32 & 0x3FFFF) as int, v),
            ..b
        }
    } else if 0x0300_0000 <= addr <= 0x03FF_FFFF {
        MemoryBus {
            iwram: spec_array_update(b.iwram, ((addr - 0x0300_0000) as u32 & 0x7FFF) as int, v),
            ..b
        }
    } else if 0x0400_0000 <= addr <= 0x0400_03FE {
        let off = addr - 0x0400_0000;
        let nv = if off == 4 {
            (v & 0xF8) | (b.io[4] & 7)
        } else if off == 0x202 || off == 0x203 {
            b.io[off] & !v
        } else {
            v
        };
        MemoryBus { io: spec_array_update(b.io, off, nv), ..b }
    } else if 0x0500_0000 <= addr <= 0x0500_03FF {
        MemoryBus { palette: spec_array_update(b.palette, addr - 0x0500_0000, v), ..b }
    } else if 0x0600_0000 <= addr <= 0x0601_7FFF {
        MemoryBus { vram: spec_array_update(b.vram, addr - 0x0600_0000, v), ..b }
    } else if 0x0E00_0000 <= addr <= 0x0E00_FFFF {
        MemoryBus { flash: b.flash.written(addr, v), ..b }
    } else if 0x0700_0000 <= addr <= 0x07FF_FFFF {
        MemoryBus {
            oam: spec_array_update(b.oam, ((addr - 0x0700_0000) as u32 & 0x3FF) as int, v),
            ..b
        }
    } else {
        b
    }
}

/// The bus after a byte store by the CPU. It differs from `stored_byte` in that
/// DISPSTAT takes the whole byte, a palette store writes both bytes of the
/// halfword (mirrored every 1 KiB), a store to background VRAM
/// (0x06000000-0x0600FFFF) writes both bytes of the halfword, and stores to OBJ
/// VRAM (0x06010000-0x06017FFF) and OAM are ignored.
#[verifier::opaque]
pub open spec fn cpu_stored_byte(b: MemoryBus, addr: u32, v: u8) -> MemoryBus {
    if addr <= 0x3FFF {
        b
    } else if 0x0200_0000 <= addr <= 0x02FF_FFFF || 0x0300_0000 <= addr <= 0x03FF_FFFF {
        stored_byte(b, addr, v)
    } else if 0x0400_0000 <= addr <= 0x0400_03FE {
        let off = addr - 0x0400_0000;
        let nv = if off == 0x202 || off == 0x203 {
            b.io[off] & !v
        } else {
            v
        };
        MemoryBus { io: spec_array_update(b.io, off, nv), ..b }
    } else if 0x0500_0000 <= addr <= 0x05FF_FFFF {
        let o = ((addr - 0x0500_0000) as u32 & 0x3FE) as int;
        MemoryBus { palette: spec_array_update(spec_array_update(b.palette, o, v), o + 1, v), ..b }
    } else if 0x0601_0000 <= addr <= 0x0601_7FFF {
        b
    } else if 0x0600_0000 <= addr <= 0x0600_FFFF {
        let o = ((addr - 0x0600_0000) as u32 & 0xFFFE) as int;
        MemoryBus { vram: spec_array_update(spec_array_update(b.vram, o, v), o + 1, v), ..b }
    } else if 0x0E00_0000 <= addr <= 0x0E00_FFFF {
        MemoryBus { flash: b.flash.written(addr, v), ..b }
    } else if 0x0700_0000 <= addr <= 0x07FF_FFFF {
        b
    } else {
        stored_byte(b, addr, v)
    }
}

/// The four byte stores of a little-endian word.
pub open spec fn stored_word_bytes(b: MemoryBus, addr: u32, v: u32) -> MemoryBus {
    stored_byte(
        stored_byte(
            stored_byte(stored_byte(b, addr, (v & 0xFF) as u8), add32(addr, 1), ((v >> 8) & 0xFF) as u8),
            add32(addr, 2),
            ((v >> 16) & 0xFF) as u8,
        ),
        add32(addr, 3),
        ((v >> 24) & 0xFF) as u8,
    )
}

/// The two byte stores of a little-endian halfword (the low 16 bits of `v`).
pub open spec fn stored_half_bytes(b: MemoryBus, addr: u32, v: u32) -> MemoryBus {
    stored_byte(stored_byte(b, addr, (v & 0xFF) as u8), add32(addr, 1), ((v >> 8) & 0xFF) as u8)
}

/// The bus with timer `i` replaced.
pub open spec fn with_timer(b: MemoryBus, i: int, t: Timer) -> MemoryBus {
    MemoryBus { timers: spec_array_update(b.timers, i, t), ..b }
}

/// The timer side effects of a halfword write: the counter registers
/// (0x04000100 + 4i) set timer i's reload value, the control registers
/// (0x04000102 + 4i) write timer i's control.
#[verifier::opaque]
pub open spec fn timer_written(b: MemoryBus, addr: u32, v: u32) -> MemoryBus {
    if addr == 0x0400_0100 {
        with_timer(b, 0, Timer { reload: v as u16, ..b.timers[0] })
    } else if addr == 0x0400_0104 {
        with_timer(b, 1, Timer { reload: v as u16, ..b.timers[1] })
    } else if addr == 0x0400_0108 {
        with_timer(b, 2, Timer { reload: v as u16, ..b.timers[2] })
    } else if addr == 0x0400_010C {
        with_timer(b, 3, Timer { reload: v as u16, ..b.timers[3] })
    } else if addr == 0x0400_0102 {
        with_timer(b, 0, b.timers[0].controlled(v as u16))
    } else if addr == 0x0400_0106 {
        with_timer(b, 1, b.timers[1].controlled(v as u16))
    } else if addr == 0x0400_010A {
        with_timer(b, 2, b.timers[2].controlled(v as u16))
    } else if addr == 0x0400_010E {
        with_timer(b, 3, b.timers[3].controlled(v as u16))
    } else {
        b
    }
}

/// The DMA channel whose 16-bit control register is at `addr` (0x040000BA + 12n).
pub open spec fn dma_control_channel(addr: u32) -> Option<usize> {
    if addr == 0x0400_00BA {
        Some(0usize)
    } else if addr == 0x0400_00C6 {
        Some(1usize)
    } else if addr == 0x0400_00D2 {
        Some(2usize)
    } else if addr == 0x0400_00DE {
        Some(3usize)
    } else {
        None
    }
}

/// The DMA channel whose 32-bit count+control register is at `addr` (0x040000B8 + 12n).
pub open spec fn dma_count_channel(addr: u32) -> Option<usize> {
    if addr == 0x0400_00B8 {
        Some(0usize)
    } else if addr == 0x0400_00C4 {
        Some(1usize)
    } else if addr == 0x0400_00D0 {
        Some(2usize)
    } else if addr == 0x0400_00DC {
        Some(3usize)
    } else {
        None
    }
}

/// The address that a DMA transfer step leaves behind: 0 = increment, 1 = decrement,
/// otherwise fixed (for the destination, 3 also increments).
pub open spec fn dma_next(a: u32, ctrl: u32, unit: u32, is_dst: bool) -> u32 {
    if ctrl == 0 || (is_dst && ctrl == 3) {
        add32(a, unit as int)
    } else if ctrl == 1 {
        add32(a, -(unit as int))
    } else {
        a
    }
}

/// Word count of a DMA transfer: the count register, where 0 means 0x10000 for
/// channel 3 and 0x4000 otherwise.
pub open spec fn dma_count(raw: u16, channel: usize) -> nat {
    if raw == 0 {
        if channel == 3 { 0x10000 } else { 0x4000 }
    } else {
        raw as nat
    }
}

/// The I/O offset of the high byte of channel `channel`'s control register.
pub open spec fn dma_enable_byte(channel: usize) -> int {
    0xBA + channel * 0xC + 1
}

/// The bus operations that can nest through DMA: a word or halfword write, a
/// DMA control write, a DMA transfer, and the remaining units of a transfer
/// (control, source, destination, units left).
pub enum BusWrite {
    Word(u32, u32),
    Half(u32, u32),
    Control(usize, u32),
    Run(usize, u32),
    Transfer(u32, u32, u32, u32),
}

/// Order of the operations for the termination measure.
pub open spec fn bus_write_rank(op: BusWrite) -> nat {
    match op {
        BusWrite::Transfer(..) => 3,
        BusWrite::Word(..) => 2,
        BusWrite::Half(..) => 2,
        BusWrite::Control(..) => 1,
        BusWrite::Run(..) => 0,
    }
}

/// Units left in a transfer.
pub open spec fn bus_write_units(op: BusWrite) -> nat {
    match op {
        BusWrite::Transfer(_, _, _, n) => n as nat,
        _ => 0,
    }
}

/// The bus after `op`, where at most `fuel` DMA transfers may nest; `None` when
/// more would.
///
/// * A halfword write stores two bytes, applies the timer side effects, then (for
///   a DMA control register) performs the DMA control write.
/// * A word write stores four bytes, then (for a DMA count+control register)
///   performs the DMA control write with the high halfword.
/// * A DMA control write to `channel`: without the enable bit (15) the channel is
///   disarmed; with start timing 0 (bits 13-12) the transfer runs now; otherwise
///   it is armed for V-blank, H-blank or special start.
/// * A transfer reads source, destination and count from the channel's
///   registers, moves the units through the bus (32-bit if control bit 10, else
///   16-bit; source steps as bits 8-7 say, destination as bits 6-5 say), and
///   then finishes as `dma_finished` says.
#[verifier::opaque]
pub open spec fn bus_write(b: MemoryBus, op: BusWrite, fuel: nat) -> Option<MemoryBus>
    decreases fuel, bus_write_rank(op), bus_write_units(op),
{
    match op {
        BusWrite::Half(addr, v) => {
            let b1 = timer_written(stored_half_bytes(b, addr, v), addr, v);
            match dma_control_channel(addr) {
                Some(ch) => bus_write(b1, BusWrite::Control(ch, v), fuel),
                None => Some(b1),
            }
        },
        BusWrite::Word(addr, v) => {
            let b1 = stored_word_bytes(b, addr, v);
            match dma_count_channel(addr) {
                Some(ch) => bus_write(b1, BusWrite::Control(ch, v >> 16), fuel),
                None => Some(b1),
            }
        },
        BusWrite::Control(channel, control) => {
            if channel >= 4 {
                None
            } else if control & 0x8000 == 0 {
                Some(MemoryBus { dma_control: spec_array_update(b.dma_control, channel as int, 0u32), ..b })
            } else if (control >> 12) & 3 == 0 {
                bus_write(b, BusWrite::Run(channel, control), fuel)
            } else {
                Some(MemoryBus { dma_control: spec_array_update(b.dma_control, channel as int, control), ..b })
            }
        },
        BusWrite::Run(channel, control) => {
            if fuel == 0 || channel >= 4 {
                None
            } else {
                let base = (0x0400_00B0 + channel * 0xC) as u32;
                let src = read_u32_spec(b, base);
                let dst = read_u32_spec(b, add32(base, 4));
                let count = dma_count(read_u16_spec(b, add32(base, 8)), channel);
                match bus_write(b, BusWrite::Transfer(control, src, dst, count as u32), (fuel - 1) as nat) {
                    None => None,
                    Some(b2) => Some(dma_finished(b2, channel, control)),
                }
            }
        },
        BusWrite::Transfer(control, src, dst, n) => {
            if n == 0 {
                Some(b)
            } else {
                let is32 = (control >> 10) & 1 == 1;
                let unit: u32 = if is32 { 4 } else { 2 };
                if !readable_n(b, src, unit as int) {
                    None
                } else {
                    let written = if is32 {
                        bus_write(b, BusWrite::Word(dst, read_u32_spec(b, src)), fuel)
                    } else {
                        bus_write(b, BusWrite::Half(dst, read_u16_spec(b, src) as u32), fuel)
                    };
                    match written {
                        None => None,
                        Some(b2) => bus_write(
                            b2,
                            BusWrite::Transfer(
                                control,
                                dma_next(src, (control >> 7) & 3, unit, false),
                                dma_next(dst, (control >> 5) & 3, unit, true),
                                (n - 1) as u32,
                            ),
                            fuel,
                        ),
                    }
                }
            }
        },
    }
}

/// A halfword write with at most `fuel` nested DMA transfers.
pub open spec fn write_u16_fuel(b: MemoryBus, addr: u32, v: u32, fuel: nat) -> Option<MemoryBus> {
    bus_write(b, BusWrite::Half(addr, v), fuel)
}

/// A word write with at most `fuel` nested DMA transfers.
pub open spec fn write_u32_fuel(b: MemoryBus, addr: u32, v: u32, fuel: nat) -> Option<MemoryBus> {
    bus_write(b, BusWrite::Word(addr, v), fuel)
}

/// A DMA control write with at most `fuel` nested DMA transfers.
pub open spec fn check_dma_fuel(b: MemoryBus, channel: usize, control: u32, fuel: nat) -> Option<MemoryBus> {
    bus_write(b, BusWrite::Control(channel, control), fuel)
}

/// A DMA transfer with at most `fuel` nested DMA transfers.
pub open spec fn run_dma_fuel(b: MemoryBus, channel: usize, control: u32, fuel: nat) -> Option<MemoryBus> {
    bus_write(b, BusWrite::Run(channel, control), fuel)
}

/// The remaining `n` units of a transfer.
pub open spec fn dma_loop(b: MemoryBus, control: u32, src: u32, dst: u32, n: u32, fuel: nat) -> Option<MemoryBus> {
    bus_write(b, BusWrite::Transfer(control, src, dst, n), fuel)
}

/// Whether a word write finishes (no unbounded chain of DMA transfers).
pub open spec fn write_u32_ok(b: MemoryBus, addr: u32, v: u32) -> bool {
    exists|f: nat| #[trigger] write_u32_fuel(b, addr, v, f) is Some
}

/// The bus after a finishing word write.
pub open spec fn write_u32_spec(b: MemoryBus, addr: u32, v: u32) -> MemoryBus {
    write_u32_fuel(b, addr, v, choose|f: nat| #[trigger] write_u32_fuel(b, addr, v, f) is Some)->0
}

/// Whether a halfword write finishes.
pub open spec fn write_u16_ok(b: MemoryBus, addr: u32, v: u32) -> bool {
    exists|f: nat| #[trigger] write_u16_fuel(b, addr, v, f) is Some
}

/// The bus after a finishing halfword write.
pub open spec fn write_u16_spec(b: MemoryBus, addr: u32, v: u32) -> MemoryBus {
    write_u16_fuel(b, addr, v, choose|f: nat| #[trigger] write_u16_fuel(b, addr, v, f) is Some)->0
}

/// The DMA channels armed for start timing `timing` (1 = V-blank, 2 = H-blank), from
/// channel `ch` on, run in channel order.
pub open spec fn timed_dma_fuel(b: MemoryBus, timing: u32, ch: nat, fuel: nat) -> Option<MemoryBus>
    decreases 4 - ch,
{
    if ch >= 4 {
        Some(b)
    } else {
        let control = b.dma_control[ch as int];
        if control & 0x8000 == 0 || (control >> 12) & 3 != timing {
            timed_dma_fuel(b, timing, ch + 1, fuel)
        } else {
            match run_dma_fuel(b, ch as usize, control, fuel) {
                None => None,
                Some(b2) => timed_dma_fuel(b2, timing, ch + 1, fuel),
            }
        }
    }
}

/// Whether the armed transfers of a start timing all finish.
pub open spec fn timed_dma_ok(b: MemoryBus, timing: u32) -> bool {
    exists|f: nat| #[trigger] timed_dma_fuel(b, timing, 0, f) is Some
}

/// The bus after the armed transfers of a start timing have run.
pub open spec fn timed_dma_spec(b: MemoryBus, timing: u32) -> MemoryBus {
    timed_dma_fuel(b, timing, 0, choose|f: nat| #[trigger] timed_dma_fuel(b, timing, 0, f) is Some)->0
}

/// Whether a DMA control write finishes.
pub open spec fn check_dma_ok(b: MemoryBus, channel: usize, control: u32) -> bool {
    exists|f: nat| #[trigger] check_dma_fuel(b, channel, control, f) is Some
}

/// The bus after a finishing DMA control write.
pub open spec fn check_dma_spec(b: MemoryBus, channel: usize, control: u32) -> MemoryBus {
    check_dma_fuel(b, channel, control, choose|f: nat| #[trigger] check_dma_fuel(b, channel, control, f) is Some)->0
}

/// A byte load: `None` when the address is not readable.
pub open spec fn load8(b: MemoryBus, addr: u32) -> Option<u8> {
    if readable(b, addr) { Some(read_u8_spec(b, addr)) } else { None }
}

/// A halfword load: `None` when the bytes are not readable.
pub open spec fn load16(b: MemoryBus, addr: u32) -> Option<u16> {
    if readable_n(b, addr, 2) { Some(read_u16_spec(b, addr)) } else { None }
}

/// A word load: `None` when the bytes are not readable.
pub open spec fn load32(b: MemoryBus, addr: u32) -> Option<u32> {
    if readable_n(b, addr, 4) { Some(read_u32_spec(b, addr)) } else { None }
}

/// A word store: `None` when it would not finish.
pub open spec fn store32(b: MemoryBus, addr: u32, v: u32) -> Option<MemoryBus> {
    if write_u32_ok(b, addr, v) { Some(write_u32_spec(b, addr, v)) } else { None }
}

/// A halfword store: `None` when it would not finish.
pub open spec fn store16(b: MemoryBus, addr: u32, v: u32) -> Option<MemoryBus> {
    if write_u16_ok(b, addr, v) { Some(write_u16_spec(b, addr, v)) } else { None }
}

/// Whether `addr` lies in work RAM (EWRAM or IWRAM, with their mirrors).
pub open spec fn is_work_ram(addr: u32) -> bool {
    0x0200_0000 <= addr <= 0x02FF_FFFF || 0x0300_0000 <= addr <= 0x03FF_FFFF
}

/// A byte read from work RAM returns the byte that the CPU stored there last.
pub proof fn lemma_work_ram_byte_round_trip(b: MemoryBus, addr: u32, v: u8)
    requires
        is_work_ram(addr),
    ensures
        read_u8_spec(cpu_stored_byte(b, addr, v), addr) == v,
{
    reveal(cpu_stored_byte);
    reveal(stored_byte);
    reveal(read_u8_spec);
}

/// Storing to work RAM leaves every other work RAM byte of a different
/// mirror-reduced location unchanged: bytes `addr` and `other` that map to
/// distinct storage cells do not interfere.
pub proof fn lemma_stored_byte_other(b: MemoryBus, addr: u32, v: u8, other: u32)
    requires
        is_work_ram(addr),
        is_work_ram(other),
        !((0x0200_0000 <= addr <= 0x02FF_FFFF && 0x0200_0000 <= other <= 0x02FF_FFFF && ((addr
            - 0x0200_0000) as u32 & 0x3FFFF) == ((other - 0x0200_0000) as u32 & 0x3FFFF)) || (
        0x0300_0000 <= addr <= 0x03FF_FFFF && 0x0300_0000 <= other <= 0x03FF_FFFF && ((addr
            - 0x0300_0000) as u32 & 0x7FFF) == ((other - 0x0300_0000) as u32 & 0x7FFF))),
    ensures
        read_u8_spec(stored_byte(b, addr, v), other) == read_u8_spec(b, other),
{
    reveal(stored_byte);
    reveal(read_u8_spec);
}

/// Whether the `n` bytes from `a` lie, without wrapping, inside EWRAM (with its
/// mirrors) or inside IWRAM (with its mirrors).
pub open spec fn in_work_ram(a: u32, n: int) -> bool {
    (0x0200_0000 <= a && a + n <= 0x0300_0000) || (0x0300_0000 <= a && a + n <= 0x0400_0000)
}

/// Whether byte addresses `x` and `y` are different cells of one work RAM: in the
/// same region and closer than its mirror period.
pub open spec fn distinct_cells(x: u32, y: u32) -> bool {
    &&& x != y
    &&& ((0x0200_0000 <= x <= 0x02FF_FFFF && 0x0200_0000 <= y <= 0x02FF_FFFF && -0x4_0000 < x - y < 0x4_0000)
        || (0x0300_0000 <= x <= 0x03FF_FFFF && 0x0300_0000 <= y <= 0x03FF_FFFF && -0x8000 < x - y
        < 0x8000))
}

proof fn lemma_cells_differ(x: u32, y: u32, base: u32, mask: u32)
    requires
        mask == 0x3FFFF || mask == 0x7FFF,
        base <= x,
        base <= y,
        x != y,
        x > y ==> x - y <= mask,
        y > x ==> y - x <= mask,
    ensures
        ((x - base) as u32 & mask) != ((y - base) as u32 & mask),
{
    assert(((x - base) as u32 & mask) != ((y - base) as u32 & mask)) by (bit_vector)
        requires
            mask == 0x3FFFF || mask == 0x7FFF,
            base <= x,
            base <= y,
            x != y,
            x > y ==> x - y <= mask,
            y > x ==> y - x <= mask,
    ;
}

/// A byte store to one work RAM cell leaves every other cell's byte.
pub proof fn lemma_store_other_cell(b: MemoryBus, x: u32, v: u8, y: u32)
    requires
        distinct_cells(x, y),
    ensures
        read_u8_spec(stored_byte(b, x, v), y) == read_u8_spec(b, y),
{
    if 0x0200_0000 <= x <= 0x02FF_FFFF {
        lemma_cells_differ(x, y, 0x0200_0000, 0x3FFFF);
    } else {
        lemma_cells_differ(x, y, 0x0300_0000, 0x7FFF);
    }
    lemma_stored_byte_other(b, x, v, y);
}

/// A word store that is not to a DMA count register finishes and stores its four
/// bytes.
proof fn lemma_plain_write_u32(b: MemoryBus, addr: u32, v: u32)
    requires
        dma_count_channel(addr) is None,
    ensures
        write_u32_ok(b, addr, v),
        write_u32_spec(b, addr, v) == stored_word_bytes(b, addr, v),
{
    lemma_unfold_write_u32(b, addr, v, 0);
    assert(write_u32_fuel(b, addr, v, 0) is Some);
    let f = choose|f: nat| #[trigger] write_u32_fuel(b, addr, v, f) is Some;
    lemma_unfold_write_u32(b, addr, v, f);
}

/// A word stored in work RAM leaves a word that it does not overlap, four bytes
/// or more away in the same region and within one mirror period.
pub proof fn lemma_work_ram_word_other(b: MemoryBus, w: u32, v: u32, r: u32)
    requires
        in_work_ram(w, 4),
        in_work_ram(r, 4),
        (w < 0x0300_0000) == (r < 0x0300_0000),
        w + 4 <= r || r + 4 <= w,
        -0x7FF0 < w - r < 0x7FF0,
    ensures
        write_u32_ok(b, w, v),
        read_u32_spec(write_u32_spec(b, w, v), r) == read_u32_spec(b, r),
{
    lemma_plain_write_u32(b, w, v);
    let b0 = (v & 0xFF) as u8;
    let b1 = ((v >> 8) & 0xFF) as u8;
    let b2 = ((v >> 16) & 0xFF) as u8;
    let b3 = ((v >> 24) & 0xFF) as u8;
    assert(add32(w, 1) == w + 1 && add32(w, 2) == w + 2 && add32(w, 3) == w + 3);
    assert(add32(r, 1) == r + 1 && add32(r, 2) == r + 2 && add32(r, 3) == r + 3);
    let s1 = stored_byte(b, w, b0);
    let s2 = stored_byte(s1, add32(w, 1), b1);
    let s3 = stored_byte(s2, add32(w, 2), b2);
    let s4 = stored_byte(s3, add32(w, 3), b3);
    assert forall|j: int| 0 <= j < 4 implies read_u8_spec(s4, #[trigger] add32(r, j)) == read_u8_spec(b, add32(r, j)) by {
        let y = add32(r, j);
        assert(y == r + j);
        lemma_store_other_cell(s3, add32(w, 3), b3, y);
        lemma_store_other_cell(s2, add32(w, 2), b2, y);
        lemma_store_other_cell(s1, add32(w, 1), b1, y);
        lemma_store_other_cell(b, w, b0, y);
    }
    assert(read_u8_spec(s4, add32(r, 0)) == read_u8_spec(b, add32(r, 0)));
    assert(add32(r, 0) == r);
}

proof fn lemma_word_bytes(v: u32)
    ensures
        (v & 0xFF) + ((v >> 8) & 0xFF) * 0x100 + ((v >> 16) & 0xFF) * 0x1_0000 + ((v >> 24) & 0xFF)
            * 0x100_0000 == v,
{
    assert((v & 0xFF) + ((v >> 8) & 0xFF) * 0x100 + ((v >> 16) & 0xFF) * 0x1_0000 + ((v >> 24)
        & 0xFF) * 0x100_0000 == v) by (bit_vector);
}

/// The RAM that the byte at `a` belongs to, as far as reads give back stores:
/// 1 EWRAM and 2 IWRAM (with their mirrors), 3 palette RAM (its first copy),
/// 4 the low 32 KiB of VRAM, 5 the sprite tile VRAM (0x06010000-0x06017FFF),
/// 6 OAM (with its mirrors); 0 for anything else.
pub open spec fn ram_kind(a: u32) -> int {
    if 0x0200_0000 <= a <= 0x02FF_FFFF {
        1
    } else if 0x0300_0000 <= a <= 0x03FF_FFFF {
        2
    } else if 0x0500_0000 <= a <= 0x0500_03FF {
        3
    } else if 0x0600_0000 <= a <= 0x0600_7FFF {
        4
    } else if 0x0601_0000 <= a <= 0x0601_7FFF {
        5
    } else if 0x0700_0000 <= a <= 0x07FF_FFFF {
        6
    } else {
        0
    }
}

/// Whether the `n` bytes from `a` (n from 1 to 4) lie, without wrapping, in one of
/// those RAMs.
pub open spec fn in_ram(a: u32, n: int) -> bool {
    &&& 1 <= n <= 4
    &&& ram_kind(a) != 0
    &&& a + n - 1 <= 0xFFFF_FFFF
    &&& ram_kind((a + n - 1) as u32) == ram_kind(a)
}

proof fn lemma_cell_masks(i: u32, j: u32, v: u32)
    ensures
        i < 0x400 ==> i & 0x3FF == i,
        (i < 0x8000 || (0x10000 <= i && i < 0x18000)) ==> i & 0x17FFF == i,
        (i != j && (i < j ==> j - i < 4) && (j < i ==> i - j < 4)) ==> (i & 0x3FF) != (j & 0x3FF) && (i
            & 0x7FFF) != (j & 0x7FFF) && (i & 0x3FFFF) != (j & 0x3FFFF),
        (v & 0xFF) + ((v >> 8) & 0xFF) * 0x100 == v & 0xFFFF,
{
    assert((i < 0x400 ==> i & 0x3FF == i) && ((i < 0x8000 || (0x10000 <= i && i < 0x18000)) ==> i
        & 0x17FFF == i) && ((i != j && (i < j ==> j - i < 4) && (j < i ==> i - j < 4)) ==> (i & 0x3FF)
        != (j & 0x3FF) && (i & 0x7FFF) != (j & 0x7FFF) && (i & 0x3FFFF) != (j & 0x3FFFF)) && (v & 0xFF)
        + ((v >> 8) & 0xFF) * 0x100 == v & 0xFFFF) by (bit_vector);
}

/// A byte store to a RAM cell reads back from that cell and leaves a nearby cell
/// of the same RAM alone.
proof fn lemma_ram_byte(b: MemoryBus, x: u32, v: u8, y: u32)
    requires
        ram_kind(x) != 0,
        ram_kind(y) == ram_kind(x),
        -4 < x - y < 4,
    ensures
        read_u8_spec(stored_byte(b, x, v), y) == if x == y {
            v
        } else {
            read_u8_spec(b, y)
        },
{
    reveal(stored_byte);
    reveal(read_u8_spec);
    let k = ram_kind(x);
    let base: u32 = if k == 1 {
        0x0200_0000
    } else if k == 2 {
        0x0300_0000
    } else if k == 3 {
        0x0500_0000
    } else if k == 4 || k == 5 {
        0x0600_0000
    } else {
        0x0700_0000
    };
    lemma_cell_masks((x - base) as u32, (y - base) as u32, 0);
    lemma_cell_masks((y - base) as u32, (x - base) as u32, 0);
}

proof fn lemma_ram_bytes_of(a: u32, n: int, j: int)
    requires
        in_ram(a, n),
        0 <= j < n,
    ensures
        add32(a, j) == a + j,
        ram_kind(add32(a, j)) == ram_kind(a),
{
}

/// A word read from RAM returns the word last written there: the four bytes of a
/// word write land in four distinct cells and read back little-endian.
pub proof fn lemma_ram_word_round_trip(b: MemoryBus, addr: u32, v: u32)
    requires
        in_ram(addr, 4),
    ensures
        write_u32_ok(b, addr, v),
        read_u32_spec(write_u32_spec(b, addr, v), addr) == v,
{
    lemma_plain_write_u32(b, addr, v);
    let c0 = (v & 0xFF) as u8;
    let c1 = ((v >> 8) & 0xFF) as u8;
    let c2 = ((v >> 16) & 0xFF) as u8;
    let c3 = ((v >> 24) & 0xFF) as u8;
    lemma_ram_bytes_of(addr, 4, 0);
    lemma_ram_bytes_of(addr, 4, 1);
    lemma_ram_bytes_of(addr, 4, 2);
    lemma_ram_bytes_of(addr, 4, 3);
    let a1 = add32(addr, 1);
    let a2 = add32(addr, 2);
    let a3 = add32(addr, 3);
    let s1 = stored_byte(b, addr, c0);
    let s2 = stored_byte(s1, a1, c1);
    let s3 = stored_byte(s2, a2, c2);
    let s4 = stored_byte(s3, a3, c3);
    assert forall|j: int| 0 <= j < 4 implies read_u8_spec(s4, #[trigger] add32(addr, j)) == (if j == 0 {
        c0
    } else if j == 1 {
        c1
    } else if j == 2 {
        c2
    } else {
        c3
    }) by {
        lemma_ram_bytes_of(addr, 4, j);
        let y = add32(addr, j);
        lemma_ram_byte(s3, a3, c3, y);
        lemma_ram_byte(s2, a2, c2, y);
        lemma_ram_byte(s1, a1, c1, y);
        lemma_ram_byte(b, addr, c0, y);
    }
    assert(read_u8_spec(s4, add32(addr, 0)) == c0);
    lemma_word_bytes(v);
}

/// A halfword read from RAM returns the low 16 bits of the value last written
/// there by a halfword write.
pub proof fn lemma_ram_half_round_trip(b: MemoryBus, addr: u32, v: u32)
    requires
        in_ram(addr, 2),
    ensures
        write_u16_ok(b, addr, v),
        read_u16_spec(write_u16_spec(b, addr, v), addr) == v & 0xFFFF,
{
    lemma_unfold_write_u16(b, addr, v, 0);
    assert(write_u16_fuel(b, addr, v, 0) is Some);
    let f = choose|f: nat| #[trigger] write_u16_fuel(b, addr, v, f) is Some;
    lemma_unfold_write_u16(b, addr, v, f);
    reveal(timer_written);
    let c0 = (v & 0xFF) as u8;
    let c1 = ((v >> 8) & 0xFF) as u8;
    lemma_ram_bytes_of(addr, 2, 0);
    lemma_ram_bytes_of(addr, 2, 1);
    let a1 = add32(addr, 1);
    let s1 = stored_byte(b, addr, c0);
    let s2 = stored_byte(s1, a1, c1);
    assert(write_u16_spec(b, addr, v) == s2);
    lemma_ram_byte(s1, a1, c1, addr);
    lemma_ram_byte(b, addr, c0, addr);
    lemma_ram_byte(s1, a1, c1, a1);
    lemma_cell_masks(0, 0, v);
}

/// A halfword read of KEYINPUT (0x04000130) returns the key state.
pub proof fn lemma_read_keyinput(b: MemoryBus)
    ensures
        read_u16_spec(b, 0x0400_0130) == b.keyinput,
{
    reveal(read_u8_spec);
    let k = b.keyinput;
    assert(add32(0x0400_0130, 1) == 0x0400_0131);
    assert((k as u8) + ((k >> 8u16) as u8) * 0x100 == k) by (bit_vector);
}

/// A halfword read of DISPCNT (0x04000000), IE (0x04000200) or IME (0x04000208)
/// returns the two register bytes.
pub proof fn lemma_read_io_u16(b: MemoryBus, off: u32)
    requires
        off == 0 || off == 0x200 || off == 0x208,
    ensures
        readable_n(b, (0x0400_0000 + off) as u32, 2),
        read_u16_spec(b, (0x0400_0000 + off) as u32) == (b.io[off as int] + b.io[off + 1] * 256) as u16,
{
    reveal(read_u8_spec);
    let a = (0x0400_0000 + off) as u32;
    assert(add32(a, 0) == a && add32(a, 1) == a + 1);
}

/// Bits 3-5 of a DISPSTAT halfword read (the V-blank, H-blank and V-counter IRQ
/// enables) are bits 3-5 of its register byte.
pub proof fn lemma_read_dispstat(b: MemoryBus)
    ensures
        readable_n(b, 0x0400_0004u32, 2),
        (read_u16_spec(b, 0x0400_0004u32) >> 3u16) & 1 == ((b.io[4] >> 3u8) & 1) as u16,
        (read_u16_spec(b, 0x0400_0004u32) >> 4u16) & 1 == ((b.io[4] >> 4u8) & 1) as u16,
        (read_u16_spec(b, 0x0400_0004u32) >> 5u16) & 1 == ((b.io[4] >> 5u8) & 1) as u16,
{
    reveal(read_u8_spec);
    let a = 0x0400_0004u32;
    assert(add32(a, 0) == a && add32(a, 1) == a + 1);
    let io4 = b.io[4];
    let hi = b.io[5];
    let lo = if b.io[6] >= 160 { io4 | 1 } else { io4 & !1u8 };
    assert(read_u16_spec(b, a) == (lo + hi * 256) as u16);
    assert((((lo as u16 + hi as u16 * 256) as u16 >> 3u16) & 1) == ((io4 >> 3u8) & 1) as u16
        && (((lo as u16 + hi as u16 * 256) as u16 >> 4u16) & 1) == ((io4 >> 4u8) & 1) as u16
        && (((lo as u16 + hi as u16 * 256) as u16 >> 5u16) & 1) == ((io4 >> 5u8) & 1) as u16)
        by (bit_vector)
        requires
            lo == io4 | 1 || lo == io4 & !1u8,
    ;
}

proof fn lemma_irq_flag_cells()
    ensures
        (0x7FF8u32 & 0x7FFF) == 0x7FF8,
        (0x7FF9u32 & 0x7FFF) == 0x7FF9,
{
    assert((0x7FF8u32 & 0x7FFF) == 0x7FF8 && (0x7FF9u32 & 0x7FFF) == 0x7FF9) by (bit_vector);
}

/// The BIOS interrupt-flag halfword at 0x03007FF8 reads from IWRAM offset 0x7FF8.
pub proof fn lemma_read_irq_flags(b: MemoryBus)
    ensures
        readable_n(b, 0x0300_7FF8u32, 2),
        read_u16_spec(b, 0x0300_7FF8u32) == (b.iwram[0x7FF8] + b.iwram[0x7FF9] * 256) as u16,
{
    reveal(read_u8_spec);
    let a = 0x0300_7FF8u32;
    assert(add32(a, 0) == a && add32(a, 1) == a + 1);
    lemma_irq_flag_cells();
}

/// A halfword write to the BIOS interrupt-flag word always finishes and stores
/// its two bytes in IWRAM.
pub proof fn lemma_write_irq_flags(b: MemoryBus, v: u32)
    ensures
        write_u16_ok(b, 0x0300_7FF8u32, v),
        write_u16_spec(b, 0x0300_7FF8u32, v) == (MemoryBus {
            iwram: spec_array_update(
                spec_array_update(b.iwram, 0x7FF8, (v & 0xFF) as u8),
                0x7FF9,
                ((v >> 8) & 0xFF) as u8,
            ),
            ..b
        }),
{
    let a = 0x0300_7FF8u32;
    lemma_unfold_write_u16(b, a, v, 0);
    assert(write_u16_fuel(b, a, v, 0) is Some);
    let f = choose|f: nat| #[trigger] write_u16_fuel(b, a, v, f) is Some;
    lemma_unfold_write_u16(b, a, v, f);
    reveal(stored_byte);
    reveal(timer_written);
    assert(add32(a, 1) == a + 1);
    lemma_irq_flag_cells();
}

proof fn lemma_even_offsets(x: u32)
    ensures
        (x & 0x3FF & !1u32) == (x & 0x3FE),
        x <= 0xFFFF ==> (x & !1u32) == (x & 0xFFFE),
{
    assert((x & 0x3FF & !1u32) == (x & 0x3FE) && (x <= 0xFFFF ==> (x & !1u32) == (x & 0xFFFE)))
        by (bit_vector);
}

fn dma_count_channel_of(addr: u32) -> (r: Option<usize>)
    ensures
        r == dma_count_channel(addr),
{
    if addr == 0x040000B8 {
        Some(0)
    } else if addr == 0x040000C4 {
        Some(1)
    } else if addr == 0x040000D0 {
        Some(2)
    } else if addr == 0x040000DC {
        Some(3)
    } else {
        None
    }
}

fn dma_control_channel_of(addr: u32) -> (r: Option<usize>)
    ensures
        r == dma_control_channel(addr),
{
    if addr == 0x040000BA {
        Some(0)
    } else if addr == 0x040000C6 {
        Some(1)
    } else if addr == 0x040000D2 {
        Some(2)
    } else if addr == 0x040000DE {
        Some(3)
    } else {
        None
    }
}

proof fn lemma_unfold_write_u32(b: MemoryBus, addr: u32, v: u32, fuel: nat)
    ensures
        write_u32_fuel(b, addr, v, fuel) == (match dma_count_channel(addr) {
            Some(ch) => check_dma_fuel(stored_word_bytes(b, addr, v), ch, v >> 16, fuel),
            None => Some(stored_word_bytes(b, addr, v)),
        }),
{
    reveal_with_fuel(bus_write, 1);
}

proof fn lemma_unfold_write_u16(b: MemoryBus, addr: u32, v: u32, fuel: nat)
    ensures
        write_u16_fuel(b, addr, v, fuel) == (match dma_control_channel(addr) {
            Some(ch) => check_dma_fuel(timer_written(stored_half_bytes(b, addr, v), addr, v), ch, v, fuel),
            None => Some(timer_written(stored_half_bytes(b, addr, v), addr, v)),
        }),
{
    reveal_with_fuel(bus_write, 1);
}

proof fn lemma_unfold_check_dma(b: MemoryBus, channel: usize, control: u32, fuel: nat)
    requires
        channel < 4,
    ensures
        control & 0x8000 == 0 ==> check_dma_fuel(b, channel, control, fuel) == Some(
            MemoryBus { dma_control: spec_array_update(b.dma_control, channel as int, 0u32), ..b },
        ),
        control & 0x8000 != 0 && (control >> 12) & 3 == 0 ==> check_dma_fuel(b, channel, control, fuel)
            == run_dma_fuel(b, channel, control, fuel),
        control & 0x8000 != 0 && (control >> 12) & 3 != 0 ==> check_dma_fuel(b, channel, control, fuel)
            == Some(MemoryBus { dma_control: spec_array_update(b.dma_control, channel as int, control), ..b }),
{
    reveal_with_fuel(bus_write, 1);
}

/// The bus after a transfer finishes: a repeating transfer with a non-immediate
/// start stays armed, any other clears its enable bit and is disarmed.
pub open spec fn dma_finished(b2: MemoryBus, channel: usize, control: u32) -> MemoryBus {
    if (control >> 9) & 1 == 1 && (control >> 12) & 3 != 0 {
        b2
    } else {
        let e = dma_enable_byte(channel);
        MemoryBus {
            io: spec_array_update(b2.io, e, b2.io[e] & !0x80u8),
            dma_control: spec_array_update(b2.dma_control, channel as int, 0u32),
            ..b2
        }
    }
}

proof fn lemma_unfold_run_dma(b: MemoryBus, channel: usize, control: u32, fuel: nat)
    requires
        channel < 4,
        fuel > 0,
    ensures
        ({
            let base = (0x0400_00B0 + channel * 0xC) as u32;
            let src = read_u32_spec(b, base);
            let dst = read_u32_spec(b, add32(base, 4));
            let count = dma_count(read_u16_spec(b, add32(base, 8)), channel);
            run_dma_fuel(b, channel, control, fuel) == (match dma_loop(b, control, src, dst, count as u32, (fuel - 1) as nat) {
                None => None,
                Some(b2) => Some(dma_finished(b2, channel, control)),
            })
        }),
{
    reveal_with_fuel(bus_write, 1);
}

/// How a DMA transfer ends. A repeating transfer (control bit 9) whose start
/// timing (bits 13-12) is not immediate stays armed: the bus is left as the units
/// moved left it, its `dma_control` entry and the enable bit of its control
/// register included, so the next V-blank or H-blank runs it again. Any other
/// transfer is disarmed: `dma_control[channel]` becomes 0 and the enable bit
/// (bit 7 of the control register's high byte, I/O offset 0xBB + 12 * channel)
/// is cleared, with every other I/O byte and the other channels kept.
pub proof fn lemma_dma_end(b: MemoryBus, channel: usize, control: u32, fuel: nat)
    requires
        channel < 4,
        fuel > 0,
    ensures
        ({
            let base = (0x0400_00B0 + channel * 0xC) as u32;
            let t = dma_loop(
                b,
                control,
                read_u32_spec(b, base),
                read_u32_spec(b, add32(base, 4)),
                dma_count(read_u16_spec(b, add32(base, 8)), channel) as u32,
                (fuel - 1) as nat,
            );
            let r = run_dma_fuel(b, channel, control, fuel);
            let e = 0xBB + 12 * channel;
            &&& t is None ==> r is None
            &&& t is Some ==> r is Some
            &&& t is Some && (control >> 9) & 1 == 1 && (control >> 12) & 3 != 0 ==> r->0 == t->0
            &&& t is Some && !((control >> 9) & 1 == 1 && (control >> 12) & 3 != 0) ==> {
                &&& (r->0).dma_control[channel as int] == 0
                &&& (r->0).io[e] & 0x80 == 0
                &&& forall|i: int| 0 <= i < 1024 && i != e ==> (r->0).io[i] == (t->0).io[i]
                &&& forall|j: int| 0 <= j < 4 && j != channel ==> (r->0).dma_control[j] == (t->0).dma_control[j]
                &&& (r->0).rom == (t->0).rom && (r->0).ewram == (t->0).ewram && (r->0).iwram == (t->0).iwram
                &&& (r->0).vram == (t->0).vram && (r->0).palette == (t->0).palette && (r->0).oam == (t->0).oam
            }
        }),
{
    lemma_unfold_run_dma(b, channel, control, fuel);
    let base = (0x0400_00B0 + channel * 0xC) as u32;
    let t = dma_loop(
        b,
        control,
        read_u32_spec(b, base),
        read_u32_spec(b, add32(base, 4)),
        dma_count(read_u16_spec(b, add32(base, 8)), channel) as u32,
        (fuel - 1) as nat,
    );
    if t is Some {
        let e = 0xBB + 12 * channel;
        crate::bits::lemma_clear_bit7((t->0).io[e]);
    }
}

#[verifier::rlimit(40)]
proof fn lemma_unfold_dma_loop(b: MemoryBus, control: u32, src: u32, dst: u32, n: u32, fuel: nat)
    requires
        n > 0,
    ensures
        ({
            let is32 = (control >> 10) & 1 == 1;
            let unit: u32 = if is32 { 4 } else { 2 };
            dma_loop(b, control, src, dst, n, fuel) == (if !readable_n(b, src, unit as int) {
                None
            } else {
                let written = if is32 {
                    write_u32_fuel(b, dst, read_u32_spec(b, src), fuel)
                } else {
                    write_u16_fuel(b, dst, read_u16_spec(b, src) as u32, fuel)
                };
                match written {
                    None => None,
                    Some(b2) => dma_loop(
                        b2,
                        control,
                        dma_next(src, (control >> 7) & 3, unit, false),
                        dma_next(dst, (control >> 5) & 3, unit, true),
                        (n - 1) as u32,
                        fuel,
                    ),
                }
            })
        }),
{
    reveal_with_fuel(bus_write, 1);
}

proof fn lemma_run_dma_needs_fuel(b: MemoryBus, channel: usize, control: u32)
    ensures
        run_dma_fuel(b, channel, control, 0) is None,
{
    reveal_with_fuel(bus_write, 1);
}

proof fn lemma_dma_loop_done(b: MemoryBus, control: u32, src: u32, dst: u32, fuel: nat)
    ensures
        dma_loop(b, control, src, dst, 0, fuel) == Some(b),
{
    reveal_with_fuel(bus_write, 1);
}

impl MemoryBus {
    /// A bus holding `rom`, with all other memory zeroed, every key released
    /// (KEYINPUT = 0x03FF), timers stopped, no DMA armed and an erased flash chip.
    pub fn new(rom: Vec<u8>) -> (b: MemoryBus)
        ensures
            b.rom@ == rom@,
            b.keyinput == 0x03FF,
            forall|i: int| 0 <= i < 16384 ==> b.bios[i] == 0,
            forall|i: int| 0 <= i < 262144 ==> b.ewram[i] == 0,
            forall|i: int| 0 <= i < 32768 ==> b.iwram[i] == 0,
            forall|i: int| 0 <= i < 1024 ==> b.io[i] == 0 && b.palette[i] == 0 && b.oam[i] == 0,
            forall|i: int| 0 <= i < 98304 ==> b.vram[i] == 0,
            forall|i: int| 0 <= i < 65536 ==> b.sram[i] == 0,
            forall|i: int| 0 <= i < 4 ==> b.dma_control[i] == 0 && b.timers[i] == (Timer {
                counter: 0,
                reload: 0,
                enabled: false,
                irq_enabled: false,
                cascade: false,
                prescaler: 1,
                cycle_count: 0,
            }),
            !b.flash.id_mode(),
            b.flash.is_idle(),
            b.flash.no_command(),
            b.flash.bank() == 0,
            forall|bank: int, off: int| 0 <= bank < 2 && 0 <= off < 0x10000 ==> b.flash.stored_in(bank, off) == 0xFF,
    {
        MemoryBus {
            rom,
            bios: [0; 16384],
            ewram: [0; 262144],
            iwram: [0; 32768],
            io: [0; 1024],
            palette: [0; 1024],
            vram: [0; 98304],
            oam: [0; 1024],
            sram: [0; 65536],
            timers: [Timer::new(), Timer::new(), Timer::new(), Timer::new()],
            dma_control: [0u32; 4],
            keyinput: 0x03FF,
            flash: FlashState::new(),
        }
    }

    /// Stores a byte as part of a word or halfword store (see `stored_byte`).
    fn write_u8_internal(&mut self, addr: u32, value: u8)
        ensures
            *final(self) == stored_byte(*old(self), addr, value),
    {
        reveal(stored_byte);
        if addr <= 0x3FFF {
        } else if 0x0200_0000 <= addr && addr <= 0x02FF_FFFF {
            self.ewram[((addr - 0x02000000) & 0x3FFFF) as usize] = value;
        } else if 0x0300_0000 <= addr && addr <= 0x03FF_FFFF {
            self.iwram[((addr - 0x03000000) & 0x7FFF) as usize] = value;
        } else if 0x0400_0000 <= addr && addr <= 0x0400_03FE {
            let off = (addr - 0x04000000) as usize;
            if off == 0x04 {
                self.io[off] = (value & 0xF8) | (self.io[off] & 0x07);
            } else if off == 0x202 || off == 0x203 {
                self.io[off] = self.io[off] & !value;
            } else {
                self.io[off] = value;
            }
        } else if 0x0500_0000 <= addr && addr <= 0x0500_03FF {
            self.palette[(addr - 0x05000000) as usize] = value;
        } else if 0x0600_0000 <= addr && addr <= 0x0601_7FFF {
            self.vram[(addr - 0x06000000) as usize] = value;
        } else if 0x0E00_0000 <= addr && addr <= 0x0E00_FFFF {
            self.flash.write(addr, value);
        } else if 0x0700_0000 <= addr && addr <= 0x07FF_FFFF {
            self.oam[((addr - 0x07000000) & 0x3FF) as usize] = value;
        }
    }

    /// Stores a byte from the CPU (see `cpu_stored_byte`).
    pub fn write_u8(&mut self, addr: u32, value: u8)
        ensures
            *final(self) == cpu_stored_byte(*old(self), addr, value),
    {
        reveal(cpu_stored_byte);
        reveal(stored_byte);
        if addr <= 0x3FFF {
        } else if 0x0200_0000 <= addr && addr <= 0x02FF_FFFF {
            self.ewram[((addr - 0x02000000) & 0x3FFFF) as usize] = value;
        } else if 0x0300_0000 <= addr && addr <= 0x03FF_FFFF {
            self.iwram[((addr - 0x03000000) & 0x7FFF) as usize] = value;
        } else if 0x0400_0000 <= addr && addr <= 0x0400_03FE {
            let off = (addr - 0x04000000) as usize;
            if off == 0x202 || off == 0x203 {
                self.io[off] = self.io[off] & !value;
            } else {
                self.io[off] = value;
            }
        } else if 0x0500_0000 <= addr && addr <= 0x05FF_FFFF {
            let offset = ((addr - 0x05000000) & 0x3FF & !1u32) as usize;
            proof {
                lemma_even_offsets((addr - 0x0500_0000) as u32);
            }
            self.palette[offset] = value;
            self.palette[offset + 1] = value;
        } else if 0x0601_0000 <= addr && addr <= 0x0601_7FFF {
        } else if 0x0600_0000 <= addr && addr <= 0x0600_FFFF {
            let d = addr - 0x06000000;
            let offset = (d & !1u32) as usize;
            proof {
                lemma_even_offsets(d);
            }
            self.vram[offset] = value;
            self.vram[offset + 1] = value;
        } else if 0x0E00_0000 <= addr && addr <= 0x0E00_FFFF {
            self.flash.write(addr, value);
        } else if 0x0700_0000 <= addr && addr <= 0x07FF_FFFF {
        } else {
            self.write_u8_internal(addr, value);
        }
    }

    /// Writes a little-endian word (see `write_u32_fuel`). The write must finish:
    /// a DMA transfer that it starts must not start further transfers without end.
    pub fn write_u32(&mut self, addr: u32, value: u32)
        requires
            write_u32_ok(*old(self), addr, value),
        ensures
            *final(self) == write_u32_spec(*old(self), addr, value),
    {
        let ghost f = choose|f: nat| #[trigger] write_u32_fuel(*self, addr, value, f) is Some;
        self.write_u32_fuel(addr, value, Ghost(f));
    }

    /// Writes a halfword (see `write_u16_fuel`); the write must finish.
    pub fn write_u16(&mut self, addr: u32, value: u32)
        requires
            write_u16_ok(*old(self), addr, value),
        ensures
            *final(self) == write_u16_spec(*old(self), addr, value),
    {
        let ghost f = choose|f: nat| #[trigger] write_u16_fuel(*self, addr, value, f) is Some;
        self.write_u16_fuel(addr, value, Ghost(f));
    }

    /// Handles a write of DMA control value `control` to `channel` (see
    /// `check_dma_fuel`); the channel must exist and the transfer must finish.
    pub fn check_dma(&mut self, channel: usize, control: u32)
        requires
            channel < 4,
            check_dma_ok(*old(self), channel, control),
        ensures
            *final(self) == check_dma_spec(*old(self), channel, control),
    {
        let ghost f = choose|f: nat| #[trigger] check_dma_fuel(*self, channel, control, f) is Some;
        self.check_dma_fuel(channel, control, Ghost(f));
    }

    /// Runs the transfers armed for V-blank (see `timed_dma_fuel`).
    pub fn trigger_vblank_dma(&mut self)
        requires
            timed_dma_ok(*old(self), 1),
        ensures
            *final(self) == timed_dma_spec(*old(self), 1),
    {
        let ghost f = choose|f: nat| #[trigger] timed_dma_fuel(*self, 1, 0, f) is Some;
        self.run_timed_dma(1, Ghost(f));
    }

    /// Runs the transfers armed for H-blank (see `timed_dma_fuel`).
    pub fn trigger_hblank_dma(&mut self)
        requires
            timed_dma_ok(*old(self), 2),
        ensures
            *final(self) == timed_dma_spec(*old(self), 2),
    {
        let ghost f = choose|f: nat| #[trigger] timed_dma_fuel(*self, 2, 0, f) is Some;
        self.run_timed_dma(2, Ghost(f));
    }

    fn run_timed_dma(&mut self, timing: u32, Ghost(fuel): Ghost<nat>)
        requires
            timed_dma_fuel(*old(self), timing, 0, fuel) is Some,
        ensures
            *final(self) == timed_dma_fuel(*old(self), timing, 0, fuel)->0,
    {
                let ghost b0 = *self;
        let mut channel: usize = 0;
        while channel < 4
            invariant
                0 <= channel <= 4,
                timed_dma_fuel(*self, timing, channel as nat, fuel) == timed_dma_fuel(b0, timing, 0, fuel),
                timed_dma_fuel(b0, timing, 0, fuel) is Some,
            decreases 4 - channel,
        {
                        let control = self.dma_control[channel];
            if control & 0x8000 == 0 {
                    channel += 1;
                continue;
            }
                if (control >> 12) & 0b11 == timing {
                self.run_dma(channel, control, Ghost(fuel));
            }
            channel += 1;
        }
    }

    #[verifier::spinoff_prover]
    fn write_u32_fuel(&mut self, addr: u32, value: u32, Ghost(fuel): Ghost<nat>)
        requires
            write_u32_fuel(*old(self), addr, value, fuel) is Some,
        ensures
            *final(self) == write_u32_fuel(*old(self), addr, value, fuel)->0,
        decreases fuel, 2nat,
    {
        self.write_u8_internal(addr, (value & 0xFF) as u8);
        self.write_u8_internal(addr.wrapping_add(1), ((value >> 8) & 0xFF) as u8);
        self.write_u8_internal(addr.wrapping_add(2), ((value >> 16) & 0xFF) as u8);
        self.write_u8_internal(addr.wrapping_add(3), ((value >> 24) & 0xFF) as u8);
        assert(*self == stored_word_bytes(*old(self), addr, value));
        proof {
            lemma_unfold_write_u32(*old(self), addr, value, fuel);
        }
        // a store to a channel's count+control word hands the control half to the DMA
        match dma_count_channel_of(addr) {
            Some(channel) => self.check_dma_fuel(channel, value >> 16, Ghost(fuel)),
            None => {},
        }
    }

    #[verifier::spinoff_prover]
    fn write_u16_fuel(&mut self, addr: u32, value: u32, Ghost(fuel): Ghost<nat>)
        requires
            write_u16_fuel(*old(self), addr, value, fuel) is Some,
        ensures
            *final(self) == write_u16_fuel(*old(self), addr, value, fuel)->0,
        decreases fuel, 2nat,
    {
        self.write_u8_internal(addr, (value & 0xFF) as u8);
        self.write_u8_internal(addr.wrapping_add(1), ((value >> 8) & 0xFF) as u8);
        assert(*self == stored_half_bytes(*old(self), addr, value));
        proof {
            lemma_unfold_write_u16(*old(self), addr, value, fuel);
        }
        self.write_timer_register(addr, value);
        match dma_control_channel_of(addr) {
            Some(channel) => self.check_dma_fuel(channel, value, Ghost(fuel)),
            None => {},
        }
    }

    fn write_timer_register(&mut self, addr: u32, value: u32)
        ensures
            *final(self) == timer_written(*old(self), addr, value),
    {
        reveal(timer_written);
        if addr == 0x04000100 {
            let mut t = self.timers[0];
            t.reload = value as u16;
            self.timers[0] = t;
        } else if addr == 0x04000104 {
            let mut t = self.timers[1];
            t.reload = value as u16;
            self.timers[1] = t;
        } else if addr == 0x04000108 {
            let mut t = self.timers[2];
            t.reload = value as u16;
            self.timers[2] = t;
        } else if addr == 0x0400010C {
            let mut t = self.timers[3];
            t.reload = value as u16;
            self.timers[3] = t;
        } else if addr == 0x04000102 {
            let mut t = self.timers[0];
            t.update_control(value as u16);
            self.timers[0] = t;
        } else if addr == 0x04000106 {
            let mut t = self.timers[1];
            t.update_control(value as u16);
            self.timers[1] = t;
        } else if addr == 0x0400010A {
            let mut t = self.timers[2];
            t.update_control(value as u16);
            self.timers[2] = t;
        } else if addr == 0x0400010E {
            let mut t = self.timers[3];
            t.update_control(value as u16);
            self.timers[3] = t;
        }
    }

    fn check_dma_fuel(&mut self, channel: usize, control: u32, Ghost(fuel): Ghost<nat>)
        requires
            channel < 4,
            check_dma_fuel(*old(self), channel, control, fuel) is Some,
        ensures
            *final(self) == check_dma_fuel(*old(self), channel, control, fuel)->0,
        decreases fuel, 1nat,
    {
        proof {
            lemma_unfold_check_dma(*old(self), channel, control, fuel);
        }
                if control & 0x8000 == 0 {
            self.dma_control[channel] = 0;
            return;
        }
        let start_timing = (control >> 12) & 0b11;
        assert(check_dma_fuel(*old(self), channel, control, fuel) == (if channel >= 4 {
        None
    } else if control & 0x8000 == 0 {
        Some(MemoryBus { dma_control: spec_array_update(old(self).dma_control, channel as int, 0u32), ..*old(self) })
    } else if (control >> 12) & 3 == 0 {
        run_dma_fuel(*old(self), channel, control, fuel)
    } else {
        Some(MemoryBus { dma_control: spec_array_update(old(self).dma_control, channel as int, control), ..*old(self) })
    }));
        if start_timing == 0 {
            self.run_dma(channel, control, Ghost(fuel));
        } else {
            self.dma_control[channel] = control;
        }
    }

        #[verifier::rlimit(100)]
    #[verifier::spinoff_prover]
    fn run_dma(&mut self, channel: usize, control: u32, Ghost(fuel): Ghost<nat>)
        requires
            channel < 4,
            run_dma_fuel(*old(self), channel, control, fuel) is Some,
        ensures
            *final(self) == run_dma_fuel(*old(self), channel, control, fuel)->0,
        decreases fuel, 0nat,
    {
        proof {
            lemma_run_dma_needs_fuel(*old(self), channel, control);
            lemma_unfold_run_dma(*old(self), channel, control, fuel);
        }
                let ghost b0 = *self;
        let ghost f1: nat = (fuel - 1) as nat;
        let base = 0x040000B0u32 + (channel as u32) * 0xC;
        assert(readable_n(*self, base, 4));
        let src = self.read_u32(base);
        assert(readable_n(*self, add32(base, 4), 4));
        let dst = self.read_u32(base + 4);
        assert(readable_n(*self, add32(base, 8), 2));
        assert(add32(base, 4) == base + 4 && add32(base, 8) == base + 8);
        let raw = self.read_u16(base + 8) as u32;
        let count: u32 = if raw == 0 {
            if channel == 3 {
                0x10000
            } else {
                0x4000
            }
        } else {
            raw
        };
        let is_32bit = (control >> 10) & 1 == 1;
        let dst_ctrl = (control >> 5) & 0b11;
        let src_ctrl = (control >> 7) & 0b11;
        let unit = if is_32bit {
            4u32
        } else {
            2u32
        };
        let mut src_addr = src;
        let mut dst_addr = dst;
        let mut i: u32 = 0;
        while i < count
            invariant
                0 <= i <= count,
                count as nat == dma_count(read_u16_spec(b0, add32(base, 8)), channel),
                fuel > 0,
                channel < 4,
                f1 == fuel - 1,
                is_32bit == ((control >> 10) & 1 == 1),
                unit == (if is_32bit { 4u32 } else { 2u32 }),
                dst_ctrl == (control >> 5) & 3,
                src_ctrl == (control >> 7) & 3,
                dma_loop(*self, control, src_addr, dst_addr, (count - i) as u32, f1) == dma_loop(
                    b0,
                    control,
                    src,
                    dst,
                    count,
                    f1,
                ),
                dma_loop(b0, control, src, dst, count, f1) is Some,
            decreases count - i,
        {
            proof {
                lemma_unfold_dma_loop(*self, control, src_addr, dst_addr, (count - i) as u32, f1);
            }
            if is_32bit {
                let val = self.read_u32(src_addr);
                self.write_u32_fuel(dst_addr, val, Ghost(f1));
            } else {
                let val = self.read_u16(src_addr) as u32;
                self.write_u16_fuel(dst_addr, val, Ghost(f1));
            }
            src_addr = if src_ctrl == 0 {
                src_addr.wrapping_add(unit)
            } else if src_ctrl == 1 {
                src_addr.wrapping_sub(unit)
            } else {
                src_addr
            };
            dst_addr = if dst_ctrl == 0 || dst_ctrl == 3 {
                dst_addr.wrapping_add(unit)
            } else if dst_ctrl == 1 {
                dst_addr.wrapping_sub(unit)
            } else {
                dst_addr
            };
            i += 1;
        }
        proof {
            lemma_dma_loop_done(*self, control, src_addr, dst_addr, f1);
        }
        let repeat = (control >> 9) & 1 == 1;
        let start_timing = (control >> 12) & 0b11;
        if repeat && start_timing != 0 {
        } else {
            let ctrl_io_addr = 0xBA + channel * 0xC;
            self.io[ctrl_io_addr + 1] = self.io[ctrl_io_addr + 1] & !0x80u8;
            self.dma_control[channel] = 0;
        }
    }

    /// Marks key `bit` as pressed (bit cleared, KEYINPUT is active-low) or released
    /// (bit set); no other key changes.
    pub fn set_key(&mut self, bit: u8, pressed: bool)
        requires
            bit < 16,
        ensures
            *final(self) == (MemoryBus {
                keyinput: if pressed {
                    old(self).keyinput & !(1u16 << bit)
                } else {
                    old(self).keyinput | (1u16 << bit)
                },
                ..*old(self)
            }),
    {
        if pressed {
            self.keyinput &= !(1u16 << bit);
        } else {
            self.keyinput |= 1u16 << bit;
        }
    }

    /// Reads a byte (see `read_u8_spec`); the bus is unchanged.
    pub fn read_u8(&mut self, addr: u32) -> (r: u8)
        requires
            readable(*old(self), addr),
        ensures
            r == read_u8_spec(*old(self), addr),
            *final(self) == *old(self),
    {
        reveal(read_u8_spec);
        if addr <= 0x3FFF {
            self.bios[addr as usize]
        } else if 0x0200_0000 <= addr && addr <= 0x02FF_FFFF {
            self.ewram[((addr - 0x02000000) & 0x3FFFF) as usize]
        } else if 0x0300_0000 <= addr && addr <= 0x03FF_FFFF {
            self.iwram[((addr - 0x03000000) & 0x7FFF) as usize]
        } else if 0x0400_0000 <= addr && addr <= 0x0400_03FE {
            if addr == 0x04000004 {
                let mut val = self.io[4];
                let vcount = self.io[6] as u16;
                if vcount >= 160 {
                    val |= 0x01;
                } else {
                    val &= !0x01u8;
                }
                return val;
            } else if addr == 0x04000130 {
                return self.keyinput as u8;
            } else if addr == 0x04000131 {
                return (self.keyinput >> 8) as u8;
            }
            self.io[(addr - 0x04000000) as usize]
        } else if 0x0500_0000 <= addr && addr <= 0x05FF_FFFF {
            self.palette[((addr - 0x05000000) & 0x3FF) as usize]
        } else if 0x0600_0000 <= addr && addr <= 0x06FF_FFFF {
            self.vram[((addr - 0x06000000) & 0x17FFF) as usize]
        } else if 0x0700_0000 <= addr && addr <= 0x07FF_FFFF {
            self.oam[((addr - 0x07000000) & 0x3FF) as usize]
        } else if 0x0E00_0000 <= addr && addr <= 0x0E00_FFFF {
            self.flash.read(addr)
        } else if 0x0800_0000 <= addr && addr <= 0x09FF_FFFF {
            let offset = ((addr - 0x08000000) as usize) % self.rom.len();
            self.rom[offset]
        } else if 0x0A00_0000 <= addr && addr <= 0x0BFF_FFFF {
            let offset = ((addr - 0x0A000000) as usize) % self.rom.len();
            self.rom[offset]
        } else if 0x0C00_0000 <= addr && addr <= 0x0DFF_FFFF {
            let offset = ((addr - 0x0C000000) as usize) % self.rom.len();
            self.rom[offset]
        } else {
            0xFF
        }
    }

    /// Reads a little-endian word (see `read_u32_spec`); the bus is unchanged.
    pub fn read_u32(&mut self, addr: u32) -> (r: u32)
        requires
            readable_n(*old(self), addr, 4),
        ensures
            r == read_u32_spec(*old(self), addr),
            *final(self) == *old(self),
    {
        assert(readable(*self, add32(addr, 0)) && readable(*self, add32(addr, 1)) && readable(
            *self,
            add32(addr, 2),
        ) && readable(*self, add32(addr, 3)));
        assert(add32(addr, 0) == addr);
        let b0 = self.read_u8(addr);
        let b1 = self.read_u8(addr.wrapping_add(1));
        let b2 = self.read_u8(addr.wrapping_add(2));
        let b3 = self.read_u8(addr.wrapping_add(3));
        proof {
            lemma_le32(b0, b1, b2, b3);
        }
        (b0 as u32) | ((b1 as u32) << 8) | ((b2 as u32) << 16) | ((b3 as u32) << 24)
    }

    /// Reads a halfword (see `read_u16_spec`); the bus is unchanged.
    pub fn read_u16(&mut self, addr: u32) -> (r: u16)
        requires
            readable_n(*old(self), addr, 2),
        ensures
            r == read_u16_spec(*old(self), addr),
            addr == 0x0400_0130 ==> r == old(self).keyinput,
            *final(self) == *old(self),
    {
        proof {
            lemma_read_keyinput(*self);
        }
        if addr == 0x04000100 {
            self.timers[0].counter
        } else if addr == 0x04000104 {
            self.timers[1].counter
        } else if addr == 0x04000108 {
            self.timers[2].counter
        } else if addr == 0x0400010C {
            self.timers[3].counter
        } else {
            assert(readable(*self, add32(addr, 0)) && readable(*self, add32(addr, 1)));
            assert(add32(addr, 0) == addr);
            let b0 = self.read_u8(addr) as u16;
            let b1 = self.read_u8(addr.wrapping_add(1)) as u16;
            proof {
                lemma_le16(b0 as u8, b1 as u8);
            }
            b0 | (b1 << 8)
        }
    }
}

} // verus!
