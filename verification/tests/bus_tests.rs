use gba_emu::flash::FlashState;
use gba_emu::memory_bus::MemoryBus;
use gba_emu::timer::Timer;

fn new_bus() -> MemoryBus {
    MemoryBus::new(vec![1, 2, 3, 4])
}

#[test]
fn test_bus_new_state() {
    let bus = new_bus();
    assert_eq!(bus.keyinput, 0x03FF);
    assert_eq!(bus.rom, vec![1, 2, 3, 4]);
    assert!(bus.io.iter().all(|&b| b == 0));
    assert!(bus.vram.iter().all(|&b| b == 0));
    assert_eq!(bus.dma_control, [0; 4]);
}

#[test]
fn test_ewram_word_round_trip_and_mirror() {
    let mut bus = new_bus();
    bus.write_u32(0x0200_0010, 0x1122_3344);
    assert_eq!(bus.read_u32(0x0200_0010), 0x1122_3344);
    assert_eq!(bus.read_u32(0x0204_0010), 0x1122_3344);
    assert_eq!(bus.read_u16(0x0200_0012), 0x1122);
    assert_eq!(bus.read_u8(0x0200_0010), 0x44);
}

#[test]
fn test_iwram_byte_round_trip_and_mirror() {
    let mut bus = new_bus();
    bus.write_u8(0x0300_7FFF, 0xAB);
    assert_eq!(bus.read_u8(0x0300_7FFF), 0xAB);
    assert_eq!(bus.read_u8(0x0300_FFFF), 0xAB);
    assert_eq!(bus.iwram[0x7FFF], 0xAB);
}

#[test]
fn test_rom_reads_wrap() {
    let mut bus = new_bus();
    assert_eq!(bus.read_u8(0x0800_0005), 2);
    assert_eq!(bus.read_u8(0x0A00_0002), 3);
    assert_eq!(bus.read_u32(0x0800_0000), 0x0403_0201);
}

#[test]
fn test_unmapped_read_is_ff() {
    let mut bus = new_bus();
    assert_eq!(bus.read_u8(0x1000_0000), 0xFF);
}

#[test]
fn test_bios_is_read_only() {
    let mut bus = new_bus();
    bus.write_u8(0x0000_0010, 5);
    bus.write_u32(0x0000_0010, 5);
    assert_eq!(bus.read_u8(0x0000_0010), 0);
}

#[test]
fn test_palette_byte_store_fills_halfword() {
    let mut bus = new_bus();
    bus.write_u8(0x0500_0001, 0x12);
    assert_eq!(bus.palette[0], 0x12);
    assert_eq!(bus.palette[1], 0x12);
}

#[test]
fn test_vram_byte_stores() {
    let mut bus = new_bus();
    bus.write_u8(0x0600_0003, 0x34);
    assert_eq!(bus.vram[2], 0x34);
    assert_eq!(bus.vram[3], 0x34);
    bus.write_u8(0x0601_0000, 0x55);
    assert_eq!(bus.vram[0x10000], 0);
    bus.write_u16(0x0601_0000, 0x55);
    assert_eq!(bus.vram[0x10000], 0x55);
}

#[test]
fn test_oam_byte_store_ignored() {
    let mut bus = new_bus();
    bus.write_u8(0x0700_0000, 9);
    assert_eq!(bus.oam[0], 0);
    bus.write_u16(0x0700_0000, 9);
    assert_eq!(bus.oam[0], 9);
}

#[test]
fn test_interrupt_flags_clear_on_write() {
    let mut bus = new_bus();
    bus.io[0x202] = 0xFF;
    bus.write_u8(0x0400_0202, 0x01);
    assert_eq!(bus.io[0x202], 0xFE);
    bus.write_u16(0x0400_0202, 0x0006);
    assert_eq!(bus.io[0x202], 0xF8);
}

#[test]
fn test_dispstat_write_keeps_status_bits() {
    let mut bus = new_bus();
    bus.io[4] = 0x07;
    bus.write_u16(0x0400_0004, 0x0018);
    assert_eq!(bus.io[4], 0x1F);
}

#[test]
fn test_dispstat_reports_vblank() {
    let mut bus = new_bus();
    bus.io[6] = 160;
    assert_eq!(bus.read_u8(0x0400_0004) & 1, 1);
    bus.io[4] = 1;
    bus.io[6] = 10;
    assert_eq!(bus.read_u8(0x0400_0004) & 1, 0);
}

#[test]
fn test_keyinput_reads_and_set_key() {
    let mut bus = new_bus();
    bus.set_key(0, true);
    assert_eq!(bus.keyinput, 0x03FE);
    assert_eq!(bus.read_u8(0x0400_0130), 0xFE);
    assert_eq!(bus.read_u16(0x0400_0130), 0x03FE);
    bus.set_key(0, false);
    assert_eq!(bus.keyinput, 0x03FF);
    bus.set_key(9, true);
    assert_eq!(bus.keyinput, 0x01FF);
}

#[test]
fn test_timer_registers() {
    let mut bus = new_bus();
    bus.write_u16(0x0400_0100, 0x1234);
    assert_eq!(bus.timers[0].reload, 0x1234);
    bus.write_u16(0x0400_0102, 0x0080);
    assert_eq!(bus.timers[0].counter, 0x1234);
    assert_eq!(bus.read_u16(0x0400_0100), 0x1234);
}

#[test]
fn test_immediate_dma_copies_halfwords() {
    let mut bus = new_bus();
    bus.ewram[0..4].copy_from_slice(&[1, 2, 3, 4]);
    bus.write_u32(0x0400_00D4, 0x0200_0000);
    bus.write_u32(0x0400_00D8, 0x0300_0000);
    bus.write_u16(0x0400_00DC, 2);
    bus.write_u16(0x0400_00DE, 0x8000);
    assert_eq!(bus.iwram[0..4], [1, 2, 3, 4]);
    assert_eq!(bus.io[0xDF], 0);
    assert_eq!(bus.dma_control[3], 0);
}

#[test]
fn test_immediate_dma_words_fixed_destination() {
    let mut bus = new_bus();
    bus.write_u32(0x0200_0000, 0xAAAA_AAAA);
    bus.write_u32(0x0200_0004, 0xBBBB_BBBB);
    bus.write_u32(0x0400_00B0, 0x0200_0000);
    bus.write_u32(0x0400_00B4, 0x0300_0100);
    // count 2, 32-bit units, fixed destination, enabled
    bus.write_u32(0x0400_00B8, (0x8000 | 0x0400 | 0x0040) << 16 | 2);
    assert_eq!(bus.read_u32(0x0300_0100), 0xBBBB_BBBB);
    assert_eq!(bus.read_u32(0x0300_0104), 0);
}

#[test]
fn test_vblank_dma_armed_then_runs() {
    let mut bus = new_bus();
    bus.write_u16(0x0200_0000, 0xBEEF);
    bus.write_u32(0x0400_00BC, 0x0200_0000);
    bus.write_u32(0x0400_00C0, 0x0300_0000);
    bus.write_u16(0x0400_00C4, 1);
    bus.write_u16(0x0400_00C6, 0x9000); // enabled, start at V-blank
    assert_eq!(bus.dma_control[1], 0x9000);
    assert_eq!(bus.read_u16(0x0300_0000), 0);
    bus.trigger_hblank_dma();
    assert_eq!(bus.read_u16(0x0300_0000), 0);
    bus.trigger_vblank_dma();
    assert_eq!(bus.read_u16(0x0300_0000), 0xBEEF);
    assert_eq!(bus.dma_control[1], 0);
}

#[test]
fn test_check_dma_disable_disarms() {
    let mut bus = new_bus();
    bus.check_dma(2, 0xA000);
    assert_eq!(bus.dma_control[2], 0xA000);
    bus.check_dma(2, 0x2000);
    assert_eq!(bus.dma_control[2], 0);
}

#[test]
fn test_timer_counts_and_overflows() {
    let mut t = Timer::new();
    assert!(!t.tick(1));
    t.reload = 0xFFFE;
    t.update_control(0x80);
    assert_eq!(t.counter, 0xFFFE);
    assert!(!t.tick(1));
    assert_eq!(t.counter, 0xFFFF);
    assert!(t.tick(1));
    assert_eq!(t.counter, 0xFFFE);
}

#[test]
fn test_timer_prescaler() {
    let mut t = Timer::new();
    t.update_control(0x81);
    assert_eq!(t.prescaler, 64);
    for _ in 0..63 {
        assert!(!t.tick(1));
    }
    assert_eq!(t.counter, 0);
    assert!(!t.tick(1));
    assert_eq!(t.counter, 1);
    t.update_control(0xC6);
    assert_eq!(t.prescaler, 256);
    assert!(t.cascade);
    assert!(t.irq_enabled);
    assert_eq!(t.counter, 1);
}

#[test]
fn test_flash_erased_and_program() {
    let mut f = FlashState::new();
    assert_eq!(f.read(0x0E00_0123), 0xFF);
    f.write(0x0E00_5555, 0xAA);
    f.write(0x0E00_2AAA, 0x55);
    f.write(0x0E00_5555, 0xA0);
    f.write(0x0E00_0123, 0x42);
    assert_eq!(f.read(0x0E00_0123), 0x42);
    f.write(0x0E00_0124, 0x43);
    assert_eq!(f.read(0x0E00_0124), 0xFF);
}

#[test]
fn test_flash_id_mode() {
    let mut f = FlashState::new();
    f.write(0x5555, 0xAA);
    f.write(0x2AAA, 0x55);
    f.write(0x5555, 0x90);
    assert_eq!(f.read(0), 0x62);
    assert_eq!(f.read(1), 0x13);
    assert_eq!(f.read(2), 0xFF);
    f.write(0x5555, 0xAA);
    f.write(0x2AAA, 0x55);
    f.write(0x5555, 0xF0);
    assert_eq!(f.read(0), 0xFF);
}

#[test]
fn test_flash_bank_switch() {
    let mut f = FlashState::new();
    for (a, v) in [(0x5555u32, 0xAAu8), (0x2AAA, 0x55), (0x5555, 0xB0), (0, 1)] {
        f.write(a, v);
    }
    for (a, v) in [(0x5555u32, 0xAAu8), (0x2AAA, 0x55), (0x5555, 0xA0), (0x10, 7)] {
        f.write(a, v);
    }
    assert_eq!(f.read(0x10), 7);
    for (a, v) in [(0x5555u32, 0xAAu8), (0x2AAA, 0x55), (0x5555, 0xB0), (0, 0)] {
        f.write(a, v);
    }
    assert_eq!(f.read(0x10), 0xFF);
}

#[test]
fn test_flash_through_bus() {
    let mut bus = new_bus();
    bus.write_u8(0x0E00_5555, 0xAA);
    bus.write_u8(0x0E00_2AAA, 0x55);
    bus.write_u8(0x0E00_5555, 0x90);
    assert_eq!(bus.read_u8(0x0E00_0000), 0x62);
}

#[test]
fn test_halfword_round_trips_in_video_memory() {
    let mut bus = new_bus();
    bus.write_u16(0x0500_0010, 0xBEEF);
    assert_eq!(bus.read_u16(0x0500_0010), 0xBEEF);
    assert_eq!(bus.read_u16(0x0500_0410), 0xBEEF);
    bus.write_u16(0x0601_2000, 0x1234);
    assert_eq!(bus.read_u16(0x0601_2000), 0x1234);
    bus.write_u32(0x0700_0100, 0x0102_0304);
    assert_eq!(bus.read_u32(0x0700_0500), 0x0102_0304);
}

#[test]
fn test_vram_upper_half_of_bg_area_reads_lower_half() {
    let mut bus = new_bus();
    bus.write_u16(0x0600_8000, 0x1234);
    assert_eq!(bus.vram[0x8000], 0x34);
    assert_eq!(bus.read_u16(0x0600_8000), 0x0000);
    bus.write_u16(0x0600_0000, 0x5678);
    assert_eq!(bus.read_u16(0x0600_8000), 0x5678);
}

#[test]
fn test_flash_bank_switch_keeps_contents() {
    let mut f = FlashState::new();
    for (a, v) in [(0x5555u32, 0xAAu8), (0x2AAA, 0x55), (0x5555, 0xA0), (0x20, 9)] {
        f.write(a, v);
    }
    for (a, v) in [(0x5555u32, 0xAAu8), (0x2AAA, 0x55), (0x5555, 0xB0), (0, 1)] {
        f.write(a, v);
    }
    assert_eq!(f.read(0x20), 0xFF);
    for (a, v) in [(0x5555u32, 0xAAu8), (0x2AAA, 0x55), (0x5555, 0xB0), (0, 0)] {
        f.write(a, v);
    }
    assert_eq!(f.read(0x20), 9);
}

#[test]
fn test_timer_overflow_period() {
    let mut t = Timer::new();
    t.reload = 0xFFFE;
    t.update_control(0x81);
    for _ in 0..127 {
        assert!(!t.tick(1));
    }
    assert!(t.tick(1));
    assert_eq!(t.counter, 0xFFFE);
    assert_eq!(t.cycle_count, 0);
}

#[test]
fn test_immediate_dma_copies_words_to_iwram() {
    let mut bus = new_bus();
    let words = [0x1122_3344u32, 0x5566_7788, 0x99AA_BBCC];
    for (i, w) in words.iter().enumerate() {
        bus.write_u32(0x0200_0100 + 4 * i as u32, *w);
    }
    bus.write_u32(0x0300_0200, 0xDEAD_BEEF);
    bus.write_u32(0x0300_0210, 0xFEED_F00D);
    bus.write_u32(0x0400_00C8, 0x0200_0100);
    bus.write_u32(0x0400_00CC, 0x0300_0204);
    bus.write_u16(0x0400_00D0, 3);
    bus.check_dma(2, 0x8400);
    for (i, w) in words.iter().enumerate() {
        assert_eq!(bus.read_u32(0x0300_0204 + 4 * i as u32), *w);
    }
    assert_eq!(bus.read_u32(0x0300_0200), 0xDEAD_BEEF);
    assert_eq!(bus.read_u32(0x0300_0210), 0xFEED_F00D);
}

#[test]
fn test_keyinput_halfword_read_at_power_on() {
    let mut bus = new_bus();
    assert_eq!(bus.read_u16(0x0400_0130), 0x03FF);
    assert_eq!(bus.read_u8(0x0400_0131), 0x03);
}

#[test]
fn test_flash_id_mode_at_bus_addresses() {
    let mut f = FlashState::new();
    f.write(0x0E00_5555, 0xAA);
    f.write(0x0E00_2AAA, 0x55);
    f.write(0x0E00_5555, 0x90);
    assert_eq!(f.read(0x0E00_0000), 0x62);
    assert_eq!(f.read(0x0E00_0001), 0x13);
    assert_eq!(f.read(0x0E00_0002), 0xFF);
}

#[test]
fn test_flash_program_at_bus_addresses() {
    let mut f = FlashState::new();
    f.write(0x0E00_5555, 0xAA);
    f.write(0x0E00_2AAA, 0x55);
    f.write(0x0E00_5555, 0xA0);
    f.write(0x0E00_1234, 0x42);
    assert_eq!(f.read(0x0E00_1234), 0x42);
    assert_eq!(f.read(0x0E00_1233), 0xFF);
    assert_eq!(f.read(0x0E00_1235), 0xFF);
    f.write(0x0E00_1234, 0x00); // the program command acts once
    assert_eq!(f.read(0x0E00_1234), 0x42);
}

#[test]
fn test_flash_program_through_bus() {
    let mut bus = new_bus();
    bus.write_u8(0x0E00_5555, 0xAA);
    bus.write_u8(0x0E00_2AAA, 0x55);
    bus.write_u8(0x0E00_5555, 0xA0);
    bus.write_u8(0x0E00_0010, 0x5A);
    assert_eq!(bus.read_u8(0x0E00_0010), 0x5A);
    assert_eq!(bus.read_u8(0x0E00_0011), 0xFF);
}
