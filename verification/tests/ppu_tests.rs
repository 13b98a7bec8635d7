use gba_emu::cpu::CPU;
use gba_emu::memory_bus::MemoryBus;
use gba_emu::ppu::blend::{alpha_blend, brighten, darken};
use gba_emu::ppu::{PpuMode, PPU};

fn new_bus() -> MemoryBus {
    MemoryBus::new(vec![0u8; 256])
}

fn render_line(ppu: &mut PPU, bus: &mut MemoryBus, line: u16) {
    ppu.vcount = line;
    let dispcnt = bus.read_u16(0x0400_0000);
    ppu.render_current_line(bus, dispcnt);
}

#[test]
fn test_mode4_render() {
    let mut ppu = PPU::new();
    let mut bus = MemoryBus::new(vec![0u8; 256]);

    //DISPCNT: mode 4 (bits 0-2 = 4) + BG2 enable (bit 10)
    bus.io[0] = 0x04;
    bus.io[1] = 0x04;

    for i in 0..(96 * 1024) {
        bus.vram[i] = 1;
    }
    bus.palette[2] = 0x1F;
    bus.palette[3] = 0x00;

    ppu.vcount = 0;
    let dispcnt = bus.read_u16(0x04000000);
    ppu.render_current_line(&mut bus, dispcnt);

    assert_eq!(ppu.framebuffer[0], 248)
}

#[test]
fn test_ppu_new_state() {
    let ppu = PPU::new();
    assert_eq!(ppu.vcount, 0);
    assert_eq!(ppu.line_cycle, 0);
    assert!(matches!(ppu.mode, PpuMode::Oam));
    assert!(ppu.framebuffer.iter().all(|&b| b == 0));
    assert!(ppu.obj_priority.iter().all(|&p| p == 4));
    assert!(ppu.win_mask.iter().all(|&m| m == 0x3F));
}

#[test]
fn test_mode4_second_page_and_transparency() {
    let mut ppu = PPU::new();
    let mut bus = new_bus();
    bus.io[0] = 0x14; // mode 4, page 2
    bus.io[1] = 0x04;
    bus.vram[0xA000 + 240 * 3 + 1] = 2;
    bus.palette[4] = 0xE0;
    bus.palette[5] = 0x03; // green
    bus.palette[0] = 0x00;
    bus.palette[1] = 0x7C; // blue backdrop
    render_line(&mut ppu, &mut bus, 3);
    let row = 3 * 720;
    assert_eq!(ppu.framebuffer[row..row + 3], [0, 0, 248]);
    assert_eq!(ppu.framebuffer[row + 3..row + 6], [0, 248, 0]);
}

#[test]
fn test_mode3_bitmap_line() {
    let mut ppu = PPU::new();
    let mut bus = new_bus();
    bus.io[0] = 0x03;
    bus.io[1] = 0x04;
    let off = (2 * 240 + 5) * 2;
    bus.vram[off] = 0xFF;
    bus.vram[off + 1] = 0x7F; // white
    render_line(&mut ppu, &mut bus, 2);
    let px = 2 * 720 + 5 * 3;
    assert_eq!(ppu.framebuffer[px..px + 3], [248, 248, 248]);
    assert_eq!(ppu.framebuffer[px + 3..px + 6], [0, 0, 0]);
}

#[test]
fn test_forced_blank_is_white() {
    let mut ppu = PPU::new();
    let mut bus = new_bus();
    bus.io[0] = 0x80;
    render_line(&mut ppu, &mut bus, 7);
    assert!(ppu.framebuffer[7 * 720..8 * 720].iter().all(|&b| b == 255));
    assert!(ppu.framebuffer[6 * 720..7 * 720].iter().all(|&b| b == 0));
}

#[test]
fn test_backdrop_shows_without_layers() {
    let mut ppu = PPU::new();
    let mut bus = new_bus();
    bus.palette[0] = 0xE0;
    bus.palette[1] = 0x03;
    render_line(&mut ppu, &mut bus, 0);
    assert_eq!(ppu.framebuffer[0..3], [0, 248, 0]);
    assert_eq!(ppu.framebuffer[717..720], [0, 248, 0]);
}

#[test]
fn test_mode0_text_background() {
    let mut ppu = PPU::new();
    let mut bus = new_bus();
    bus.io[0] = 0x00;
    bus.io[1] = 0x01; // mode 0, BG0
    bus.io[8] = 0x00; // BG0CNT: char base 0, screen base 0, 4bpp
    bus.io[9] = 0x08; // screen base block 8 (0x4000)
    // map entry 0 -> tile 1, palette bank 0
    bus.vram[0x4000] = 1;
    // tile 1, first row: pixel 0 colour 3, pixel 1 colour 0
    bus.vram[32] = 0x03;
    bus.palette[6] = 0x1F;
    render_line(&mut ppu, &mut bus, 0);
    assert_eq!(ppu.framebuffer[0..3], [248, 0, 0]);
    assert_eq!(ppu.framebuffer[3..6], [0, 0, 0]);
}

#[test]
fn test_render_mode3_direct_buffers() {
    let mut ppu = PPU::new();
    let mut bus = new_bus();
    bus.io[1] = 0x04;
    bus.vram[0] = 0x34;
    bus.vram[1] = 0x12;
    ppu.render_mode3(0, &bus.vram, &bus.io);
    assert_eq!(ppu.bg_color[480], 0x1234);
    assert!(ppu.bg_opaque[480]);
    assert!(!ppu.bg_opaque[0]);
    bus.io[1] = 0x00;
    let mut other = PPU::new();
    other.render_mode3(0, &bus.vram, &bus.io);
    assert!(!other.bg_opaque[480]);
}

#[test]
fn test_render_mode0_disabled_layers_untouched() {
    let mut ppu = PPU::new();
    let bus = new_bus();
    ppu.render_mode0(0, &bus.vram, &bus.io, &bus.palette);
    assert!(ppu.bg_opaque.iter().all(|&o| !o));
}

#[test]
fn test_render_mode1_and_mode2_affine_identity() {
    let mut bus = new_bus();
    bus.io[1] = 0x04; // BG2
    bus.io[0x20] = 0x00;
    bus.io[0x21] = 0x01; // PA = 1.0
    bus.io[0x26] = 0x00;
    bus.io[0x27] = 0x01; // PD = 1.0
    // map entry (0,0) -> tile 1; tile 1 pixel (0,0) colour 5
    bus.vram[0] = 1;
    bus.vram[64] = 5;
    bus.palette[10] = 0x1F;
    let mut ppu = PPU::new();
    ppu.render_mode1(0, &bus.vram, &bus.io, &bus.palette);
    assert_eq!(ppu.bg_color[480], 0x1F);
    assert!(ppu.bg_opaque[480]);
    assert!(!ppu.bg_opaque[481]);
    let mut ppu2 = PPU::new();
    ppu2.render_mode2(0, &bus.vram, &bus.io, &bus.palette);
    assert_eq!(ppu2.bg_color[480], 0x1F);
    assert!(ppu2.bg_opaque[480]);
}

#[test]
fn test_affine_outside_map_transparent_unless_wrapped() {
    let mut bus = new_bus();
    bus.io[1] = 0x04;
    bus.io[0x21] = 0x01; // PA = 1.0
    bus.io[0x27] = 0x01; // PD = 1.0
    // reference X = -1.0 (28-bit signed, 8 fractional bits)
    bus.io[0x28] = 0x00;
    bus.io[0x29] = 0xFF;
    bus.io[0x2A] = 0xFF;
    bus.io[0x2B] = 0x0F;
    bus.vram[15] = 1; // map entry (15, 0) -> tile 1 (128 px map: 16 tiles per row)
    bus.vram[64 + 7] = 5; // tile 1, pixel (7, 0)
    bus.palette[10] = 0x1F;
    let mut ppu = PPU::new();
    ppu.render_mode2(0, &bus.vram, &bus.io, &bus.palette);
    assert!(!ppu.bg_opaque[480]);
    bus.io[0x0D] = 0x20; // BG2CNT bit 13: wrap
    let mut ppu2 = PPU::new();
    ppu2.render_mode2(0, &bus.vram, &bus.io, &bus.palette);
    assert!(ppu2.bg_opaque[480]);
    assert_eq!(ppu2.bg_color[480], 0x1F);
}

fn disable_all_sprites(oam: &mut [u8; 1024]) {
    for i in 0..128 {
        oam[i * 8] = 0x00;
        oam[i * 8 + 1] = 0x02;
    }
}

#[test]
fn test_render_sprites_draws_and_keeps_priority() {
    let mut bus = new_bus();
    disable_all_sprites(&mut bus.oam);
    // sprite 0: 8x8 4bpp at (10, 0), tile 0, priority 1
    bus.oam[0] = 0;
    bus.oam[1] = 0;
    bus.oam[2] = 10;
    bus.oam[3] = 0;
    bus.oam[4] = 0;
    bus.oam[5] = 0x04;
    for b in 0..32 {
        bus.vram[0x10000 + b] = 0x11;
    }
    bus.palette[0x202] = 0x1F;
    let mut ppu = PPU::new();
    let dispcnt = 0x1040u16;
    assert!(PPU::sprites_in_vram(&bus.oam, dispcnt, 0, 0));
    ppu.render_sprites(&bus.oam, &bus.palette, &bus.vram, dispcnt, 0, 0);
    assert_eq!(ppu.obj_priority[9], 4);
    assert_eq!(ppu.obj_priority[10], 1);
    assert_eq!(ppu.obj_color[10], 0x1F);
    assert_eq!(ppu.obj_priority[17], 1);
    assert_eq!(ppu.obj_priority[18], 4);
}

#[test]
fn test_sprites_equal_priority_lower_index_wins() {
    let mut bus = new_bus();
    disable_all_sprites(&mut bus.oam);
    for (i, x, pal) in [(0usize, 0u8, 0u8), (1, 4, 1)] {
        bus.oam[i * 8] = 0;
        bus.oam[i * 8 + 1] = 0;
        bus.oam[i * 8 + 2] = x;
        bus.oam[i * 8 + 3] = 0;
        bus.oam[i * 8 + 4] = 0;
        bus.oam[i * 8 + 5] = pal << 4;
    }
    for b in 0..32 {
        bus.vram[0x10000 + b] = 0x11;
    }
    bus.palette[0x202] = 0x1F; // bank 0 colour 1: red
    bus.palette[0x222] = 0x00;
    bus.palette[0x223] = 0x7C; // bank 1 colour 1: blue
    let mut ppu = PPU::new();
    ppu.render_sprites(&bus.oam, &bus.palette, &bus.vram, 0x1040, 0, 0);
    assert_eq!(ppu.obj_color[5], 0x1F);
    assert_eq!(ppu.obj_color[10], 0x7C00);
}

#[test]
fn test_sprites_off_leave_buffer() {
    let bus = new_bus();
    let mut ppu = PPU::new();
    ppu.render_sprites(&bus.oam, &bus.palette, &bus.vram, 0x0000, 0, 0);
    assert!(ppu.obj_priority.iter().all(|&p| p == 4));
}

#[test]
fn test_obj_window_sprite_marks_window_only() {
    let mut bus = new_bus();
    disable_all_sprites(&mut bus.oam);
    bus.oam[0] = 0;
    bus.oam[1] = 0x08; // OBJ-window mode
    bus.oam[2] = 0;
    bus.oam[3] = 0;
    for b in 0..32 {
        bus.vram[0x10000 + b] = 0x11;
    }
    let mut ppu = PPU::new();
    ppu.render_sprites(&bus.oam, &bus.palette, &bus.vram, 0x1040, 0, 0);
    assert!(ppu.obj_window[0]);
    assert_eq!(ppu.obj_priority[0], 4);
    assert!(!ppu.obj_window[8]);
}

#[test]
fn test_sprite_tile_past_vram_detected() {
    let mut bus = new_bus();
    disable_all_sprites(&mut bus.oam);
    // sprite 0: 64x64, 8bpp, tile 1023
    bus.oam[0] = 0;
    bus.oam[1] = 0x20;
    bus.oam[2] = 0;
    bus.oam[3] = 0xC0;
    bus.oam[4] = 0xFF;
    bus.oam[5] = 0x03;
    assert!(!PPU::sprites_in_vram(&bus.oam, 0x1040, 0, 0));
    assert!(PPU::sprites_in_vram(&bus.oam, 0x0040, 0, 0));
    assert!(PPU::sprites_in_vram(&bus.oam, 0x1040, 0, 100));
}

#[test]
fn test_blend_formulas() {
    assert_eq!(alpha_blend(0x001F, 0x7C00, 8, 8), 0x3C0F);
    assert_eq!(alpha_blend(0x7FFF, 0x7FFF, 16, 16), 0x7FFF);
    assert_eq!(alpha_blend(0x1234, 0x7FFF, 16, 0), 0x1234);
    assert_eq!(brighten(0, 16), 0x7FFF);
    assert_eq!(brighten(0, 8), 0x3DEF);
    assert_eq!(brighten(0x1234, 0), 0x1234);
    assert_eq!(darken(0x7FFF, 8), 0x4210);
    assert_eq!(darken(0x7FFF, 16), 0);
}

#[test]
fn test_brightness_effect_on_backdrop() {
    let mut ppu = PPU::new();
    let mut bus = new_bus();
    bus.io[0x50] = 0x20; // BLDCNT: backdrop first target
    bus.io[0x51] = 0x00;
    bus.io[0x50] |= 0x80; // mode 2: brighten
    bus.io[0x54] = 16; // BLDY = 16
    render_line(&mut ppu, &mut bus, 0);
    assert_eq!(ppu.framebuffer[0..3], [248, 248, 248]);
}

#[test]
fn test_tick_counts_cycles() {
    let mut ppu = PPU::new();
    let mut cpu = CPU::new();
    let mut bus = new_bus();
    ppu.tick(&mut cpu, &mut bus);
    assert_eq!(ppu.line_cycle, 1);
    assert_eq!(ppu.vcount, 0);
}

#[test]
fn test_tick_enters_hblank() {
    let mut ppu = PPU::new();
    let mut cpu = CPU::new();
    let mut bus = new_bus();
    ppu.line_cycle = 959;
    ppu.tick(&mut cpu, &mut bus);
    assert!(matches!(ppu.mode, PpuMode::HBlank));
    assert_eq!(bus.io[4] & 0x02, 0x02);
    assert_eq!(ppu.line_cycle, 960);
}

#[test]
fn test_tick_ends_scanline() {
    let mut ppu = PPU::new();
    let mut cpu = CPU::new();
    let mut bus = new_bus();
    bus.io[4] = 0x02;
    ppu.vcount = 5;
    ppu.line_cycle = 1231;
    ppu.tick(&mut cpu, &mut bus);
    assert_eq!(ppu.vcount, 6);
    assert_eq!(ppu.line_cycle, 0);
    assert_eq!(bus.io[6], 6);
    assert_eq!(bus.io[4] & 0x02, 0);
}

#[test]
fn test_vblank_starts_at_line_160() {
    let mut ppu = PPU::new();
    let mut cpu = CPU::new();
    let mut bus = new_bus();
    ppu.vcount = 159;
    ppu.line_cycle = 1231;
    ppu.tick(&mut cpu, &mut bus);
    assert_eq!(ppu.vcount, 160);
    assert!(matches!(ppu.mode, PpuMode::Vblank));
    assert_eq!(bus.io[4] & 1, 1);
    assert_eq!(bus.iwram[0x7FF8] & 1, 1);
}

#[test]
fn test_frame_wraps_after_line_227() {
    let mut ppu = PPU::new();
    let mut cpu = CPU::new();
    let mut bus = new_bus();
    bus.io[4] = 1;
    ppu.vcount = 226;
    ppu.line_cycle = 1231;
    ppu.tick(&mut cpu, &mut bus);
    assert_eq!(ppu.vcount, 227);
    assert!(matches!(ppu.mode, PpuMode::Oam));
    assert_eq!(bus.io[4] & 1, 0);
    ppu.line_cycle = 1231;
    ppu.tick(&mut cpu, &mut bus);
    assert_eq!(ppu.vcount, 0);
}

#[test]
fn test_vblank_interrupt_taken() {
    let mut ppu = PPU::new();
    let mut cpu = CPU::new();
    cpu.cpsr = 0x1F;
    cpu.registers[15] = 0x0800_0000;
    let mut bus = new_bus();
    bus.io[0x200] = 0x01; // IE: V-blank
    bus.io[0x208] = 0x01; // IME
    bus.io[4] = 0x08; // V-blank IRQ enable
    ppu.vcount = 159;
    ppu.line_cycle = 1231;
    ppu.tick(&mut cpu, &mut bus);
    assert_eq!(cpu.cpsr & 0x1F, 0x12);
    assert_eq!(cpu.registers[15], 0x18);
    assert_eq!(cpu.registers[14], 0x0800_0004);
    assert_eq!(bus.io[0x202] & 1, 1);
}

#[test]
fn test_hblank_interrupt_masked_by_cpsr() {
    let mut ppu = PPU::new();
    let mut cpu = CPU::new();
    cpu.cpsr = 0x9F; // IRQs disabled
    let mut bus = new_bus();
    bus.io[0x200] = 0x02;
    bus.io[0x208] = 0x01;
    bus.io[4] = 0x10;
    ppu.line_cycle = 959;
    ppu.tick(&mut cpu, &mut bus);
    assert_eq!(cpu.cpsr, 0x9F);
    assert_eq!(bus.io[0x202] & 2, 2);
}

#[test]
fn test_vcount_match_flag() {
    let mut ppu = PPU::new();
    let mut cpu = CPU::new();
    let mut bus = new_bus();
    bus.io[5] = 6;
    ppu.vcount = 5;
    ppu.line_cycle = 1231;
    ppu.tick(&mut cpu, &mut bus);
    assert_eq!(bus.io[4] & 0x04, 0x04);
    ppu.line_cycle = 1231;
    ppu.tick(&mut cpu, &mut bus);
    assert_eq!(bus.io[4] & 0x04, 0);
}

#[test]
fn test_blend_channel_laws() {
    let (top, bot) = (0x1A2Bu16, 0x0C5Du16);
    let r = alpha_blend(top, bot, 7, 12);
    assert_eq!(r & 0x8000, 0);
    for k in [0u16, 5, 10] {
        let a = ((top >> k) & 0x1F) as u32;
        let b = ((bot >> k) & 0x1F) as u32;
        assert_eq!(((r >> k) & 0x1F) as u32, ((a * 7 + b * 12) >> 4).min(31));
    }
    assert_eq!(r, alpha_blend(bot, top, 12, 7));
    let c = 0x2D6Bu16;
    let br = brighten(c, 5);
    let dk = darken(c, 5);
    for k in [0u16, 5, 10] {
        let a = ((c >> k) & 0x1F) as u32;
        assert_eq!(((br >> k) & 0x1F) as u32, a + (((31 - a) * 5) >> 4));
        assert!(a <= ((br >> k) & 0x1F) as u32);
        assert_eq!(((dk >> k) & 0x1F) as u32, a - ((a * 5) >> 4));
    }
}
