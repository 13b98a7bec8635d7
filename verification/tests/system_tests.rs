use gba_emu::cpu::CPU;
use gba_emu::lcd::lcd_blend_frame;
use gba_emu::memory_bus::MemoryBus;
use gba_emu::ppu::PPU;
use gba_emu::system::{cpu_halts, machine_cycle, step_cpu, tick_timers, timers_can_step, CycleEnd};

fn new_bus() -> MemoryBus {
    MemoryBus::new(vec![0u8; 1024])
}

fn thumb_cpu() -> CPU {
    let mut cpu = CPU::new();
    cpu.cpsr = 0x3F;
    cpu
}

#[test]
fn test_thumb_mov_add_shift() {
    let mut cpu = thumb_cpu();
    let mut bus = new_bus();
    cpu.execute_thumb_instruction(&mut bus, 0x2042); // MOV r0, #0x42
    assert_eq!(cpu.registers[0], 0x42);
    cpu.execute_thumb_instruction(&mut bus, 0x1CC1); // ADD r1, r0, #3
    assert_eq!(cpu.registers[1], 0x45);
    cpu.execute_thumb_instruction(&mut bus, 0x0102); // LSL r2, r0, #4
    assert_eq!(cpu.registers[2], 0x420);
    assert_eq!(cpu.cpsr >> 28, 0);
}

#[test]
fn test_thumb_alu_and_hi_register_move() {
    let mut cpu = thumb_cpu();
    let mut bus = new_bus();
    cpu.registers[0] = 0xF0F0;
    cpu.registers[1] = 0x0FF0;
    cpu.execute_thumb_instruction(&mut bus, 0x4008); // AND r0, r1
    assert_eq!(cpu.registers[0], 0x00F0);
    cpu.execute_thumb_instruction(&mut bus, 0x4680); // MOV r8, r0
    assert_eq!(cpu.registers[8], 0x00F0);
}

#[test]
fn test_thumb_branches() {
    let mut cpu = thumb_cpu();
    let mut bus = new_bus();
    cpu.registers[15] = 0x0800_0102;
    cpu.execute_thumb_instruction(&mut bus, 0xE002); // B +4
    assert_eq!(cpu.registers[15], 0x0800_0108);
    cpu.registers[15] = 0x0800_0102;
    cpu.execute_thumb_instruction(&mut bus, 0xD002); // BEQ, Z clear
    assert_eq!(cpu.registers[15], 0x0800_0102);
    cpu.cpsr |= 1 << 30;
    cpu.execute_thumb_instruction(&mut bus, 0xD002); // BEQ, Z set
    assert_eq!(cpu.registers[15], 0x0800_0108);
}

#[test]
fn test_thumb_long_branch_with_link() {
    let mut cpu = thumb_cpu();
    let mut bus = new_bus();
    cpu.registers[15] = 0x0800_0102;
    cpu.execute_thumb_instruction(&mut bus, 0xF000);
    assert_eq!(cpu.registers[14], 0x0800_0104);
    cpu.registers[15] = 0x0800_0104;
    cpu.execute_thumb_instruction(&mut bus, 0xF802);
    assert_eq!(cpu.registers[15], 0x0800_0108);
    assert_eq!(cpu.registers[14], 0x0800_0105);
}

#[test]
fn test_thumb_bx_to_arm() {
    let mut cpu = thumb_cpu();
    let mut bus = new_bus();
    cpu.registers[0] = 0x0800_0200;
    cpu.execute_thumb_instruction(&mut bus, 0x4700); // BX r0
    assert_eq!(cpu.registers[15], 0x0800_0200);
    assert_eq!((cpu.cpsr >> 5) & 1, 0);
}

#[test]
fn test_thumb_store_load_immediate_offset() {
    let mut cpu = thumb_cpu();
    let mut bus = new_bus();
    cpu.registers[0] = 0x0300_0000;
    cpu.registers[1] = 0xCAFE_F00D;
    cpu.execute_thumb_instruction(&mut bus, 0x6041); // STR r1, [r0, #4]
    cpu.execute_thumb_instruction(&mut bus, 0x6842); // LDR r2, [r0, #4]
    assert_eq!(cpu.registers[2], 0xCAFE_F00D);
    assert_eq!(bus.read_u32(0x0300_0004), 0xCAFE_F00D);
}

#[test]
fn test_thumb_push_pop_round_trip() {
    let mut cpu = thumb_cpu();
    let mut bus = new_bus();
    cpu.registers[13] = 0x0300_7F00;
    cpu.registers[0] = 1;
    cpu.registers[1] = 2;
    cpu.registers[14] = 0x0800_0201;
    cpu.execute_thumb_instruction(&mut bus, 0xB503); // PUSH {r0, r1, LR}
    assert_eq!(cpu.registers[13], 0x0300_7EF4);
    assert_eq!(bus.read_u32(0x0300_7EF4), 1);
    assert_eq!(bus.read_u32(0x0300_7EF8), 2);
    assert_eq!(bus.read_u32(0x0300_7EFC), 0x0800_0201);
    cpu.registers[0] = 0;
    cpu.registers[1] = 0;
    cpu.execute_thumb_instruction(&mut bus, 0xBC03); // POP {r0, r1}
    assert_eq!(cpu.registers[0], 1);
    assert_eq!(cpu.registers[1], 2);
    assert_eq!(cpu.registers[13], 0x0300_7EFC);
}

#[test]
fn test_step_cpu_arm_and_thumb() {
    let mut rom = vec![0u8; 16];
    rom[0..4].copy_from_slice(&[0x05, 0x00, 0xA0, 0xE3]); // MOV r0, #5
    rom[4..6].copy_from_slice(&[0x07, 0x21]); // MOV r1, #7
    let mut bus = MemoryBus::new(rom);
    let mut cpu = CPU::new();
    cpu.cpsr = 0x1F;
    cpu.registers[15] = 0x0800_0000;
    assert!(!cpu_halts(&cpu, &mut bus));
    step_cpu(&mut cpu, &mut bus);
    assert_eq!(cpu.registers[0], 5);
    assert_eq!(cpu.registers[15], 0x0800_0004);
    cpu.cpsr = 0x3F;
    step_cpu(&mut cpu, &mut bus);
    assert_eq!(cpu.registers[1], 7);
    assert_eq!(cpu.registers[15], 0x0800_0006);
}

#[test]
fn test_cpu_halts_on_unimplemented_arm() {
    let mut rom = vec![0u8; 8];
    rom[0..4].copy_from_slice(&[0x30, 0xFF, 0x2F, 0xE1]); // BLX r0
    let mut bus = MemoryBus::new(rom);
    let mut cpu = CPU::new();
    cpu.cpsr = 0x1F;
    cpu.registers[15] = 0x0800_0000;
    assert!(cpu_halts(&cpu, &mut bus));
    cpu.cpsr = 0x3F;
    assert!(!cpu_halts(&cpu, &mut bus));
}

#[test]
fn test_tick_timers_overflow_interrupt_and_cascade() {
    let mut bus = new_bus();
    let mut cpu = CPU::new();
    cpu.cpsr = 0x1F;
    cpu.registers[15] = 0x0800_0000;
    bus.write_u16(0x0400_0100, 0xFFFF);
    bus.write_u16(0x0400_0102, 0x00C0); // start, IRQ
    bus.write_u16(0x0400_0106, 0x0084); // timer 1: start, cascade
    bus.io[0x200] = 0x08; // IE: timer 0
    bus.io[0x208] = 0x01;
    tick_timers(&mut cpu, &mut bus);
    assert_eq!(bus.timers[0].counter, 0xFFFF);
    assert_eq!(bus.timers[1].counter, 1);
    assert_eq!(bus.io[0x202] & 0x08, 0x08);
    assert_eq!(cpu.cpsr & 0x1F, 0x12);
    assert_eq!(cpu.registers[15], 0x18);
}

#[test]
fn test_tick_timers_without_interrupt() {
    let mut bus = new_bus();
    let mut cpu = CPU::new();
    cpu.cpsr = 0x1F;
    bus.write_u16(0x0400_0104, 0xFFFF);
    bus.write_u16(0x0400_0106, 0x0080);
    tick_timers(&mut cpu, &mut bus);
    assert_eq!(bus.timers[1].counter, 0xFFFF);
    assert_eq!(bus.io[0x202], 0);
    assert_eq!(cpu.cpsr, 0x1F);
    tick_timers(&mut cpu, &mut bus);
    assert_eq!(bus.timers[0].counter, 0);
}

#[test]
fn test_lcd_blend_solid_and_checkerboard() {
    let solid = vec![100u8; 115200];
    let mut out = vec![0u8; 115200];
    lcd_blend_frame(&solid, &mut out);
    assert!(out.iter().all(|&b| b == 100));

    let mut checker = vec![0u8; 115200];
    for y in 0..160usize {
        for x in 0..240usize {
            let v = if (x + y) % 2 == 0 { 200 } else { 100 };
            for c in 0..3 {
                checker[(y * 240 + x) * 3 + c] = v;
            }
        }
    }
    lcd_blend_frame(&checker, &mut out);
    let inner = (10 * 240 + 10) * 3;
    assert_eq!(out[inner], 150);
    assert_eq!(out[inner + 3], 150);
    // corner (0,0): (4*200 + 100 + 100) / 6 = 166
    assert_eq!(out[0], 166);
}

#[test]
fn test_lcd_blend_leaves_tail() {
    let src = vec![0u8; 115200];
    let mut out = vec![7u8; 115202];
    lcd_blend_frame(&src, &mut out);
    assert_eq!(out[115199], 0);
    assert_eq!(out[115200], 7);
    assert_eq!(out[115201], 7);
}

#[test]
fn test_thumb_bl_pair_then_bx_lr_returns() {
    let mut cpu = thumb_cpu();
    let mut bus = MemoryBus::new(vec![0u8; 1024]);
    let cpsr = cpu.cpsr;
    cpu.registers[2] = 77;
    cpu.registers[15] = 0x0800_0202; // prefix at 0x08000200
    cpu.execute_thumb_instruction(&mut bus, 0xF000); // BL prefix, offset high 0
    cpu.registers[15] = 0x0800_0204; // suffix at 0x08000202
    cpu.execute_thumb_instruction(&mut bus, 0xF810); // BL suffix, offset low 0x10
    assert_eq!(cpu.registers[15], 0x0800_0224);
    assert_eq!(cpu.registers[14], 0x0800_0205);
    cpu.registers[15] = 0x0800_0226; // fetch of BX lr
    cpu.execute_thumb_instruction(&mut bus, 0x4770); // BX lr
    assert_eq!(cpu.registers[15], 0x0800_0204);
    assert_eq!(cpu.registers[2], 77);
    assert_eq!(cpu.cpsr, cpsr);
}

#[test]
fn test_thumb_ldrh_loads() {
    let mut cpu = thumb_cpu();
    let mut bus = new_bus();
    cpu.registers[1] = 0x0200_0000;
    bus.ewram[2] = 0x34;
    bus.ewram[3] = 0x12;
    cpu.execute_thumb_instruction(&mut bus, 0x8848); // LDRH r0, [r1, #2]
    assert_eq!(cpu.registers[0], 0x1234);
    cpu.execute_thumb_instruction(&mut bus, 0x8088); // STRH r0, [r1, #4]
    assert_eq!(bus.read_u16(0x0200_0004), 0x1234);
}

#[test]
fn test_thumb_str_sp_relative_stores() {
    let mut cpu = thumb_cpu();
    let mut bus = new_bus();
    cpu.registers[13] = 0x0300_0100;
    cpu.registers[0] = 0xCAFE_BABE;
    cpu.execute_thumb_instruction(&mut bus, 0x9001); // STR r0, [SP, #4]
    assert_eq!(bus.read_u32(0x0300_0104), 0xCAFE_BABE);
    cpu.execute_thumb_instruction(&mut bus, 0x9901); // LDR r1, [SP, #4]
    assert_eq!(cpu.registers[1], 0xCAFE_BABE);
}

#[test]
fn test_thumb_add_pc_and_sp_relative_address() {
    let mut cpu = thumb_cpu();
    let mut bus = new_bus();
    cpu.registers[15] = 0x0800_0102;
    cpu.registers[13] = 0x0300_7F00;
    cpu.execute_thumb_instruction(&mut bus, 0xA001); // ADD r0, PC, #4
    assert_eq!(cpu.registers[0], 0x0800_0108);
    cpu.execute_thumb_instruction(&mut bus, 0xA902); // ADD r1, SP, #8
    assert_eq!(cpu.registers[1], 0x0300_7F08);
    assert_eq!(cpu.registers[13], 0x0300_7F00);
}

#[test]
fn test_thumb_add_sp_offset() {
    let mut cpu = thumb_cpu();
    let mut bus = new_bus();
    cpu.registers[13] = 0x0300_7F00;
    cpu.execute_thumb_instruction(&mut bus, 0xB082); // SUB SP, #8
    assert_eq!(cpu.registers[13], 0x0300_7EF8);
    cpu.execute_thumb_instruction(&mut bus, 0xB004); // ADD SP, #16
    assert_eq!(cpu.registers[13], 0x0300_7F08);
}

#[test]
fn test_thumb_swi_enters_supervisor() {
    let mut cpu = thumb_cpu();
    let mut bus = new_bus();
    cpu.registers[15] = 0x0800_0012;
    cpu.execute_thumb_instruction(&mut bus, 0xDF05); // SWI 5
    assert_eq!(cpu.registers[15], 8);
    assert_eq!(cpu.registers[14], 0x0800_0012);
    assert_eq!(cpu.cpsr & 0x3F, 0x13);
    assert_eq!(cpu.spsr_svc, 0x3F);
}

#[test]
fn test_machine_cycle_steps_renderer_cpu_and_timers() {
    let mut rom = vec![0u8; 16];
    rom[0..4].copy_from_slice(&[0x05, 0x00, 0xA0, 0xE3]); // MOV r0, #5
    let mut bus = MemoryBus::new(rom);
    let mut cpu = CPU::new();
    let mut ppu = PPU::new();
    cpu.cpsr = 0x1F;
    cpu.registers[15] = 0x0800_0000;
    bus.timers[0].enabled = true;
    assert!(matches!(machine_cycle(&mut ppu, &mut cpu, &mut bus), CycleEnd::Completed));
    assert_eq!(ppu.line_cycle, 1);
    assert_eq!(cpu.registers[0], 5);
    assert_eq!(cpu.registers[15], 0x0800_0004);
    assert_eq!(bus.timers[0].counter, 1);
}

#[test]
fn test_machine_cycle_stops_on_unimplemented_and_timer_overflow() {
    let mut rom = vec![0u8; 16];
    rom[0..4].copy_from_slice(&[0x30, 0xFF, 0x2F, 0xE1]); // BLX r0
    rom[4..8].copy_from_slice(&[0x05, 0x00, 0xA0, 0xE3]); // MOV r0, #5
    let mut bus = MemoryBus::new(rom);
    let mut cpu = CPU::new();
    let mut ppu = PPU::new();
    cpu.cpsr = 0x1F;
    cpu.registers[15] = 0x0800_0000;
    match machine_cycle(&mut ppu, &mut cpu, &mut bus) {
        CycleEnd::Unimplemented(i) => assert_eq!(i, 0xE12F_FF30),
        _ => panic!("expected an unimplemented instruction"),
    }
    cpu.registers[15] = 0x0800_0004;
    bus.timers[2].enabled = true;
    bus.timers[2].cycle_count = u32::MAX;
    assert!(!timers_can_step(&bus));
    assert!(matches!(machine_cycle(&mut ppu, &mut cpu, &mut bus), CycleEnd::TimerOverflow));
    assert_eq!(cpu.registers[0], 5);
}

#[test]
fn test_thumb_strh_register_offset_stores_halfword() {
    let mut cpu = thumb_cpu();
    let mut bus = new_bus();
    cpu.registers[1] = 0x0200_0000;
    cpu.registers[2] = 4;
    cpu.registers[0] = 0xABCD_1234;
    bus.write_u32(0x0200_0004, 0xFFFF_FFFF);
    cpu.execute_thumb_instruction(&mut bus, 0x5288); // STRH r0, [r1, r2]
    assert_eq!(bus.read_u32(0x0200_0004), 0xFFFF_1234);
}

#[test]
fn test_push_pop_registers_direct_round_trip() {
    let mut cpu = thumb_cpu();
    let mut bus = new_bus();
    cpu.registers[13] = 0x0300_0100;
    for i in 0..8 {
        cpu.registers[i] = 0x100 + i as u32;
    }
    let before = cpu.registers;
    cpu.execute_push_pop_registers(&mut bus, 0xB4A5); // PUSH {r0, r2, r5, r7}
    assert_eq!(cpu.registers[13], 0x0300_00F0);
    cpu.registers[0] = 0;
    cpu.registers[5] = 0;
    cpu.execute_push_pop_registers(&mut bus, 0xBCA5); // POP {r0, r2, r5, r7}
    assert_eq!(cpu.registers, before);
    assert_eq!(cpu.cpsr, 0x3F);
}
