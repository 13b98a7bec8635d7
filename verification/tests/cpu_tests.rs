use gba_emu::cpu::shifter::rotate_right;
use gba_emu::cpu::CPU;
use gba_emu::memory_bus::MemoryBus;

fn new_bus() -> MemoryBus {
    MemoryBus::new(vec![0u8; 1024])
}

fn cpu_in_system_mode() -> CPU {
    let mut cpu = CPU::new();
    cpu.cpsr = 0x1F;
    cpu
}

#[test]
fn test_cpu_new_is_zeroed() {
    let cpu = CPU::new();
    assert!(cpu.registers.iter().all(|&r| r == 0));
    assert_eq!(cpu.cpsr, 0);
    assert_eq!(cpu.r13_svc, 0);
    assert_eq!(cpu.spsr_irq, 0);
    assert_eq!(cpu.r12_fiq, 0);
}

#[test]
fn test_sub_flags_equal_operands() {
    assert_eq!(CPU::new().sub_flags(5, 5), (false, true, true, false));
}

#[test]
fn test_sub_flags_borrow() {
    assert_eq!(CPU::new().sub_flags(3, 5), (true, false, false, false));
}

#[test]
fn test_sub_flags_signed_overflow() {
    assert_eq!(CPU::new().sub_flags(0x8000_0000, 1), (false, false, true, true));
}

#[test]
fn test_add_flags_signed_overflow() {
    assert_eq!(CPU::new().add_flags(0x7FFF_FFFF, 1), (true, false, false, true));
}

#[test]
fn test_add_flags_carry_out() {
    assert_eq!(CPU::new().add_flags(0xFFFF_FFFF, 1), (false, true, true, false));
}

#[test]
fn test_adc_flags_carry_in() {
    assert_eq!(CPU::new().adc_flags(0xFFFF_FFFF, 0, 1), (false, true, true, false));
    assert_eq!(CPU::new().adc_flags(1, 2, 1), (false, false, false, false));
}

#[test]
fn test_sbc_flags_borrow_in() {
    assert_eq!(CPU::new().sbc_flags(5, 3, 1), (false, false, true, false));
    assert_eq!(CPU::new().sbc_flags(5, 5, 0), (true, false, false, false));
}

#[test]
fn test_logical_flags() {
    assert_eq!(CPU::new().logical_flags(0x8000_0000, true), (true, false, true, false));
    assert_eq!(CPU::new().logical_flags(0, false), (false, true, false, false));
}

#[test]
fn test_set_flags_bits() {
    let mut cpu = cpu_in_system_mode();
    cpu.set_flags(true, false, true, false);
    assert_eq!(cpu.cpsr, 0xA000_001F);
    cpu.set_flags(false, true, false, true);
    assert_eq!(cpu.cpsr, 0x5000_001F);
}

#[test]
fn test_check_condition_codes() {
    let mut cpu = CPU::new();
    cpu.cpsr = 1 << 30; // Z
    assert!(cpu.check_condition(0)); // EQ
    assert!(!cpu.check_condition(1)); // NE
    assert!(cpu.check_condition(9)); // LS: !C || Z
    assert!(!cpu.check_condition(8)); // HI
    assert!(cpu.check_condition(14)); // AL
    assert!(!cpu.check_condition(15)); // NV
    cpu.cpsr = 1 << 31; // N, V clear
    assert!(cpu.check_condition(11)); // LT: N != V
    assert!(!cpu.check_condition(10)); // GE
    assert!(!cpu.check_condition(12)); // GT
}

#[test]
fn test_condition_pairs_negate() {
    let mut cpu = CPU::new();
    for cpsr in [0u32, 0x1000_0000, 0x2000_0000, 0x4000_0000, 0x8000_0000, 0xF000_0000, 0x9000_0000] {
        cpu.cpsr = cpsr;
        for cond in 0..14u32 {
            assert_ne!(cpu.check_condition(cond), cpu.check_condition(cond ^ 1));
        }
    }
}

#[test]
fn test_apply_shift_lsl() {
    let cpu = CPU::new();
    assert_eq!(cpu.apply_shift(0x8000_0001, 0, 1, false, false), (0x0000_0002, true));
    assert_eq!(cpu.apply_shift(0x1234, 0, 0, true, false), (0x1234, true));
    assert_eq!(cpu.apply_shift(1, 0, 32, false, true), (0, true));
    assert_eq!(cpu.apply_shift(1, 0, 40, true, true), (0, false));
}

#[test]
fn test_apply_shift_lsr_and_asr() {
    let cpu = CPU::new();
    assert_eq!(cpu.apply_shift(0x8000_0000, 1, 0, false, false), (0, true));
    assert_eq!(cpu.apply_shift(0x8000_0000, 1, 0, false, true), (0x8000_0000, false));
    assert_eq!(cpu.apply_shift(0x0000_0003, 1, 1, false, false), (1, true));
    assert_eq!(cpu.apply_shift(0x8000_0000, 2, 0, false, false), (0xFFFF_FFFF, true));
    assert_eq!(cpu.apply_shift(0x8000_0010, 2, 4, false, false), (0xF800_0001, false));
    assert_eq!(cpu.apply_shift(0x4000_0000, 2, 50, false, true), (0, false));
}

#[test]
fn test_apply_shift_ror_and_rrx() {
    let cpu = CPU::new();
    assert_eq!(cpu.apply_shift(3, 3, 0, true, false), (0x8000_0001, true));
    assert_eq!(cpu.apply_shift(0x10, 3, 36, false, true), (0x1, false));
    assert_eq!(cpu.apply_shift(0x8000_0000, 3, 32, false, true), (0x8000_0000, true));
    assert_eq!(rotate_right(0x1234_5678, 8), 0x7812_3456);
}

#[test]
fn test_arm_mov_immediate() {
    let mut cpu = cpu_in_system_mode();
    let mut bus = new_bus();
    cpu.registers[15] = 0x0800_0004;
    cpu.execute_instruction(&mut bus, 0xE3A0_0005); // MOV r0, #5
    assert_eq!(cpu.registers[0], 5);
    assert_eq!(cpu.registers[15], 0x0800_0004);
}

#[test]
fn test_arm_adds_sets_zero_and_carry() {
    let mut cpu = cpu_in_system_mode();
    let mut bus = new_bus();
    cpu.registers[0] = 0xFFFF_FFFF;
    cpu.execute_instruction(&mut bus, 0xE290_1001); // ADDS r1, r0, #1
    assert_eq!(cpu.registers[1], 0);
    assert_eq!(cpu.cpsr >> 28, 0b0110);
}

#[test]
fn test_arm_failed_condition_does_nothing() {
    let mut cpu = cpu_in_system_mode();
    let mut bus = new_bus();
    cpu.execute_instruction(&mut bus, 0x03A0_0005); // MOVEQ r0, #5 with Z clear
    assert_eq!(cpu.registers[0], 0);
}

#[test]
fn test_arm_branch_with_link() {
    let mut cpu = cpu_in_system_mode();
    let mut bus = new_bus();
    cpu.registers[15] = 0x0800_0004;
    cpu.execute_instruction(&mut bus, 0xEA00_0002); // B +8
    assert_eq!(cpu.registers[15], 0x0800_0010);
    cpu.registers[15] = 0x0800_0004;
    cpu.execute_instruction(&mut bus, 0xEB00_0000); // BL +0
    assert_eq!(cpu.registers[14], 0x0800_0004);
    assert_eq!(cpu.registers[15], 0x0800_0008);
}

#[test]
fn test_arm_bx_enters_thumb() {
    let mut cpu = cpu_in_system_mode();
    let mut bus = new_bus();
    cpu.registers[0] = 0x0800_0101;
    cpu.execute_instruction(&mut bus, 0xE12F_FF10); // BX r0
    assert_eq!(cpu.registers[15], 0x0800_0100);
    assert_eq!((cpu.cpsr >> 5) & 1, 1);
}

#[test]
fn test_arm_swi_enters_supervisor() {
    let mut cpu = cpu_in_system_mode();
    let mut bus = new_bus();
    cpu.registers[15] = 0x0800_0008;
    cpu.execute_instruction(&mut bus, 0xEF00_0000);
    assert_eq!(cpu.registers[15], 0x0000_0008);
    assert_eq!(cpu.registers[14], 0x0800_0008);
    assert_eq!(cpu.cpsr & 0x1F, 0x13);
    assert_eq!((cpu.cpsr >> 7) & 1, 1);
    assert_eq!(cpu.spsr_svc, 0x1F);
}

#[test]
fn test_arm_coprocessor_is_undefined() {
    let mut cpu = cpu_in_system_mode();
    let mut bus = new_bus();
    cpu.registers[15] = 0x0800_0010;
    cpu.execute_instruction(&mut bus, 0xEE00_0000);
    assert_eq!(cpu.registers[15], 0x0000_0004);
    assert_eq!(cpu.cpsr & 0x1F, 0x1B);
    assert_eq!(cpu.r14_und, 0x0800_0010);
    assert_eq!(cpu.spsr_und, 0x1F);
}

#[test]
fn test_arm_store_then_load_word() {
    let mut cpu = cpu_in_system_mode();
    let mut bus = new_bus();
    cpu.registers[0] = 0x0300_0000;
    cpu.registers[1] = 0xDEAD_BEEF;
    cpu.execute_instruction(&mut bus, 0xE580_1000); // STR r1, [r0]
    cpu.execute_instruction(&mut bus, 0xE590_2000); // LDR r2, [r0]
    assert_eq!(cpu.registers[2], 0xDEAD_BEEF);
    assert_eq!(bus.iwram[0..4], [0xEF, 0xBE, 0xAD, 0xDE]);
}

#[test]
fn test_arm_multiply() {
    let mut cpu = cpu_in_system_mode();
    let mut bus = new_bus();
    cpu.registers[0] = 6;
    cpu.registers[1] = 7;
    cpu.execute_instruction(&mut bus, 0xE002_0190); // MUL r2, r0, r1
    assert_eq!(cpu.registers[2], 42);
}

#[test]
fn test_arm_halting_instruction_detected() {
    let cpu = cpu_in_system_mode();
    assert!(cpu.arm_halts(0xE12F_FF30)); // BLX register
    assert!(!cpu.arm_halts(0xE12F_FF10)); // BX
    assert!(!cpu.arm_halts(0xE3A0_0005)); // MOV
    assert!(!cpu.arm_halts(0x012F_FF30)); // condition EQ fails with Z clear
}

#[test]
fn test_irq_then_return_restores_state() {
    let mut cpu = cpu_in_system_mode();
    let mut bus = new_bus();
    cpu.registers[15] = 0x0800_0100;
    cpu.registers[13] = 0x0300_7F00;
    cpu.registers[3] = 77;
    cpu.r13_irq = 0x0300_7FA0;
    let before = cpu.registers;
    cpu.trigger_irq(&mut bus);
    assert_eq!(cpu.registers[15], 0x0000_0018);
    assert_eq!(cpu.registers[14], 0x0800_0104);
    assert_eq!(cpu.registers[13], 0x0300_7FA0);
    assert_eq!(cpu.cpsr & 0x1F, 0x12);
    assert_eq!(cpu.spsr_irq, 0x1F);
    cpu.execute_instruction(&mut bus, 0xE25E_F004); // SUBS PC, LR, #4
    assert_eq!(cpu.cpsr, 0x1F);
    assert_eq!(cpu.registers, before);
}

#[test]
fn test_switch_mode_round_trip() {
    let mut cpu = cpu_in_system_mode();
    cpu.registers[13] = 0x100;
    cpu.registers[14] = 0x200;
    cpu.r13_irq = 0x300;
    cpu.r14_irq = 0x400;
    cpu.switch_mode(0x12);
    assert_eq!(cpu.registers[13], 0x300);
    assert_eq!(cpu.registers[14], 0x400);
    assert_eq!(cpu.cpsr & 0x1F, 0x12);
    cpu.switch_mode(0x1F);
    assert_eq!(cpu.registers[13], 0x100);
    assert_eq!(cpu.registers[14], 0x200);
}

#[test]
fn test_fiq_banks_high_registers() {
    let mut cpu = cpu_in_system_mode();
    cpu.registers[8] = 8;
    cpu.r8_fiq = 88;
    cpu.switch_mode(0x11);
    assert_eq!(cpu.registers[8], 88);
    cpu.registers[8] = 99;
    cpu.switch_mode(0x11);
    assert_eq!(cpu.r8_fiq, 99);
}

#[test]
fn test_trigger_undefined_vector() {
    let mut cpu = cpu_in_system_mode();
    cpu.registers[15] = 0x0800_0020;
    cpu.trigger_undefined();
    assert_eq!(cpu.registers[15], 4);
    assert_eq!(cpu.registers[14], 0x0800_0020);
    assert_eq!(cpu.cpsr, 0x9B);
}

#[test]
fn test_execute_swi_direct() {
    let mut cpu = cpu_in_system_mode();
    let mut bus = new_bus();
    cpu.cpsr = 0x3F; // THUMB, system mode
    cpu.registers[15] = 0x0800_0042;
    cpu.execute_swi(&mut bus, 0);
    assert_eq!(cpu.registers[15], 8);
    assert_eq!(cpu.r14_svc, 0x0800_0042);
    assert_eq!(cpu.cpsr, 0x93);
    assert_eq!(cpu.spsr_svc, 0x3F);
}

#[test]
fn test_swi_then_bios_return_restores_state() {
    let mut cpu = cpu_in_system_mode();
    let mut bus = new_bus();
    cpu.registers[15] = 0x0800_0204;
    cpu.registers[13] = 0x0300_7F00;
    cpu.registers[14] = 0x0800_1001;
    cpu.r13_svc = 0x0300_7FE0;
    let before = cpu.registers;
    cpu.execute_instruction(&mut bus, 0xEF00_0005); // SWI 5
    assert_eq!(cpu.registers[15], 8);
    assert_eq!(cpu.registers[13], 0x0300_7FE0);
    cpu.execute_instruction(&mut bus, 0xE1B0_F00E); // MOVS PC, LR
    assert_eq!(cpu.cpsr, 0x1F);
    assert_eq!(cpu.registers, before);
}

#[test]
fn test_arm_stmdb_ldmia_round_trip() {
    let mut cpu = cpu_in_system_mode();
    let mut bus = new_bus();
    cpu.registers[13] = 0x0300_7F00;
    cpu.registers[0] = 1;
    cpu.registers[1] = 2;
    cpu.registers[4] = 4;
    cpu.registers[14] = 0x0800_0101;
    let before = cpu.registers;
    cpu.execute_instruction(&mut bus, 0xE92D_4013); // STMDB SP!, {r0, r1, r4, lr}
    assert_eq!(cpu.registers[13], 0x0300_7EF0);
    assert_eq!(bus.read_u32(0x0300_7EF0), 1);
    assert_eq!(bus.read_u32(0x0300_7EF8), 4);
    assert_eq!(bus.read_u32(0x0300_7EFC), 0x0800_0101);
    cpu.registers[0] = 0;
    cpu.registers[1] = 0;
    cpu.registers[4] = 0;
    cpu.registers[14] = 0;
    cpu.execute_instruction(&mut bus, 0xE8BD_4013); // LDMIA SP!, {r0, r1, r4, lr}
    assert_eq!(cpu.registers, before);
}

#[test]
fn test_arm_bl_then_mov_pc_lr_returns() {
    let mut cpu = cpu_in_system_mode();
    let mut bus = new_bus();
    cpu.registers[3] = 0x1234;
    cpu.registers[15] = 0x0800_0104; // BL at 0x08000100
    cpu.execute_instruction(&mut bus, 0xEB00_0010); // BL +0x40
    assert_eq!(cpu.registers[15], 0x0800_0148);
    assert_eq!(cpu.registers[14], 0x0800_0104);
    cpu.registers[15] = 0x0800_014C; // fetch of the return instruction
    cpu.execute_instruction(&mut bus, 0xE1A0_F00E); // MOV pc, lr
    assert_eq!(cpu.registers[15], 0x0800_0104);
    assert_eq!(cpu.registers[3], 0x1234);
    assert_eq!(cpu.cpsr, 0x1F);
}

#[test]
fn test_fiq_and_back_restores_shared_high_registers() {
    let mut cpu = CPU::new();
    cpu.cpsr = 0x10;
    for i in 8..13 {
        cpu.registers[i] = i as u32;
    }
    cpu.r8_fiq = 0x88;
    cpu.switch_mode(0x11);
    assert_eq!(cpu.registers[8], 0x88);
    cpu.registers[9] = 0x99;
    cpu.switch_mode(0x10);
    for i in 8..13 {
        assert_eq!(cpu.registers[i], i as u32);
    }
    assert_eq!(cpu.r9_fiq, 0x99);
}

#[test]
fn test_arm_mla_adds_accumulate_register() {
    let mut cpu = cpu_in_system_mode();
    let mut bus = new_bus();
    cpu.registers[1] = 2;
    cpu.registers[2] = 3;
    cpu.registers[3] = 100;
    cpu.execute_instruction(&mut bus, 0xE020_3291); // MLA r0, r1, r2, r3
    assert_eq!(cpu.registers[0], 106);
    assert_eq!(cpu.registers[3], 100);
    assert_eq!(cpu.cpsr, 0x1F);
}

#[test]
fn test_arm_smlal_is_signed() {
    let mut cpu = cpu_in_system_mode();
    let mut bus = new_bus();
    cpu.registers[2] = 0xFFFF_FFFF;
    cpu.registers[3] = 2;
    cpu.execute_instruction(&mut bus, 0xE0E1_0392); // SMLAL r0, r1, r2, r3
    assert_eq!(cpu.registers[0], 0xFFFF_FFFE);
    assert_eq!(cpu.registers[1], 0xFFFF_FFFF);
    cpu.registers[0] = 0;
    cpu.registers[1] = 0;
    cpu.execute_instruction(&mut bus, 0xE0F1_0392); // SMLALS r0, r1, r2, r3
    assert_eq!(cpu.registers[1], 0xFFFF_FFFF);
    assert_eq!(cpu.cpsr >> 31, 1);
}

#[test]
fn test_arm_umull_and_umlal() {
    let mut cpu = cpu_in_system_mode();
    let mut bus = new_bus();
    cpu.registers[2] = 0xFFFF_FFFF;
    cpu.registers[3] = 2;
    cpu.execute_instruction(&mut bus, 0xE081_0392); // UMULL r0, r1, r2, r3
    assert_eq!(cpu.registers[0], 0xFFFF_FFFE);
    assert_eq!(cpu.registers[1], 1);
    cpu.execute_instruction(&mut bus, 0xE0A1_0392); // UMLAL r0, r1, r2, r3
    assert_eq!(cpu.registers[0], 0xFFFF_FFFC);
    assert_eq!(cpu.registers[1], 3);
}

#[test]
fn test_arm_rsbs_flags_of_reversed_subtraction() {
    let mut cpu = cpu_in_system_mode();
    let mut bus = new_bus();
    cpu.registers[1] = 3;
    cpu.execute_instruction(&mut bus, 0xE271_0005); // RSBS r0, r1, #5
    assert_eq!(cpu.registers[0], 2);
    assert_eq!(cpu.cpsr >> 28, 0b0010); // no borrow: C set
    cpu.execute_instruction(&mut bus, 0xE271_0001); // RSBS r0, r1, #1
    assert_eq!(cpu.registers[0], 0xFFFF_FFFE);
    assert_eq!(cpu.cpsr >> 28, 0b1000); // negative, borrow: C clear
}

#[test]
fn test_arm_rscs_flags_of_reversed_subtraction() {
    let mut cpu = cpu_in_system_mode();
    let mut bus = new_bus();
    cpu.registers[1] = 3;
    cpu.cpsr |= 1 << 29; // carry set: no extra borrow
    cpu.execute_instruction(&mut bus, 0xE2F1_0003); // RSCS r0, r1, #3
    assert_eq!(cpu.registers[0], 0);
    assert_eq!(cpu.cpsr >> 28, 0b0110); // zero, no borrow
}
