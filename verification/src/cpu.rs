//! The ARM7TDMI register file: sixteen general registers, the CPSR, and the
//! per-mode banked R13/R14/SPSR (FIQ also banks R8-R12, which the other modes
//! share).
use vstd::prelude::*;

pub mod flags;
pub mod exceptions;
pub mod shifter;
pub mod psr;
pub mod branch;
pub mod mul;
pub mod alu;
pub mod memory;
pub mod dispatch;
pub mod stack;


verus! {

/// CPU state. `registers[15]` is the PC, `registers[14]` the link register and
/// `registers[13]` the stack pointer of the current mode.
pub struct CPU {
    pub registers: [u32; 16],
    pub cpsr: u32,
    pub r13_svc: u32,
    pub r14_svc: u32,
    pub spsr_svc: u32,
    pub r13_irq: u32,
    pub r14_irq: u32,
    pub spsr_irq: u32,
    pub r13_abt: u32,
    pub r14_abt: u32,
    pub spsr_abt: u32,
    pub r13_und: u32,
    pub r14_und: u32,
    pub spsr_und: u32,
    pub r13_fiq: u32,
    pub r14_fiq: u32,
    pub spsr_fiq: u32,
    pub r13_usr: u32,
    pub r14_usr: u32,
    pub r8_fiq: u32,
    pub r9_fiq: u32,
    pub r10_fiq: u32,
    pub r11_fiq: u32,
    pub r12_fiq: u32,
    pub r8_usr: u32,
    pub r9_usr: u32,
    pub r10_usr: u32,
    pub r11_usr: u32,
    pub r12_usr: u32,
}

impl CPU {
    /// Every register, the CPSR and every banked register start at zero.
    pub fn new() -> (c: CPU)
        ensures
            forall|i: int| 0 <= i < 16 ==> c.registers[i] == 0,
            c.cpsr == 0,
            c.r13_svc == 0 && c.r14_svc == 0 && c.spsr_svc == 0,
            c.r13_irq == 0 && c.r14_irq == 0 && c.spsr_irq == 0,
            c.r13_abt == 0 && c.r14_abt == 0 && c.spsr_abt == 0,
            c.r13_und == 0 && c.r14_und == 0 && c.spsr_und == 0,
            c.r13_fiq == 0 && c.r14_fiq == 0 && c.spsr_fiq == 0,
            c.r13_usr == 0 && c.r14_usr == 0,
            c.r8_fiq == 0 && c.r9_fiq == 0 && c.r10_fiq == 0 && c.r11_fiq == 0 && c.r12_fiq == 0,
            c.r8_usr == 0 && c.r9_usr == 0 && c.r10_usr == 0 && c.r11_usr == 0 && c.r12_usr == 0,
    {
        CPU {
            registers: [0; 16],
            cpsr: 0,
            r13_svc: 0,
            r14_svc: 0,
            spsr_svc: 0,
            r13_irq: 0,
            r14_irq: 0,
            spsr_irq: 0,
            r13_abt: 0,
            r14_abt: 0,
            spsr_abt: 0,
            r13_und: 0,
            r14_und: 0,
            spsr_und: 0,
            r13_fiq: 0,
            r14_fiq: 0,
            spsr_fiq: 0,
            r13_usr: 0,
            r14_usr: 0,
            r8_fiq: 0,
            r9_fiq: 0,
            r10_fiq: 0,
            r11_fiq: 0,
            r12_fiq: 0,
            r8_usr: 0,
            r9_usr: 0,
            r10_usr: 0,
            r11_usr: 0,
            r12_usr: 0,
        }
    }
}

} // verus!
