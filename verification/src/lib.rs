//! An ARM7TDMI (Game Boy Advance) CPU core together with the GBA memory bus,
//! flash save chip, timers and scanline renderer, with machine-checked contracts.
pub mod bits;
pub mod cpu;
pub mod flash;
pub mod timer;
pub mod memory_bus;
pub mod thumb;
pub mod ppu;
pub mod system;
pub mod lcd;
pub mod thumb_stack;
