//! The 128 KiB Sanyo flash save chip: a command state machine over two 64 KiB banks.
use vstd::prelude::*;
use crate::bits::lemma_and_bound;

verus! {

broadcast use lemma_and_bound;

/// Progress through the two-write unlock sequence (0xAA to 0x5555, 0x55 to 0x2AAA).
#[derive(PartialEq, Eq, Structural)]
enum FlashHandshake {
    Idle,
    GotAA,
    GotAA55,
}

/// The command armed by the last unlocked command write.
#[derive(PartialEq, Eq, Structural)]
enum FlashCommand {
    Disarmed,
    Program,
    BankSwitch,
}

/// Flash chip state. The selected bank is always 0 or 1.
pub struct FlashState {
    buffer: [u8; 0x20000],
    handshake: FlashHandshake,
    in_id_mode: bool,
    command: FlashCommand,
    current_bank: usize,
}

impl FlashState {
    #[verifier::type_invariant]
    spec fn bank_in_range(self) -> bool {
        self.current_bank < 2
    }

    /// The byte at `off` of bank `bank`.
    pub closed spec fn stored_in(self, bank: int, off: int) -> u8 {
        self.buffer@[bank * 0x10000 + off]
    }

    /// The byte at `off` of the selected bank.
    pub open spec fn stored(self, off: int) -> u8 {
        self.stored_in(self.bank() as int, off)
    }

    /// Whether the chip answers reads with its identification bytes.
    pub closed spec fn id_mode(self) -> bool {
        self.in_id_mode
    }

    /// Whether no unlock sequence is in progress.
    pub closed spec fn is_idle(self) -> bool {
        self.handshake == FlashHandshake::Idle
    }

    /// Whether no command is armed.
    pub closed spec fn no_command(self) -> bool {
        self.command == FlashCommand::Disarmed
    }

    /// The selected bank.
    pub closed spec fn bank(self) -> usize {
        self.current_bank
    }

    /// What a read of `addr` returns: in ID mode 0x62 (maker) at offset 0, 0x13
    /// (device) at offset 1 and 0xFF elsewhere; otherwise the stored byte at the
    /// low 16 bits of `addr` in the selected bank.
    pub open spec fn read_spec(self, addr: u32) -> u8 {
        let off = addr & 0xFFFF;
        if self.id_mode() {
            if off == 0 {
                0x62
            } else if off == 1 {
                0x13
            } else {
                0xFF
            }
        } else {
            self.stored(off as int)
        }
    }

    /// The state after a write of `value` to `addr` (only the low 16 bits of the
    /// address matter). 0xAA to 0x5555 then 0x55 to 0x2AAA unlock; the third write
    /// to 0x5555 is the command: 0x90 enters ID mode, 0xF0 leaves it, 0xA0 arms a
    /// byte program and 0xB0 a bank switch. Any other write runs the armed command
    /// (program the byte into the selected bank, or select bank `value` if the
    /// address is 0 and `value < 2`), then disarms and resets the handshake.
    pub closed spec fn written(self, addr: u32, value: u8) -> FlashState {
        let a = addr & 0xFFFF;
        if self.handshake == FlashHandshake::Idle && a == 0x5555 && value == 0xAA {
            FlashState { handshake: FlashHandshake::GotAA, ..self }
        } else if self.handshake == FlashHandshake::GotAA && a == 0x2AAA && value == 0x55 {
            FlashState { handshake: FlashHandshake::GotAA55, ..self }
        } else if self.handshake == FlashHandshake::GotAA55 && a == 0x5555 && value == 0x90 {
            FlashState { in_id_mode: true, handshake: FlashHandshake::Idle, ..self }
        } else if self.handshake == FlashHandshake::GotAA55 && a == 0x5555 && value == 0xF0 {
            FlashState { in_id_mode: false, handshake: FlashHandshake::Idle, ..self }
        } else if self.handshake == FlashHandshake::GotAA55 && a == 0x5555 && value == 0xA0 {
            FlashState { command: FlashCommand::Program, handshake: FlashHandshake::Idle, ..self }
        } else if self.handshake == FlashHandshake::GotAA55 && a == 0x5555 && value == 0xB0 {
            FlashState { command: FlashCommand::BankSwitch, handshake: FlashHandshake::Idle, ..self }
        } else {
            let f = if self.command == FlashCommand::Program {
                FlashState {
                    buffer: vstd::array::spec_array_update(
                        self.buffer,
                        self.current_bank * 0x10000 + a,
                        value,
                    ),
                    ..self
                }
            } else if self.command == FlashCommand::BankSwitch && a == 0 && value < 2 {
                FlashState { current_bank: value as usize, ..self }
            } else {
                self
            };
            FlashState { command: FlashCommand::Disarmed, handshake: FlashHandshake::Idle, ..f }
        }
    }

    /// Whether `a1`, `a2`, `a3` are addresses of the unlock sequence and command
    /// write: their low 16 bits are 0x5555, 0x2AAA and 0x5555 (the bus passes the
    /// full address, such as 0x0E005555).
    pub open spec fn unlock_addresses(a1: u32, a2: u32, a3: u32) -> bool {
        &&& a1 & 0xFFFF == 0x5555
        &&& a2 & 0xFFFF == 0x2AAA
        &&& a3 & 0xFFFF == 0x5555
    }

    /// Programming a byte: from an idle chip outside ID mode, the unlock sequence,
    /// the program command (0xA0) and a data write make a read of the same address
    /// return the written byte, leave every other byte of both banks, the bank and
    /// the ID mode alone, and consume the command. (A data write of 0xAA to offset
    /// 0x5555 would instead start a new unlock sequence.)
    pub proof fn lemma_program_then_read(f: FlashState, a1: u32, a2: u32, a3: u32, addr: u32, value: u8)
        requires
            Self::unlock_addresses(a1, a2, a3),
            f.bank() < 2,
            f.is_idle(),
            !f.id_mode(),
            !((addr & 0xFFFF) == 0x5555 && value == 0xAA),
        ensures
            ({
                let g = f.written(a1, 0xAA).written(a2, 0x55).written(a3, 0xA0).written(addr, value);
                &&& g.read_spec(addr) == value
                &&& g.is_idle()
                &&& g.no_command()
                &&& !g.id_mode()
                &&& g.bank() == f.bank()
                &&& forall|b: int, off: int|
                    0 <= b < 2 && 0 <= off < 0x10000 && !(b == f.bank() && off == (addr & 0xFFFF))
                        ==> #[trigger] g.stored_in(b, off) == f.stored_in(b, off)
            }),
    {
        let g = f.written(a1, 0xAA).written(a2, 0x55).written(a3, 0xA0);
        assert(g.command == FlashCommand::Program && g.handshake == FlashHandshake::Idle
            && g.current_bank == f.current_bank && !g.in_id_mode);
    }

    /// A write to an idle chip with no command armed that does not start the unlock
    /// sequence changes nothing: an armed command acts once.
    pub proof fn lemma_plain_write_ignored(f: FlashState, addr: u32, value: u8)
        requires
            f.is_idle(),
            f.no_command(),
            !((addr & 0xFFFF) == 0x5555 && value == 0xAA),
        ensures
            f.written(addr, value) == f,
    {
    }

    /// Entering ID mode: the unlock sequence followed by 0x90 makes reads of offsets
    /// 0 and 1 return the maker and device codes 0x62 and 0x13, and 0xFF elsewhere.
    pub proof fn lemma_id_mode_entry(f: FlashState, a1: u32, a2: u32, a3: u32, addr: u32)
        requires
            Self::unlock_addresses(a1, a2, a3),
            f.is_idle(),
        ensures
            ({
                let g = f.written(a1, 0xAA).written(a2, 0x55).written(a3, 0x90);
                &&& g.id_mode()
                &&& g.is_idle()
                &&& g.read_spec(addr) == (if addr & 0xFFFF == 0 {
                    0x62u8
                } else if addr & 0xFFFF == 1 {
                    0x13u8
                } else {
                    0xFFu8
                })
            }),
    {
    }

    /// Switching banks: from an idle chip, the unlock sequence, the bank switch
    /// command (0xB0) and a write of 0 or 1 to offset 0 (`a4`) select that bank and
    /// leave the contents of both banks and the ID mode as they were.
    pub proof fn lemma_bank_switch(f: FlashState, a1: u32, a2: u32, a3: u32, a4: u32, bank: u8)
        requires
            Self::unlock_addresses(a1, a2, a3),
            a4 & 0xFFFF == 0,
            f.is_idle(),
            bank < 2,
        ensures
            ({
                let g = f.written(a1, 0xAA).written(a2, 0x55).written(a3, 0xB0).written(a4, bank);
                &&& g.bank() == bank as usize
                &&& g.id_mode() == f.id_mode()
                &&& g.is_idle()
                &&& g.no_command()
                &&& forall|b: int, off: int| #[trigger] g.stored_in(b, off) == f.stored_in(b, off)
            }),
    {
    }

    /// A chip in read mode, bank 0, with every byte erased (0xFF).
    pub fn new() -> (f: FlashState)
        ensures
            !f.id_mode(),
            f.is_idle(),
            f.no_command(),
            f.bank() == 0,
            forall|bank: int, off: int| 0 <= bank < 2 && 0 <= off < 0x10000 ==> f.stored_in(bank, off) == 0xFF,
    {
        FlashState {
            buffer: [0xFF; 0x20000],
            handshake: FlashHandshake::Idle,
            in_id_mode: false,
            command: FlashCommand::Disarmed,
            current_bank: 0,
        }
    }

    /// Reads a byte (see `read_spec`).
    pub fn read(&self, addr: u32) -> (r: u8)
        ensures
            r == self.read_spec(addr),
    {
        proof {
            use_type_invariant(self);
        }
        let off = (addr & 0xFFFF) as usize;
        let val = if self.in_id_mode {
            if off == 0x0000 {
                0x62
            } else if off == 0x0001 {
                0x13
            } else {
                0xFF
            }
        } else {
            self.buffer[self.current_bank * 0x10000 + off]
        };
        val
    }

    /// Writes a byte (see `written`).
    pub fn write(&mut self, addr: u32, value: u8)
        ensures
            *final(self) == old(self).written(addr, value),
    {
        proof {
            use_type_invariant(&*self);
        }
        let addr = addr & 0xFFFF;
        if self.handshake == FlashHandshake::Idle && addr == 0x5555 && value == 0xAA {
            self.handshake = FlashHandshake::GotAA;
        } else if self.handshake == FlashHandshake::GotAA && addr == 0x2AAA && value == 0x55 {
            self.handshake = FlashHandshake::GotAA55;
        } else if self.handshake == FlashHandshake::GotAA55 && addr == 0x5555 && value == 0x90 {
            self.in_id_mode = true;
            self.handshake = FlashHandshake::Idle;
        } else if self.handshake == FlashHandshake::GotAA55 && addr == 0x5555 && value == 0xF0 {
            self.in_id_mode = false;
            self.handshake = FlashHandshake::Idle;
        } else if self.handshake == FlashHandshake::GotAA55 && addr == 0x5555 && value == 0xA0 {
            self.command = FlashCommand::Program;
            self.handshake = FlashHandshake::Idle;
        } else if self.handshake == FlashHandshake::GotAA55 && addr == 0x5555 && value == 0xB0 {
            self.command = FlashCommand::BankSwitch;
            self.handshake = FlashHandshake::Idle;
        } else {
            if self.command == FlashCommand::Program {
                let idx = self.current_bank * 0x10000 + addr as usize;
                self.buffer[idx] = value;
            } else if self.command == FlashCommand::BankSwitch {
                if addr == 0x0000 && value < 2 {
                    self.current_bank = value as usize;
                }
            }
            self.command = FlashCommand::Disarmed;
            self.handshake = FlashHandshake::Idle;
        }
    }
}

} // verus!
