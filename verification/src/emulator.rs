#![allow(non_camel_case_types)]

use vstd::prelude::*;
use crate::semantics;
use crate::semantics::Chip8State;
use crate::random;

verus! {

/// Marker type for hosting the emulator in a game engine.
pub struct chip8_plugin;

/// A CHIP-8 machine.
pub struct Emulator {
    /// `display_buffer[x][y]`: column x, row y.
    pub display_buffer: [[bool; 32]; 64],
    pub key_inputs: [bool; 16],
    pub memory: [u8; 4096],
    /// V0..VF; the call stack shares these slots.
    pub registers: [u16; 16],
    pub sound_timer: u8,
    pub delay_timer: u8,
    pub index_register: u16,
    pub program_counter: u16,
    pub stack_pointer: u16,
    pub wait_for_key: bool,
    pub draw: bool,
}

impl View for Emulator {
    type V = Chip8State;

    open spec fn view(&self) -> Chip8State {
        Chip8State {
            display: self.display_buffer@.map_values(|column: [bool; 32]| column@),
            keys: self.key_inputs@,
            memory: self.memory@,
            registers: self.registers@,
            sound_timer: self.sound_timer,
            delay_timer: self.delay_timer,
            index: self.index_register,
            pc: self.program_counter,
            sp: self.stack_pointer,
            wait_for_key: self.wait_for_key,
            draw: self.draw,
        }
    }
}

impl Emulator {
/// The built-in hexadecimal font: sixteen 5-byte sprites for 0..F,
    /// loaded at address 0.
    pub const FONTS: [u8; 80] = [
        0xF0, 0x90, 0x90, 0x90, 0xF0, // 0
        0x20, 0x60, 0x20, 0x20, 0x70, // 1
        0xF0, 0x10, 0xF0, 0x80, 0xF0, // 2
        0xF0, 0x10, 0xF0, 0x10, 0xF0, // 3
        0x90, 0x90, 0xF0, 0x10, 0x10, // 4
        0xF0, 0x80, 0xF0, 0x10, 0xF0, // 5
        0xF0, 0x80, 0xF0, 0x90, 0xF0, // 6
        0xF0, 0x10, 0x20, 0x40, 0x40, // 7
        0xF0, 0x90, 0xF0, 0x90, 0xF0, // 8
        0xF0, 0x90, 0xF0, 0x10, 0xF0, // 9
        0xF0, 0x90, 0xF0, 0x90, 0x90, // A
        0xE0, 0x90, 0xE0, 0x90, 0xE0, // B
        0xF0, 0x80, 0x80, 0x80, 0xF0, // C
        0xE0, 0x90, 0x90, 0x90, 0xE0, // D
        0xF0, 0x80, 0xF0, 0x80, 0xF0, // E
        0xF0, 0x80, 0xF0, 0x80, 0x80, // F
    ];

    /// Counts both timers down by one, stopping at zero.
    pub fn timer_tick(&mut self)
        ensures
            final(self)@ == semantics::timers_ticked(old(self)@),
    {
        if self.delay_timer > 0 {
            self.delay_timer -= 1
        }
        if self.sound_timer > 0 {
            self.sound_timer -= 1
        }
    }

    /// A machine with the font at address 0 and `rom` loaded at 0x200.
    pub fn init(rom: Vec<u8>) -> (emulator: Self)
        requires
            rom.len() <= 4096 - 0x200,
        ensures
            emulator@ == semantics::initial_state(rom@),
    {
        let mut mem = [0u8; 4096];
        let mut i: usize = 0;
        while i < 80
            invariant
                i <= 80,
                forall|a: int|
                    0 <= a < 4096 ==> #[trigger] mem@[a] == if a < i {
                        Emulator::FONTS@[a]
                    } else {
                        0u8
                    },
            decreases 80 - i,
        {
            mem[i] = Emulator::FONTS[i];
            i += 1;
        }
        let mut offset: usize = 0;
        while offset < rom.len()
            invariant
                offset <= rom.len(),
                rom.len() <= 4096 - 0x200,
                forall|a: int|
                    0 <= a < 4096 ==> #[trigger] mem@[a] == if a < 80 {
                        Emulator::FONTS@[a]
                    } else if 0x200 <= a < 0x200 + offset {
                        rom@[a - 0x200]
                    } else {
                        0u8
                    },
            decreases rom.len() - offset,
        {
            mem[0x200 + offset] = rom[offset];
            offset += 1;
        }
        let emulator = Emulator {
            display_buffer: [[false; 32]; 64],
            key_inputs: [false; 16],
            memory: mem,
            registers: [0; 16],
            sound_timer: 0,
            delay_timer: 0,
            index_register: 512,
            program_counter: 0,
            stack_pointer: 0,
            wait_for_key: false,
            draw: false,
        };
        assert(emulator@ =~~= semantics::initial_state(rom@));
        emulator
    }

    /// Reads the opcode at pc (high byte first) and moves pc past it.
    fn fetch(&mut self) -> (opcode: u16)
        requires
            old(self).program_counter + 1 < 4096,
        ensures
            opcode == semantics::opcode_at(old(self)@),
            final(self)@ == semantics::advance_pc(old(self)@),
    {
        let high = self.memory[self.program_counter as usize];
        let low = self.memory[self.program_counter as usize + 1];
        proof {
            lemma_join_bytes(high, low);
        }
        let mut res = high as u16;
        res <<= 8;
        res = res | low as u16;
        self.program_counter += 2;
        res
    }

    /// One cycle: fetch the opcode at pc and execute it.
    pub fn tick(&mut self)
        requires
            semantics::cycle(old(self)@, 0) is Some,
        ensures
            exists|r: u8| Some(final(self)@) == #[trigger] semantics::cycle(old(self)@, r),
    {
        let opcode = self.fetch();
        let ghost fetched = self@;
        self.execute(opcode);
        proof {
            let r = choose|r: u8| Some(self@) == #[trigger] semantics::next_state(fetched, opcode, r);
            assert(Some(self@) == semantics::cycle(old(self)@, r));
        }
    }

    /// Executes `opcode`. Cxkk draws its byte from the thread's random
    /// generator; every other instruction has one outcome.
    pub fn execute(&mut self, opcode: u16)
        requires
            semantics::next_state(old(self)@, opcode, 0) is Some,
        ensures
            exists|r: u8| Some(final(self)@) == #[trigger] semantics::next_state(old(self)@, opcode, r),
            semantics::op_group(opcode) != 0xC ==> Some(final(self)@) == semantics::next_state(
                old(self)@,
                opcode,
                0,
            ),
    {
        let random: u8 = if is_random_instruction(opcode) {
            random::random_byte()
        } else {
            0
        };
        self.execute_with_random(opcode, random);
        proof {
            crate::laws::law_random_only_in_cxkk(old(self)@, opcode, random, 0);
        }
    }
}

/// Whether `opcode` is a Cxkk instruction, the one that draws a random byte.
fn is_random_instruction(opcode: u16) -> (draws: bool)
    ensures
        draws == (semantics::op_group(opcode) == 0xC),
{
    proof {
        lemma_group_mask(opcode);
    }
    (opcode & 0xF000) == 0xC000
}

proof fn lemma_group_mask(op: u16)
    by (bit_vector)
    ensures
        ((op & 0xF000u16) == 0xC000u16) == (op / 0x1000 == 0xC),
{
}

/// Reading a big-endian 16-bit word.
pub(crate) proof fn lemma_join_bytes(high: u8, low: u8)
    by (bit_vector)
    ensures
        ((high as u16) << 8u16) | (low as u16) == high * 256 + low,
{
}

} // verus!
