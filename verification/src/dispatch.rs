use vstd::prelude::*;
use crate::emulator::Emulator;
use crate::semantics;

verus! {

/// The four hexadecimal digits of an opcode, as masks and shifts pick them.
proof fn lemma_digits(op: u16)
    by (bit_vector)
    ensures
        (op & 0xF000u16) >> 12u16 == op / 0x1000,
        (op & 0x0F00u16) >> 8u16 == (op / 0x100) % 0x10,
        (op & 0x00F0u16) >> 4u16 == (op / 0x10) % 0x10,
        op & 0x000Fu16 == op % 0x10,
        op / 0x1000 < 16,
        op == (op / 0x1000) * 0x1000 + ((op / 0x100) % 0x10) * 0x100 + ((op / 0x10) % 0x10) * 0x10
            + op % 0x10,
{
}

/// Whether a skip (pc + 2) stays in range when `cond` holds.
fn skip_fits(pc: u16, cond: bool) -> (ok: bool)
    ensures
        ok == (!cond || pc + 2 <= 0xFFFF),
{
    !cond || pc <= 0xFFFD
}

impl Emulator {
    /// Executes `opcode`, with `random` as the byte that Cxkk draws.
    pub fn execute_with_random(&mut self, opcode: u16, random: u8)
        requires
            semantics::next_state(old(self)@, opcode, random) is Some,
        ensures
            Some(final(self)@) == semantics::next_state(old(self)@, opcode, random),
    {
        proof {
            lemma_digits(opcode);
        }
        let pieces = (
            (opcode & 0xF000) >> 12,
            (opcode & 0x0F00) >> 8,
            (opcode & 0x00F0) >> 4,
            (opcode & 0x000F),
        );
        match pieces {
            (0x0, 0x0, 0xE, 0x0) => self.inst_00E0(),
            (0x0, 0x0, 0xE, 0xE) => self.inst_00EE(),
            (0x1, _, _, _) => self.inst_1nnn(pieces.1, pieces.2, pieces.3),
            (0x2, _, _, _) => self.inst_2nnn(pieces.1, pieces.2, pieces.3),
            (0x3, _, _, _) => self.inst_3xkk(pieces.1, pieces.2, pieces.3),
            (0x4, _, _, _) => self.inst_4xkk(pieces.1, pieces.2, pieces.3),
            (0x5, _, _, 0x0) => self.inst_5xy0(pieces.1, pieces.2),
            (0x6, _, _, _) => self.inst_6xkk(pieces.1, pieces.2, pieces.3),
            (0x7, _, _, _) => self.inst_7xkk(pieces.1, pieces.2, pieces.3),
            (0x8, _, _, 0x0) => self.inst_8xy0(pieces.1, pieces.2),
            (0x8, _, _, 0x1) => self.inst_8xy1(pieces.1, pieces.2),
            (0x8, _, _, 0x2) => self.inst_8xy2(pieces.1, pieces.2),
            (0x8, _, _, 0x3) => self.inst_8xy3(pieces.1, pieces.2),
            (0x8, _, _, 0x4) => self.inst_8xy4(pieces.1, pieces.2),
            (0x8, _, _, 0x5) => self.inst_8xy5(pieces.1, pieces.2),
            (0x8, _, _, 0x6) => self.inst_8xy6(pieces.1),
            (0x8, _, _, 0x7) => self.inst_8xy7(pieces.1, pieces.2),
            (0x8, _, _, 0xE) => self.inst_8xyE(pieces.1),
            (0x9, _, _, 0x0) => self.inst_9xy0(pieces.1, pieces.2),
            (0xA, _, _, _) => self.inst_Annn(pieces.1, pieces.2, pieces.3),
            (0xB, _, _, _) => self.inst_Bnnn(pieces.1, pieces.2, pieces.3),
            (0xC, _, _, _) => self.inst_Cxkk(pieces.1, pieces.2, pieces.3, random),
            (0xD, _, _, _) => self.inst_Dxyn(pieces.1, pieces.2, pieces.3),
            (0xE, _, 0x9, 0xE) => self.inst_Ex9E(pieces.1),
            (0xE, _, 0xA, 0x1) => self.inst_ExA1(pieces.1),
            (0xF, _, 0x0, 0x7) => self.inst_Fx07(pieces.1),
            (0xF, _, 0x0, 0xA) => self.inst_Fx0A(pieces.1),
            (0xF, _, 0x1, 0x5) => self.inst_Fx15(pieces.1),
            (0xF, _, 0x1, 0x8) => self.inst_Fx18(pieces.1),
            (0xF, _, 0x1, 0xE) => self.inst_Fx1E(pieces.1),
            (0xF, _, 0x2, 0x9) => self.inst_Fx29(pieces.1),
            (0xF, _, 0x3, 0x3) => self.inst_Fx33(pieces.1),
            (0xF, _, 0x5, 0x5) => self.inst_Fx55(pieces.1),
            (0xF, _, 0x6, 0x5) => self.inst_Fx65(pieces.1),
            (_, _, _, _) => {},
        };
    }

    /// Whether `execute(opcode)` can run on this machine: `opcode` is an
    /// instruction and the state allows it.
    pub fn can_execute(&self, opcode: u16) -> (ok: bool)
        ensures
            ok == semantics::next_state(self@, opcode, 0) is Some,
    {
        let ok = self.can_execute_at(opcode, self.program_counter);
        assert(semantics::with_pc(self@, self.program_counter) =~~= self@);
        ok
    }

    /// Whether `tick()` can run on this machine.
    pub fn can_tick(&self) -> (ok: bool)
        ensures
            ok == semantics::cycle(self@, 0) is Some,
    {
        if self.program_counter < 4095 {
            let high = self.memory[self.program_counter as usize];
            let low = self.memory[self.program_counter as usize + 1];
            proof {
                crate::emulator::lemma_join_bytes(high, low);
            }
            let opcode = ((high as u16) << 8) | low as u16;
            let ok = self.can_execute_at(opcode, self.program_counter + 2);
            assert(semantics::with_pc(self@, (self.program_counter + 2) as u16)
                =~~= semantics::advance_pc(self@));
            ok
        } else {
            false
        }
    }

    /// Whether any key is held down.
    fn any_key_pressed(&self) -> (pressed: bool)
        ensures
            pressed == semantics::any_key_pressed(self@.keys),
    {
        let mut k: usize = 0;
        while k < 16
            invariant
                k <= 16,
                forall|j: int| 0 <= j < k ==> !self.key_inputs@[j],
            decreases 16 - k,
        {
            if self.key_inputs[k] {
                return true;
            }
            k += 1;
        }
        false
    }

    /// Whether `opcode` can run on this machine with pc set to `pc`.
    fn can_execute_at(&self, opcode: u16, pc: u16) -> (ok: bool)
        ensures
            ok == semantics::next_state(semantics::with_pc(self@, pc), opcode, 0) is Some,
    {
        proof {
            lemma_digits(opcode);
        }
        let pieces = (
            (opcode & 0xF000) >> 12,
            (opcode & 0x0F00) >> 8,
            (opcode & 0x00F0) >> 4,
            (opcode & 0x000F),
        );
        let x = pieces.1 as usize;
        let y = pieces.2 as usize;
        let vx = self.registers[x];
        let vy = self.registers[y];
        proof {
            lemma_digit_weights(pieces.1, pieces.2, pieces.3);
        }
        let kk: u16 = pieces.2 * 16 + pieces.3;
        let nnn: u16 = pieces.1 * 256 + kk;
        match pieces {
            (0x0, 0x0, 0xE, 0x0) => true,
            (0x0, 0x0, 0xE, 0xE) => 1 <= self.stack_pointer && self.stack_pointer < 16,
            (0x1, _, _, _) => true,
            (0x2, _, _, _) => self.stack_pointer < 15,
            (0x3, _, _, _) => skip_fits(pc, vx == kk),
            (0x4, _, _, _) => skip_fits(pc, vx != kk),
            (0x5, _, _, 0x0) => skip_fits(pc, vx == vy),
            (0x6, _, _, _) => true,
            (0x7, _, _, _) => true,
            (0x8, _, _, 0x0) => true,
            (0x8, _, _, 0x1) => true,
            (0x8, _, _, 0x2) => true,
            (0x8, _, _, 0x3) => true,
            (0x8, _, _, 0x4) => true,
            (0x8, _, _, 0x5) => true,
            (0x8, _, _, 0x6) => true,
            (0x8, _, _, 0x7) => true,
            (0x8, _, _, 0xE) => true,
            (0x9, _, _, 0x0) => skip_fits(pc, vx != vy),
            (0xA, _, _, _) => true,
            (0xB, _, _, _) => nnn as u32 + self.registers[0] as u32 <= 0xFFFF,
            (0xC, _, _, _) => true,
            (0xD, _, _, _) => pieces.3 == 0 || self.index_register as u32 + pieces.3 as u32 <= 4096,
            (0xE, _, 0x9, 0xE) => vx < 16 && skip_fits(pc, self.key_inputs[vx as usize]),
            (0xE, _, 0xA, 0x1) => vx < 16 && skip_fits(pc, !self.key_inputs[vx as usize]),
            (0xF, _, 0x0, 0x7) => true,
            (0xF, _, 0x0, 0xA) => self.any_key_pressed() || pc >= 2,
            (0xF, _, 0x1, 0x5) => true,
            (0xF, _, 0x1, 0x8) => true,
            (0xF, _, 0x1, 0xE) => true,
            (0xF, _, 0x2, 0x9) => vx as u32 * 5 <= 0xFFFF,
            (0xF, _, 0x3, 0x3) => (self.index_register as u32) + 2 < 4096,
            (0xF, _, 0x5, 0x5) => (self.index_register as u32) + (x as u32) < 4096,
            (0xF, _, 0x6, 0x5) => (self.index_register as u32) + (x as u32) < 4096,
            (_, _, _, _) => false,
        }
    }
}

/// The byte and the address held by the low digits of an opcode.
proof fn lemma_digit_weights(t2: u16, t3: u16, t4: u16)
    requires
        t2 < 16,
        t3 < 16,
        t4 < 16,
    ensures
        t3 * 16 + t4 == crate::instructions::byte_of(t3, t4),
        t2 * 256 + t3 * 16 + t4 == crate::instructions::addr_of(t2, t3, t4),
{
}

} // verus!
