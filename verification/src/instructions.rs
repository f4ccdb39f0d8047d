#![allow(non_snake_case)]

use vstd::prelude::*;
use crate::emulator::Emulator;
use crate::semantics;

verus! {

/// Putting hexadecimal digits side by side is the same as weighing them.
proof fn lemma_join_digits(t2: u16, t3: u16, t4: u16)
    by (bit_vector)
    requires
        t2 < 16,
        t3 < 16,
        t4 < 16,
    ensures
        (t3 << 4u16) | t4 == t3 * 16 + t4,
        ((0u16 | (t2 << 8u16)) | (t3 << 4u16)) | t4 == t2 * 256 + t3 * 16 + t4,
{
}

proof fn lemma_low_bit(v: u16)
    by (bit_vector)
    ensures
        ((v & 1u16) == 1u16) == (v % 2 == 1),
{
}

proof fn lemma_shift_left(v: u16)
    by (bit_vector)
    ensures
        ((v >> 15u16) & 1u16 == 1u16) == (v >= 0x8000),
        v << 1u16 == (v * 2) % 0x10000,
{
}

/// The byte `kk` held by the two low digits.
pub open spec fn byte_of(t3: u16, t4: u16) -> u16 {
    (t3 * 16 + t4) as u16
}

/// The address `nnn` held by the three low digits.
pub open spec fn addr_of(t2: u16, t3: u16, t4: u16) -> u16 {
    (t2 * 256 + t3 * 16 + t4) as u16
}

// The instructions. Each receives the digits of its opcode after the first:
// t2 = x, t3 = y, t4 = n.
impl Emulator {
    /// 00E0: clear the display.
    pub(crate) fn inst_00E0(&mut self)
        ensures
            Some(final(self)@) == semantics::clear_screen(old(self)@),
    {
        self.display_buffer = [[false; 32]; 64];
        self.draw = true;
        assert(self@ =~~= semantics::clear_screen(old(self)@)->0);
    }

    /// 00EE: return from a subroutine: pc = top of the stack, then sp - 1.
    pub(crate) fn inst_00EE(&mut self)
        requires
            semantics::return_from_call(old(self)@) is Some,
        ensures
            Some(final(self)@) == semantics::return_from_call(old(self)@),
    {
        self.program_counter = self.registers[self.stack_pointer as usize];
        self.stack_pointer -= 1;
    }

    /// 1nnn: jump to nnn.
    pub(crate) fn inst_1nnn(&mut self, t2: u16, t3: u16, t4: u16)
        requires
            t2 < 16,
            t3 < 16,
            t4 < 16,
        ensures
            Some(final(self)@) == semantics::jump(old(self)@, addr_of(t2, t3, t4)),
    {
        proof {
            lemma_join_digits(t2, t3, t4);
        }
        let mut bin: u16 = 0x000;
        bin |= t2 << 8;
        bin |= t3 << 4;
        bin |= t4;
        self.program_counter = bin;
    }

    /// 2nnn: call the subroutine at nnn.
    pub(crate) fn inst_2nnn(&mut self, t2: u16, t3: u16, t4: u16)
        requires
            t2 < 16,
            t3 < 16,
            t4 < 16,
            semantics::call(old(self)@, addr_of(t2, t3, t4)) is Some,
        ensures
            Some(final(self)@) == semantics::call(old(self)@, addr_of(t2, t3, t4)),
    {
        self.stack_pointer += 1;
        self.registers[self.stack_pointer as usize] = self.program_counter;
        self.inst_1nnn(t2, t3, t4);
    }

    /// 3xkk: skip the next instruction if Vx == kk.
    pub(crate) fn inst_3xkk(&mut self, t2: u16, t3: u16, t4: u16)
        requires
            t2 < 16,
            t3 < 16,
            t4 < 16,
            semantics::skip_if(
                old(self)@,
                old(self)@.registers[t2 as int] == byte_of(t3, t4),
            ) is Some,
        ensures
            Some(final(self)@) == semantics::skip_if(
                old(self)@,
                old(self)@.registers[t2 as int] == byte_of(t3, t4),
            ),
    {
        proof {
            lemma_join_digits(t2, t3, t4);
        }
        let mut kk = t3 << 4;
        kk |= t4;
        if self.registers[t2 as usize] == kk {
            self.program_counter += 2;
        }
    }

    /// 4xkk: skip the next instruction if Vx != kk.
    pub(crate) fn inst_4xkk(&mut self, t2: u16, t3: u16, t4: u16)
        requires
            t2 < 16,
            t3 < 16,
            t4 < 16,
            semantics::skip_if(
                old(self)@,
                old(self)@.registers[t2 as int] != byte_of(t3, t4),
            ) is Some,
        ensures
            Some(final(self)@) == semantics::skip_if(
                old(self)@,
                old(self)@.registers[t2 as int] != byte_of(t3, t4),
            ),
    {
        proof {
            lemma_join_digits(t2, t3, t4);
        }
        let mut kk = t3 << 4;
        kk |= t4;
        if self.registers[t2 as usize] != kk {
            self.program_counter += 2;
        }
    }

    /// 5xy0: skip the next instruction if Vx == Vy.
    pub(crate) fn inst_5xy0(&mut self, t2: u16, t3: u16)
        requires
            t2 < 16,
            t3 < 16,
            semantics::skip_if(
                old(self)@,
                old(self)@.registers[t2 as int] == old(self)@.registers[t3 as int],
            ) is Some,
        ensures
            Some(final(self)@) == semantics::skip_if(
                old(self)@,
                old(self)@.registers[t2 as int] == old(self)@.registers[t3 as int],
            ),
    {
        if self.registers[t2 as usize] == self.registers[t3 as usize] {
            self.program_counter += 2
        }
    }

    /// 6xkk: Vx = kk.
    pub(crate) fn inst_6xkk(&mut self, t2: u16, t3: u16, t4: u16)
        requires
            t2 < 16,
            t3 < 16,
            t4 < 16,
        ensures
            final(self)@ == semantics::with_register(old(self)@, t2 as int, byte_of(t3, t4)),
    {
        proof {
            lemma_join_digits(t2, t3, t4);
        }
        let mut kk = t3 << 4;
        kk |= t4;
        self.registers[t2 as usize] = kk;
    }

    /// 7xkk: Vx = Vx + kk, wrapping around.
    pub(crate) fn inst_7xkk(&mut self, t2: u16, t3: u16, t4: u16)
        requires
            t2 < 16,
            t3 < 16,
            t4 < 16,
        ensures
            final(self)@ == semantics::with_register(
                old(self)@,
                t2 as int,
                semantics::wrap16(byte_of(t3, t4) + old(self)@.registers[t2 as int]),
            ),
    {
        proof {
            lemma_join_digits(t2, t3, t4);
        }
        let mut kk = t3 << 4;
        kk |= t4;
        self.registers[t2 as usize] = kk.wrapping_add(self.registers[t2 as usize]);
    }

    /// 8xy0: Vx = Vy.
    pub(crate) fn inst_8xy0(&mut self, t2: u16, t3: u16)
        requires
            t2 < 16,
            t3 < 16,
        ensures
            final(self)@ == semantics::with_register(
                old(self)@,
                t2 as int,
                old(self)@.registers[t3 as int],
            ),
    {
        self.registers[t2 as usize] = self.registers[t3 as usize];
    }

    /// 8xy1: Vx = Vx OR Vy.
    pub(crate) fn inst_8xy1(&mut self, t2: u16, t3: u16)
        requires
            t2 < 16,
            t3 < 16,
        ensures
            final(self)@ == semantics::with_register(
                old(self)@,
                t2 as int,
                old(self)@.registers[t2 as int] | old(self)@.registers[t3 as int],
            ),
    {
        self.registers[t2 as usize] = self.registers[t2 as usize] | self.registers[t3 as usize];
    }

    /// 8xy2: Vx = Vx AND Vy.
    pub(crate) fn inst_8xy2(&mut self, t2: u16, t3: u16)
        requires
            t2 < 16,
            t3 < 16,
        ensures
            final(self)@ == semantics::with_register(
                old(self)@,
                t2 as int,
                old(self)@.registers[t2 as int] & old(self)@.registers[t3 as int],
            ),
    {
        self.registers[t2 as usize] = self.registers[t2 as usize] & self.registers[t3 as usize];
    }

    /// 8xy3: Vx = Vx XOR Vy.
    pub(crate) fn inst_8xy3(&mut self, t2: u16, t3: u16)
        requires
            t2 < 16,
            t3 < 16,
        ensures
            final(self)@ == semantics::with_register(
                old(self)@,
                t2 as int,
                old(self)@.registers[t2 as int] ^ old(self)@.registers[t3 as int],
            ),
    {
        self.registers[t2 as usize] = self.registers[t2 as usize] ^ self.registers[t3 as usize];
    }

    /// 8xy4: Vx = Vx + Vy; VF = carry; only the lowest eight bits are kept.
    pub(crate) fn inst_8xy4(&mut self, t2: u16, t3: u16)
        requires
            t2 < 16,
            t3 < 16,
        ensures
            Some(final(self)@) == semantics::add_registers(old(self)@, t2 as int, t3 as int),
    {
        let sum: u32 = self.registers[t2 as usize] as u32 + self.registers[t3 as usize] as u32;
        if sum > 255 {
            self.registers[0xF] = 1;
        } else {
            self.registers[0xF] = 0;
        }
        self.registers[t2 as usize] = (sum % 256) as u16;
    }

    /// 8xy5: VF = (Vx > Vy), then Vx = Vx - Vy.
    pub(crate) fn inst_8xy5(&mut self, t2: u16, t3: u16)
        requires
            t2 < 16,
            t3 < 16,
        ensures
            Some(final(self)@) == semantics::sub_registers(old(self)@, t2 as int, t3 as int),
    {
        if self.registers[t2 as usize] > self.registers[t3 as usize] {
            self.registers[0xF] = 1;
        } else {
            self.registers[0xF] = 0;
        }
        self.registers[t2 as usize] = self.registers[t2 as usize].wrapping_sub(
            self.registers[t3 as usize],
        );
    }

    /// 8xy6: VF = lowest bit of Vx, then Vx = Vx / 2.
    pub(crate) fn inst_8xy6(&mut self, t2: u16)
        requires
            t2 < 16,
        ensures
            Some(final(self)@) == semantics::shift_right(old(self)@, t2 as int),
    {
        proof {
            lemma_low_bit(self.registers[t2 as int]);
        }
        if (self.registers[t2 as usize] & 1) == 1 {
            self.registers[0xF] = 1
        } else {
            self.registers[0xF] = 0
        }
        self.registers[t2 as usize] /= 2;
    }

    /// 8xy7: VF = (Vy > Vx), then Vx = Vy - Vx.
    pub(crate) fn inst_8xy7(&mut self, t2: u16, t3: u16)
        requires
            t2 < 16,
            t3 < 16,
        ensures
            Some(final(self)@) == semantics::sub_reversed(old(self)@, t2 as int, t3 as int),
    {
        if self.registers[t3 as usize] > self.registers[t2 as usize] {
            self.registers[0xF] = 1
        } else {
            self.registers[0xF] = 0
        }
        self.registers[t2 as usize] = self.registers[t3 as usize].wrapping_sub(
            self.registers[t2 as usize],
        );
    }

    /// 8xyE: VF = highest bit of Vx, then Vx = Vx SHL 1.
    pub(crate) fn inst_8xyE(&mut self, t2: u16)
        requires
            t2 < 16,
        ensures
            Some(final(self)@) == semantics::shift_left(old(self)@, t2 as int),
    {
        proof {
            lemma_shift_left(self.registers[t2 as int]);
        }
        if ((self.registers[t2 as usize] >> 15) & 1) == 1 {
            self.registers[0xF] = 1
        } else {
            self.registers[0xF] = 0
        }
        let v = self.registers[t2 as usize];
        proof {
            lemma_shift_left(v);
        }
        self.registers[t2 as usize] = v << 1;
    }

    /// 9xy0: skip the next instruction if Vx != Vy.
    pub(crate) fn inst_9xy0(&mut self, t2: u16, t3: u16)
        requires
            t2 < 16,
            t3 < 16,
            semantics::skip_if(
                old(self)@,
                old(self)@.registers[t2 as int] != old(self)@.registers[t3 as int],
            ) is Some,
        ensures
            Some(final(self)@) == semantics::skip_if(
                old(self)@,
                old(self)@.registers[t2 as int] != old(self)@.registers[t3 as int],
            ),
    {
        if self.registers[t2 as usize] != self.registers[t3 as usize] {
            self.program_counter += 2
        }
    }

    /// Annn: I = nnn.
    pub(crate) fn inst_Annn(&mut self, t2: u16, t3: u16, t4: u16)
        requires
            t2 < 16,
            t3 < 16,
            t4 < 16,
        ensures
            final(self)@ == semantics::with_index(old(self)@, addr_of(t2, t3, t4)),
    {
        proof {
            lemma_join_digits(t2, t3, t4);
        }
        let mut bin: u16 = 0x000;
        bin |= t2 << 8;
        bin |= t3 << 4;
        bin |= t4;
        self.index_register = bin;
    }
}


proof fn lemma_sprite_bit(b: u8, c: u8)
    by (bit_vector)
    requires
        c < 8,
    ensures
        (((b << c) & 0x80u8) != 0u8) == ((b >> (7 - c) as u8) & 1u8 == 1u8),
{
}

/// Column `c` of a sprite starting at column `a` lands on display column
/// `(a + c) % 64`, and no other display column is `c` columns right of `a`.
pub(crate) proof fn lemma_column_wrap(a: int, c: int, p: int)
    requires
        0 <= a < 64,
        0 <= c < 64,
    ensures
        ((a + c) % 64 - a) % 64 == c,
        0 <= p < 64 && (p - a) % 64 == c ==> p == (a + c) % 64,
{
}

/// Row `r` of a sprite starting at row `a` lands on display row
/// `(a + r) % 32`, and no other display row is `r` rows below `a`.
pub(crate) proof fn lemma_row_wrap(a: int, r: int, p: int)
    requires
        0 <= a < 32,
        0 <= r < 32,
    ensures
        ((a + r) % 32 - a) % 32 == r,
        0 <= p < 32 && (p - a) % 32 == r ==> p == (a + r) % 32,
{
}

/// The pixels that Dxyn has reached after `row` full rows and `col` columns
/// of the next one.
pub open spec fn drawn_so_far(
    s: semantics::Chip8State,
    x: int,
    y: int,
    px: int,
    py: int,
    row: int,
    col: int,
) -> bool {
    let r = semantics::row_offset(s, y, py);
    r < row || (r == row && semantics::column_offset(s, x, px) < col)
}

impl Emulator {
    /// Bnnn: jump to nnn + V0.
    pub(crate) fn inst_Bnnn(&mut self, t2: u16, t3: u16, t4: u16)
        requires
            t2 < 16,
            t3 < 16,
            t4 < 16,
            semantics::jump_offset(old(self)@, addr_of(t2, t3, t4)) is Some,
        ensures
            Some(final(self)@) == semantics::jump_offset(old(self)@, addr_of(t2, t3, t4)),
    {
        proof {
            lemma_join_digits(t2, t3, t4);
        }
        let mut bin: u16 = 0x000;
        bin |= t2 << 8;
        bin |= t3 << 4;
        bin |= t4;
        self.program_counter = bin + self.registers[0x0];
    }

    /// Cxkk: Vx = `rand` AND kk, where `rand` is a random byte.
    pub(crate) fn inst_Cxkk(&mut self, t2: u16, t3: u16, t4: u16, rand: u8)
        requires
            t2 < 16,
            t3 < 16,
            t4 < 16,
        ensures
            final(self)@ == semantics::with_register(
                old(self)@,
                t2 as int,
                byte_of(t3, t4) & (rand as u16),
            ),
    {
        proof {
            lemma_join_digits(t2, t3, t4);
        }
        let mut kk = t3 << 4;
        kk |= t4;
        self.registers[t2 as usize] = kk & rand as u16;
    }

    /// Dxyn: XOR the n-byte sprite at memory[I..] onto the display at
    /// (Vx, Vy), wrapping around the edges; VF = whether a lit pixel was
    /// erased.
    pub(crate) fn inst_Dxyn(&mut self, t2: u16, t3: u16, t4: u16)
        requires
            t2 < 16,
            t3 < 16,
            t4 < 16,
            semantics::draw_sprite(old(self)@, t2 as int, t3 as int, t4) is Some,
        ensures
            Some(final(self)@) == semantics::draw_sprite(old(self)@, t2 as int, t3 as int, t4),
    {
        let ghost s0 = self@;
        let x_pos: u16 = self.registers[t2 as usize] % 64;
        let y_start: u16 = self.registers[t3 as usize] % 32;
        let mut erased = false;
        let mut lit = false;
        let mut row: u16 = 0;
        while row < t4
            invariant
                t2 < 16,
                t3 < 16,
                t4 < 16,
                row <= t4,
                s0 == old(self)@,
                semantics::draw_sprite(s0, t2 as int, t3 as int, t4) is Some,
                x_pos == s0.registers[t2 as int] % 64,
                y_start == s0.registers[t3 as int] % 32,
                self.registers == old(self).registers,
                self.memory == old(self).memory,
                self.key_inputs == old(self).key_inputs,
                self.index_register == old(self).index_register,
                self.program_counter == old(self).program_counter,
                self.stack_pointer == old(self).stack_pointer,
                self.sound_timer == old(self).sound_timer,
                self.delay_timer == old(self).delay_timer,
                self.wait_for_key == old(self).wait_for_key,
                self.draw == old(self).draw,
                forall|px: int, py: int|
                    0 <= px < 64 && 0 <= py < 32 ==> #[trigger] self.display_buffer@[px]@[py] == (
                    s0.display[px][py] != (semantics::sprite_covers(
                        s0,
                        t2 as int,
                        t3 as int,
                        t4 as int,
                        px,
                        py,
                    ) && drawn_so_far(s0, t2 as int, t3 as int, px, py, row as int, 0))),
                erased == exists|r: int, c: int|
                    0 <= r < row && 0 <= c < 8 && #[trigger] semantics::sprite_bit(
                        s0.memory[s0.index + r],
                        c,
                    ) && s0.display[semantics::sprite_column(s0, t2 as int, c)][semantics::sprite_row(
                        s0,
                        t3 as int,
                        r,
                    )],
                lit == exists|r: int, c: int|
                    0 <= r < row && 0 <= c < 8 && #[trigger] semantics::sprite_bit(
                        s0.memory[s0.index + r],
                        c,
                    ),
            decreases t4 - row,
        {
            let sprite = self.memory[(self.index_register + row) as usize];
            let y_pos: u16 = y_start + row;
            let mut bit_iter: u8 = 0;
            while bit_iter < 8
                invariant
                    t2 < 16,
                    t3 < 16,
                    t4 < 16,
                    row < t4,
                    bit_iter <= 8,
                    s0 == old(self)@,
                    semantics::draw_sprite(s0, t2 as int, t3 as int, t4) is Some,
                    x_pos == s0.registers[t2 as int] % 64,
                    y_start == s0.registers[t3 as int] % 32,
                    y_pos == y_start + row,
                    sprite == s0.memory[s0.index + row],
                    self.registers == old(self).registers,
                    self.memory == old(self).memory,
                    self.key_inputs == old(self).key_inputs,
                    self.index_register == old(self).index_register,
                    self.program_counter == old(self).program_counter,
                    self.stack_pointer == old(self).stack_pointer,
                    self.sound_timer == old(self).sound_timer,
                    self.delay_timer == old(self).delay_timer,
                    self.wait_for_key == old(self).wait_for_key,
                    self.draw == old(self).draw,
                    forall|px: int, py: int|
                        0 <= px < 64 && 0 <= py < 32 ==> #[trigger] self.display_buffer@[px]@[py]
                            == (s0.display[px][py] != (semantics::sprite_covers(
                            s0,
                            t2 as int,
                            t3 as int,
                            t4 as int,
                            px,
                            py,
                        ) && drawn_so_far(
                            s0,
                            t2 as int,
                            t3 as int,
                            px,
                            py,
                            row as int,
                            bit_iter as int,
                        ))),
                    erased == exists|r: int, c: int|
                        0 <= r < 16 && 0 <= c < 8 && (r < row || (r == row && c < bit_iter))
                            && #[trigger] semantics::sprite_bit(s0.memory[s0.index + r], c)
                            && s0.display[semantics::sprite_column(
                            s0,
                            t2 as int,
                            c,
                        )][semantics::sprite_row(s0, t3 as int, r)],
                    lit == exists|r: int, c: int|
                        0 <= r < 16 && 0 <= c < 8 && (r < row || (r == row && c < bit_iter))
                            && #[trigger] semantics::sprite_bit(s0.memory[s0.index + r], c),
                decreases 8 - bit_iter,
            {
                let bit = (sprite << bit_iter) & 0x80 != 0;
                let xi: usize = ((x_pos + bit_iter as u16) % 64) as usize;
                let yi: usize = (y_pos % 32) as usize;
                proof {
                    lemma_sprite_bit(sprite, bit_iter);
                    lemma_column_wrap(x_pos as int, bit_iter as int, 0);
                    lemma_row_wrap(y_start as int, row as int, 0);
                    assert(xi == semantics::sprite_column(s0, t2 as int, bit_iter as int));
                    assert(yi == semantics::sprite_row(s0, t3 as int, row as int));
                    assert(semantics::column_offset(s0, t2 as int, xi as int) == bit_iter);
                    assert(semantics::row_offset(s0, t3 as int, yi as int) == row);
                }
                let mut column = self.display_buffer[xi];
                let cur = column[yi];
                proof {
                    assert(cur == s0.display[xi as int][yi as int]);
                    assert(semantics::sprite_bit(s0.memory[s0.index + row], bit_iter as int) == bit);
                }
                if bit && cur {
                    erased = true;
                }
                column[yi] = cur ^ bit;
                self.display_buffer[xi] = column;
                if bit {
                    lit = true;
                }
                proof {
                    assert forall|px: int, py: int| 0 <= px < 64 && 0 <= py < 32 implies #[trigger]
                        self.display_buffer@[px]@[py] == (s0.display[px][py] != (
                        semantics::sprite_covers(s0, t2 as int, t3 as int, t4 as int, px, py)
                            && drawn_so_far(
                            s0,
                            t2 as int,
                            t3 as int,
                            px,
                            py,
                            row as int,
                            bit_iter + 1,
                        ))) by {
                        lemma_column_wrap(x_pos as int, bit_iter as int, px);
                        lemma_row_wrap(y_start as int, row as int, py);
                        if px == xi && py == yi {
                        } else {
                            if semantics::row_offset(s0, t3 as int, py) == row
                                && semantics::column_offset(s0, t2 as int, px) == bit_iter {
                                assert(py == yi);
                                assert(px == xi);
                            }
                        }
                    }
                }
                bit_iter += 1;
            }
            row += 1;
        }
        if erased {
            self.registers[0xF] = 1;
        } else {
            self.registers[0xF] = 0;
        }
        self.draw = lit;
        proof {
            let expected = semantics::draw_sprite(s0, t2 as int, t3 as int, t4)->0;
            assert(self@.display =~~= expected.display);
            assert(self@ =~~= expected);
        }
    }
}


/// A key that is pressed, with none pressed before it, is the lowest pressed
/// key.
pub(crate) proof fn lemma_first_pressed(keys: Seq<bool>, k: int)
    requires
        0 <= k < 16,
        keys[k],
        forall|j: int| 0 <= j < k ==> !keys[j],
    ensures
        semantics::any_key_pressed(keys),
        semantics::first_pressed_key(keys) == k,
{
    let f = semantics::first_pressed_key(keys);
    assert(0 <= k < 16 && keys[k] && forall|j: int| 0 <= j < k ==> !keys[j]);
    if f < k {
        assert(!keys[f]);
    } else if f > k {
        assert(!keys[k]);
    }
}

impl Emulator {
    /// Ex9E: skip the next instruction if the key Vx is pressed.
    pub(crate) fn inst_Ex9E(&mut self, t2: u16)
        requires
            t2 < 16,
            semantics::skip_key(old(self)@, t2 as int, true) is Some,
        ensures
            Some(final(self)@) == semantics::skip_key(old(self)@, t2 as int, true),
    {
        if self.key_inputs[self.registers[t2 as usize] as usize] {
            self.program_counter += 2;
        }
    }

    /// ExA1: skip the next instruction if the key Vx is not pressed.
    pub(crate) fn inst_ExA1(&mut self, t2: u16)
        requires
            t2 < 16,
            semantics::skip_key(old(self)@, t2 as int, false) is Some,
        ensures
            Some(final(self)@) == semantics::skip_key(old(self)@, t2 as int, false),
    {
        if !self.key_inputs[self.registers[t2 as usize] as usize] {
            self.program_counter += 2;
        }
    }

    /// Fx07: Vx = delay timer.
    pub(crate) fn inst_Fx07(&mut self, t2: u16)
        requires
            t2 < 16,
        ensures
            final(self)@ == semantics::with_register(
                old(self)@,
                t2 as int,
                old(self)@.delay_timer as u16,
            ),
    {
        self.registers[t2 as usize] = self.delay_timer as u16
    }

    /// Fx0A: wait for a key press and store the key in Vx.
    pub(crate) fn inst_Fx0A(&mut self, t2: u16)
        requires
            t2 < 16,
            semantics::wait_for_key(old(self)@, t2 as int) is Some,
        ensures
            Some(final(self)@) == semantics::wait_for_key(old(self)@, t2 as int),
    {
        self.wait_for_key = true;
        let mut key_index: usize = 0;
        while key_index < 16
            invariant
                t2 < 16,
                key_index <= 16,
                semantics::wait_for_key(old(self)@, t2 as int) is Some,
                self.wait_for_key,
                self.key_inputs == old(self).key_inputs,
                self.display_buffer == old(self).display_buffer,
                self.memory == old(self).memory,
                self.registers == old(self).registers,
                self.index_register == old(self).index_register,
                self.program_counter == old(self).program_counter,
                self.stack_pointer == old(self).stack_pointer,
                self.sound_timer == old(self).sound_timer,
                self.delay_timer == old(self).delay_timer,
                self.draw == old(self).draw,
                forall|j: int| 0 <= j < key_index ==> !self.key_inputs@[j],
            decreases 16 - key_index,
        {
            if self.key_inputs[key_index] {
                self.registers[t2 as usize] = key_index as u16;
                self.wait_for_key = false;
                proof {
                    lemma_first_pressed(self.key_inputs@, key_index as int);
                    assert(self@ =~~= semantics::wait_for_key(old(self)@, t2 as int)->0);
                }
                return;
            }
            key_index += 1;
        }
        self.program_counter -= 2;
    }

    /// Fx15: delay timer = Vx (its low byte).
    pub(crate) fn inst_Fx15(&mut self, t2: u16)
        requires
            t2 < 16,
        ensures
            final(self)@ == semantics::with_delay_timer(
                old(self)@,
                (old(self)@.registers[t2 as int] % 256) as u8,
            ),
    {
        self.delay_timer = (self.registers[t2 as usize] % 256) as u8;
    }

    /// Fx18: sound timer = Vx (its low byte).
    pub(crate) fn inst_Fx18(&mut self, t2: u16)
        requires
            t2 < 16,
        ensures
            final(self)@ == semantics::with_sound_timer(
                old(self)@,
                (old(self)@.registers[t2 as int] % 256) as u8,
            ),
    {
        self.sound_timer = (self.registers[t2 as usize] % 256) as u8;
    }

    /// Fx1E: I = I + Vx, wrapping around.
    pub(crate) fn inst_Fx1E(&mut self, t2: u16)
        requires
            t2 < 16,
        ensures
            final(self)@ == semantics::with_index(
                old(self)@,
                semantics::wrap16(old(self)@.index + old(self)@.registers[t2 as int]),
            ),
    {
        self.index_register = self.index_register.wrapping_add(self.registers[t2 as usize]);
    }

    /// Fx29: I = address of the font sprite for the digit Vx.
    pub(crate) fn inst_Fx29(&mut self, t2: u16)
        requires
            t2 < 16,
            semantics::load_font(old(self)@, t2 as int) is Some,
        ensures
            Some(final(self)@) == semantics::load_font(old(self)@, t2 as int),
    {
        self.index_register = self.registers[t2 as usize] * 5
    }

    /// Fx33: hundreds, tens and ones digits of Vx at I, I+1 and I+2.
    pub(crate) fn inst_Fx33(&mut self, t2: u16)
        requires
            t2 < 16,
            semantics::store_bcd(old(self)@, t2 as int) is Some,
        ensures
            Some(final(self)@) == semantics::store_bcd(old(self)@, t2 as int),
    {
        let vx = self.registers[t2 as usize];
        self.memory[self.index_register as usize] = ((vx / 100) % 256) as u8;
        self.memory[(self.index_register + 1) as usize] = (vx % 100 / 10) as u8;
        self.memory[(self.index_register + 2) as usize] = (vx % 10) as u8;
    }

    /// Fx55: store V0 through Vx (their low bytes) in memory from I on.
    pub(crate) fn inst_Fx55(&mut self, t2: u16)
        requires
            t2 < 16,
            semantics::store_registers(old(self)@, t2 as int) is Some,
        ensures
            Some(final(self)@) == semantics::store_registers(old(self)@, t2 as int),
    {
        let mut register_iter: u16 = 0;
        while register_iter <= t2
            invariant
                t2 < 16,
                register_iter <= t2 + 1,
                semantics::store_registers(old(self)@, t2 as int) is Some,
                self.key_inputs == old(self).key_inputs,
                self.display_buffer == old(self).display_buffer,
                self.registers == old(self).registers,
                self.index_register == old(self).index_register,
                self.program_counter == old(self).program_counter,
                self.stack_pointer == old(self).stack_pointer,
                self.sound_timer == old(self).sound_timer,
                self.delay_timer == old(self).delay_timer,
                self.wait_for_key == old(self).wait_for_key,
                self.draw == old(self).draw,
                forall|a: int|
                    0 <= a < 4096 ==> #[trigger] self.memory@[a] == if self.index_register <= a
                        < self.index_register + register_iter {
                        (self.registers@[a - self.index_register] % 256) as u8
                    } else {
                        old(self).memory@[a]
                    },
            decreases t2 + 1 - register_iter,
        {
            self.memory[(self.index_register + register_iter) as usize] =
                (self.registers[register_iter as usize] % 256) as u8;
            register_iter += 1;
        }
        assert(self@ =~~= semantics::store_registers(old(self)@, t2 as int)->0);
    }

    /// Fx65: load V0 through Vx from memory from I on.
    pub(crate) fn inst_Fx65(&mut self, t2: u16)
        requires
            t2 < 16,
            semantics::load_registers(old(self)@, t2 as int) is Some,
        ensures
            Some(final(self)@) == semantics::load_registers(old(self)@, t2 as int),
    {
        let mut register_iter: u16 = 0;
        while register_iter <= t2
            invariant
                t2 < 16,
                register_iter <= t2 + 1,
                semantics::load_registers(old(self)@, t2 as int) is Some,
                self.key_inputs == old(self).key_inputs,
                self.display_buffer == old(self).display_buffer,
                self.memory == old(self).memory,
                self.index_register == old(self).index_register,
                self.program_counter == old(self).program_counter,
                self.stack_pointer == old(self).stack_pointer,
                self.sound_timer == old(self).sound_timer,
                self.delay_timer == old(self).delay_timer,
                self.wait_for_key == old(self).wait_for_key,
                self.draw == old(self).draw,
                forall|k: int|
                    0 <= k < 16 ==> #[trigger] self.registers@[k] == if k < register_iter {
                        self.memory@[self.index_register + k] as u16
                    } else {
                        old(self).registers@[k]
                    },
            decreases t2 + 1 - register_iter,
        {
            self.registers[register_iter as usize] =
                self.memory[(self.index_register + register_iter) as usize] as u16;
            register_iter += 1;
        }
        assert(self@ =~~= semantics::load_registers(old(self)@, t2 as int)->0);
    }
}

} // verus!
