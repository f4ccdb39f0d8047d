//! Properties of the instruction set that span several instructions or hold
//! of every instruction.
use vstd::prelude::*;
use crate::semantics::{self, Chip8State};
use crate::emulator::Emulator;

verus! {

/// Every emulator's state has the sizes of the machine, so the laws below
/// apply to `e@`.
pub proof fn law_emulator_state_wf(e: &Emulator)
    ensures
        semantics::wf(e@),
{
}

/// Every instruction keeps the sizes of the machine and leaves the keypad
/// alone: the keys are input, only the host writes them.
pub proof fn law_step_keeps_shape_and_keys(s: Chip8State, op: u16, rnd: u8)
    requires
        semantics::wf(s),
        semantics::next_state(s, op, rnd) is Some,
    ensures
        semantics::wf(semantics::next_state(s, op, rnd)->0),
        semantics::next_state(s, op, rnd)->0.keys == s.keys,
{
    let t = semantics::next_state(s, op, rnd)->0;
    assert forall|i: int| 0 <= i < 64 implies (#[trigger] t.display[i]).len() == 32 by {
        assert(s.display[i].len() == 32);
    }
}

/// Only Cxkk depends on the random byte, and whether an instruction can run
/// never does.
pub proof fn law_random_only_in_cxkk(s: Chip8State, op: u16, r1: u8, r2: u8)
    ensures
        (semantics::next_state(s, op, r1) is Some) == (semantics::next_state(s, op, r2) is Some),
        semantics::op_group(op) != 0xC ==> semantics::next_state(s, op, r1)
            == semantics::next_state(s, op, r2),
{
}

/// Cxkk: the random byte is masked by kk, so no bit outside kk is ever set
/// in Vx.
pub proof fn law_random_within_mask(s: Chip8State, x: u16, k1: u16, k2: u16, rnd: u8)
    requires
        semantics::wf(s),
        x < 16,
        k1 < 16,
        k2 < 16,
    ensures
        semantics::next_state(s, semantics::opcode_of(0xC, x, k1, k2), rnd) is Some,
        semantics::next_state(s, semantics::opcode_of(0xC, x, k1, k2), rnd)->0.registers[x as int]
            & !((k1 * 0x10 + k2) as u16) == 0,
{
    semantics::lemma_opcode_of(0xC, x, k1, k2);
    let kk = (k1 * 0x10 + k2) as u16;
    let v = kk & (rnd as u16);
    assert(v & !kk == 0) by (bit_vector)
        requires
            v == kk & (rnd as u16),
    ;
}

/// 2nnn then 00EE: a call followed by a return comes back to the address
/// after the call, with the stack pointer where it was.
pub proof fn law_call_then_return(s: Chip8State, n1: u16, n2: u16, n3: u16, r1: u8, r2: u8)
    requires
        semantics::wf(s),
        n1 < 16,
        n2 < 16,
        n3 < 16,
        semantics::next_state(s, semantics::opcode_of(0x2, n1, n2, n3), r1) is Some,
    ensures
        ({
            let called = semantics::next_state(s, semantics::opcode_of(0x2, n1, n2, n3), r1)->0;
            let returned = semantics::next_state(called, 0x00EE, r2);
            &&& called.pc == n1 * 0x100 + n2 * 0x10 + n3
            &&& returned is Some
            &&& returned->0.pc == s.pc
            &&& returned->0.sp == s.sp
        }),
{
    semantics::lemma_opcode_of(0x2, n1, n2, n3);
    semantics::lemma_opcode_of(0x0, 0x0, 0xE, 0xE);
}

/// Drawing the same sprite twice at the same place leaves the display as it
/// was before the first draw (XOR drawing undoes itself). Vx and Vy must not
/// be VF, which the first draw overwrites.
pub proof fn law_draw_twice_restores(s: Chip8State, x: u16, y: u16, n: u16, r1: u8, r2: u8)
    requires
        semantics::wf(s),
        x < 15,
        y < 15,
        n < 16,
        semantics::next_state(s, semantics::opcode_of(0xD, x, y, n), r1) is Some,
    ensures
        ({
            let op = semantics::opcode_of(0xD, x, y, n);
            let once = semantics::next_state(s, op, r1)->0;
            let twice = semantics::next_state(once, op, r2);
            &&& twice is Some
            &&& twice->0.display == s.display
        }),
{
    semantics::lemma_opcode_of(0xD, x, y, n);
    let op = semantics::opcode_of(0xD, x, y, n);
    let s1 = semantics::draw_sprite(s, x as int, y as int, n)->0;
    let s2 = semantics::draw_sprite(s1, x as int, y as int, n)->0;
    assert(s1.registers[x as int] == s.registers[x as int]);
    assert(s1.registers[y as int] == s.registers[y as int]);
    assert forall|px: int, py: int| 0 <= px < 64 && 0 <= py < 32 implies s2.display[px][py]
        == s.display[px][py] by {
        assert(semantics::sprite_covers(s1, x as int, y as int, n as int, px, py)
            == semantics::sprite_covers(s, x as int, y as int, n as int, px, py));
    }
    assert forall|px: int| 0 <= px < 64 implies #[trigger] s2.display[px] =~= s.display[px] by {
        assert(s.display[px].len() == 32);
    }
    assert(s2.display =~= s.display);
}

/// Fx55 then Fx65 with the same I: the registers V0..Vx come back unchanged
/// when each fits in a byte (memory holds bytes).
pub proof fn law_store_then_load_registers(s: Chip8State, x: u16, r1: u8, r2: u8)
    requires
        semantics::wf(s),
        x < 16,
        forall|k: int| 0 <= k <= x ==> s.registers[k] < 256,
        semantics::next_state(s, semantics::opcode_of(0xF, x, 5, 5), r1) is Some,
    ensures
        ({
            let stored = semantics::next_state(s, semantics::opcode_of(0xF, x, 5, 5), r1);
            &&& stored->0.registers == s.registers
            &&& semantics::next_state(stored->0, semantics::opcode_of(0xF, x, 6, 5), r2) == stored
        }),
{
    semantics::lemma_opcode_of(0xF, x, 5, 5);
    semantics::lemma_opcode_of(0xF, x, 6, 5);
    let s1 = semantics::store_registers(s, x as int)->0;
    let s2 = semantics::load_registers(s1, x as int)->0;
    assert(s2.registers =~= s1.registers);
    assert(s2 =~= s1);
}

/// Fx33 stores the decimal digits of Vx: each is below ten and together they
/// make up Vx, for every Vx below 1000.
pub proof fn law_bcd_digits(s: Chip8State, x: u16, rnd: u8)
    requires
        semantics::wf(s),
        x < 16,
        s.registers[x as int] < 1000,
        s.index + 2 < 4096,
    ensures
        semantics::next_state(s, semantics::opcode_of(0xF, x, 3, 3), rnd) is Some,
        ({
            let m = semantics::next_state(s, semantics::opcode_of(0xF, x, 3, 3), rnd)->0.memory;
            let i = s.index as int;
            &&& m[i] < 10
            &&& m[i + 1] < 10
            &&& m[i + 2] < 10
            &&& 100 * m[i] + 10 * m[i + 1] + m[i + 2] == s.registers[x as int]
        }),
{
    semantics::lemma_opcode_of(0xF, x, 3, 3);
}

/// 3xkk and 4xkk are opposites: of the two, exactly one skips.
pub proof fn law_skip_byte_opposites(s: Chip8State, x: u16, k1: u16, k2: u16, r: u8)
    requires
        semantics::wf(s),
        x < 16,
        k1 < 16,
        k2 < 16,
        s.pc + 2 <= 0xFFFF,
    ensures
        ({
            let eq = semantics::next_state(s, semantics::opcode_of(0x3, x, k1, k2), r);
            let ne = semantics::next_state(s, semantics::opcode_of(0x4, x, k1, k2), r);
            &&& eq is Some
            &&& ne is Some
            &&& eq->0.pc + ne->0.pc == 2 * s.pc + 2
        }),
{
    semantics::lemma_opcode_of(0x3, x, k1, k2);
    semantics::lemma_opcode_of(0x4, x, k1, k2);
}

/// 5xy0 and 9xy0 are opposites: of the two, exactly one skips.
pub proof fn law_skip_register_opposites(s: Chip8State, x: u16, y: u16, r: u8)
    requires
        semantics::wf(s),
        x < 16,
        y < 16,
        s.pc + 2 <= 0xFFFF,
    ensures
        ({
            let eq = semantics::next_state(s, semantics::opcode_of(0x5, x, y, 0), r);
            let ne = semantics::next_state(s, semantics::opcode_of(0x9, x, y, 0), r);
            &&& eq is Some
            &&& ne is Some
            &&& eq->0.pc + ne->0.pc == 2 * s.pc + 2
        }),
{
    semantics::lemma_opcode_of(0x5, x, y, 0);
    semantics::lemma_opcode_of(0x9, x, y, 0);
}

/// Ex9E and ExA1 are opposites: of the two, exactly one skips.
pub proof fn law_skip_key_opposites(s: Chip8State, x: u16, r: u8)
    requires
        semantics::wf(s),
        x < 16,
        s.registers[x as int] < 16,
        s.pc + 2 <= 0xFFFF,
    ensures
        ({
            let pressed = semantics::next_state(s, semantics::opcode_of(0xE, x, 0x9, 0xE), r);
            let released = semantics::next_state(s, semantics::opcode_of(0xE, x, 0xA, 0x1), r);
            &&& pressed is Some
            &&& released is Some
            &&& pressed->0.pc + released->0.pc == 2 * s.pc + 2
        }),
{
    semantics::lemma_opcode_of(0xE, x, 0x9, 0xE);
    semantics::lemma_opcode_of(0xE, x, 0xA, 0x1);
}

/// Fx0A with no key pressed: a cycle leaves pc on the same instruction, so
/// the machine fetches it again until a key is pressed.
pub proof fn law_wait_for_key_holds_pc(s: Chip8State, r: u8)
    requires
        semantics::wf(s),
        s.pc + 1 < 4096,
        semantics::op_group(semantics::opcode_at(s)) == 0xF,
        semantics::op_y(semantics::opcode_at(s)) == 0,
        semantics::op_n(semantics::opcode_at(s)) == 0xA,
        !semantics::any_key_pressed(s.keys),
    ensures
        semantics::cycle(s, r) is Some,
        semantics::cycle(s, r)->0.pc == s.pc,
        semantics::cycle(s, r)->0.wait_for_key,
{
}


// ---------------------------------------------------------------------------
// Dxyn, spelled out in sprite coordinates.
// ---------------------------------------------------------------------------
/// Bit `col` (0 = leftmost) of row `row` of the sprite stored from I on.
pub open spec fn sprite_pixel(s: Chip8State, row: int, col: int) -> bool {
    (s.memory[s.index + row] >> (7 - col) as u8) & 1u8 == 1u8
}

/// Display column hit by column `col` of a sprite drawn at x-register `x`.
pub open spec fn screen_x(s: Chip8State, x: int, col: int) -> int {
    (s.registers[x] % 64 + col) % 64
}

/// Display row hit by row `row` of a sprite drawn at y-register `y`.
pub open spec fn screen_y(s: Chip8State, y: int, row: int) -> int {
    (s.registers[y] % 32 + row) % 32
}

/// Dxyn sets VF to 1 if some lit bit of the sprite lands on a lit pixel and
/// to 0 otherwise, whatever VF held before; no other register changes.
pub proof fn law_draw_sets_collision_flag(s: Chip8State, x: u16, y: u16, n: u16, r: u8)
    requires
        semantics::wf(s),
        x < 16,
        y < 16,
        n < 16,
        semantics::next_state(s, semantics::opcode_of(0xD, x, y, n), r) is Some,
    ensures
        ({
            let t = semantics::next_state(s, semantics::opcode_of(0xD, x, y, n), r)->0;
            let collision = exists|row: int, col: int|
                0 <= row < n && 0 <= col < 8 && #[trigger] sprite_pixel(s, row, col)
                    && s.display[screen_x(s, x as int, col)][screen_y(s, y as int, row)];
            &&& t.registers[15] == (if collision { 1u16 } else { 0u16 })
            &&& forall|k: int| 0 <= k < 15 ==> t.registers[k] == s.registers[k]
        }),
{
    semantics::lemma_opcode_of(0xD, x, y, n);
    let op = semantics::opcode_of(0xD, x, y, n);
    assert(semantics::next_state(s, op, r) == semantics::draw_sprite(s, x as int, y as int, n));
    let collision = exists|row: int, col: int|
        0 <= row < n && 0 <= col < 8 && #[trigger] sprite_pixel(s, row, col)
            && s.display[screen_x(s, x as int, col)][screen_y(s, y as int, row)];
    if collision {
        let (row, col) = choose|row: int, col: int|
            0 <= row < n && 0 <= col < 8 && #[trigger] sprite_pixel(s, row, col)
                && s.display[screen_x(s, x as int, col)][screen_y(s, y as int, row)];
        assert(semantics::sprite_bit(s.memory[s.index + row], col));
        assert(semantics::sprite_erases(s, x as int, y as int, n as int));
    } else {
        assert forall|row: int, col: int|
            0 <= row < n && 0 <= col < 8 && #[trigger] semantics::sprite_bit(
                s.memory[s.index + row],
                col,
            ) implies !s.display[semantics::sprite_column(s, x as int, col)][semantics::sprite_row(
            s,
            y as int,
            row,
        )] by {
            assert(sprite_pixel(s, row, col));
        }
        assert(!semantics::sprite_erases(s, x as int, y as int, n as int));
    }
}

/// Dxyn flips exactly the pixels on which a lit sprite bit lands: for every
/// row and column of the sprite, the pixel it lands on is toggled iff the
/// bit is lit, and every pixel that no part of the sprite lands on keeps its
/// value.
pub proof fn law_draw_xors_sprite(s: Chip8State, x: u16, y: u16, n: u16, r: u8)
    requires
        semantics::wf(s),
        x < 16,
        y < 16,
        n < 16,
        semantics::next_state(s, semantics::opcode_of(0xD, x, y, n), r) is Some,
    ensures
        ({
            let t = semantics::next_state(s, semantics::opcode_of(0xD, x, y, n), r)->0;
            &&& forall|row: int, col: int|
                0 <= row < n && 0 <= col < 8 ==> t.display[screen_x(s, x as int, col)][screen_y(
                    s,
                    y as int,
                    row,
                )] == (s.display[screen_x(s, x as int, col)][screen_y(s, y as int, row)]
                    != #[trigger] sprite_pixel(s, row, col))
            &&& forall|px: int, py: int|
                0 <= px < 64 && 0 <= py < 32 && (forall|row: int, col: int|
                    0 <= row < n && 0 <= col < 8 ==> #[trigger] screen_x(s, x as int, col) != px
                        || #[trigger] screen_y(s, y as int, row) != py) ==> t.display[px][py]
                    == s.display[px][py]
        }),
{
    semantics::lemma_opcode_of(0xD, x, y, n);
    let t = semantics::next_state(s, semantics::opcode_of(0xD, x, y, n), r)->0;
    let a = (s.registers[x as int] % 64) as int;
    let b = (s.registers[y as int] % 32) as int;
    assert forall|row: int, col: int| 0 <= row < n && 0 <= col < 8 implies t.display[screen_x(
        s,
        x as int,
        col,
    )][screen_y(s, y as int, row)] == (s.display[screen_x(s, x as int, col)][screen_y(
        s,
        y as int,
        row,
    )] != #[trigger] sprite_pixel(s, row, col)) by {
        crate::instructions::lemma_column_wrap(a, col, 0);
        crate::instructions::lemma_row_wrap(b, row, 0);
    }
    assert forall|px: int, py: int|
        0 <= px < 64 && 0 <= py < 32 && (forall|row: int, col: int|
            0 <= row < n && 0 <= col < 8 ==> #[trigger] screen_x(s, x as int, col) != px
                || #[trigger] screen_y(s, y as int, row) != py) implies t.display[px][py]
        == s.display[px][py] by {
        let col = semantics::column_offset(s, x as int, px);
        let row = semantics::row_offset(s, y as int, py);
        crate::instructions::lemma_column_wrap(a, col, px);
        crate::instructions::lemma_row_wrap(b, row, py);
        if semantics::sprite_covers(s, x as int, y as int, n as int, px, py) {
            assert(screen_x(s, x as int, col) == px);
            assert(screen_y(s, y as int, row) == py);
        }
    }
}

// ---------------------------------------------------------------------------
// Timers.
// ---------------------------------------------------------------------------
/// The timers after `k` ticks.
pub open spec fn ticked_times(s: Chip8State, k: nat) -> Chip8State
    decreases k,
{
    if k == 0 {
        s
    } else {
        semantics::timers_ticked(ticked_times(s, (k - 1) as nat))
    }
}

/// Each timer counts down on its own: after `k` ticks it holds its start
/// value minus `k`, or 0 once that is reached, whatever the other timer
/// holds; nothing else changes.
pub proof fn law_timers_count_down(s: Chip8State, k: nat)
    ensures
        ticked_times(s, k).sound_timer == (if s.sound_timer >= k {
            s.sound_timer - k
        } else {
            0
        }),
        ticked_times(s, k).delay_timer == (if s.delay_timer >= k {
            s.delay_timer - k
        } else {
            0
        }),
        ticked_times(s, k).display == s.display,
        ticked_times(s, k).keys == s.keys,
        ticked_times(s, k).memory == s.memory,
        ticked_times(s, k).registers == s.registers,
        ticked_times(s, k).index == s.index,
        ticked_times(s, k).pc == s.pc,
        ticked_times(s, k).sp == s.sp,
        ticked_times(s, k).wait_for_key == s.wait_for_key,
        ticked_times(s, k).draw == s.draw,
    decreases k,
{
    if k > 0 {
        law_timers_count_down(s, (k - 1) as nat);
    }
}

// ---------------------------------------------------------------------------
// The stack.
// ---------------------------------------------------------------------------
/// 2nnn pushes the return address: sp goes up by one, the slot sp + 1 holds
/// the pc of the call, every other slot keeps its value, and pc = nnn.
pub proof fn law_call_pushes_return_address(s: Chip8State, n1: u16, n2: u16, n3: u16, r: u8)
    requires
        semantics::wf(s),
        n1 < 16,
        n2 < 16,
        n3 < 16,
        s.sp + 1 < 16,
    ensures
        ({
            let t = semantics::next_state(s, semantics::opcode_of(0x2, n1, n2, n3), r);
            &&& t is Some
            &&& t->0.sp == s.sp + 1
            &&& t->0.registers[s.sp + 1] == s.pc
            &&& forall|k: int| 0 <= k < 16 && k != s.sp + 1 ==> t->0.registers[k] == s.registers[k]
            &&& t->0.pc == n1 * 0x100 + n2 * 0x10 + n3
        }),
{
    semantics::lemma_opcode_of(0x2, n1, n2, n3);
}

/// 00EE pops the return address: pc = the slot sp, sp goes down by one, and
/// the registers keep their values.
pub proof fn law_return_pops_return_address(s: Chip8State, r: u8)
    requires
        semantics::wf(s),
        1 <= s.sp < 16,
    ensures
        ({
            let t = semantics::next_state(s, 0x00EE, r);
            &&& t is Some
            &&& t->0.pc == s.registers[s.sp as int]
            &&& t->0.sp == s.sp - 1
            &&& t->0.registers == s.registers
        }),
{
    semantics::lemma_opcode_of(0x0, 0x0, 0xE, 0xE);
}

/// Nested calls return in order: call A, then from there call B, then two
/// returns: the first comes back to where B was called, the second to where
/// A was called, with sp where it started.
pub proof fn law_nested_calls_return_in_order(
    s: Chip8State,
    a1: u16,
    a2: u16,
    a3: u16,
    b1: u16,
    b2: u16,
    b3: u16,
    r: u8,
)
    requires
        semantics::wf(s),
        a1 < 16,
        a2 < 16,
        a3 < 16,
        b1 < 16,
        b2 < 16,
        b3 < 16,
        s.sp + 2 < 16,
    ensures
        ({
            let in_a = semantics::next_state(s, semantics::opcode_of(0x2, a1, a2, a3), r)->0;
            let in_b = semantics::next_state(in_a, semantics::opcode_of(0x2, b1, b2, b3), r)->0;
            let back_in_a = semantics::next_state(in_b, 0x00EE, r);
            let back = semantics::next_state(back_in_a->0, 0x00EE, r);
            &&& back_in_a is Some
            &&& back_in_a->0.pc == in_a.pc
            &&& back_in_a->0.sp == in_a.sp
            &&& back is Some
            &&& back->0.pc == s.pc
            &&& back->0.sp == s.sp
        }),
{
    semantics::lemma_opcode_of(0x2, a1, a2, a3);
    semantics::lemma_opcode_of(0x2, b1, b2, b3);
    semantics::lemma_opcode_of(0x0, 0x0, 0xE, 0xE);
}

// ---------------------------------------------------------------------------
// The keypad.
// ---------------------------------------------------------------------------
/// Fx0A with a key held down never waits: Vx becomes the lowest-numbered
/// pressed key (any of the sixteen), pc stays past the instruction and the
/// machine is not waiting.
pub proof fn law_wait_for_key_takes_lowest_key(s: Chip8State, x: u16, k: int, r: u8)
    requires
        semantics::wf(s),
        x < 16,
        0 <= k < 16,
        s.keys[k],
        forall|j: int| 0 <= j < k ==> !s.keys[j],
    ensures
        ({
            let t = semantics::next_state(s, semantics::opcode_of(0xF, x, 0x0, 0xA), r);
            &&& t is Some
            &&& t->0.registers[x as int] == k
            &&& forall|j: int| 0 <= j < 16 && j != x ==> t->0.registers[j] == s.registers[j]
            &&& t->0.pc == s.pc
            &&& !t->0.wait_for_key
        }),
{
    semantics::lemma_opcode_of(0xF, x, 0x0, 0xA);
    crate::instructions::lemma_first_pressed(s.keys, k);
}

} // verus!
