use vstd::prelude::*;

verus! {

/// The abstract state of a CHIP-8 machine, as seen by the specifications.
///
/// `display[x][y]` is the pixel in column `x` (0..64) and row `y` (0..32).
/// The sixteen `registers` are the general registers V0..VF; the call stack
/// lives in the same sixteen slots, indexed by `sp`.
#[verifier::ext_equal]
pub struct Chip8State {
    pub display: Seq<Seq<bool>>,
    pub keys: Seq<bool>,
    pub memory: Seq<u8>,
    pub registers: Seq<u16>,
    pub sound_timer: u8,
    pub delay_timer: u8,
    pub index: u16,
    pub pc: u16,
    pub sp: u16,
    pub wait_for_key: bool,
    pub draw: bool,
}

/// The sizes of all parts of a state are those of the machine.
pub open spec fn wf(s: Chip8State) -> bool {
    &&& s.display.len() == 64
    &&& forall|i: int| 0 <= i < 64 ==> (#[trigger] s.display[i]).len() == 32
    &&& s.keys.len() == 16
    &&& s.memory.len() == 4096
    &&& s.registers.len() == 16
}

// ---------------------------------------------------------------------------
// Decoding: an opcode is four hexadecimal digits `a x y n`.
// ---------------------------------------------------------------------------
/// Most significant digit of the opcode: the instruction group.
pub open spec fn op_group(op: u16) -> u16 {
    op / 0x1000
}

/// Second digit: the register `x`.
pub open spec fn op_x(op: u16) -> int {
    ((op / 0x100) % 0x10) as int
}

/// Third digit: the register `y`.
pub open spec fn op_y(op: u16) -> int {
    ((op / 0x10) % 0x10) as int
}

/// Last digit: `n`.
pub open spec fn op_n(op: u16) -> u16 {
    op % 0x10
}

/// The opcode with hexadecimal digits `a x y n`.
pub open spec fn opcode_of(a: u16, x: u16, y: u16, n: u16) -> u16 {
    (a * 0x1000 + x * 0x100 + y * 0x10 + n) as u16
}

/// Decoding the opcode `a x y n` gives back its digits.
pub proof fn lemma_opcode_of(a: u16, x: u16, y: u16, n: u16)
    requires
        a < 16,
        x < 16,
        y < 16,
        n < 16,
    ensures
        op_group(opcode_of(a, x, y, n)) == a,
        op_x(opcode_of(a, x, y, n)) == x,
        op_y(opcode_of(a, x, y, n)) == y,
        op_n(opcode_of(a, x, y, n)) == n,
{
    let op = opcode_of(a, x, y, n);
    assert(op / 0x1000 == a && (op / 0x100) % 0x10 == x && (op / 0x10) % 0x10 == y && op % 0x10
        == n) by (bit_vector)
        requires
            op == (a * 0x1000 + x * 0x100 + y * 0x10 + n) as u16,
            a < 16,
            x < 16,
            y < 16,
            n < 16,
    ;
}

// ---------------------------------------------------------------------------
// Building blocks.
// ---------------------------------------------------------------------------
/// An all-dark 64 x 32 display.
pub open spec fn blank_display() -> Seq<Seq<bool>> {
    Seq::new(64, |i: int| Seq::new(32, |j: int| false))
}

/// `s` with register `x` set to `v`.
pub open spec fn with_register(s: Chip8State, x: int, v: u16) -> Chip8State {
    Chip8State { registers: s.registers.update(x, v), ..s }
}

/// `s` with I set to `v`.
pub open spec fn with_index(s: Chip8State, v: u16) -> Chip8State {
    Chip8State { index: v, ..s }
}

/// `s` with the delay timer set to `v`.
pub open spec fn with_delay_timer(s: Chip8State, v: u8) -> Chip8State {
    Chip8State { delay_timer: v, ..s }
}

/// `s` with the sound timer set to `v`.
pub open spec fn with_sound_timer(s: Chip8State, v: u8) -> Chip8State {
    Chip8State { sound_timer: v, ..s }
}

/// Skips the next instruction (pc + 2) when `cond` holds; undefined when that
/// addition leaves the 16-bit range.
pub open spec fn skip_if(s: Chip8State, cond: bool) -> Option<Chip8State> {
    if !cond {
        Some(s)
    } else if s.pc + 2 <= 0xFFFF {
        Some(Chip8State { pc: (s.pc + 2) as u16, ..s })
    } else {
        None
    }
}

/// 16-bit wrap-around of an integer.
pub open spec fn wrap16(v: int) -> u16 {
    (v % 0x10000) as u16
}

// ---------------------------------------------------------------------------
// The instructions. Each returns `None` exactly where the machine cannot
// carry the instruction out (it would index outside memory, the stack or
// the keypad, or leave the 16-bit range of a counter).
// ---------------------------------------------------------------------------
/// 00E0: clear the display.
pub open spec fn clear_screen(s: Chip8State) -> Option<Chip8State> {
    Some(Chip8State { display: blank_display(), draw: true, ..s })
}

/// 00EE: pc = the address on top of the stack, then sp - 1.
pub open spec fn return_from_call(s: Chip8State) -> Option<Chip8State> {
    if 1 <= s.sp < 16 {
        Some(Chip8State { pc: s.registers[s.sp as int], sp: (s.sp - 1) as u16, ..s })
    } else {
        None
    }
}

/// 1nnn: pc = nnn.
pub open spec fn jump(s: Chip8State, nnn: u16) -> Option<Chip8State> {
    Some(Chip8State { pc: nnn, ..s })
}

/// 2nnn: sp + 1, the current pc on top of the stack, pc = nnn.
pub open spec fn call(s: Chip8State, nnn: u16) -> Option<Chip8State> {
    if s.sp + 1 < 16 {
        let sp = (s.sp + 1) as u16;
        Some(Chip8State { sp: sp, registers: s.registers.update(sp as int, s.pc), pc: nnn, ..s })
    } else {
        None
    }
}

/// 8xy4: Vx + Vy; VF = carry out of eight bits; Vx = the low eight bits.
pub open spec fn add_registers(s: Chip8State, x: int, y: int) -> Option<Chip8State> {
    let sum = s.registers[x] + s.registers[y];
    let r = s.registers.update(15, if sum > 255 { 1u16 } else { 0u16 });
    Some(Chip8State { registers: r.update(x, (sum % 256) as u16), ..s })
}

/// 8xy5: VF = (Vx > Vy), then Vx = Vx - Vy.
pub open spec fn sub_registers(s: Chip8State, x: int, y: int) -> Option<Chip8State> {
    let r = s.registers.update(15, if s.registers[x] > s.registers[y] { 1u16 } else { 0u16 });
    Some(Chip8State { registers: r.update(x, wrap16(r[x] - r[y])), ..s })
}

/// 8xy6: VF = lowest bit of Vx, then Vx = Vx / 2.
pub open spec fn shift_right(s: Chip8State, x: int) -> Option<Chip8State> {
    let r = s.registers.update(15, (s.registers[x] % 2) as u16);
    Some(Chip8State { registers: r.update(x, r[x] / 2), ..s })
}

/// 8xy7: VF = (Vy > Vx), then Vx = Vy - Vx.
pub open spec fn sub_reversed(s: Chip8State, x: int, y: int) -> Option<Chip8State> {
    let r = s.registers.update(15, if s.registers[y] > s.registers[x] { 1u16 } else { 0u16 });
    Some(Chip8State { registers: r.update(x, wrap16(r[y] - r[x])), ..s })
}

/// 8xyE: VF = highest bit of Vx, then Vx = Vx shifted left by one.
pub open spec fn shift_left(s: Chip8State, x: int) -> Option<Chip8State> {
    let r = s.registers.update(15, if s.registers[x] >= 0x8000 { 1u16 } else { 0u16 });
    Some(Chip8State { registers: r.update(x, wrap16(r[x] * 2)), ..s })
}

/// Bnnn: pc = nnn + V0.
pub open spec fn jump_offset(s: Chip8State, nnn: u16) -> Option<Chip8State> {
    if nnn + s.registers[0] <= 0xFFFF {
        Some(Chip8State { pc: (nnn + s.registers[0]) as u16, ..s })
    } else {
        None
    }
}

/// Bit `col` of a sprite row, counted from the most significant bit.
pub open spec fn sprite_bit(row: u8, col: int) -> bool {
    (row >> (7 - col) as u8) & 1u8 == 1u8
}

/// Column of the display on which column `col` of the sprite lands: the
/// sprite starts at column Vx mod 64 and wraps around the right edge.
pub open spec fn sprite_column(s: Chip8State, x: int, col: int) -> int {
    (s.registers[x] % 64 + col) % 64
}

/// Row of the display on which row `row` of the sprite lands: the sprite
/// starts at row Vy mod 32 and wraps around the bottom edge.
pub open spec fn sprite_row(s: Chip8State, y: int, row: int) -> int {
    (s.registers[y] % 32 + row) % 32
}

/// How far right of the sprite's first column the display column `px` is.
pub open spec fn column_offset(s: Chip8State, x: int, px: int) -> int {
    (px - s.registers[x] % 64) % 64
}

/// How far below the sprite's first row the display row `py` is.
pub open spec fn row_offset(s: Chip8State, y: int, py: int) -> int {
    (py - s.registers[y] % 32) % 32
}

/// Whether the sprite of `n` rows at memory[I..] drawn by Dxyn has a lit bit
/// on the pixel (px, py).
pub open spec fn sprite_covers(s: Chip8State, x: int, y: int, n: int, px: int, py: int) -> bool {
    let col = column_offset(s, x, px);
    let row = row_offset(s, y, py);
    col < 8 && row < n && sprite_bit(s.memory[s.index + row], col)
}

/// Whether some lit bit of the sprite lands on a lit pixel.
pub open spec fn sprite_erases(s: Chip8State, x: int, y: int, n: int) -> bool {
    exists|row: int, col: int|
        0 <= row < n && 0 <= col < 8 && #[trigger] sprite_bit(s.memory[s.index + row], col)
            && s.display[sprite_column(s, x, col)][sprite_row(s, y, row)]
}

/// Whether the sprite has any lit bit.
pub open spec fn sprite_lit(s: Chip8State, n: int) -> bool {
    exists|row: int, col: int|
        0 <= row < n && 0 <= col < 8 && #[trigger] sprite_bit(s.memory[s.index + row], col)
}

/// Dxyn: XOR the sprite of n rows at memory[I..] onto the display at
/// (Vx, Vy); VF = 1 iff a lit pixel was erased; `draw` = whether the sprite
/// has any lit bit.
pub open spec fn draw_sprite(s: Chip8State, x: int, y: int, n: u16) -> Option<Chip8State> {
    if n == 0 || s.index + n <= 4096 {
        Some(
            Chip8State {
                display: Seq::new(
                    64,
                    |px: int|
                        Seq::new(
                            32,
                            |py: int| s.display[px][py] != sprite_covers(s, x, y, n as int, px, py),
                        ),
                ),
                registers: s.registers.update(
                    15,
                    if sprite_erases(s, x, y, n as int) { 1u16 } else { 0u16 },
                ),
                draw: sprite_lit(s, n as int),
                ..s
            },
        )
    } else {
        None
    }
}

/// Ex9E / ExA1: skip when the key Vx is (`pressed`) or is not pressed.
pub open spec fn skip_key(s: Chip8State, x: int, pressed: bool) -> Option<Chip8State> {
    if s.registers[x] < 16 {
        skip_if(s, s.keys[s.registers[x] as int] == pressed)
    } else {
        None
    }
}

pub open spec fn any_key_pressed(keys: Seq<bool>) -> bool {
    exists|k: int| 0 <= k < 16 && #[trigger] keys[k]
}

/// The lowest-numbered pressed key (meaningful when one is pressed).
pub open spec fn first_pressed_key(keys: Seq<bool>) -> int {
    choose|k: int| 0 <= k < 16 && #[trigger] keys[k] && forall|j: int| 0 <= j < k ==> !keys[j]
}

/// Fx0A: Vx = the lowest pressed key; with no key pressed, the machine waits
/// (the same instruction is fetched again).
pub open spec fn wait_for_key(s: Chip8State, x: int) -> Option<Chip8State> {
    if any_key_pressed(s.keys) {
        Some(
            Chip8State {
                registers: s.registers.update(x, first_pressed_key(s.keys) as u16),
                wait_for_key: false,
                ..s
            },
        )
    } else if s.pc >= 2 {
        Some(Chip8State { wait_for_key: true, pc: (s.pc - 2) as u16, ..s })
    } else {
        None
    }
}

/// Fx29: I = address of the font sprite for digit Vx (five bytes each).
pub open spec fn load_font(s: Chip8State, x: int) -> Option<Chip8State> {
    if s.registers[x] * 5 <= 0xFFFF {
        Some(Chip8State { index: (s.registers[x] * 5) as u16, ..s })
    } else {
        None
    }
}

/// Fx33: hundreds, tens and ones of Vx at memory[I], [I+1], [I+2].
pub open spec fn store_bcd(s: Chip8State, x: int) -> Option<Chip8State> {
    let v = s.registers[x];
    if s.index + 2 < 4096 {
        Some(
            Chip8State {
                memory: s.memory.update(s.index as int, ((v / 100) % 256) as u8).update(
                    s.index + 1,
                    ((v % 100) / 10) as u8,
                ).update(s.index + 2, (v % 10) as u8),
                ..s
            },
        )
    } else {
        None
    }
}

/// Fx55: memory[I + k] = Vk (its low byte) for k = 0 through x.
pub open spec fn store_registers(s: Chip8State, x: int) -> Option<Chip8State> {
    if s.index + x < 4096 {
        Some(
            Chip8State {
                memory: Seq::new(
                    s.memory.len(),
                    |a: int|
                        if s.index <= a <= s.index + x {
                            (s.registers[a - s.index] % 256) as u8
                        } else {
                            s.memory[a]
                        },
                ),
                ..s
            },
        )
    } else {
        None
    }
}

/// Fx65: Vk = memory[I + k] for k = 0 through x.
pub open spec fn load_registers(s: Chip8State, x: int) -> Option<Chip8State> {
    if s.index + x < 4096 {
        Some(
            Chip8State {
                registers: Seq::new(
                    s.registers.len(),
                    |k: int|
                        if k <= x {
                            s.memory[s.index + k] as u16
                        } else {
                            s.registers[k]
                        },
                ),
                ..s
            },
        )
    } else {
        None
    }
}

/// The effect of one instruction `op` on `s`; `rnd` is the random byte that
/// Cxkk uses. `None`: `op` is no instruction, or `s` does not allow it.
pub open spec fn next_state(s: Chip8State, op: u16, rnd: u8) -> Option<Chip8State> {
    run_instruction(s, op_group(op) as int, op_x(op), op_y(op), op_n(op) as int, rnd)
}

/// The instruction with hexadecimal digits `a x y n`, executed on `s`.
pub open spec fn run_instruction(s: Chip8State, a: int, x: int, y: int, n: int, rnd: u8) -> Option<
    Chip8State,
> {
    let nnn = (x * 0x100 + y * 0x10 + n) as u16;
    let kk = (y * 0x10 + n) as u16;
    let vx = s.registers[x];
    let vy = s.registers[y];
    if a == 0x0 {
        if x == 0x0 && y == 0xE && n == 0x0 {
            clear_screen(s)
        } else if x == 0x0 && y == 0xE && n == 0xE {
            return_from_call(s)
        } else {
            None
        }
    } else if a == 0x1 {
        jump(s, nnn)
    } else if a == 0x2 {
        call(s, nnn)
    } else if a == 0x3 {
        skip_if(s, vx == kk)
    } else if a == 0x4 {
        skip_if(s, vx != kk)
    } else if a == 0x5 {
        if n == 0x0 {
            skip_if(s, vx == vy)
        } else {
            None
        }
    } else if a == 0x6 {
        Some(with_register(s, x, kk))
    } else if a == 0x7 {
        Some(with_register(s, x, wrap16(kk + vx)))
    } else if a == 0x8 {
        run_register_instruction(s, x, y, n)
    } else if a == 0x9 {
        if n == 0x0 {
            skip_if(s, vx != vy)
        } else {
            None
        }
    } else if a == 0xA {
        Some(with_index(s, nnn))
    } else if a == 0xB {
        jump_offset(s, nnn)
    } else if a == 0xC {
        Some(with_register(s, x, kk & (rnd as u16)))
    } else if a == 0xD {
        draw_sprite(s, x, y, n as u16)
    } else if a == 0xE {
        if y == 0x9 && n == 0xE {
            skip_key(s, x, true)
        } else if y == 0xA && n == 0x1 {
            skip_key(s, x, false)
        } else {
            None
        }
    } else if a == 0xF {
        run_misc_instruction(s, x, y, n)
    } else {
        None
    }
}

/// The instructions 8xyn: register to register.
pub open spec fn run_register_instruction(s: Chip8State, x: int, y: int, n: int) -> Option<
    Chip8State,
> {
    let vx = s.registers[x];
    let vy = s.registers[y];
    if n == 0x0 {
        Some(with_register(s, x, vy))
    } else if n == 0x1 {
        Some(with_register(s, x, vx | vy))
    } else if n == 0x2 {
        Some(with_register(s, x, vx & vy))
    } else if n == 0x3 {
        Some(with_register(s, x, vx ^ vy))
    } else if n == 0x4 {
        add_registers(s, x, y)
    } else if n == 0x5 {
        sub_registers(s, x, y)
    } else if n == 0x6 {
        shift_right(s, x)
    } else if n == 0x7 {
        sub_reversed(s, x, y)
    } else if n == 0xE {
        shift_left(s, x)
    } else {
        None
    }
}

/// The instructions Fxyn: timers, keypad wait, I and memory.
pub open spec fn run_misc_instruction(s: Chip8State, x: int, y: int, n: int) -> Option<
    Chip8State,
> {
    let vx = s.registers[x];
    if y == 0x0 && n == 0x7 {
        Some(with_register(s, x, s.delay_timer as u16))
    } else if y == 0x0 && n == 0xA {
        wait_for_key(s, x)
    } else if y == 0x1 && n == 0x5 {
        Some(with_delay_timer(s, (vx % 256) as u8))
    } else if y == 0x1 && n == 0x8 {
        Some(with_sound_timer(s, (vx % 256) as u8))
    } else if y == 0x1 && n == 0xE {
        Some(with_index(s, wrap16(s.index + vx)))
    } else if y == 0x2 && n == 0x9 {
        load_font(s, x)
    } else if y == 0x3 && n == 0x3 {
        store_bcd(s, x)
    } else if y == 0x5 && n == 0x5 {
        store_registers(s, x)
    } else if y == 0x6 && n == 0x5 {
        load_registers(s, x)
    } else {
        None
    }
}

/// The opcode at pc: memory[pc] is its high byte, memory[pc + 1] its low byte.
pub open spec fn opcode_at(s: Chip8State) -> u16 {
    (s.memory[s.pc as int] * 256 + s.memory[s.pc + 1]) as u16
}

/// `s` with pc set to `pc`.
pub open spec fn with_pc(s: Chip8State, pc: u16) -> Chip8State {
    Chip8State { pc: pc, ..s }
}

/// `s` with pc moved past the opcode at pc.
pub open spec fn advance_pc(s: Chip8State) -> Chip8State {
    Chip8State { pc: (s.pc + 2) as u16, ..s }
}

/// One cycle: fetch the opcode at pc, advance pc by two, execute it.
pub open spec fn cycle(s: Chip8State, rnd: u8) -> Option<Chip8State> {
    if s.pc + 1 < 4096 {
        next_state(advance_pc(s), opcode_at(s), rnd)
    } else {
        None
    }
}

/// One tick of the 60 Hz timers: each that is above zero goes down by one.
pub open spec fn timers_ticked(s: Chip8State) -> Chip8State {
    Chip8State {
        delay_timer: if s.delay_timer > 0 { (s.delay_timer - 1) as u8 } else { 0 },
        sound_timer: if s.sound_timer > 0 { (s.sound_timer - 1) as u8 } else { 0 },
        ..s
    }
}

/// `s` after `rnds.len()` cycles, the i-th of which draws the random byte
/// `rnds[i]`; `None` if one of them cannot run.
pub open spec fn run_cycles(s: Chip8State, rnds: Seq<u8>) -> Option<Chip8State>
    decreases rnds.len(),
{
    if rnds.len() == 0 {
        Some(s)
    } else {
        match run_cycles(s, rnds.drop_last()) {
            Some(t) => cycle(t, rnds.last()),
            None => None,
        }
    }
}

/// `s` with the keypad showing `pressed`.
pub open spec fn with_keys(s: Chip8State, pressed: Seq<bool>) -> Chip8State {
    Chip8State { keys: pressed, ..s }
}

/// Host key codes of the sixteen keypad keys 0..F, in keypad order: the keys
/// x 1 2 3 q w e a s d z c 4 r f v of a keyboard.
pub open spec fn keypad_codes() -> Seq<i32> {
    seq![120, 49, 50, 51, 113, 119, 101, 97, 115, 100, 122, 99, 52, 114, 102, 118]
}

/// The machine right after start-up with `rom` loaded at 0x200: font at
/// address 0, I = 512, everything else zero or off (pc included).
pub open spec fn initial_state(rom: Seq<u8>) -> Chip8State {
    Chip8State {
        display: blank_display(),
        keys: Seq::new(16, |k: int| false),
        memory: Seq::new(
            4096,
            |a: int|
                if a < 80 {
                    crate::emulator::Emulator::FONTS@[a]
                } else if 0x200 <= a < 0x200 + rom.len() {
                    rom[a - 0x200]
                } else {
                    0u8
                },
        ),
        registers: Seq::new(16, |k: int| 0u16),
        sound_timer: 0,
        delay_timer: 0,
        index: 512,
        pc: 0,
        sp: 0,
        wait_for_key: false,
        draw: false,
    }
}

} // verus!
