//! Mathematical model of the CHIP-8 machine.
//!
//! [`State`] is the abstract value of a whole machine; every executable
//! operation on [`crate::chip::Chip8`] is specified as a function from
//! `State` to `State` in this module.  Addresses into the 4096-byte memory
//! are always taken modulo 4096, so no transition reads or writes outside
//! the memory image; the same discipline bounds the 2048-pixel framebuffer
//! (64 columns by 32 rows) and the 16-entry call stack.

use vstd::prelude::*;

verus! {

/// Abstract machine state: one value per field of the interpreter.
///
/// `memory` has 4096 cells, `display` 2048 (row-major, 64 wide), `stack` 16
/// return slots of which `sp` are in use, `key` and `v` 16 entries each.
/// `halt`, `unknown` and `draw_flag` are 0-or-1 flags, as in the machine
/// itself: `unknown` marks that the cycle's instruction was unrecognized
/// and was executed as a plain program-counter advance.
#[verifier::ext_equal]
pub ghost struct State {
    pub memory: Seq<u8>,
    pub display: Seq<u8>,
    pub pc: u16,
    pub i: u16,
    pub stack: Seq<u16>,
    pub sp: u16,
    pub delay_timer: u16,
    pub sound_timer: u16,
    pub opcode: u16,
    pub key: Seq<u8>,
    pub v: Seq<u8>,
    pub halt: u8,
    pub unknown: u8,
    pub draw_flag: u8,
}

/// Well-formedness: the sizes of every region are fixed, the stack pointer
/// stays within the 16 slots, the timers stay in their effective byte range,
/// and every framebuffer cell is 0 or 1.
pub open spec fn wf(s: State) -> bool {
    &&& s.memory.len() == 4096
    &&& s.display.len() == 2048
    &&& s.stack.len() == 16
    &&& s.key.len() == 16
    &&& s.v.len() == 16
    &&& s.sp <= 16
    &&& s.delay_timer <= 255
    &&& s.sound_timer <= 255
    &&& forall|p: int| 0 <= p < 2048 ==> s.display[p] == 0 || s.display[p] == 1
}

/// The machine as created at session start: all state zero except the
/// program counter, which starts at 0x200.
pub open spec fn init_state() -> State {
    State {
        memory: Seq::new(4096, |p: int| 0u8),
        display: Seq::new(2048, |p: int| 0u8),
        pc: 0x200,
        i: 0,
        stack: Seq::new(16, |p: int| 0u16),
        sp: 0,
        delay_timer: 0,
        sound_timer: 0,
        opcode: 0,
        key: Seq::new(16, |p: int| 0u8),
        v: Seq::new(16, |p: int| 0u8),
        halt: 0,
        unknown: 0,
        draw_flag: 0,
    }
}

/// The 80-byte font table: 16 glyphs of 5 bytes, hex digits 0 through F.
pub open spec fn font_seq() -> Seq<u8> {
    seq![
        0xF0u8, 0x90u8, 0x90u8, 0x90u8, 0xF0u8,
        0x20u8, 0x60u8, 0x20u8, 0x20u8, 0x70u8,
        0xF0u8, 0x10u8, 0xF0u8, 0x80u8, 0xF0u8,
        0xF0u8, 0x10u8, 0xF0u8, 0x10u8, 0xF0u8,
        0x90u8, 0x90u8, 0xF0u8, 0x10u8, 0x10u8,
        0xF0u8, 0x80u8, 0xF0u8, 0x10u8, 0xF0u8,
        0xF0u8, 0x80u8, 0xF0u8, 0x90u8, 0xF0u8,
        0xF0u8, 0x10u8, 0x20u8, 0x40u8, 0x40u8,
        0xF0u8, 0x90u8, 0xF0u8, 0x90u8, 0xF0u8,
        0xF0u8, 0x90u8, 0xF0u8, 0x10u8, 0xF0u8,
        0xF0u8, 0x90u8, 0xF0u8, 0x90u8, 0x90u8,
        0xE0u8, 0x90u8, 0xE0u8, 0x90u8, 0xE0u8,
        0xF0u8, 0x80u8, 0x80u8, 0x80u8, 0xF0u8,
        0xE0u8, 0x90u8, 0x90u8, 0x90u8, 0xE0u8,
        0xF0u8, 0x80u8, 0xF0u8, 0x80u8, 0xF0u8,
        0xF0u8, 0x80u8, 0xF0u8, 0x80u8, 0x80u8,
    ]
}

/// The machine after the font table is written over the first 80 cells.
pub open spec fn with_fontset(s: State) -> State {
    State { memory: font_seq() + s.memory.skip(80), ..s }
}

/// The machine after `rom` is written verbatim at address 0x200.
/// Meaningful when `rom` fits below the end of memory.
pub open spec fn with_program(s: State, rom: Seq<u8>) -> State {
    State { memory: s.memory.take(0x200) + rom + s.memory.skip(0x200 + rom.len() as int), ..s }
}

// ---------------------------------------------------------------------------
// Decoding an instruction word.
// ---------------------------------------------------------------------------

/// Top nibble: the instruction family.
pub open spec fn fam(op: u16) -> int {
    op as int / 0x1000
}

/// Second nibble: the register index `x`.
pub open spec fn reg_x(op: u16) -> int {
    (op as int / 0x100) % 16
}

/// Third nibble: the register index `y`.
pub open spec fn reg_y(op: u16) -> int {
    (op as int / 16) % 16
}

/// Low nibble: the 4-bit immediate `n`.
pub open spec fn imm_n(op: u16) -> int {
    op as int % 16
}

/// Low byte: the 8-bit immediate `nn`.
pub open spec fn imm_nn(op: u16) -> u8 {
    (op as int % 256) as u8
}

/// Low 12 bits: the address immediate `nnn`.
pub open spec fn addr_nnn(op: u16) -> u16 {
    (op as int % 0x1000) as u16
}

/// The program counter advanced by `k` bytes, wrapping as a 16-bit value.
pub open spec fn pc_next(pc: u16, k: int) -> u16 {
    ((pc + k) % 0x10000) as u16
}

/// A memory cell read at `a` modulo 4096.
pub open spec fn mem_read(s: State, a: int) -> u8 {
    s.memory[a % 4096]
}

/// The big-endian 16-bit instruction word at the program counter.
pub open spec fn fetched(s: State) -> u16 {
    (mem_read(s, s.pc as int) as int * 256 + mem_read(s, s.pc as int + 1) as int) as u16
}

/// The state with the fetched word latched into `opcode` and the previous
/// cycle's unrecognized-opcode mark cleared.
pub open spec fn with_opcode(s: State, op: u16) -> State {
    State { opcode: op, unknown: 0, ..s }
}

// ---------------------------------------------------------------------------
// Small helpers shared by the transition functions.
// ---------------------------------------------------------------------------

/// Advance past the current instruction, skipping one more when `c` holds.
pub open spec fn skip_if(s: State, c: bool) -> State {
    State { pc: pc_next(s.pc, if c { 4int } else { 2int }), ..s }
}

/// A no-op that keeps execution alive: only the program counter advances.
pub open spec fn no_op(s: State) -> State {
    State { pc: pc_next(s.pc, 2), ..s }
}

/// An unrecognized opcode: the diagnostic mark is raised and only the
/// program counter advances, keeping execution alive.
pub open spec fn unknown_op(s: State) -> State {
    State { pc: pc_next(s.pc, 2), unknown: 1, ..s }
}

/// Write `val` to register `x` and advance.
pub open spec fn reg_write(s: State, x: int, val: u8) -> State {
    State { v: s.v.update(x, val), pc: pc_next(s.pc, 2), ..s }
}

// ---------------------------------------------------------------------------
// The 16 instruction families.
// ---------------------------------------------------------------------------

/// `00E0` clears the framebuffer; `00EE` returns from a subroutine.  A pop
/// with an empty stack is ignored: only the program counter advances.  An
/// unrecognized low nibble does the same and raises the diagnostic mark.
pub open spec fn spec_op_0(s: State) -> State {
    if imm_n(s.opcode) == 0 {
        State {
            display: Seq::new(2048, |p: int| 0u8),
            draw_flag: 1,
            pc: pc_next(s.pc, 2),
            ..s
        }
    } else if imm_n(s.opcode) == 0xE {
        if s.sp == 0 {
            no_op(s)
        } else {
            let sp2 = (s.sp - 1) as u16;
            State { sp: sp2, pc: pc_next(s.stack[sp2 as int], 2), ..s }
        }
    } else {
        unknown_op(s)
    }
}

/// `1nnn` jumps to `nnn`; a jump to its own address latches the halt flag.
pub open spec fn spec_op_1(s: State) -> State {
    let t = addr_nnn(s.opcode);
    State { pc: t, halt: if t == s.pc { 1u8 } else { s.halt }, ..s }
}

/// `2nnn` pushes the current program counter and jumps to `nnn`.  A push
/// with a full stack is ignored: only the program counter advances.
pub open spec fn spec_op_2(s: State) -> State {
    if s.sp < 16 {
        State {
            stack: s.stack.update(s.sp as int, s.pc),
            sp: (s.sp + 1) as u16,
            pc: addr_nnn(s.opcode),
            ..s
        }
    } else {
        no_op(s)
    }
}

/// `3xnn` skips the next instruction when `V[x] == nn`.
pub open spec fn spec_op_3(s: State) -> State {
    skip_if(s, s.v[reg_x(s.opcode)] == imm_nn(s.opcode))
}

/// `4xnn` skips the next instruction when `V[x] != nn`.
pub open spec fn spec_op_4(s: State) -> State {
    skip_if(s, s.v[reg_x(s.opcode)] != imm_nn(s.opcode))
}

/// `5xy0` skips the next instruction when `V[x] == V[y]`.
pub open spec fn spec_op_5(s: State) -> State {
    skip_if(s, s.v[reg_x(s.opcode)] == s.v[reg_y(s.opcode)])
}

/// `6xnn` stores `nn` in `V[x]`.
pub open spec fn spec_op_6(s: State) -> State {
    reg_write(s, reg_x(s.opcode), imm_nn(s.opcode))
}

/// `7xnn` adds `nn` to `V[x]` modulo 256, without touching any flag.
pub open spec fn spec_op_7(s: State) -> State {
    reg_write(s, reg_x(s.opcode), ((s.v[reg_x(s.opcode)] + imm_nn(s.opcode)) % 256) as u8)
}

/// The `8xyn` arithmetic and logic family.  Both operands are read before
/// either register is written; the assignments then happen in the order the
/// machine lists them, so when `x` is 15 the later write wins.  An
/// unrecognized low nibble only advances the program counter and raises
/// the diagnostic mark.
pub open spec fn spec_op_8(s: State) -> State {
    let x = reg_x(s.opcode);
    let y = reg_y(s.opcode);
    let vx = s.v[x];
    let vy = s.v[y];
    let n = imm_n(s.opcode);
    if n == 0 {
        reg_write(s, x, vy)
    } else if n == 1 {
        reg_write(s, x, vx | vy)
    } else if n == 2 {
        reg_write(s, x, vx & vy)
    } else if n == 3 {
        reg_write(s, x, vx ^ vy)
    } else if n == 4 {
        // V[x] takes the sum modulo 256, then V[F] takes the carry.
        State {
            v: s.v.update(x, ((vx + vy) % 256) as u8).update(
                15,
                if vx + vy > 255 { 1u8 } else { 0u8 },
            ),
            pc: pc_next(s.pc, 2),
            ..s
        }
    } else if n == 5 {
        // V[F] takes the no-borrow flag, then V[x] takes the difference.
        State {
            v: s.v.update(15, if vx >= vy { 1u8 } else { 0u8 }).update(
                x,
                ((vx - vy + 256) % 256) as u8,
            ),
            pc: pc_next(s.pc, 2),
            ..s
        }
    } else if n == 6 {
        // V[F] takes the low bit of V[x], then V[x] takes V[y] shifted right.
        State {
            v: s.v.update(15, (vx as int % 2) as u8).update(x, (vy as int / 2) as u8),
            pc: pc_next(s.pc, 2),
            ..s
        }
    } else if n == 7 {
        // V[F] takes the no-borrow flag, then V[x] takes V[y] - V[x].
        State {
            v: s.v.update(15, if vy >= vx { 1u8 } else { 0u8 }).update(
                x,
                ((vy - vx + 256) % 256) as u8,
            ),
            pc: pc_next(s.pc, 2),
            ..s
        }
    } else if n == 0xE {
        // V[F] takes the high bit of V[x], then V[x] takes V[y] shifted left.
        State {
            v: s.v.update(15, if vx >= 128 { 1u8 } else { 0u8 }).update(
                x,
                ((vy * 2) % 256) as u8,
            ),
            pc: pc_next(s.pc, 2),
            ..s
        }
    } else {
        unknown_op(s)
    }
}

/// `9xy0` skips the next instruction when `V[x] != V[y]`.
pub open spec fn spec_op_9(s: State) -> State {
    skip_if(s, s.v[reg_x(s.opcode)] != s.v[reg_y(s.opcode)])
}

/// `Annn` stores `nnn` in the index register.
pub open spec fn spec_op_a(s: State) -> State {
    State { i: addr_nnn(s.opcode), pc: pc_next(s.pc, 2), ..s }
}

/// `Bnnn` jumps to `nnn + V[0]`.
pub open spec fn spec_op_b(s: State) -> State {
    State { pc: (s.v[0] + addr_nnn(s.opcode)) as u16, ..s }
}

/// `Cxnn` stores a random byte masked with `nn`; `r` is the byte drawn.
pub open spec fn spec_op_c(s: State, r: u8) -> State {
    reg_write(s, reg_x(s.opcode), r & imm_nn(s.opcode))
}

// ---------------------------------------------------------------------------
// Sprite drawing (`Dxyn`).
// ---------------------------------------------------------------------------

/// The weight of bit `j` of a sprite row, most significant bit first.
pub open spec fn bit_weight(j: int) -> u8 {
    if j == 0 {
        128
    } else if j == 1 {
        64
    } else if j == 2 {
        32
    } else if j == 3 {
        16
    } else if j == 4 {
        8
    } else if j == 5 {
        4
    } else if j == 6 {
        2
    } else {
        1
    }
}

/// Whether bit `j` (MSB first) of sprite row byte `row` is set.
pub open spec fn sprite_on(row: u8, j: int) -> bool {
    (row as int / bit_weight(j) as int) % 2 == 1
}

/// The framebuffer cell for the pixel at column `px`, row `py`, with
/// wraparound on both axes.
pub open spec fn pixel_index(px: int, py: int) -> int {
    (py % 32) * 64 + (px % 64)
}

/// XOR one sprite bit onto the framebuffer `d` with collision flag `f`:
/// a set bit toggles the target pixel, and erasing a lit pixel raises `f`.
pub open spec fn draw_bit(d: Seq<u8>, f: u8, px: int, py: int, on: bool) -> (Seq<u8>, u8) {
    if on {
        let idx = pixel_index(px, py);
        if d[idx] == 1 {
            (d.update(idx, 0u8), 1u8)
        } else {
            (d.update(idx, 1u8), f)
        }
    } else {
        (d, f)
    }
}

/// Draw the first `k` bits of the sprite row byte `row` whose left edge is
/// at column `px`, row `py`.
pub open spec fn draw_row_upto(
    d: Seq<u8>,
    f: u8,
    row: u8,
    px: int,
    py: int,
    k: int,
) -> (Seq<u8>, u8)
    decreases k,
{
    if k <= 0 {
        (d, f)
    } else {
        let prev = draw_row_upto(d, f, row, px, py, k - 1);
        draw_bit(prev.0, prev.1, px + (k - 1), py, sprite_on(row, k - 1))
    }
}

/// Draw the first `k` rows of a sprite whose rows are read from `mem` at
/// `i`, `i + 1`, ... (modulo 4096), with the top-left corner at (`px`, `py`).
pub open spec fn draw_rows_upto(
    mem: Seq<u8>,
    i: u16,
    d: Seq<u8>,
    f: u8,
    px: int,
    py: int,
    k: int,
) -> (Seq<u8>, u8)
    decreases k,
{
    if k <= 0 {
        (d, f)
    } else {
        let prev = draw_rows_upto(mem, i, d, f, px, py, k - 1);
        draw_row_upto(prev.0, prev.1, mem[(i + k - 1) % 4096], px, py + (k - 1), 8)
    }
}

/// `Dxyn` draws the `n`-row sprite at memory `I` with its corner at
/// (`V[x]`, `V[y]`); `V[F]` starts at 0 and records any collision; the
/// framebuffer is marked dirty.
pub open spec fn spec_op_d(s: State) -> State {
    let px = s.v[reg_x(s.opcode)] as int;
    let py = s.v[reg_y(s.opcode)] as int;
    let r = draw_rows_upto(s.memory, s.i, s.display, 0u8, px, py, imm_n(s.opcode));
    State {
        display: r.0,
        v: s.v.update(15, r.1),
        draw_flag: 1,
        pc: pc_next(s.pc, 2),
        ..s
    }
}

// ---------------------------------------------------------------------------
// Key and miscellaneous families.
// ---------------------------------------------------------------------------

/// `Ex9E` skips when the key named by `V[x]` (taken modulo 16) is down;
/// `ExA1` skips when it is up; anything else only advances the program
/// counter and raises the diagnostic mark.
pub open spec fn spec_op_e(s: State) -> State {
    let pressed = s.key[s.v[reg_x(s.opcode)] as int % 16] != 0;
    if imm_nn(s.opcode) == 0x9E {
        skip_if(s, pressed)
    } else if imm_nn(s.opcode) == 0xA1 {
        skip_if(s, !pressed)
    } else {
        unknown_op(s)
    }
}

/// The highest key index below `k` that is down, or -1 when none is.
pub open spec fn highest_key(key: Seq<u8>, k: int) -> int
    decreases k,
{
    if k <= 0 {
        -1
    } else if key[k - 1] != 0 {
        k - 1
    } else {
        highest_key(key, k - 1)
    }
}

/// Memory after registers `V[0] ..= V[k-1]` are stored at `i`, `i + 1`, ...
/// (modulo 4096).
pub open spec fn store_regs(mem: Seq<u8>, v: Seq<u8>, i: int, k: int) -> Seq<u8>
    decreases k,
{
    if k <= 0 {
        mem
    } else {
        store_regs(mem, v, i, k - 1).update((i + (k - 1)) % 4096, v[k - 1])
    }
}

/// Registers after `V[0] ..= V[k-1]` are loaded from `mem` at `i`, `i + 1`,
/// ... (modulo 4096).
pub open spec fn load_regs(v: Seq<u8>, mem: Seq<u8>, i: int, k: int) -> Seq<u8>
    decreases k,
{
    if k <= 0 {
        v
    } else {
        load_regs(v, mem, i, k - 1).update(k - 1, mem[(i + (k - 1)) % 4096])
    }
}

/// The `Fxnn` family: timers, key wait, index arithmetic, font addressing,
/// BCD, and register save/restore.  An unrecognized low byte only advances
/// the program counter and raises the diagnostic mark.
pub open spec fn spec_op_f(s: State) -> State {
    let x = reg_x(s.opcode);
    let nn = imm_nn(s.opcode);
    if nn == 0x07 {
        reg_write(s, x, s.delay_timer as u8)
    } else if nn == 0x0A {
        // Blocking key wait: with no key down the instruction re-executes;
        // otherwise V[x] takes the highest key index that is down.
        let h = highest_key(s.key, 16);
        if h >= 0 {
            reg_write(s, x, h as u8)
        } else {
            s
        }
    } else if nn == 0x15 {
        State { delay_timer: s.v[x] as u16, pc: pc_next(s.pc, 2), ..s }
    } else if nn == 0x18 {
        State { sound_timer: s.v[x] as u16, pc: pc_next(s.pc, 2), ..s }
    } else if nn == 0x1E {
        State { i: ((s.i + s.v[x]) % 0x10000) as u16, pc: pc_next(s.pc, 2), ..s }
    } else if nn == 0x29 {
        State { i: (s.v[x] as int * 5) as u16, pc: pc_next(s.pc, 2), ..s }
    } else if nn == 0x33 {
        State {
            memory: s.memory.update(s.i as int % 4096, ((s.v[x] as int / 100) % 10) as u8).update(
                (s.i as int + 1) % 4096,
                ((s.v[x] as int / 10) % 10) as u8,
            ).update((s.i as int + 2) % 4096, (s.v[x] as int % 10) as u8),
            pc: pc_next(s.pc, 2),
            ..s
        }
    } else if nn == 0x55 {
        State { memory: store_regs(s.memory, s.v, s.i as int, x + 1), pc: pc_next(s.pc, 2), ..s }
    } else if nn == 0x65 {
        State { v: load_regs(s.v, s.memory, s.i as int, x + 1), pc: pc_next(s.pc, 2), ..s }
    } else {
        unknown_op(s)
    }
}

// ---------------------------------------------------------------------------
// One whole cycle.
// ---------------------------------------------------------------------------

/// Dispatch the latched opcode to its family.  `r` is the byte a random
/// source produced for this cycle; only the `Cxnn` family reads it.
pub open spec fn run_op(s: State, r: u8) -> State {
    let f = fam(s.opcode);
    if f == 0x0 {
        spec_op_0(s)
    } else if f == 0x1 {
        spec_op_1(s)
    } else if f == 0x2 {
        spec_op_2(s)
    } else if f == 0x3 {
        spec_op_3(s)
    } else if f == 0x4 {
        spec_op_4(s)
    } else if f == 0x5 {
        spec_op_5(s)
    } else if f == 0x6 {
        spec_op_6(s)
    } else if f == 0x7 {
        spec_op_7(s)
    } else if f == 0x8 {
        spec_op_8(s)
    } else if f == 0x9 {
        spec_op_9(s)
    } else if f == 0xA {
        spec_op_a(s)
    } else if f == 0xB {
        spec_op_b(s)
    } else if f == 0xC {
        spec_op_c(s, r)
    } else if f == 0xD {
        spec_op_d(s)
    } else if f == 0xE {
        spec_op_e(s)
    } else {
        spec_op_f(s)
    }
}

/// Count both timers down by one, stopping at zero.
pub open spec fn tick_timers(s: State) -> State {
    State {
        delay_timer: if s.delay_timer > 0 { (s.delay_timer - 1) as u16 } else { 0u16 },
        sound_timer: if s.sound_timer > 0 { (s.sound_timer - 1) as u16 } else { 0u16 },
        ..s
    }
}

/// One full cycle: fetch the instruction word at the program counter, run
/// its family, then tick the timers.  `r` is the byte a random source
/// produced for this cycle.
pub open spec fn spec_cycle(s: State, r: u8) -> State {
    tick_timers(run_op(with_opcode(s, fetched(s)), r))
}

} // verus!
