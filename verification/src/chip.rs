//! The executable CHIP-8 interpreter.
//!
//! Every method is specified against the abstract [`State`] in
//! [`crate::model`]: the view `self@` of a [`Chip8`] is its `State`, and
//! each operation's postcondition says that the new view is exactly the
//! model's transition function applied to the old view.

use vstd::prelude::*;

use crate::model::{
    addr_nnn, bit_weight, draw_bit, draw_row_upto, draw_rows_upto, fetched, font_seq, highest_key,
    imm_n, imm_nn, init_state, load_regs, pc_next, pixel_index, reg_x, reg_y, run_op, spec_cycle,
    spec_op_0, spec_op_1, spec_op_2, spec_op_3, spec_op_4, spec_op_5, spec_op_6, spec_op_7,
    spec_op_8, spec_op_9, spec_op_a, spec_op_b, spec_op_c, spec_op_d, spec_op_e, spec_op_f,
    sprite_on, store_regs, tick_timers, unknown_op, wf, with_fontset, with_opcode,
    with_program, State,
};
verus! {

/// Why a ROM image was rejected at load time.
#[derive(Debug, PartialEq, Eq, Structural, Clone, Copy)]
pub enum RomError {
    /// The image does not fit between 0x200 and the end of memory.
    TooLarge,
}

/// The CHIP-8 virtual machine: 4096 bytes of memory, a 64x32 monochrome
/// framebuffer, 16 registers, a 16-entry call stack, two countdown timers,
/// and 16 key flags.
pub struct Chip8 {
    memory: Vec<u8>,
    display: Vec<u8>,
    pc: u16,
    i: u16,
    stack: Vec<u16>,
    sp: u16,
    delay_timer: u16,
    sound_timer: u16,
    opcode: u16,
    key: Vec<u8>,
    v: Vec<u8>,
    halt: u8,
    unknown: u8,
    /// Raised by every framebuffer-mutating instruction; the renderer
    /// clears it after consuming a frame.  The machine never clears it.
    pub draw_flag: u8,
}

impl View for Chip8 {
    type V = State;

    closed spec fn view(&self) -> State {
        State {
            memory: self.memory@,
            display: self.display@,
            pc: self.pc,
            i: self.i,
            stack: self.stack@,
            sp: self.sp,
            delay_timer: self.delay_timer,
            sound_timer: self.sound_timer,
            opcode: self.opcode,
            key: self.key@,
            v: self.v@,
            halt: self.halt,
            unknown: self.unknown,
            draw_flag: self.draw_flag,
        }
    }
}

// ---------------------------------------------------------------------------
// Decode helpers: each mirrors one spec-level field of the opcode.
// ---------------------------------------------------------------------------

fn reg_x_exec(op: u16) -> (r: usize)
    ensures
        r == reg_x(op),
        r < 16,
{
    ((op / 0x100) % 16) as usize
}

fn reg_y_exec(op: u16) -> (r: usize)
    ensures
        r == reg_y(op),
        r < 16,
{
    ((op / 16) % 16) as usize
}

fn imm_n_exec(op: u16) -> (r: usize)
    ensures
        r == imm_n(op),
        r < 16,
{
    (op % 16) as usize
}

fn imm_nn_exec(op: u16) -> (r: u8)
    ensures
        r == imm_nn(op),
{
    (op % 256) as u8
}

fn addr_nnn_exec(op: u16) -> (r: u16)
    ensures
        r == addr_nnn(op),
        r < 0x1000,
{
    op % 0x1000
}

fn bit_weight_exec(j: usize) -> (m: u8)
    requires
        j < 8,
    ensures
        m == bit_weight(j as int),
        m > 0,
{
    match j {
        0 => 128,
        1 => 64,
        2 => 32,
        3 => 16,
        4 => 8,
        5 => 4,
        6 => 2,
        _ => 1,
    }
}

fn pc_add_exec(pc: u16, k: u16) -> (r: u16)
    ensures
        r == pc_next(pc, k as int),
{
    (((pc as u32) + (k as u32)) % 0x10000) as u16
}

/// Draws a byte from the process-wide random source.
///
/// Relies on `rand::random`: any byte may come back, and nothing is assumed
/// of its distribution, so no postcondition constrains the result.
#[verifier::external_body]
fn random_byte() -> u8 {
    rand::random()
}

impl Chip8 {
    /// A fresh machine: all state zero except the program counter, which
    /// starts at 0x200.
    pub fn new() -> (c: Chip8)
        ensures
            wf(c@),
            c@ == init_state(),
    {
        let c = Chip8 {
            memory: vec![0u8; 4096],
            display: vec![0u8; 2048],
            pc: 0x200,
            i: 0,
            stack: vec![0u16; 16],
            sp: 0,
            delay_timer: 0,
            sound_timer: 0,
            opcode: 0,
            key: vec![0u8; 16],
            v: vec![0u8; 16],
            halt: 0,
            unknown: 0,
            draw_flag: 0,
        };
        proof {
            assert(c@ =~= init_state());
        }
        c
    }

    /// `00E0`: clear the framebuffer; `00EE`: return from a subroutine.
    /// A return with an empty stack is ignored except for the program
    /// counter advancing; an unrecognized low nibble also only advances
    /// it, and raises the diagnostic mark.
    pub fn op_0(&mut self)
        requires
            wf(old(self)@),
        ensures
            wf(final(self)@),
            final(self)@ == spec_op_0(old(self)@),
    {
        let sub = imm_n_exec(self.opcode);
        if sub == 0 {
            let mut p: usize = 0;
            while p < 2048
                invariant
                    p <= 2048,
                    self.display@.len() == 2048,
                    forall|q: int| 0 <= q < p ==> self.display@[q] == 0,
                    self.memory@ == old(self).memory@,
                    self.stack@ == old(self).stack@,
                    self.key@ == old(self).key@,
                    self.v@ == old(self).v@,
                    self.pc == old(self).pc,
                    self.i == old(self).i,
                    self.sp == old(self).sp,
                    self.delay_timer == old(self).delay_timer,
                    self.sound_timer == old(self).sound_timer,
                    self.opcode == old(self).opcode,
                    self.halt == old(self).halt,
                    self.unknown == old(self).unknown,
                    self.draw_flag == old(self).draw_flag,
                decreases 2048 - p,
            {
                self.display[p] = 0;
                p = p + 1;
            }
            self.draw_flag = 1;
            self.pc = pc_add_exec(self.pc, 2);
            proof {
                assert(self@ =~= spec_op_0(old(self)@));
            }
        } else if sub == 0x0E {
            if self.sp == 0 {
                self.pc = pc_add_exec(self.pc, 2);
            } else {
                self.sp = self.sp - 1;
                let ret = self.stack[self.sp as usize];
                self.pc = pc_add_exec(ret, 2);
            }
            proof {
                assert(self@ =~= spec_op_0(old(self)@));
            }
        } else {
            self.unknown = 1;
            self.pc = pc_add_exec(self.pc, 2);
            proof {
                assert(self@ =~= spec_op_0(old(self)@));
            }
        }
    }

    /// `1nnn`: jump to `nnn`; a jump to the instruction's own address is a
    /// detected tight loop and latches the halt flag.
    pub fn op_1(&mut self)
        requires
            wf(old(self)@),
        ensures
            wf(final(self)@),
            final(self)@ == spec_op_1(old(self)@),
    {
        let t = addr_nnn_exec(self.opcode);
        if t == self.pc {
            self.halt = 1;
        }
        self.pc = t;
        proof {
            assert(self@ =~= spec_op_1(old(self)@));
        }
    }

    /// `2nnn`: push the current program counter and jump to `nnn`.  A call
    /// with all 16 stack slots in use is ignored except for the program
    /// counter advancing.
    pub fn op_2(&mut self)
        requires
            wf(old(self)@),
        ensures
            wf(final(self)@),
            final(self)@ == spec_op_2(old(self)@),
    {
        if self.sp < 16 {
            let pc = self.pc;
            self.stack[self.sp as usize] = pc;
            self.sp = self.sp + 1;
            self.pc = addr_nnn_exec(self.opcode);
        } else {
            self.pc = pc_add_exec(self.pc, 2);
        }
        proof {
            assert(self@ =~= spec_op_2(old(self)@));
        }
    }

    /// `3xnn`: skip the next instruction when `V[x] == nn`.
    pub fn op_3(&mut self)
        requires
            wf(old(self)@),
        ensures
            wf(final(self)@),
            final(self)@ == spec_op_3(old(self)@),
    {
        let x = reg_x_exec(self.opcode);
        let nn = imm_nn_exec(self.opcode);
        let k: u16 = if self.v[x] == nn { 4 } else { 2 };
        self.pc = pc_add_exec(self.pc, k);
        proof {
            assert(self@ =~= spec_op_3(old(self)@));
        }
    }

    /// `4xnn`: skip the next instruction when `V[x] != nn`.
    pub fn op_4(&mut self)
        requires
            wf(old(self)@),
        ensures
            wf(final(self)@),
            final(self)@ == spec_op_4(old(self)@),
    {
        let x = reg_x_exec(self.opcode);
        let nn = imm_nn_exec(self.opcode);
        let k: u16 = if self.v[x] != nn { 4 } else { 2 };
        self.pc = pc_add_exec(self.pc, k);
        proof {
            assert(self@ =~= spec_op_4(old(self)@));
        }
    }

    /// `5xy0`: skip the next instruction when `V[x] == V[y]`.
    pub fn op_5(&mut self)
        requires
            wf(old(self)@),
        ensures
            wf(final(self)@),
            final(self)@ == spec_op_5(old(self)@),
    {
        let x = reg_x_exec(self.opcode);
        let y = reg_y_exec(self.opcode);
        let k: u16 = if self.v[x] == self.v[y] { 4 } else { 2 };
        self.pc = pc_add_exec(self.pc, k);
        proof {
            assert(self@ =~= spec_op_5(old(self)@));
        }
    }

    /// `6xnn`: store `nn` in `V[x]`.
    pub fn op_6(&mut self)
        requires
            wf(old(self)@),
        ensures
            wf(final(self)@),
            final(self)@ == spec_op_6(old(self)@),
    {
        let x = reg_x_exec(self.opcode);
        let nn = imm_nn_exec(self.opcode);
        self.v[x] = nn;
        self.pc = pc_add_exec(self.pc, 2);
        proof {
            assert(self@ =~= spec_op_6(old(self)@));
        }
    }

    /// `7xnn`: add `nn` to `V[x]` modulo 256; no flag is touched.
    pub fn op_7(&mut self)
        requires
            wf(old(self)@),
        ensures
            wf(final(self)@),
            final(self)@ == spec_op_7(old(self)@),
    {
        let x = reg_x_exec(self.opcode);
        let nn = imm_nn_exec(self.opcode);
        let vx = self.v[x];
        self.v[x] = (((vx as u16) + (nn as u16)) % 256) as u8;
        self.pc = pc_add_exec(self.pc, 2);
        proof {
            assert(self@ =~= spec_op_7(old(self)@));
        }
    }

    /// The `8xyn` arithmetic and logic family.  Both operands are read
    /// first; the register writes then follow the machine's listed order,
    /// so when `x` is 15 the later write wins.  Sums, differences and the
    /// left shift wrap modulo 256; `V[F]` takes the carry (`8xy4`), the
    /// no-borrow flag (`8xy5`, `8xy7`), or the shifted-out bit (`8xy6`,
    /// `8xyE`).  An unrecognized low nibble only advances the program
    /// counter.
    pub fn op_8(&mut self)
        requires
            wf(old(self)@),
        ensures
            wf(final(self)@),
            final(self)@ == spec_op_8(old(self)@),
    {
        let x = reg_x_exec(self.opcode);
        let y = reg_y_exec(self.opcode);
        let n = imm_n_exec(self.opcode);
        let vx = self.v[x];
        let vy = self.v[y];
        match n {
            0 => {
                self.v[x] = vy;
                self.pc = pc_add_exec(self.pc, 2);
            }
            1 => {
                self.v[x] = vx | vy;
                self.pc = pc_add_exec(self.pc, 2);
            }
            2 => {
                self.v[x] = vx & vy;
                self.pc = pc_add_exec(self.pc, 2);
            }
            3 => {
                self.v[x] = vx ^ vy;
                self.pc = pc_add_exec(self.pc, 2);
            }
            4 => {
                let total: u16 = (vx as u16) + (vy as u16);
                self.v[x] = (total % 256) as u8;
                self.v[15] = if total > 255 { 1 } else { 0 };
                self.pc = pc_add_exec(self.pc, 2);
            }
            5 => {
                self.v[15] = if vx >= vy { 1 } else { 0 };
                self.v[x] = (((vx as u16) + 256 - (vy as u16)) % 256) as u8;
                self.pc = pc_add_exec(self.pc, 2);
            }
            6 => {
                self.v[15] = vx % 2;
                self.v[x] = vy / 2;
                self.pc = pc_add_exec(self.pc, 2);
            }
            7 => {
                self.v[15] = if vy >= vx { 1 } else { 0 };
                self.v[x] = (((vy as u16) + 256 - (vx as u16)) % 256) as u8;
                self.pc = pc_add_exec(self.pc, 2);
            }
            14 => {
                self.v[15] = if vx >= 128 { 1 } else { 0 };
                self.v[x] = (((vy as u16) * 2) % 256) as u8;
                self.pc = pc_add_exec(self.pc, 2);
            }
            _ => {
                self.unknown = 1;
                self.pc = pc_add_exec(self.pc, 2);
            }
        }
        proof {
            assert(self@ =~= spec_op_8(old(self)@));
        }
    }

    /// `9xy0`: skip the next instruction when `V[x] != V[y]`.
    pub fn op_9(&mut self)
        requires
            wf(old(self)@),
        ensures
            wf(final(self)@),
            final(self)@ == spec_op_9(old(self)@),
    {
        let x = reg_x_exec(self.opcode);
        let y = reg_y_exec(self.opcode);
        let k: u16 = if self.v[x] != self.v[y] { 4 } else { 2 };
        self.pc = pc_add_exec(self.pc, k);
        proof {
            assert(self@ =~= spec_op_9(old(self)@));
        }
    }

    /// `Annn`: store `nnn` in the index register.
    pub fn op_a(&mut self)
        requires
            wf(old(self)@),
        ensures
            wf(final(self)@),
            final(self)@ == spec_op_a(old(self)@),
    {
        self.i = addr_nnn_exec(self.opcode);
        self.pc = pc_add_exec(self.pc, 2);
        proof {
            assert(self@ =~= spec_op_a(old(self)@));
        }
    }

    /// `Bnnn`: jump to `nnn + V[0]`.
    pub fn op_b(&mut self)
        requires
            wf(old(self)@),
        ensures
            wf(final(self)@),
            final(self)@ == spec_op_b(old(self)@),
    {
        let nnn = addr_nnn_exec(self.opcode);
        self.pc = (self.v[0] as u16) + nnn;
        proof {
            assert(self@ =~= spec_op_b(old(self)@));
        }
    }

    /// `Cxnn` with the random byte `r` already drawn: store `r AND nn` in
    /// `V[x]`.  Deterministic, so its whole effect is pinned down.
    pub fn op_c_with(&mut self, r: u8)
        requires
            wf(old(self)@),
        ensures
            wf(final(self)@),
            final(self)@ == spec_op_c(old(self)@, r),
    {
        let x = reg_x_exec(self.opcode);
        let nn = imm_nn_exec(self.opcode);
        self.v[x] = r & nn;
        self.pc = pc_add_exec(self.pc, 2);
        proof {
            assert(self@ =~= spec_op_c(old(self)@, r));
        }
    }

    /// `Cxnn`: store a random byte masked with `nn` in `V[x]`.  Whatever
    /// byte the random source hands back, the outcome is `op_c_with` of it.
    pub fn op_c(&mut self)
        requires
            wf(old(self)@),
        ensures
            wf(final(self)@),
            exists|r: u8| final(self)@ == spec_op_c(old(self)@, r),
    {
        let r = random_byte();
        self.op_c_with(r);
        proof {
            assert(self@ == spec_op_c(old(self)@, r));
        }
    }

    /// `Dxyn`: draw the `n`-row sprite stored at the index register with
    /// its top-left corner at (`V[x]`, `V[y]`), wrapping on both axes.
    /// Pixels are XORed on; `V[F]` starts at 0 and is raised exactly when a
    /// lit pixel is erased.  The framebuffer is marked dirty.
    pub fn op_d(&mut self)
        requires
            wf(old(self)@),
        ensures
            wf(final(self)@),
            final(self)@ == spec_op_d(old(self)@),
    {
        let x = reg_x_exec(self.opcode);
        let y = reg_y_exec(self.opcode);
        let h = imm_n_exec(self.opcode);
        let px = self.v[x];
        let py = self.v[y];
        self.v[15] = 0;
        let ghost s0 = old(self)@;
        proof {
            assert(self.v@ =~= s0.v.update(15, 0u8));
        }
        let mut row: usize = 0;
        while row < h
            invariant
                wf(s0),
                row <= h,
                h == imm_n(s0.opcode),
                px == s0.v[reg_x(s0.opcode)],
                py == s0.v[reg_y(s0.opcode)],
                self.display@.len() == 2048,
                forall|q: int| 0 <= q < 2048 ==> self.display@[q] == 0 || self.display@[q] == 1,
                self.display@ == draw_rows_upto(
                    s0.memory,
                    s0.i,
                    s0.display,
                    0u8,
                    px as int,
                    py as int,
                    row as int,
                ).0,
                self.v@ == s0.v.update(
                    15,
                    draw_rows_upto(
                        s0.memory,
                        s0.i,
                        s0.display,
                        0u8,
                        px as int,
                        py as int,
                        row as int,
                    ).1,
                ),
                self.memory@ == s0.memory,
                self.memory@.len() == 4096,
                self.stack@ == s0.stack,
                self.key@ == s0.key,
                self.pc == s0.pc,
                self.i == s0.i,
                self.sp == s0.sp,
                self.delay_timer == s0.delay_timer,
                self.sound_timer == s0.sound_timer,
                self.opcode == s0.opcode,
                self.halt == s0.halt,
                self.unknown == s0.unknown,
                self.draw_flag == s0.draw_flag,
            decreases h - row,
        {
            let rb = self.memory[(self.i as usize + row) % 4096];
            let ghost d_row = self.display@;
            let ghost f_row = self.v@[15];
            let mut bitj: usize = 0;
            while bitj < 8
                invariant
                    wf(s0),
                    bitj <= 8,
                    row < h,
                    h == imm_n(s0.opcode),
                    px == s0.v[reg_x(s0.opcode)],
                    py == s0.v[reg_y(s0.opcode)],
                    rb == s0.memory[(s0.i + row) % 4096],
                    self.display@.len() == 2048,
                    forall|q: int|
                        0 <= q < 2048 ==> self.display@[q] == 0 || self.display@[q] == 1,
                    self.display@ == draw_row_upto(
                        d_row,
                        f_row,
                        rb,
                        px as int,
                        py as int + row,
                        bitj as int,
                    ).0,
                    self.v@ == s0.v.update(
                        15,
                        draw_row_upto(
                            d_row,
                            f_row,
                            rb,
                            px as int,
                            py as int + row,
                            bitj as int,
                        ).1,
                    ),
                    self.memory@ == s0.memory,
                    self.memory@.len() == 4096,
                    self.stack@ == s0.stack,
                    self.key@ == s0.key,
                    self.pc == s0.pc,
                    self.i == s0.i,
                    self.sp == s0.sp,
                    self.delay_timer == s0.delay_timer,
                    self.sound_timer == s0.sound_timer,
                    self.opcode == s0.opcode,
                    self.halt == s0.halt,
                    self.unknown == s0.unknown,
                    self.draw_flag == s0.draw_flag,
                decreases 8 - bitj,
            {
                let ghost prev = draw_row_upto(
                    d_row,
                    f_row,
                    rb,
                    px as int,
                    py as int + row,
                    bitj as int,
                );
                let m = bit_weight_exec(bitj);
                if (rb / m) % 2 == 1 {
                    let idx: usize = ((py as usize + row) % 32) * 64 + ((px as usize + bitj)
                        % 64);
                    proof {
                        assert(idx as int == pixel_index(px as int + bitj, py as int + row));
                    }
                    if self.display[idx] == 1 {
                        self.display[idx] = 0;
                        self.v[15] = 1;
                        proof {
                            assert(self.v@ =~= s0.v.update(15, 1u8));
                        }
                    } else {
                        self.display[idx] = 1;
                    }
                }
                proof {
                    assert(draw_row_upto(
                        d_row,
                        f_row,
                        rb,
                        px as int,
                        py as int + row,
                        bitj + 1,
                    ) == draw_bit(
                        prev.0,
                        prev.1,
                        px as int + bitj,
                        py as int + row,
                        sprite_on(rb, bitj as int),
                    ));
                }
                bitj = bitj + 1;
            }
            proof {
                assert(draw_rows_upto(
                    s0.memory,
                    s0.i,
                    s0.display,
                    0u8,
                    px as int,
                    py as int,
                    row + 1,
                ) == draw_row_upto(
                    d_row,
                    f_row,
                    s0.memory[(s0.i + row) % 4096],
                    px as int,
                    py as int + row,
                    8,
                ));
            }
            row = row + 1;
        }
        self.draw_flag = 1;
        self.pc = pc_add_exec(self.pc, 2);
        proof {
            assert(self@ =~= spec_op_d(old(self)@));
        }
    }

    /// `Ex9E` / `ExA1`: skip the next instruction when the key named by
    /// `V[x]` (modulo 16) is down / up.  An unrecognized low byte only
    /// advances the program counter.
    pub fn op_e(&mut self)
        requires
            wf(old(self)@),
        ensures
            wf(final(self)@),
            final(self)@ == spec_op_e(old(self)@),
    {
        let x = reg_x_exec(self.opcode);
        let nn = imm_nn_exec(self.opcode);
        let ki: usize = (self.v[x] as usize) % 16;
        let pressed = self.key[ki] != 0;
        if nn == 0x9E {
            let k: u16 = if pressed { 4 } else { 2 };
            self.pc = pc_add_exec(self.pc, k);
        } else if nn == 0xA1 {
            let k: u16 = if !pressed { 4 } else { 2 };
            self.pc = pc_add_exec(self.pc, k);
        } else {
            self.unknown = 1;
            self.pc = pc_add_exec(self.pc, 2);
        }
        proof {
            assert(self@ =~= spec_op_e(old(self)@));
        }
    }

    /// The `Fxnn` family: timer reads and writes, the blocking key wait,
    /// index-register arithmetic, font addressing, BCD, and register
    /// save/restore.  An unrecognized low byte only advances the program
    /// counter.
    pub fn op_f(&mut self)
        requires
            wf(old(self)@),
        ensures
            wf(final(self)@),
            final(self)@ == spec_op_f(old(self)@),
    {
        let x = reg_x_exec(self.opcode);
        let nn = imm_nn_exec(self.opcode);
        match nn {
            0x07 => {
                self.v[x] = self.delay_timer as u8;
                self.pc = pc_add_exec(self.pc, 2);
            }
            0x0A => {
                // Scan all 16 keys; the highest key that is down wins.
                // With none down the program counter stands still, so the
                // same instruction is fetched again next cycle.
                let mut found = false;
                let mut which: u8 = 0;
                let mut j: usize = 0;
                while j < 16
                    invariant
                        j <= 16,
                        wf(self@),
                        self@ == old(self)@,
                        found == (highest_key(self.key@, j as int) >= 0),
                        found ==> which as int == highest_key(self.key@, j as int),
                    decreases 16 - j,
                {
                    if self.key[j] != 0 {
                        found = true;
                        which = j as u8;
                    }
                    j = j + 1;
                }
                if found {
                    self.v[x] = which;
                    self.pc = pc_add_exec(self.pc, 2);
                }
            }
            0x15 => {
                self.delay_timer = self.v[x] as u16;
                self.pc = pc_add_exec(self.pc, 2);
            }
            0x18 => {
                self.sound_timer = self.v[x] as u16;
                self.pc = pc_add_exec(self.pc, 2);
            }
            0x1E => {
                self.i = (((self.i as u32) + (self.v[x] as u32)) % 0x10000) as u16;
                self.pc = pc_add_exec(self.pc, 2);
            }
            0x29 => {
                self.i = (self.v[x] as u16) * 5;
                self.pc = pc_add_exec(self.pc, 2);
            }
            0x33 => {
                let vx = self.v[x];
                let base = self.i as usize;
                self.memory[base % 4096] = (vx / 100) % 10;
                self.memory[(base + 1) % 4096] = (vx / 10) % 10;
                self.memory[(base + 2) % 4096] = vx % 10;
                self.pc = pc_add_exec(self.pc, 2);
            }
            0x55 => {
                let base = self.i as usize;
                let mut j: usize = 0;
                while j <= x
                    invariant
                        x < 16,
                        j <= x + 1,
                        base == old(self).i as usize,
                        self.memory@.len() == 4096,
                        self.memory@ == store_regs(
                            old(self).memory@,
                            old(self).v@,
                            old(self).i as int,
                            j as int,
                        ),
                        self.display@ == old(self).display@,
                        self.stack@ == old(self).stack@,
                        self.key@ == old(self).key@,
                        self.v@ == old(self).v@,
                        self.v@.len() == 16,
                        self.pc == old(self).pc,
                        self.i == old(self).i,
                        self.sp == old(self).sp,
                        self.delay_timer == old(self).delay_timer,
                        self.sound_timer == old(self).sound_timer,
                        self.opcode == old(self).opcode,
                        self.halt == old(self).halt,
                        self.unknown == old(self).unknown,
                        self.draw_flag == old(self).draw_flag,
                    decreases x + 1 - j,
                {
                    let val = self.v[j];
                    self.memory[(base + j) % 4096] = val;
                    j = j + 1;
                }
                self.pc = pc_add_exec(self.pc, 2);
            }
            0x65 => {
                let base = self.i as usize;
                let mut j: usize = 0;
                while j <= x
                    invariant
                        x < 16,
                        j <= x + 1,
                        base == old(self).i as usize,
                        self.memory@ == old(self).memory@,
                        self.memory@.len() == 4096,
                        self.v@ == load_regs(
                            old(self).v@,
                            old(self).memory@,
                            old(self).i as int,
                            j as int,
                        ),
                        self.v@.len() == 16,
                        self.display@ == old(self).display@,
                        self.stack@ == old(self).stack@,
                        self.key@ == old(self).key@,
                        self.pc == old(self).pc,
                        self.i == old(self).i,
                        self.sp == old(self).sp,
                        self.delay_timer == old(self).delay_timer,
                        self.sound_timer == old(self).sound_timer,
                        self.opcode == old(self).opcode,
                        self.halt == old(self).halt,
                        self.unknown == old(self).unknown,
                        self.draw_flag == old(self).draw_flag,
                    decreases x + 1 - j,
                {
                    let val = self.memory[(base + j) % 4096];
                    self.v[j] = val;
                    j = j + 1;
                }
                self.pc = pc_add_exec(self.pc, 2);
            }
            _ => {
                self.unknown = 1;
                self.pc = pc_add_exec(self.pc, 2);
            }
        }
        proof {
            assert(self@ =~= spec_op_f(old(self)@));
        }
    }

    /// One full cycle: fetch the big-endian instruction word at the program
    /// counter (addresses taken modulo 4096), dispatch it to its family,
    /// then count both timers down by one, stopping at zero.  Whatever byte
    /// the random source produced for a `Cxnn` instruction, the new state
    /// is exactly the model's cycle function of the old state and that byte.
    pub fn emulate_cycle(&mut self)
        requires
            wf(old(self)@),
        ensures
            wf(final(self)@),
            exists|r: u8| final(self)@ == spec_cycle(old(self)@, r),
    {
        let pcu = self.pc as usize;
        let hi = self.memory[pcu % 4096];
        let lo = self.memory[(pcu + 1) % 4096];
        self.opcode = (hi as u16) * 256 + (lo as u16);
        self.unknown = 0;
        let ghost mid = self@;
        proof {
            assert(mid =~= with_opcode(old(self)@, fetched(old(self)@)));
        }
        let f = (self.opcode / 0x1000) as usize;
        let ghost mut rw: u8 = 0;
        if f == 0x0 {
            self.op_0();
        } else if f == 0x1 {
            self.op_1();
        } else if f == 0x2 {
            self.op_2();
        } else if f == 0x3 {
            self.op_3();
        } else if f == 0x4 {
            self.op_4();
        } else if f == 0x5 {
            self.op_5();
        } else if f == 0x6 {
            self.op_6();
        } else if f == 0x7 {
            self.op_7();
        } else if f == 0x8 {
            self.op_8();
        } else if f == 0x9 {
            self.op_9();
        } else if f == 0xA {
            self.op_a();
        } else if f == 0xB {
            self.op_b();
        } else if f == 0xC {
            self.op_c();
            proof {
                rw = choose|r: u8| self@ == spec_op_c(mid, r);
            }
        } else if f == 0xD {
            self.op_d();
        } else if f == 0xE {
            self.op_e();
        } else {
            self.op_f();
        }
        proof {
            assert(self@ == run_op(mid, rw));
        }
        let ghost post = self@;
        if self.delay_timer > 0 {
            self.delay_timer = self.delay_timer - 1;
        }
        if self.sound_timer > 0 {
            self.sound_timer = self.sound_timer - 1;
        }
        proof {
            assert(self@ =~= tick_timers(post));
            assert(self@ == spec_cycle(old(self)@, rw));
        }
    }

    /// Write the 80-byte font table over the first 80 memory cells; the
    /// rest of memory is untouched.
    pub fn load_fontset(&mut self)
        requires
            wf(old(self)@),
        ensures
            wf(final(self)@),
            final(self)@ == with_fontset(old(self)@),
    {
        let t = font_table();
        let mut j: usize = 0;
        while j < 80
            invariant
                j <= 80,
                t@ == font_seq(),
                t@.len() == 80,
                self.memory@.len() == 4096,
                forall|q: int| 0 <= q < j ==> self.memory@[q] == font_seq()[q],
                forall|q: int| j <= q < 4096 ==> self.memory@[q] == old(self).memory@[q],
                self.display@ == old(self).display@,
                self.stack@ == old(self).stack@,
                self.key@ == old(self).key@,
                self.v@ == old(self).v@,
                self.pc == old(self).pc,
                self.i == old(self).i,
                self.sp == old(self).sp,
                self.delay_timer == old(self).delay_timer,
                self.sound_timer == old(self).sound_timer,
                self.opcode == old(self).opcode,
                self.halt == old(self).halt,
                self.unknown == old(self).unknown,
                self.draw_flag == old(self).draw_flag,
            decreases 80 - j,
        {
            let b = t[j];
            self.memory[j] = b;
            j = j + 1;
        }
        proof {
            assert(self@ =~= with_fontset(old(self)@));
        }
    }


    // -----------------------------------------------------------------------
    // Observation: the driver reads the machine through these.
    // -----------------------------------------------------------------------

    /// The program counter.
    pub fn pc(&self) -> (r: u16)
        ensures
            r == self@.pc,
    {
        self.pc
    }

    /// The index register `I`.
    pub fn index_register(&self) -> (r: u16)
        ensures
            r == self@.i,
    {
        self.i
    }

    /// The stack pointer: how many call-stack slots are in use.
    pub fn stack_pointer(&self) -> (r: u16)
        ensures
            r == self@.sp,
    {
        self.sp
    }

    /// The saved return address in stack slot `j`.
    pub fn stack_at(&self, j: usize) -> (r: u16)
        requires
            wf(self@),
            j < 16,
        ensures
            r == self@.stack[j as int],
    {
        self.stack[j]
    }

    /// The delay timer.
    pub fn delay_timer(&self) -> (r: u16)
        ensures
            r == self@.delay_timer,
    {
        self.delay_timer
    }

    /// The sound timer; the driver plays a tone while it is nonzero.
    pub fn sound_timer(&self) -> (r: u16)
        ensures
            r == self@.sound_timer,
    {
        self.sound_timer
    }

    /// The most recently fetched instruction word.
    pub fn current_opcode(&self) -> (r: u16)
        ensures
            r == self@.opcode,
    {
        self.opcode
    }

    /// Whether a self-jump has been detected; a driver should stop
    /// stepping a halted machine.
    pub fn halted(&self) -> (r: bool)
        ensures
            r == (self@.halt != 0),
    {
        self.halt != 0
    }

    /// Whether the last executed instruction was unrecognized.  The
    /// machine treats such an instruction as a no-op that only advances
    /// the program counter; the next fetch clears the mark, so a driver
    /// that wants to report the diagnostic reads it after each cycle.
    pub fn unknown_opcode(&self) -> (r: bool)
        ensures
            r == (self@.unknown != 0),
    {
        self.unknown != 0
    }

    /// General-purpose register `V[j]`.
    pub fn register(&self, j: usize) -> (r: u8)
        requires
            wf(self@),
            j < 16,
        ensures
            r == self@.v[j as int],
    {
        self.v[j]
    }

    /// The memory cell at `a` modulo 4096.
    pub fn memory_at(&self, a: usize) -> (r: u8)
        requires
            wf(self@),
        ensures
            r == self@.memory[a as int % 4096],
    {
        self.memory[a % 4096]
    }

    /// The framebuffer pixel at column `col`, row `row`: 0 or 1.
    pub fn pixel(&self, col: usize, row: usize) -> (r: u8)
        requires
            wf(self@),
            col < 64,
            row < 32,
        ensures
            r == self@.display[row as int * 64 + col],
    {
        self.display[row * 64 + col]
    }

    // -----------------------------------------------------------------------
    // Input: the driver feeds key and timer state through these.
    // -----------------------------------------------------------------------

    /// Record key `j` as down or up; the input provider calls this before
    /// each cycle.
    pub fn set_key(&mut self, j: usize, down: bool)
        requires
            wf(old(self)@),
            j < 16,
        ensures
            wf(final(self)@),
            final(self)@ == (State {
                key: old(self)@.key.update(j as int, if down { 1u8 } else { 0u8 }),
                ..old(self)@
            }),
    {
        self.key[j] = if down { 1 } else { 0 };
        proof {
            assert(self@ =~= (State {
                key: old(self)@.key.update(j as int, if down { 1u8 } else { 0u8 }),
                ..old(self)@
            }));
        }
    }

    /// Set the delay timer.
    pub fn set_delay_timer(&mut self, t: u8)
        requires
            wf(old(self)@),
        ensures
            wf(final(self)@),
            final(self)@ == (State { delay_timer: t as u16, ..old(self)@ }),
    {
        self.delay_timer = t as u16;
    }

    /// Set the sound timer.
    pub fn set_sound_timer(&mut self, t: u8)
        requires
            wf(old(self)@),
        ensures
            wf(final(self)@),
            final(self)@ == (State { sound_timer: t as u16, ..old(self)@ }),
    {
        self.sound_timer = t as u16;
    }

    /// Store `val` in register `V[j]`.
    pub fn set_register(&mut self, j: usize, val: u8)
        requires
            wf(old(self)@),
            j < 16,
        ensures
            wf(final(self)@),
            final(self)@ == (State { v: old(self)@.v.update(j as int, val), ..old(self)@ }),
    {
        self.v[j] = val;
        proof {
            assert(self@ =~= (State { v: old(self)@.v.update(j as int, val), ..old(self)@ }));
        }
    }
}

/// The 16 hexadecimal glyphs, 5 bytes each, as a vector equal to the
/// model's font table.
fn font_table() -> (t: Vec<u8>)
    ensures
        t@ == font_seq(),
{
    let mut t: Vec<u8> = Vec::new();
    t.push(0xF0); t.push(0x90); t.push(0x90); t.push(0x90); t.push(0xF0);
    t.push(0x20); t.push(0x60); t.push(0x20); t.push(0x20); t.push(0x70);
    t.push(0xF0); t.push(0x10); t.push(0xF0); t.push(0x80); t.push(0xF0);
    t.push(0xF0); t.push(0x10); t.push(0xF0); t.push(0x10); t.push(0xF0);
    t.push(0x90); t.push(0x90); t.push(0xF0); t.push(0x10); t.push(0x10);
    t.push(0xF0); t.push(0x80); t.push(0xF0); t.push(0x10); t.push(0xF0);
    t.push(0xF0); t.push(0x80); t.push(0xF0); t.push(0x90); t.push(0xF0);
    t.push(0xF0); t.push(0x10); t.push(0x20); t.push(0x40); t.push(0x40);
    t.push(0xF0); t.push(0x90); t.push(0xF0); t.push(0x90); t.push(0xF0);
    t.push(0xF0); t.push(0x90); t.push(0xF0); t.push(0x10); t.push(0xF0);
    t.push(0xF0); t.push(0x90); t.push(0xF0); t.push(0x90); t.push(0x90);
    t.push(0xE0); t.push(0x90); t.push(0xE0); t.push(0x90); t.push(0xE0);
    t.push(0xF0); t.push(0x80); t.push(0x80); t.push(0x80); t.push(0xF0);
    t.push(0xE0); t.push(0x90); t.push(0x90); t.push(0x90); t.push(0xE0);
    t.push(0xF0); t.push(0x80); t.push(0xF0); t.push(0x80); t.push(0xF0);
    t.push(0xF0); t.push(0x80); t.push(0xF0); t.push(0x80); t.push(0x80);
    proof {
        assert(t@ =~= font_seq());
    }
    t
}

/// Write `rom` verbatim into the machine's memory starting at address
/// 0x200.  An image longer than the 3584 cells between 0x200 and the end
/// of memory is rejected and the machine is left untouched.
pub fn load_program(s: &mut Chip8, rom: &[u8]) -> (r: Result<(), RomError>)
    requires
        wf(old(s)@),
    ensures
        wf(final(s)@),
        rom@.len() <= 3584 ==> r == Ok::<(), RomError>(()) && final(s)@ == with_program(
            old(s)@,
            rom@,
        ),
        rom@.len() > 3584 ==> r == Err::<(), RomError>(RomError::TooLarge) && final(s)@ == old(
            s,
        )@,
{
    if rom.len() > 3584 {
        return Err(RomError::TooLarge);
    }
    let n = rom.len();
    let mut j: usize = 0;
    while j < n
        invariant
            j <= n,
            n == rom@.len(),
            n <= 3584,
            s.memory@.len() == 4096,
            forall|q: int| 0 <= q < 0x200 ==> s.memory@[q] == old(s).memory@[q],
            forall|q: int| 0x200 <= q < 0x200 + j ==> s.memory@[q] == rom@[q - 0x200],
            forall|q: int| 0x200 + j <= q < 4096 ==> s.memory@[q] == old(s).memory@[q],
            s.display@ == old(s).display@,
            s.stack@ == old(s).stack@,
            s.key@ == old(s).key@,
            s.v@ == old(s).v@,
            s.pc == old(s).pc,
            s.i == old(s).i,
            s.sp == old(s).sp,
            s.delay_timer == old(s).delay_timer,
            s.sound_timer == old(s).sound_timer,
            s.opcode == old(s).opcode,
            s.halt == old(s).halt,
            s.unknown == old(s).unknown,
            s.draw_flag == old(s).draw_flag,
        decreases n - j,
    {
        let b = rom[j];
        s.memory[0x200 + j] = b;
        j = j + 1;
    }
    proof {
        assert(s@ =~= with_program(old(s)@, rom@));
    }
    Ok(())
}

} // verus!
