//! General laws of the instruction set, proved over the model in
//! [`crate::model`].
//!
//! Each law quantifies over every machine state its `requires` admits, so
//! together with the exact per-instruction postconditions of
//! [`crate::chip::Chip8`] these facts hold of the running interpreter.

use vstd::prelude::*;

use crate::model::{
    addr_nnn, draw_row_upto, draw_rows_upto, fam, fetched, imm_n, imm_nn, load_regs, mem_read,
    pc_next, pixel_index, reg_x, reg_y, spec_cycle, spec_op_0, spec_op_1, spec_op_2, spec_op_7,
    spec_op_8, spec_op_d, spec_op_f, sprite_on, store_regs, wf, State,
};
use vstd::arithmetic::div_mod::lemma_fundamental_div_mod;

verus! {

/// The other framebuffer value: 1 for 0, 0 for 1.
spec fn toggled(b: u8) -> u8 {
    if b == 1 {
        0u8
    } else {
        1u8
    }
}

/// Whether one of the first `k` bits of sprite row `row`, drawn with its
/// left edge at (`px`, `py`), lands on framebuffer cell `p`.
spec fn row_hits(row: u8, px: int, py: int, p: int, k: int) -> bool {
    exists|j: int| 0 <= j < k && sprite_on(row, j) && p == pixel_index(px + j, py)
}

/// Two offsets less than 64 apart never share a residue modulo 64.
proof fn lemma_mod64_distinct(a: int, t: int)
    requires
        0 <= a,
        0 < t < 64,
    ensures
        (a + t) % 64 != a % 64,
{
    if (a + t) % 64 == a % 64 {
        lemma_fundamental_div_mod(a, 64);
        lemma_fundamental_div_mod(a + t, 64);
        let q1 = a / 64;
        let q2 = (a + t) / 64;
        assert(64 * q2 - 64 * q1 == t);
        assert(64 * (q2 - q1) == t);
        assert(false);
    }
}

// ---------------------------------------------------------------------------
// Induction helpers for the recursive transition functions.
// ---------------------------------------------------------------------------

proof fn lemma_store_regs_len(mem: Seq<u8>, v: Seq<u8>, i: int, k: int)
    requires
        mem.len() == 4096,
    ensures
        store_regs(mem, v, i, k).len() == 4096,
    decreases k,
{
    if k > 0 {
        lemma_store_regs_len(mem, v, i, k - 1);
    }
}

proof fn lemma_load_regs_len(v: Seq<u8>, mem: Seq<u8>, i: int, k: int)
    requires
        v.len() == 16,
        k <= 16,
    ensures
        load_regs(v, mem, i, k).len() == 16,
    decreases k,
{
    if k > 0 {
        lemma_load_regs_len(v, mem, i, k - 1);
    }
}

proof fn lemma_draw_row_upto_wf(d: Seq<u8>, f: u8, row: u8, px: int, py: int, k: int)
    requires
        d.len() == 2048,
        forall|p: int| 0 <= p < 2048 ==> d[p] == 0 || d[p] == 1,
    ensures
        draw_row_upto(d, f, row, px, py, k).0.len() == 2048,
        forall|p: int|
            0 <= p < 2048 ==> #[trigger] draw_row_upto(d, f, row, px, py, k).0[p] == 0
                || draw_row_upto(d, f, row, px, py, k).0[p] == 1,
    decreases k,
{
    if k > 0 {
        lemma_draw_row_upto_wf(d, f, row, px, py, k - 1);
    }
}

proof fn lemma_draw_rows_upto_wf(
    mem: Seq<u8>,
    i: u16,
    d: Seq<u8>,
    f: u8,
    px: int,
    py: int,
    k: int,
)
    requires
        d.len() == 2048,
        forall|p: int| 0 <= p < 2048 ==> d[p] == 0 || d[p] == 1,
    ensures
        draw_rows_upto(mem, i, d, f, px, py, k).0.len() == 2048,
        forall|p: int|
            0 <= p < 2048 ==> #[trigger] draw_rows_upto(mem, i, d, f, px, py, k).0[p] == 0
                || draw_rows_upto(mem, i, d, f, px, py, k).0[p] == 1,
    decreases k,
{
    if k > 0 {
        lemma_draw_rows_upto_wf(mem, i, d, f, px, py, k - 1);
        let prev = draw_rows_upto(mem, i, d, f, px, py, k - 1);
        lemma_draw_row_upto_wf(prev.0, prev.1, mem[(i + k - 1) % 4096], px, py + (k - 1), 8);
    }
}

/// What drawing one sprite row does, pixel by pixel: cells no bit lands
/// on keep their value, each set bit toggles its own cell, and the flag
/// comes out 1 exactly when it went in as 1 or some set bit erased a lit
/// cell.  The eight bits of a row land on eight distinct cells, which is
/// what makes the pointwise reading sound.
proof fn lemma_draw_row_upto_effect(d: Seq<u8>, f: u8, row: u8, px: int, py: int, k: int)
    requires
        d.len() == 2048,
        forall|p: int| 0 <= p < 2048 ==> d[p] == 0 || d[p] == 1,
        f == 0 || f == 1,
        0 <= px,
        0 <= py,
        0 <= k <= 8,
    ensures
        ({
            let r = draw_row_upto(d, f, row, px, py, k);
            &&& r.0.len() == 2048
            &&& (forall|p: int|
                0 <= p < 2048 && !row_hits(row, px, py, p, k) ==> r.0[p] == d[p])
            &&& (forall|j: int|
                0 <= j < k && sprite_on(row, j) ==> r.0[pixel_index(px + j, py)] == toggled(
                    d[pixel_index(px + j, py)],
                ))
            &&& (r.1 == 0 || r.1 == 1)
            &&& (r.1 == 1 <==> (f == 1 || exists|j: int|
                0 <= j < k && sprite_on(row, j) && d[pixel_index(px + j, py)] == 1))
        }),
    decreases k,
{
    if k > 0 {
        lemma_draw_row_upto_effect(d, f, row, px, py, k - 1);
        let prev = draw_row_upto(d, f, row, px, py, k - 1);
        let jk = k - 1;
        let pix = pixel_index(px + jk, py);
        let on = sprite_on(row, jk);
        let rk = draw_row_upto(d, f, row, px, py, k);
        assert(0 <= pix < 2048);
        // No earlier bit of the row lands on this bit's cell.
        assert forall|j: int| 0 <= j < jk implies #[trigger] pixel_index(px + j, py) != pix by {
            lemma_mod64_distinct(px + j, jk - j);
        }
        if row_hits(row, px, py, pix, jk) {
            let j = choose|j: int|
                0 <= j < jk && sprite_on(row, j) && pix == pixel_index(px + j, py);
            assert(pixel_index(px + j, py) != pix);
            assert(false);
        }
        assert(prev.0[pix] == d[pix]);
        // Cells that no bit of the longer prefix hits keep their value.
        assert forall|p: int|
            0 <= p < 2048 && !row_hits(row, px, py, p, k) implies rk.0[p] == d[p] by {
            if row_hits(row, px, py, p, jk) {
                let j = choose|j: int|
                    0 <= j < jk && sprite_on(row, j) && p == pixel_index(px + j, py);
                assert(0 <= j < k && sprite_on(row, j) && p == pixel_index(px + j, py));
                assert(row_hits(row, px, py, p, k));
            }
            if on && p == pix {
                assert(row_hits(row, px, py, p, k));
            }
        }
        // Each set bit of the longer prefix has toggled its own cell.
        assert forall|j: int|
            0 <= j < k && sprite_on(row, j) implies rk.0[pixel_index(px + j, py)] == toggled(
            d[pixel_index(px + j, py)],
        ) by {
            if j < jk {
                assert(pixel_index(px + j, py) != pix);
                assert(prev.0[pixel_index(px + j, py)] == toggled(d[pixel_index(px + j, py)]));
            }
        }
        // The flag comes out 1 exactly when it went in 1 or a lit cell
        // was erased.
        if rk.1 == 1 && f != 1 {
            if prev.1 == 1 {
                let j = choose|j: int|
                    0 <= j < jk && sprite_on(row, j) && d[pixel_index(px + j, py)] == 1;
                assert(0 <= j < k && sprite_on(row, j) && d[pixel_index(px + j, py)] == 1);
            } else {
                assert(on && d[pix] == 1);
            }
        }
        if exists|j: int| 0 <= j < k && sprite_on(row, j) && d[pixel_index(px + j, py)] == 1 {
            let j = choose|j: int|
                0 <= j < k && sprite_on(row, j) && d[pixel_index(px + j, py)] == 1;
            if j < jk {
                assert(prev.1 == 1);
            } else {
                assert(on && d[pix] == 1);
            }
            assert(rk.1 == 1);
        }
    }
}

/// Drawing the same one-row sprite twice at the same place restores the
/// framebuffer, and the second draw's collision flag is raised exactly
/// when the sprite has a set bit whose cell the first draw had lit —
/// that is, a cell that started dark.  On a dark screen: the first draw
/// reports no collision and the second one reports a collision wherever
/// the sprite has any set bit.
pub proof fn lemma_draw_row_twice(d: Seq<u8>, row: u8, px: int, py: int)
    requires
        d.len() == 2048,
        forall|p: int| 0 <= p < 2048 ==> d[p] == 0 || d[p] == 1,
        0 <= px,
        0 <= py,
    ensures
        ({
            let first = draw_row_upto(d, 0u8, row, px, py, 8);
            let second = draw_row_upto(first.0, 0u8, row, px, py, 8);
            &&& second.0 =~= d
            &&& (first.1 == 1 <==> exists|j: int|
                0 <= j < 8 && sprite_on(row, j) && d[pixel_index(px + j, py)] == 1)
            &&& (second.1 == 1 <==> exists|j: int|
                0 <= j < 8 && sprite_on(row, j) && d[pixel_index(px + j, py)] == 0)
        }),
{
    lemma_draw_row_upto_effect(d, 0u8, row, px, py, 8);
    let first = draw_row_upto(d, 0u8, row, px, py, 8);
    assert forall|p: int| 0 <= p < 2048 implies first.0[p] == 0 || first.0[p] == 1 by {
        if row_hits(row, px, py, p, 8) {
            let j = choose|j: int|
                0 <= j < 8 && sprite_on(row, j) && p == pixel_index(px + j, py);
            assert(first.0[p] == toggled(d[p]));
        } else {
            assert(first.0[p] == d[p]);
        }
    }
    lemma_draw_row_upto_effect(first.0, 0u8, row, px, py, 8);
    let second = draw_row_upto(first.0, 0u8, row, px, py, 8);
    // Pointwise, the second draw undoes the first.
    assert forall|p: int| 0 <= p < 2048 implies second.0[p] == d[p] by {
        if row_hits(row, px, py, p, 8) {
            let j = choose|j: int|
                0 <= j < 8 && sprite_on(row, j) && p == pixel_index(px + j, py);
            assert(first.0[p] == toggled(d[p]));
            assert(second.0[p] == toggled(first.0[p]));
        } else {
            assert(first.0[p] == d[p]);
            assert(second.0[p] == first.0[p]);
        }
    }
    assert(second.0 =~= d);
    // The second flag, read back through the first draw's toggles.
    if second.1 == 1 {
        let j = choose|j: int|
            0 <= j < 8 && sprite_on(row, j) && first.0[pixel_index(px + j, py)] == 1;
        assert(first.0[pixel_index(px + j, py)] == toggled(d[pixel_index(px + j, py)]));
        assert(d[pixel_index(px + j, py)] == 0);
    }
    if exists|j: int| 0 <= j < 8 && sprite_on(row, j) && d[pixel_index(px + j, py)] == 0 {
        let j = choose|j: int| 0 <= j < 8 && sprite_on(row, j) && d[pixel_index(px + j, py)] == 0;
        assert(first.0[pixel_index(px + j, py)] == toggled(d[pixel_index(px + j, py)]));
        assert(first.0[pixel_index(px + j, py)] == 1);
        assert(second.1 == 1);
    }
}

/// `Dxy1` drawn twice: executing a one-row sprite draw from `s`, and then
/// the same draw from any later state `t` whose framebuffer is the first
/// draw's output and whose sprite row and coordinates are unchanged,
/// restores the framebuffer.  The first draw's `V[F]` is 1 exactly when
/// some set bit of the row erased an already-lit cell; the second draw's
/// `V[F]` is 1 exactly when some set bit found a cell the first draw had
/// lit — on a dark screen, 0 and then 1 for any sprite with a set bit.
pub proof fn lemma_sprite_draw_twice(s: State, t: State)
    requires
        wf(s),
        wf(t),
        fam(s.opcode) == 0xD,
        imm_n(s.opcode) == 1,
        t.opcode == s.opcode,
        t.memory == s.memory,
        t.i == s.i,
        t.v[reg_x(s.opcode)] == s.v[reg_x(s.opcode)],
        t.v[reg_y(s.opcode)] == s.v[reg_y(s.opcode)],
        t.display == spec_op_d(s).display,
    ensures
        spec_op_d(t).display =~= s.display,
        (spec_op_d(s).v[15] == 1 <==> exists|j: int|
            0 <= j < 8 && sprite_on(mem_read(s, s.i as int), j) && s.display[pixel_index(
                s.v[reg_x(s.opcode)] + j,
                s.v[reg_y(s.opcode)] as int,
            )] == 1),
        (spec_op_d(t).v[15] == 1 <==> exists|j: int|
            0 <= j < 8 && sprite_on(mem_read(s, s.i as int), j) && s.display[pixel_index(
                s.v[reg_x(s.opcode)] + j,
                s.v[reg_y(s.opcode)] as int,
            )] == 0),
{
    let px = s.v[reg_x(s.opcode)] as int;
    let py = s.v[reg_y(s.opcode)] as int;
    let row = mem_read(s, s.i as int);
    let first = draw_row_upto(s.display, 0u8, row, px, py, 8);
    let second = draw_row_upto(first.0, 0u8, row, px, py, 8);
    lemma_draw_row_twice(s.display, row, px, py);
    assert(draw_rows_upto(s.memory, s.i, s.display, 0u8, px, py, 0) == (s.display, 0u8));
    assert(draw_rows_upto(t.memory, t.i, t.display, 0u8, px, py, 0) == (t.display, 0u8));
    assert(draw_rows_upto(s.memory, s.i, s.display, 0u8, px, py, 1) == first);
    assert(spec_op_d(s).display == first.0);
    assert(spec_op_d(s).v[15] == first.1);
    assert(draw_rows_upto(t.memory, t.i, t.display, 0u8, px, py, 1) == second);
    assert(spec_op_d(t).display == second.0);
    assert(spec_op_d(t).v[15] == second.1);
}

/// Well-formedness is an invariant of the machine: one cycle from any
/// well-formed state, whatever byte the random source produced, ends in a
/// well-formed state — the region sizes stand, the stack pointer stays
/// within its 16 slots, the timers stay in byte range, and every
/// framebuffer cell is still 0 or 1.
pub proof fn lemma_cycle_preserves_wf(s: State, r: u8)
    requires
        wf(s),
    ensures
        wf(spec_cycle(s, r)),
{
    let mid = State { opcode: fetched(s), ..s };
    if fam(mid.opcode) == 0xD {
        lemma_draw_rows_upto_wf(
            mid.memory,
            mid.i,
            mid.display,
            0u8,
            mid.v[reg_x(mid.opcode)] as int,
            mid.v[reg_y(mid.opcode)] as int,
            imm_n(mid.opcode),
        );
    }
    if fam(mid.opcode) == 0xF && imm_nn(mid.opcode) == 0x55 {
        lemma_store_regs_len(mid.memory, mid.v, mid.i as int, reg_x(mid.opcode) + 1);
    }
    if fam(mid.opcode) == 0xF && imm_nn(mid.opcode) == 0x65 {
        lemma_load_regs_len(mid.v, mid.memory, mid.i as int, reg_x(mid.opcode) + 1);
    }
}

/// `7xnn` wraps: the destination register takes the sum modulo 256, for
/// every state and every operand.
pub proof fn lemma_add_imm_wraps(s: State)
    requires
        wf(s),
        fam(s.opcode) == 0x7,
    ensures
        spec_op_7(s).v[reg_x(s.opcode)] == (s.v[reg_x(s.opcode)] + imm_nn(s.opcode)) % 256,
{
}

/// `8xy4` wraps and carries: the destination takes the sum modulo 256 and
/// `V[F]` is 1 exactly when the unsigned sum exceeds 255.  Stated for a
/// destination other than `V[F]` itself, whose write the flag overrides.
pub proof fn lemma_add_reg_carry(s: State)
    requires
        wf(s),
        fam(s.opcode) == 0x8,
        imm_n(s.opcode) == 0x4,
        reg_x(s.opcode) != 15,
    ensures
        spec_op_8(s).v[reg_x(s.opcode)] == (s.v[reg_x(s.opcode)] + s.v[reg_y(s.opcode)]) % 256,
        spec_op_8(s).v[15] == (if s.v[reg_x(s.opcode)] + s.v[reg_y(s.opcode)] > 255 {
            1u8
        } else {
            0u8
        }),
{
}

/// `8xy5` wraps and borrows: the destination takes `V[x] - V[y]` modulo
/// 256 and `V[F]` is 1 exactly when no borrow occurs (`V[x] >= V[y]`).
/// Stated for a destination other than `V[F]` itself.
pub proof fn lemma_sub_reg_borrow(s: State)
    requires
        wf(s),
        fam(s.opcode) == 0x8,
        imm_n(s.opcode) == 0x5,
        reg_x(s.opcode) != 15,
    ensures
        spec_op_8(s).v[reg_x(s.opcode)] == (s.v[reg_x(s.opcode)] - s.v[reg_y(s.opcode)] + 256)
            % 256,
        spec_op_8(s).v[15] == (if s.v[reg_x(s.opcode)] >= s.v[reg_y(s.opcode)] {
            1u8
        } else {
            0u8
        }),
{
}

/// `8xy7` wraps and borrows the other way round: the destination takes
/// `V[y] - V[x]` modulo 256 and `V[F]` is 1 exactly when `V[y] >= V[x]`.
/// Stated for a destination other than `V[F]` itself.
pub proof fn lemma_sub_rev_borrow(s: State)
    requires
        wf(s),
        fam(s.opcode) == 0x8,
        imm_n(s.opcode) == 0x7,
        reg_x(s.opcode) != 15,
    ensures
        spec_op_8(s).v[reg_x(s.opcode)] == (s.v[reg_y(s.opcode)] - s.v[reg_x(s.opcode)] + 256)
            % 256,
        spec_op_8(s).v[15] == (if s.v[reg_y(s.opcode)] >= s.v[reg_x(s.opcode)] {
            1u8
        } else {
            0u8
        }),
{
}

/// Call/return round trip: `2nnn` pushes the address of the call
/// instruction and jumps; from any later state that still holds that
/// address at the same depth, `00EE` pops it and resumes at the
/// instruction after the call.  `s.sp` ranges over every nesting depth
/// from 0 to 15, so the round trip holds for all depths up to 16.
pub proof fn lemma_call_return_roundtrip(s: State, t: State)
    requires
        wf(s),
        wf(t),
        fam(s.opcode) == 0x2,
        s.sp < 16,
        t.opcode == 0x00EE,
        t.sp == s.sp + 1,
        t.stack[s.sp as int] == s.pc,
    ensures
        spec_op_2(s).sp == s.sp + 1,
        spec_op_2(s).stack[s.sp as int] == s.pc,
        spec_op_2(s).pc == addr_nnn(s.opcode),
        spec_op_0(t).sp == s.sp,
        spec_op_0(t).pc == pc_next(s.pc, 2),
{
}

/// Self-jump detection: a `1nnn` whose target is its own address latches
/// the halt flag and leaves the program counter where it was.
pub proof fn lemma_self_jump_halts(s: State)
    requires
        wf(s),
        fam(s.opcode) == 0x1,
        addr_nnn(s.opcode) == s.pc,
    ensures
        spec_op_1(s).halt == 1,
        spec_op_1(s).pc == s.pc,
{
}

/// Timer decrement: any cycle whose instruction is not a timer write
/// (`Fx15`, `Fx18`) counts both timers down by exactly one, stopping at
/// zero — a zero timer stays zero and never goes below.
pub proof fn lemma_timer_decrement(s: State, r: u8)
    requires
        wf(s),
        !(fam(fetched(s)) == 0xF && (imm_nn(fetched(s)) == 0x15 || imm_nn(fetched(s)) == 0x18)),
    ensures
        spec_cycle(s, r).delay_timer == (if s.delay_timer > 0 {
            (s.delay_timer - 1) as u16
        } else {
            0u16
        }),
        spec_cycle(s, r).sound_timer == (if s.sound_timer > 0 {
            (s.sound_timer - 1) as u16
        } else {
            0u16
        }),
{
}

/// Every instruction but `Cxnn` is deterministic: the byte the random
/// source produced makes no difference to the cycle's outcome.
pub proof fn lemma_cycle_deterministic(s: State, r1: u8, r2: u8)
    requires
        wf(s),
        fam(fetched(s)) != 0xC,
    ensures
        spec_cycle(s, r1) == spec_cycle(s, r2),
{
}

/// `Fx29` computes the font address: the index register takes five times
/// the hex digit in `V[x]`.
pub proof fn lemma_font_address(s: State)
    requires
        wf(s),
        fam(s.opcode) == 0xF,
        imm_nn(s.opcode) == 0x29,
    ensures
        spec_op_f(s).i == s.v[reg_x(s.opcode)] * 5,
{
}

/// `Fx33` stores the decimal digits of `V[x]`: hundreds at `I`, tens at
/// `I + 1`, ones at `I + 2` (addresses modulo 4096).
pub proof fn lemma_bcd_digits(s: State)
    requires
        wf(s),
        fam(s.opcode) == 0xF,
        imm_nn(s.opcode) == 0x33,
    ensures
        spec_op_f(s).memory[s.i as int % 4096] == (s.v[reg_x(s.opcode)] as int / 100) % 10,
        spec_op_f(s).memory[(s.i as int + 1) % 4096] == (s.v[reg_x(s.opcode)] as int / 10) % 10,
        spec_op_f(s).memory[(s.i as int + 2) % 4096] == s.v[reg_x(s.opcode)] as int % 10,
{
}

} // verus!
