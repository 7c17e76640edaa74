//! General laws of the engine, each proved from the contracts in `cpu`.

use vstd::prelude::*;

use crate::cpu::{
    CPU, MEMORY_SIZE, STACK_SIZE, StepError, StepOutcome, alu_regs, collision_within, cycle_post,
    draw_collides, draw_screen_post, hits_within, pix, sprite_hits,
};
use crate::instr::{AluOp, Instr, spec_decode};

verus! {

/// The add-with-carry operation writes 1 to the flags register exactly
/// when the unsigned sum of the two operands exceeds 255, and writes the
/// sum modulo 256 to the destination — stated for a destination other
/// than the flags register itself, which the result write overwrites.
pub proof fn lemma_add_carry_flag(regs: Seq<u8>, x: int, y: int)
    requires
        regs.len() == 16,
        0 <= x < 16,
        0 <= y < 16,
        x != 15,
    ensures
        alu_regs(regs, x, y, AluOp::AddCarry)[15] == (if regs[x] + regs[y] > 255 {
            1u8
        } else {
            0u8
        }),
        alu_regs(regs, x, y, AluOp::AddCarry)[x] == (regs[x] + regs[y]) % 256,
{
}

/// Both subtract orders write 1 to the flags register exactly when no
/// borrow occurs — the minuend is at least the subtrahend — and write the
/// difference, wrapped modulo 256, to the destination. Stated for
/// operands other than the flags register itself, whose own write the
/// operand reads would observe.
pub proof fn lemma_sub_borrow_flag(regs: Seq<u8>, x: int, y: int)
    requires
        regs.len() == 16,
        0 <= x < 16,
        0 <= y < 16,
        x != 15,
        y != 15,
    ensures
        alu_regs(regs, x, y, AluOp::SubBorrow)[15] == (if regs[x] >= regs[y] {
            1u8
        } else {
            0u8
        }),
        alu_regs(regs, x, y, AluOp::SubBorrow)[x] == (if regs[x] >= regs[y] {
            regs[x] - regs[y]
        } else {
            regs[x] - regs[y] + 256
        }),
        alu_regs(regs, x, y, AluOp::SubReverse)[15] == (if regs[y] >= regs[x] {
            1u8
        } else {
            0u8
        }),
        alu_regs(regs, x, y, AluOp::SubReverse)[x] == (if regs[y] >= regs[x] {
            regs[y] - regs[x]
        } else {
            regs[y] - regs[x] + 256
        }),
{
}

/// Drawing the same sprite twice at the same origin with no other
/// mutation restores the framebuffer: each covered pixel is toggled
/// twice, every other pixel is never touched. The second draw reports a
/// collision exactly when some set sprite bit lands on a pixel the first
/// draw left lit — one that was clear before the first draw.
pub proof fn lemma_draw_twice(
    pre: Seq<u8>,
    mid: Seq<u8>,
    post: Seq<u8>,
    mem: Seq<u8>,
    base: int,
    x0: int,
    y0: int,
    h: int,
)
    requires
        pre.len() == 2048,
        forall|p: int| 0 <= p < 2048 ==> pre[p] == 0 || pre[p] == 1,
        0 <= x0,
        0 <= y0,
        0 <= h,
        draw_screen_post(pre, mid, mem, base, x0, y0, h),
        draw_screen_post(mid, post, mem, base, x0, y0, h),
    ensures
        post == pre,
        draw_collides(mid, mem, base, x0, y0, h) <==> (exists|cx: int, cy: int|
            0 <= cx < 64 && 0 <= cy < 32 && #[trigger] sprite_hits(mem, base, x0, y0, h, cx, cy)
                && pix(pre, cx, cy) == 0),
{
    assert forall|p: int| 0 <= p < 2048 implies post[p] == pre[p] by {
        vstd::arithmetic::div_mod::lemma_fundamental_div_mod(p, 64);
        vstd::arithmetic::div_mod::lemma_mod_pos_bound(p, 64);
        let cy = p / 64;
        let cx = p % 64;
        assert(pix(post, cx, cy) == post[p] && pix(mid, cx, cy) == mid[p] && pix(pre, cx, cy)
            == pre[p]);
    }
    assert(post =~= pre);
    if draw_collides(mid, mem, base, x0, y0, h) {
        let (r2, b2) = choose|r2: int, b2: int|
            0 <= r2 && 0 <= b2 < 8 && 8 * r2 + b2 < 8 * h && #[trigger] crate::cpu::sprite_bit(
                mem,
                base,
                r2,
                b2,
            ) == 1 && pix(mid, (x0 + b2) % 64, (y0 + r2) % 32) == 1;
        vstd::arithmetic::div_mod::lemma_mod_pos_bound(x0 + b2, 64);
        vstd::arithmetic::div_mod::lemma_mod_pos_bound(y0 + r2, 32);
        let tx = (x0 + b2) % 64;
        let ty = (y0 + r2) % 32;
        assert(sprite_hits(mem, base, x0, y0, h, tx, ty));
        assert(pix(pre, tx, ty) == 0);
    }
    if exists|cx: int, cy: int|
        0 <= cx < 64 && 0 <= cy < 32 && #[trigger] sprite_hits(mem, base, x0, y0, h, cx, cy) && pix(
            pre,
            cx,
            cy,
        ) == 0 {
        let (cx, cy) = choose|cx: int, cy: int|
            0 <= cx < 64 && 0 <= cy < 32 && #[trigger] sprite_hits(mem, base, x0, y0, h, cx, cy)
                && pix(pre, cx, cy) == 0;
        let (r2, b2) = choose|r2: int, b2: int|
            0 <= r2 && 0 <= b2 < 8 && 8 * r2 + b2 < 8 * h && #[trigger] crate::cpu::sprite_bit(
                mem,
                base,
                r2,
                b2,
            ) == 1 && cx == (x0 + b2) % 64 && cy == (y0 + r2) % 32;
        assert(pix(mid, cx, cy) == 1);
        assert(collision_within(mid, mem, base, x0, y0, 8 * h));
    }
}

/// Sprite columns wrap: a sprite drawn at horizontal origin `x0` touches
/// only the eight columns that `x0 .. x0 + 8` wrap to; a pixel in any
/// other column is unchanged, so no column at or beyond the screen width
/// is ever named.
pub proof fn lemma_draw_columns(
    pre: Seq<u8>,
    post: Seq<u8>,
    mem: Seq<u8>,
    base: int,
    x0: int,
    y0: int,
    h: int,
    cx: int,
    cy: int,
)
    requires
        draw_screen_post(pre, post, mem, base, x0, y0, h),
        0 <= cx < 64,
        0 <= cy < 32,
        forall|b: int| 0 <= b < 8 ==> cx != #[trigger] ((x0 + b) % 64),
    ensures
        pix(post, cx, cy) == pix(pre, cx, cy),
{
    if sprite_hits(mem, base, x0, y0, h, cx, cy) {
        let (r2, b2) = choose|r2: int, b2: int|
            0 <= r2 && 0 <= b2 < 8 && 8 * r2 + b2 < 8 * h && #[trigger] crate::cpu::sprite_bit(
                mem,
                base,
                r2,
                b2,
            ) == 1 && cx == (x0 + b2) % 64 && cy == (y0 + r2) % 32;
        assert(cx != (x0 + b2) % 64);
        assert(false);
    }
}

/// A call pushes the address of the instruction after it, and the
/// matching return pops it: after a call that then returns, the program
/// counter stands at the instruction immediately after the call.
pub proof fn lemma_call_then_return(
    pre: CPU,
    mid: CPU,
    post: CPU,
    r1: Result<StepOutcome, StepError>,
    r2: Result<StepOutcome, StepError>,
)
    requires
        pre.wf(),
        mid.wf(),
        pre.pc as int + 2 <= MEMORY_SIZE,
        spec_decode(pre.spec_fetch()) is Call,
        pre.sp < STACK_SIZE,
        cycle_post(pre, mid, r1),
        mid.pc as int + 2 <= MEMORY_SIZE,
        spec_decode(mid.spec_fetch()) is Return,
        cycle_post(mid, post, r2),
    ensures
        post.pc == pre.pc + 2,
{
}

} // verus!
