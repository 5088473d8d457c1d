//! Machine-checked laws of the instruction set: the arithmetic
//! flags, call/return pairing, stack limits, sprite wraparound, the
//! xor cancellation of a repeated draw, the wait-for-key re-fetch,
//! and the timer countdown.
use vstd::prelude::*;

verus! {

use crate::VmError;
use crate::model::{
    CpuView, draw_collision, lemma_pix_parts, op_c, op_d, op_nnn, op_x, op_y, pc_plus, pix,
    spec_add_xy, spec_draw, spec_fetch, spec_set_reg, spec_sub_xy, spec_tick_timers, sprite_bit,
    step_result, step_state, tick_n,
};
use vstd::arithmetic::div_mod::{lemma_small_mod, lemma_sub_mod_noop};

/// Register-register add: the stored result is (Vx + Vy) mod 256,
/// and VF is 1 exactly when the unmodular sum exceeds 255.  When VF
/// itself is the destination the stored sum overwrites the flag, as
/// the write order prescribes, so the flag clauses hold for x != 15.
pub proof fn lemma_register_add(s: CpuView, x: int, y: int)
    requires
        s.wf(),
        0 <= x < 16,
        0 <= y < 16,
    ensures
        spec_add_xy(s, x, y).regs[x] as int == (s.regs[x] + s.regs[y]) % 256,
        x != 15 ==> (spec_add_xy(s, x, y).regs[15] == 1u8 <==> s.regs[x] + s.regs[y] > 255),
        x != 15 ==> (spec_add_xy(s, x, y).regs[15] == 0u8 <==> s.regs[x] + s.regs[y] <= 255),
{
}

/// Register-register subtract: the stored result is (Vx - Vy) mod
/// 256, and VF is 1 exactly when no borrow occurs, that is Vx >= Vy
/// beforehand; VF is 0 otherwise.  As with add, a destination of VF
/// itself keeps the result, so the flag clauses hold for x != 15.
pub proof fn lemma_register_sub(s: CpuView, x: int, y: int)
    requires
        s.wf(),
        0 <= x < 16,
        0 <= y < 16,
    ensures
        spec_sub_xy(s, x, y).regs[x] as int == (s.regs[x] - s.regs[y]) % 256,
        x != 15 ==> (spec_sub_xy(s, x, y).regs[15] == 1u8 <==> s.regs[x] >= s.regs[y]),
        x != 15 ==> (spec_sub_xy(s, x, y).regs[15] == 0u8 <==> s.regs[x] < s.regs[y]),
{
}

/// A call followed immediately by a return restores the program
/// counter to its pre-call value plus 2 (the return address) and the
/// stack depth to its pre-call value, whatever the latch or the
/// random source report on either step.
pub proof fn lemma_call_then_ret(
    s: CpuView,
    k1: Option<u8>,
    r1: u8,
    k2: Option<u8>,
    r2: u8,
)
    requires
        s.wf(),
        op_c(spec_fetch(s)) == 2,
        s.sp < 16,
        s.mem[op_nnn(spec_fetch(s)) as int] == 0x00,
        s.mem[(op_nnn(spec_fetch(s)) + 1) % 4096] == 0xEE,
    ensures
        step_result(s, k1, r1) == Ok::<(), VmError>(()),
        step_result(step_state(s, k1, r1), k2, r2) == Ok::<(), VmError>(()),
        step_state(step_state(s, k1, r1), k2, r2).pc == pc_plus(s.pc, 2),
        step_state(step_state(s, k1, r1), k2, r2).sp == s.sp,
{
    let nnn = op_nnn(spec_fetch(s));
    let s1 = step_state(s, k1, r1);
    assert(nnn < 4096);
    lemma_small_mod(nnn as nat, 4096);
    assert(spec_fetch(s1) == 0x00EE);
}

/// A call succeeds and deepens the stack by one exactly while the
/// depth is below 16; at depth 16 it fails with StackOverflow and
/// leaves everything but the advanced program counter untouched.
pub proof fn lemma_call_overflow(s: CpuView, key: Option<u8>, rnd: u8)
    requires
        s.wf(),
        op_c(spec_fetch(s)) == 2,
    ensures
        s.sp < 16 ==> step_result(s, key, rnd) == Ok::<(), VmError>(()) && step_state(
            s,
            key,
            rnd,
        ).sp == s.sp + 1,
        s.sp == 16 ==> step_result(s, key, rnd) == Err::<(), VmError>(VmError::StackOverflow)
            && step_state(s, key, rnd) == (CpuView { pc: pc_plus(s.pc, 2), ..s }),
{
}

/// A return on an empty stack fails with StackUnderflow and leaves
/// everything but the advanced program counter untouched.
pub proof fn lemma_ret_underflow(s: CpuView, key: Option<u8>, rnd: u8)
    requires
        s.wf(),
        spec_fetch(s) == 0x00EE,
        s.sp == 0,
    ensures
        step_result(s, key, rnd) == Err::<(), VmError>(VmError::StackUnderflow),
        step_state(s, key, rnd) == (CpuView { pc: pc_plus(s.pc, 2), ..s }),
{
}

/// Sprites wrap rather than clip: row r, bit j of a sprite drawn at
/// (Vx, Vy) lands at column (Vx + j) mod 64 and row (Vy + r) mod 32,
/// however far off the right or bottom edge Vx + j and Vy + r reach,
/// and that pixel is xored with the sprite bit.
pub proof fn lemma_draw_wraps(s: CpuView, x: int, y: int, n: int, r: int, j: int)
    requires
        s.wf(),
        0 <= x < 16,
        0 <= y < 16,
        0 <= n < 16,
        0 <= r < n,
        0 <= j < 8,
    ensures
        ({
            let vx = s.regs[x] as int;
            let vy = s.regs[y] as int;
            let p = pix(vy + r, vx + j);
            &&& 0 <= p < 2048
            &&& spec_draw(s, x, y, n).screen[p] == (s.screen[p] != sprite_bit(
                s.mem,
                s.index,
                r,
                j,
            ))
        }),
{
    let vx = s.regs[x] as int;
    let vy = s.regs[y] as int;
    lemma_pix_parts(vy, vx, r, j);
}

/// Drawing the same sprite twice at the same location restores the
/// screen exactly, and the second draw reports a collision exactly
/// when the first draw set some pixel, that is when some set sprite
/// bit landed on a clear pixel.  The registers x and y must not be
/// VF itself, which the first draw overwrites with its flag.
pub proof fn lemma_draw_twice(s: CpuView, x: int, y: int, n: int)
    requires
        s.wf(),
        0 <= x < 16,
        0 <= y < 16,
        x != 15,
        y != 15,
        0 <= n < 16,
    ensures
        ({
            let vx = s.regs[x] as int;
            let vy = s.regs[y] as int;
            let s2 = spec_draw(spec_draw(s, x, y, n), x, y, n);
            &&& s2.screen == s.screen
            &&& (s2.regs[15] == 1u8 <==> exists|r: int, j: int|
                0 <= r < n && 0 <= j < 8 && #[trigger] sprite_bit(s.mem, s.index, r, j)
                    && !s.screen[pix(vy + r, vx + j)])
        }),
{
    let vx = s.regs[x] as int;
    let vy = s.regs[y] as int;
    let s1 = spec_draw(s, x, y, n);
    let s2 = spec_draw(s1, x, y, n);
    assert(s1.regs[x] == s.regs[x] && s1.regs[y] == s.regs[y]);
    assert forall|p: int| 0 <= p < 2048 implies s2.screen[p] == s.screen[p] by {
        assert(crate::model::draw_hit(s1, vx, vy, n, p) == crate::model::draw_hit(
            s,
            vx,
            vy,
            n,
            p,
        ));
    }
    assert(s2.screen =~= s.screen);
    assert(s2.regs[15] == 1u8 <==> draw_collision(s1, vx, vy, n));
    assert(draw_collision(s1, vx, vy, n) <==> exists|r: int, j: int|
        0 <= r < n && 0 <= j < 8 && #[trigger] sprite_bit(s.mem, s.index, r, j) && !s.screen[pix(
            vy + r,
            vx + j,
        )]) by {
        if draw_collision(s1, vx, vy, n) {
            let (r0, j0) = choose|r0: int, j0: int|
                0 <= r0 < n && 0 <= j0 < 8 && #[trigger] sprite_bit(s1.mem, s1.index, r0, j0)
                    && s1.screen[pix(vy + r0, vx + j0)];
            lemma_pix_parts(vy, vx, r0, j0);
            assert(sprite_bit(s.mem, s.index, r0, j0) && !s.screen[pix(vy + r0, vx + j0)]);
        }
        if exists|r: int, j: int|
            0 <= r < n && 0 <= j < 8 && #[trigger] sprite_bit(s.mem, s.index, r, j)
                && !s.screen[pix(vy + r, vx + j)] {
            let (r0, j0) = choose|r0: int, j0: int|
                0 <= r0 < n && 0 <= j0 < 8 && #[trigger] sprite_bit(s.mem, s.index, r0, j0)
                    && !s.screen[pix(vy + r0, vx + j0)];
            lemma_pix_parts(vy, vx, r0, j0);
            assert(sprite_bit(s1.mem, s1.index, r0, j0) && s1.screen[pix(vy + r0, vx + j0)]);
            assert(draw_collision(s1, vx, vy, n));
        }
    }
}

/// The blocking wait-for-key never moves while the latch reports no
/// key: the whole machine state is unchanged, so the same
/// instruction is fetched again next step.  The moment a key is
/// reported, it lands in Vx and the program counter has advanced by
/// the usual 2.
pub proof fn lemma_wait_key(s: CpuView, key: Option<u8>, rnd: u8)
    requires
        s.wf(),
        op_c(spec_fetch(s)) == 0xF,
        op_y(spec_fetch(s)) == 0,
        op_d(spec_fetch(s)) == 0xA,
    ensures
        key is None ==> step_state(s, key, rnd) == s && step_result(s, key, rnd) == Ok::<
            (),
            VmError,
        >(()),
        key matches Some(k) ==> step_state(s, key, rnd) == spec_set_reg(
            (CpuView { pc: pc_plus(s.pc, 2), ..s }),
            op_x(spec_fetch(s)) as int,
            k,
        ) && step_result(s, key, rnd) == Ok::<(), VmError>(()),
{
    if key is None {
        lemma_sub_mod_noop(s.pc + 2, 2, 0x10000);
        lemma_small_mod(2, 0x10000);
        lemma_small_mod(s.pc as nat, 0x10000);
        assert(step_state(s, key, rnd).pc == s.pc);
    }
}

/// N timer ticks leave a counter at its old value minus min(N, old
/// value): each tick takes exactly 1 off a nonzero counter and the
/// count clamps at 0, never below.
pub proof fn lemma_tick_n(t: u8, n: nat)
    ensures
        tick_n(t, n) as int == if n <= t {
            t - n
        } else {
            0
        },
    decreases n,
{
    if n > 0 {
        lemma_tick_n(t, (n - 1) as nat);
    }
}

/// N invocations of the timer entry point, as a spec-level fold.
pub open spec fn tick_timers_n(s: CpuView, n: nat) -> CpuView
    decreases n,
{
    if n == 0 {
        s
    } else {
        spec_tick_timers(tick_timers_n(s, (n - 1) as nat))
    }
}

/// N invocations of the timer entry point decrement each timer by
/// exactly min(N, its value), and touch nothing else.
pub proof fn lemma_tick_timers_n(s: CpuView, n: nat)
    ensures
        tick_timers_n(s, n).delay == tick_n(s.delay, n),
        tick_timers_n(s, n).sound == tick_n(s.sound, n),
        tick_timers_n(s, n) == (CpuView {
            delay: tick_n(s.delay, n),
            sound: tick_n(s.sound, n),
            ..s
        }),
    decreases n,
{
    if n > 0 {
        lemma_tick_timers_n(s, (n - 1) as nat);
    }
}

} // verus!
