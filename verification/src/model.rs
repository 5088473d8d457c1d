//! Mathematical model of the CHIP-8 machine.
//!
//! `CpuView` is the ghost image of the whole machine, and the spec
//! functions here say, instruction by instruction, what one fetch,
//! decode and execute cycle does to it.  The executable code in
//! `chip8` is verified against exactly these functions.
use vstd::prelude::*;

verus! {

use crate::VmError;
use crate::chip8::FONTSET;
use vstd::arithmetic::div_mod::{
    lemma_add_mod_noop_right, lemma_fundamental_div_mod_converse, lemma_mod_bound,
    lemma_small_mod, lemma_sub_mod_noop, lemma_sub_mod_noop_right,
};

/// Ghost image of the machine: sixteen 8-bit registers, the program
/// counter, the index register, 4096 bytes of memory, sixteen return
/// addresses with a stack depth, the two timers, the 64 x 32 screen
/// stored row-major as 2048 pixels, and the cached key latch.
#[verifier::ext_equal]
pub struct CpuView {
    pub regs: Seq<u8>,
    pub pc: u16,
    pub index: u16,
    pub mem: Seq<u8>,
    pub stack: Seq<u16>,
    pub sp: nat,
    pub delay: u8,
    pub sound: u8,
    pub screen: Seq<bool>,
    pub key: Option<u8>,
}

impl CpuView {
    /// Shapes of the collections and the stack-depth bound.
    pub open spec fn wf(self) -> bool {
        &&& self.regs.len() == 16
        &&& self.mem.len() == 4096
        &&& self.stack.len() == 16
        &&& self.sp <= 16
        &&& self.screen.len() == 2048
    }
}

/// The program counter advances modulo 2^16.
pub open spec fn pc_plus(pc: u16, n: u16) -> u16 {
    (((pc + n) % 0x10000) as u16)
}

/// The program counter rolls back modulo 2^16.
pub open spec fn pc_minus(pc: u16, n: u16) -> u16 {
    (((pc - n) % 0x10000) as u16)
}

/// The big-endian 16-bit word at [pc, pc + 1], addresses taken
/// modulo the 4096-byte memory.
pub open spec fn spec_fetch(s: CpuView) -> u16 {
    ((s.mem[(s.pc as int) % 4096] * 256 + s.mem[(s.pc as int + 1) % 4096]) as u16)
}

/// Class nibble of an opcode word.
pub open spec fn op_c(op: u16) -> u8 {
    ((op / 0x1000) as u8)
}

/// Second nibble: the x register operand.
pub open spec fn op_x(op: u16) -> u8 {
    (((op / 0x100) % 16) as u8)
}

/// Third nibble: the y register operand.
pub open spec fn op_y(op: u16) -> u8 {
    (((op / 16) % 16) as u8)
}

/// Low nibble of an opcode word.
pub open spec fn op_d(op: u16) -> u8 {
    ((op % 16) as u8)
}

/// Low 12 bits: an absolute address.
pub open spec fn op_nnn(op: u16) -> u16 {
    op % 0x1000
}

/// Low byte: an immediate.
pub open spec fn op_kk(op: u16) -> u8 {
    ((op % 256) as u8)
}

/// 00E0: every pixel unset.
pub open spec fn spec_cls(s: CpuView) -> CpuView {
    CpuView { screen: Seq::new(2048, |p: int| false), ..s }
}

/// 00EE: pop the stack into the program counter; underflow on an
/// empty stack.
pub open spec fn spec_ret(s: CpuView) -> (CpuView, Result<(), VmError>) {
    if s.sp == 0 {
        (s, Err(VmError::StackUnderflow))
    } else {
        (
            CpuView { sp: (s.sp - 1) as nat, pc: s.stack[s.sp - 1], ..s },
            Ok(()),
        )
    }
}

/// 0nnn, 1nnn: the program counter is set to nnn.
pub open spec fn spec_jump(s: CpuView, nnn: u16) -> CpuView {
    CpuView { pc: nnn, ..s }
}

/// 2nnn: push the program counter and jump; overflow when the stack
/// already holds sixteen return addresses.
pub open spec fn spec_call(s: CpuView, nnn: u16) -> (CpuView, Result<(), VmError>) {
    if s.sp >= 16 {
        (s, Err(VmError::StackOverflow))
    } else {
        (
            CpuView {
                stack: s.stack.update(s.sp as int, s.pc),
                sp: s.sp + 1,
                pc: nnn,
                ..s
            },
            Ok(()),
        )
    }
}

/// 3xkk, 4xkk, 5xy0, 9xy0: skip the next instruction when the
/// condition holds.
pub open spec fn spec_skip_if(s: CpuView, cond: bool) -> CpuView {
    if cond {
        CpuView { pc: pc_plus(s.pc, 2), ..s }
    } else {
        s
    }
}

/// A single register is overwritten; no other effect.
pub open spec fn spec_set_reg(s: CpuView, x: int, v: u8) -> CpuView {
    CpuView { regs: s.regs.update(x, v), ..s }
}

/// 7xkk: add an immediate modulo 256; the flag register is not
/// touched.
pub open spec fn spec_add_byte(s: CpuView, x: int, kk: u8) -> CpuView {
    spec_set_reg(s, x, (((s.regs[x] + kk) % 256) as u8))
}

/// 8xy1: bitwise or.
pub open spec fn spec_or_xy(s: CpuView, x: int, y: int) -> CpuView {
    spec_set_reg(s, x, s.regs[x] | s.regs[y])
}

/// 8xy2: bitwise and.
pub open spec fn spec_and_xy(s: CpuView, x: int, y: int) -> CpuView {
    spec_set_reg(s, x, s.regs[x] & s.regs[y])
}

/// 8xy3: bitwise xor.
pub open spec fn spec_xor_xy(s: CpuView, x: int, y: int) -> CpuView {
    spec_set_reg(s, x, s.regs[x] ^ s.regs[y])
}

/// 8xy4: Vx + Vy modulo 256; VF is written after the sum is taken
/// from the operands' prior values, 1 exactly when the unmodular sum
/// exceeds 255.
pub open spec fn spec_add_xy(s: CpuView, x: int, y: int) -> CpuView {
    let sum: int = s.regs[x] + s.regs[y];
    CpuView {
        regs: s.regs
            .update(15, if sum > 255 { 1u8 } else { 0u8 })
            .update(x, ((sum % 256) as u8)),
        ..s
    }
}

/// 8xy5: Vx - Vy modulo 256; VF is 1 exactly when no borrow occurs,
/// that is when Vx >= Vy beforehand.
pub open spec fn spec_sub_xy(s: CpuView, x: int, y: int) -> CpuView {
    let diff: int = s.regs[x] - s.regs[y];
    CpuView {
        regs: s.regs
            .update(15, if s.regs[x] >= s.regs[y] { 1u8 } else { 0u8 })
            .update(x, ((diff % 256) as u8)),
        ..s
    }
}

/// 8xy7: Vy - Vx modulo 256, the borrow convention with the operands
/// swapped.
pub open spec fn spec_subn_xy(s: CpuView, x: int, y: int) -> CpuView {
    let diff: int = s.regs[y] - s.regs[x];
    CpuView {
        regs: s.regs
            .update(15, if s.regs[y] >= s.regs[x] { 1u8 } else { 0u8 })
            .update(x, ((diff % 256) as u8)),
        ..s
    }
}

/// 8xy6: VF takes the old least-significant bit, then Vx is halved.
pub open spec fn spec_shr_xy(s: CpuView, x: int) -> CpuView {
    CpuView {
        regs: s.regs.update(15, s.regs[x] & 1).update(x, s.regs[x] >> 1u8),
        ..s
    }
}

/// 8xyE: VF takes the old most-significant bit, then Vx is doubled
/// modulo 256.
pub open spec fn spec_shl_xy(s: CpuView, x: int) -> CpuView {
    CpuView {
        regs: s.regs
            .update(15, (s.regs[x] & 0x80) >> 7u8)
            .update(x, (((s.regs[x] * 2) % 256) as u8)),
        ..s
    }
}

/// Annn: the index register is set to nnn.
pub open spec fn spec_set_index(s: CpuView, nnn: u16) -> CpuView {
    CpuView { index: nnn, ..s }
}

/// Bnnn: jump to V0 + nnn, with the natural 16-bit wrap.
pub open spec fn spec_jump_v0(s: CpuView, nnn: u16) -> CpuView {
    CpuView { pc: (((s.regs[0] + nnn) % 0x10000) as u16), ..s }
}

/// Fx1E: the index register grows by Vx, with the natural 16-bit
/// wrap.
pub open spec fn spec_add_index(s: CpuView, x: int) -> CpuView {
    CpuView { index: (((s.index + s.regs[x]) % 0x10000) as u16), ..s }
}

/// Fx29: the index register points at the five-byte font glyph for
/// the value in Vx.
pub open spec fn spec_font_index(s: CpuView, x: int) -> CpuView {
    CpuView { index: ((s.regs[x] * 5) as u16), ..s }
}

/// Fx15: the delay timer is loaded from Vx.
pub open spec fn spec_set_delay(s: CpuView, x: int) -> CpuView {
    CpuView { delay: s.regs[x], ..s }
}

/// Fx18: the sound timer is loaded from Vx.
pub open spec fn spec_set_sound(s: CpuView, x: int) -> CpuView {
    CpuView { sound: s.regs[x], ..s }
}

/// Fx33: the three decimal digits of Vx land at [I, I + 2], each
/// address taken modulo the memory size.
pub open spec fn spec_store_bcd(s: CpuView, x: int) -> CpuView {
    let vx: u8 = s.regs[x];
    let i: int = s.index as int;
    CpuView {
        mem: s.mem
            .update(i % 4096, (((vx / 100) % 10) as u8))
            .update((i + 1) % 4096, (((vx / 10) % 10) as u8))
            .update((i + 2) % 4096, ((vx % 10) as u8)),
        ..s
    }
}

/// Fx55: registers V0 through Vx are copied to memory starting at I,
/// each address taken modulo the memory size.
pub open spec fn spec_store_regs(s: CpuView, x: int) -> CpuView {
    CpuView {
        mem: Seq::new(4096, |a: int| {
            let k: int = (a - s.index) % 4096;
            if k <= x {
                s.regs[k]
            } else {
                s.mem[a]
            }
        }),
        ..s
    }
}

/// Fx65: registers V0 through Vx are loaded from memory starting at
/// I, each address taken modulo the memory size.
pub open spec fn spec_load_regs(s: CpuView, x: int) -> CpuView {
    CpuView {
        regs: Seq::new(16, |k: int| {
            if k <= x {
                s.mem[(s.index + k) % 4096]
            } else {
                s.regs[k]
            }
        }),
        ..s
    }
}

/// Ex9E: when the latch reports the key in Vx, skip and clear the
/// cached key; on any other report, or none, nothing changes.
pub open spec fn spec_skp(s: CpuView, x: int, key: Option<u8>) -> CpuView {
    match key {
        Some(k) => if k == s.regs[x] {
            CpuView { pc: pc_plus(s.pc, 2), key: None, ..s }
        } else {
            s
        },
        None => s,
    }
}

/// ExA1: when the latch reports a key other than the one in Vx, skip
/// and clear the cached key; otherwise nothing changes.
pub open spec fn spec_sknp(s: CpuView, x: int, key: Option<u8>) -> CpuView {
    match key {
        Some(k) => if k != s.regs[x] {
            CpuView { pc: pc_plus(s.pc, 2), key: None, ..s }
        } else {
            s
        },
        None => s,
    }
}

/// Fx0A: with a key present it lands in Vx; with none the program
/// counter rolls back by 2 so the same instruction is fetched again.
pub open spec fn spec_wait_key(s: CpuView, x: int, key: Option<u8>) -> CpuView {
    match key {
        Some(k) => spec_set_reg(s, x, k),
        None => CpuView { pc: pc_minus(s.pc, 2), ..s },
    }
}

/// One timer tick: a nonzero counter falls by exactly 1, zero stays.
pub open spec fn tick(t: u8) -> u8 {
    if t > 0 {
        ((t - 1) as u8)
    } else {
        0u8
    }
}

/// The 60 Hz entry point: both timers tick independently.
pub open spec fn spec_tick_timers(s: CpuView) -> CpuView {
    CpuView { delay: tick(s.delay), sound: tick(s.sound), ..s }
}

/// N timer ticks in a row.
pub open spec fn tick_n(t: u8, n: nat) -> u8
    decreases n,
{
    if n == 0 {
        t
    } else {
        tick(tick_n(t, (n - 1) as nat))
    }
}

/// Bit j (from the left) of sprite row r, read at I + r modulo the
/// memory size.
pub open spec fn sprite_bit(mem: Seq<u8>, index: u16, r: int, j: int) -> bool {
    ((mem[(index + r) % 4096] >> ((7 - j) as u8)) & 1) == 1
}

/// Flat screen position of a pixel coordinate, wrapping the row
/// modulo 32 and the column modulo 64.
pub open spec fn pix(row: int, col: int) -> int {
    (row % 32) * 64 + (col % 64)
}

/// Whether screen position p is toggled by an n-row sprite drawn at
/// (vx, vy): p must lie within 8 wrapped columns and n wrapped rows
/// of the origin, on a set sprite bit.
pub open spec fn draw_hit(s: CpuView, vx: int, vy: int, n: int, p: int) -> bool {
    let r: int = (p / 64 - vy) % 32;
    let j: int = (p % 64 - vx) % 64;
    r < n && j < 8 && sprite_bit(s.mem, s.index, r, j)
}

/// The screen after a draw: every hit position is xored, everything
/// else is untouched.
pub open spec fn draw_screen(s: CpuView, vx: int, vy: int, n: int) -> Seq<bool> {
    Seq::new(2048, |p: int| s.screen[p] != draw_hit(s, vx, vy, n, p))
}

/// A draw collides exactly when some set sprite bit lands on a pixel
/// that was already set, which the xor then turns off.
pub open spec fn draw_collision(s: CpuView, vx: int, vy: int, n: int) -> bool {
    exists|r: int, j: int|
        0 <= r < n && 0 <= j < 8 && #[trigger] sprite_bit(s.mem, s.index, r, j)
            && s.screen[pix(vy + r, vx + j)]
}

/// Dxyn: the sprite at [I, I + n) is xored onto the screen at
/// (Vx, Vy) with wraparound, and VF reports a collision.
pub open spec fn spec_draw(s: CpuView, x: int, y: int, n: int) -> CpuView {
    let vx: int = s.regs[x] as int;
    let vy: int = s.regs[y] as int;
    CpuView {
        regs: s.regs.update(15, if draw_collision(s, vx, vy, n) { 1u8 } else { 0u8 }),
        screen: draw_screen(s, vx, vy, n),
        ..s
    }
}

/// A lexicographic bound on the sprite rows and bits already drawn:
/// all of rows below rr, and bits below jj of row rr.
pub open spec fn lex_before(r: int, j: int, rr: int, jj: int) -> bool {
    r < rr || (r == rr && j < jj)
}

/// `draw_hit` restricted to the part of the sprite already drawn.
pub open spec fn draw_hit_upto(s: CpuView, vx: int, vy: int, rr: int, jj: int, p: int) -> bool {
    let r: int = (p / 64 - vy) % 32;
    let j: int = (p % 64 - vx) % 64;
    lex_before(r, j, rr, jj) && j < 8 && sprite_bit(s.mem, s.index, r, j)
}

/// The screen with only the part of the sprite already drawn.
pub open spec fn draw_screen_upto(s: CpuView, vx: int, vy: int, rr: int, jj: int) -> Seq<bool> {
    Seq::new(2048, |p: int| s.screen[p] != draw_hit_upto(s, vx, vy, rr, jj, p))
}

/// Whether a collision has already happened in the part of the
/// sprite already drawn.
pub open spec fn draw_collision_upto(s: CpuView, vx: int, vy: int, rr: int, jj: int) -> bool {
    exists|r: int, j: int|
        0 <= r && 0 <= j < 8 && lex_before(r, j, rr, jj)
            && #[trigger] sprite_bit(s.mem, s.index, r, j) && s.screen[pix(vy + r, vx + j)]
}

/// The machine as loading a program image leaves it: font in the
/// first 80 bytes, the image verbatim from 0x200, everything else
/// zeroed, and the program counter at 0x200.
pub open spec fn initial_state(rom: Seq<u8>) -> CpuView {
    CpuView {
        regs: Seq::new(16, |i: int| 0u8),
        pc: 0x200,
        index: 0,
        mem: Seq::new(4096, |a: int|
            if a < 80 {
                FONTSET[a]
            } else if 0x200 <= a < 0x200 + rom.len() {
                rom[a - 0x200]
            } else {
                0u8
            }
        ),
        stack: Seq::new(16, |i: int| 0u16),
        sp: 0,
        delay: 0,
        sound: 0,
        screen: Seq::new(2048, |p: int| false),
        key: None,
    }
}

/// One whole fetch, decode and execute cycle, given the key the
/// latch reported and the byte the random source produced: the pair
/// of the next machine state and the step's outcome.  The dispatch
/// order mirrors the executable dispatcher arm for arm.
pub open spec fn step_spec(pre: CpuView, key: Option<u8>, rnd: u8) -> (CpuView, Result<
    (),
    VmError,
>) {
    let op: u16 = spec_fetch(pre);
    let s: CpuView = CpuView { pc: pc_plus(pre.pc, 2), ..pre };
    let c: u8 = op_c(op);
    let xn: u8 = op_x(op);
    let yn: u8 = op_y(op);
    let d: u8 = op_d(op);
    let x: int = xn as int;
    let y: int = yn as int;
    let nnn: u16 = op_nnn(op);
    let kk: u8 = op_kk(op);
    if c == 0 && xn == 0 && yn == 0xE && d == 0 {
        (spec_cls(s), Ok(()))
    } else if c == 0 && xn == 0 && yn == 0xE && d == 0xE {
        spec_ret(s)
    } else if c == 0 {
        (spec_jump(s, nnn), Ok(()))
    } else if c == 1 {
        (spec_jump(s, nnn), Ok(()))
    } else if c == 2 {
        spec_call(s, nnn)
    } else if c == 3 {
        (spec_skip_if(s, s.regs[x] == kk), Ok(()))
    } else if c == 4 {
        (spec_skip_if(s, s.regs[x] != kk), Ok(()))
    } else if c == 5 && d == 0 {
        (spec_skip_if(s, s.regs[x] == s.regs[y]), Ok(()))
    } else if c == 6 {
        (spec_set_reg(s, x, kk), Ok(()))
    } else if c == 7 {
        (spec_add_byte(s, x, kk), Ok(()))
    } else if c == 8 && d == 0 {
        (spec_set_reg(s, x, s.regs[y]), Ok(()))
    } else if c == 8 && d == 1 {
        (spec_or_xy(s, x, y), Ok(()))
    } else if c == 8 && d == 2 {
        (spec_and_xy(s, x, y), Ok(()))
    } else if c == 8 && d == 3 {
        (spec_xor_xy(s, x, y), Ok(()))
    } else if c == 8 && d == 4 {
        (spec_add_xy(s, x, y), Ok(()))
    } else if c == 8 && d == 5 {
        (spec_sub_xy(s, x, y), Ok(()))
    } else if c == 8 && d == 6 {
        (spec_shr_xy(s, x), Ok(()))
    } else if c == 8 && d == 7 {
        (spec_subn_xy(s, x, y), Ok(()))
    } else if c == 8 && d == 0xE {
        (spec_shl_xy(s, x), Ok(()))
    } else if c == 9 && d == 0 {
        (spec_skip_if(s, s.regs[x] != s.regs[y]), Ok(()))
    } else if c == 0xA {
        (spec_set_index(s, nnn), Ok(()))
    } else if c == 0xB {
        (spec_jump_v0(s, nnn), Ok(()))
    } else if c == 0xC {
        (spec_set_reg(s, x, rnd & kk), Ok(()))
    } else if c == 0xD {
        (spec_draw(s, x, y, d as int), Ok(()))
    } else if c == 0xE && yn == 9 && d == 0xE {
        (spec_skp(s, x, key), Ok(()))
    } else if c == 0xE && yn == 0xA && d == 1 {
        (spec_sknp(s, x, key), Ok(()))
    } else if c == 0xF && yn == 0 && d == 7 {
        (spec_set_reg(s, x, s.delay), Ok(()))
    } else if c == 0xF && yn == 0 && d == 0xA {
        (spec_wait_key(s, x, key), Ok(()))
    } else if c == 0xF && yn == 1 && d == 5 {
        (spec_set_delay(s, x), Ok(()))
    } else if c == 0xF && yn == 1 && d == 8 {
        (spec_set_sound(s, x), Ok(()))
    } else if c == 0xF && yn == 1 && d == 0xE {
        (spec_add_index(s, x), Ok(()))
    } else if c == 0xF && yn == 2 && d == 9 {
        (spec_font_index(s, x), Ok(()))
    } else if c == 0xF && yn == 3 && d == 3 {
        (spec_store_bcd(s, x), Ok(()))
    } else if c == 0xF && yn == 5 && d == 5 {
        (spec_store_regs(s, x), Ok(()))
    } else if c == 0xF && yn == 6 && d == 5 {
        (spec_load_regs(s, x), Ok(()))
    } else {
        (s, Err(VmError::DecodeFailure(op)))
    }
}

/// The residue (t - v) mod m names r exactly when t is the wrapped
/// position v + r: the inversion both draw and register-block proofs
/// rest on.
pub proof fn lemma_mod_match(v: int, t: int, r: int, m: int)
    requires
        0 < m,
        0 <= t < m,
        0 <= r < m,
    ensures
        ((t - v) % m == r) <==> (t == (v + r) % m),
{
    if (t - v) % m == r {
        lemma_add_mod_noop_right(v, t - v, m);
        lemma_small_mod(t as nat, m as nat);
    }
    if t == (v + r) % m {
        lemma_sub_mod_noop_right((v + r) % m, v, m);
        lemma_sub_mod_noop(v + r, v, m);
        lemma_small_mod(r as nat, m as nat);
    }
}

/// Where row r, bit j of a sprite drawn at (vx, vy) lands on the
/// flat screen, and that the landing position decodes back to
/// exactly (r, j).
pub proof fn lemma_pix_parts(vy: int, vx: int, r: int, j: int)
    requires
        0 <= r < 32,
        0 <= j < 64,
    ensures
        0 <= pix(vy + r, vx + j) < 2048,
        pix(vy + r, vx + j) / 64 == (vy + r) % 32,
        pix(vy + r, vx + j) % 64 == (vx + j) % 64,
        (pix(vy + r, vx + j) / 64 - vy) % 32 == r,
        (pix(vy + r, vx + j) % 64 - vx) % 64 == j,
{
    let row: int = (vy + r) % 32;
    let col: int = (vx + j) % 64;
    lemma_mod_bound(vy + r, 32);
    lemma_mod_bound(vx + j, 64);
    lemma_fundamental_div_mod_converse(row * 64 + col, 64, row, col);
    lemma_mod_match(vy, row, r, 32);
    lemma_mod_match(vx, col, j, 64);
}

/// A screen position decodes to (r, j) exactly when it is the
/// landing position of row r, bit j: no two sprite bits share a
/// pixel.
pub proof fn lemma_pix_unique(vy: int, vx: int, r: int, j: int, q: int)
    requires
        0 <= r < 32,
        0 <= j < 64,
        0 <= q < 2048,
    ensures
        ((q / 64 - vy) % 32 == r && (q % 64 - vx) % 64 == j) <==> q == pix(vy + r, vx + j),
{
    lemma_pix_parts(vy, vx, r, j);
    assert(q == 64 * (q / 64) + q % 64);
    assert(0 <= q % 64 < 64);
    assert(0 <= q / 64 < 32);
    lemma_mod_match(vy, q / 64, r, 32);
    lemma_mod_match(vx, q % 64, j, 64);
}

/// The machine state one step leaves behind.
pub open spec fn step_state(pre: CpuView, key: Option<u8>, rnd: u8) -> CpuView {
    step_spec(pre, key, rnd).0
}

/// The outcome one step reports.
pub open spec fn step_result(pre: CpuView, key: Option<u8>, rnd: u8) -> Result<(), VmError> {
    step_spec(pre, key, rnd).1
}

} // verus!
