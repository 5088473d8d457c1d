//! The CHIP-8 processor: its state and one handler per instruction.
//!
//! Every mutating method is verified against the transition functions
//! in `model`: its postcondition says that the new machine, seen
//! through the ghost view, is exactly what the model prescribes.
use vstd::prelude::*;

verus! {

use crate::VmError;
use crate::keyboard::KeyboardInput;
use crate::model::{
    CpuView, draw_collision, draw_collision_upto, draw_hit_upto, draw_screen,
    draw_screen_upto, initial_state, lemma_pix_parts, lemma_pix_unique, lex_before,
    op_c, op_d, op_kk, op_nnn, op_x, op_y, pc_plus, pix, spec_add_byte, spec_add_index,
    spec_add_xy, spec_and_xy, spec_call, spec_cls, step_result, step_state,
    spec_draw, spec_fetch, spec_font_index, spec_jump, spec_jump_v0, spec_load_regs, spec_or_xy,
    spec_ret, spec_set_delay, spec_set_index, spec_set_reg, spec_set_sound, spec_shl_xy,
    spec_shr_xy, spec_skip_if, spec_sknp, spec_skp, spec_store_bcd, spec_store_regs, spec_sub_xy,
    spec_subn_xy, spec_tick_timers, spec_wait_key, spec_xor_xy, sprite_bit,
};

/// Screen width in pixels.
pub const DISPLAY_WIDTH: usize = 64;

/// Screen height in pixels.
pub const DISPLAY_HEIGHT: usize = 32;

/// The sixteen built-in five-byte glyphs for the hexadecimal digits,
/// resident in the first 80 bytes of memory.
pub const FONTSET: [u8; 80] = [
    0xF0, 0x90, 0x90, 0x90, 0xF0, // 0
    0x20, 0x60, 0x20, 0x20, 0x70, // 1
    0xF0, 0x10, 0xF0, 0x80, 0xF0, // 2
    0xF0, 0x10, 0xF0, 0x10, 0xF0, // 3
    0x90, 0x90, 0xF0, 0x10, 0x10, // 4
    0xF0, 0x80, 0xF0, 0x10, 0xF0, // 5
    0xF0, 0x80, 0xF0, 0x90, 0xF0, // 6
    0xF0, 0x10, 0x20, 0x40, 0x40, // 7
    0xF0, 0x90, 0xF0, 0x90, 0xF0, // 8
    0xF0, 0x90, 0xF0, 0x10, 0xF0, // 9
    0xF0, 0x90, 0xF0, 0x90, 0x90, // A
    0xE0, 0x90, 0xE0, 0x90, 0xE0, // B
    0xF0, 0x80, 0x80, 0x80, 0xF0, // C
    0xE0, 0x90, 0x90, 0x90, 0xE0, // D
    0xF0, 0x80, 0xF0, 0x80, 0xF0, // E
    0xF0, 0x80, 0xF0, 0x80, 0x80, // F
];

/// The CHIP-8 machine, generic over the capability that answers
/// which logical key (0x0 to 0xF) is currently reported.  The screen
/// is stored row-major: pixel (col, row) sits at `row * 64 + col`.
pub struct Cpu<T: KeyboardInput> {
    registers: [u8; 16],
    program_counter: u16,
    memory: [u8; 4096],
    stack: [u16; 16],
    stack_pointer: usize,
    index_register: u16,
    display: [bool; 2048],
    sound_timer: u8,
    delay_timer: u8,
    key: Option<u8>,
    keyboard: T,
}

impl<T: KeyboardInput> View for Cpu<T> {
    type V = CpuView;

    closed spec fn view(&self) -> CpuView {
        CpuView {
            regs: self.registers@,
            pc: self.program_counter,
            index: self.index_register,
            mem: self.memory@,
            stack: self.stack@,
            sp: self.stack_pointer as nat,
            delay: self.delay_timer,
            sound: self.sound_timer,
            screen: self.display@,
            key: self.key,
        }
    }
}

/// Addition that wraps modulo 2^16, as the program counter and the
/// index register do.
fn wrap_add_u16(a: u16, b: u16) -> (r: u16)
    ensures
        r as int == (a + b) % 0x10000,
{
    (((a as u32) + (b as u32)) % 0x10000) as u16
}

/// Subtraction that wraps modulo 2^16.
fn wrap_sub_u16(a: u16, b: u16) -> (r: u16)
    ensures
        r as int == (a - b) % 0x10000,
{
    proof {
        vstd::arithmetic::div_mod::lemma_mod_add_multiples_vanish(a - b, 0x10000);
    }
    (((a as u32) + 0x10000 - (b as u32)) % 0x10000) as u16
}

/// Relies on rand::random: a byte drawn from the thread-local
/// generator.  Nothing is promised of its value.
#[verifier::external_body]
fn random_u8() -> u8 {
    rand::random()
}

impl<T: KeyboardInput> Cpu<T> {
    /// A freshly loaded machine: font copied to address 0, the
    /// program image copied verbatim to 0x200, the program counter
    /// at 0x200, and everything else zeroed.
    pub fn from_bytes(rom_data: &[u8], keyboard: T) -> (cpu: Cpu<T>)
        requires
            rom_data@.len() <= 0xE00,
        ensures
            cpu@ == initial_state(rom_data@),
            cpu@.wf(),
    {
        let mut cpu = Cpu {
            registers: [0; 16],
            program_counter: 0x200,
            memory: [0; 4096],
            stack: [0; 16],
            stack_pointer: 0,
            index_register: 0,
            delay_timer: 0,
            sound_timer: 0,
            display: [false; 2048],
            key: None,
            keyboard,
        };
        let mut i: usize = 0;
        while i < 80
            invariant
                i <= 80,
                cpu.program_counter == 0x200,
                cpu.index_register == 0,
                cpu.stack_pointer == 0,
                cpu.delay_timer == 0,
                cpu.sound_timer == 0,
                cpu.key is None,
                forall|j: int| 0 <= j < 16 ==> cpu.registers@[j] == 0,
                forall|j: int| 0 <= j < 16 ==> cpu.stack@[j] == 0,
                forall|j: int| 0 <= j < 2048 ==> !cpu.display@[j],
                forall|j: int| 0 <= j < i ==> cpu.memory@[j] == FONTSET[j],
                forall|j: int| i <= j < 4096 ==> cpu.memory@[j] == 0,
            decreases 80 - i,
        {
            cpu.memory[i] = FONTSET[i];
            i += 1;
        }
        let mut k: usize = 0;
        while k < rom_data.len()
            invariant
                k <= rom_data@.len() <= 0xE00,
                cpu.program_counter == 0x200,
                cpu.index_register == 0,
                cpu.stack_pointer == 0,
                cpu.delay_timer == 0,
                cpu.sound_timer == 0,
                cpu.key is None,
                forall|j: int| 0 <= j < 16 ==> cpu.registers@[j] == 0,
                forall|j: int| 0 <= j < 16 ==> cpu.stack@[j] == 0,
                forall|j: int| 0 <= j < 2048 ==> !cpu.display@[j],
                forall|j: int| 0 <= j < 80 ==> cpu.memory@[j] == FONTSET[j],
                forall|j: int| 80 <= j < 0x200 ==> cpu.memory@[j] == 0,
                forall|j: int|
                    0x200 <= j < 0x200 + k ==> cpu.memory@[j] == rom_data@[j - 0x200],
                forall|j: int| 0x200 + k <= j < 4096 ==> cpu.memory@[j] == 0,
            decreases rom_data@.len() - k,
        {
            cpu.memory[0x200 + k] = rom_data[k];
            k += 1;
        }
        proof {
            assert(cpu@ =~= initial_state(rom_data@));
        }
        cpu
    }

    /// The big-endian instruction word under the program counter.
    fn read_opcode(&self) -> (op: u16)
        ensures
            op == spec_fetch(self@),
    {
        let hi = self.memory[(self.program_counter % 4096) as usize];
        let lo = self.memory[(((self.program_counter as u32) + 1) % 4096) as usize];
        (hi as u16) * 256 + (lo as u16)
    }

    /// The 60 Hz entry point: each nonzero timer falls by exactly 1
    /// and clamps at 0; nothing else moves.
    pub fn decrement_timers(&mut self)
        ensures
            final(self)@ == spec_tick_timers(old(self)@),
    {
        if self.delay_timer > 0 {
            self.delay_timer = self.delay_timer - 1;
        }
        if self.sound_timer > 0 {
            self.sound_timer = self.sound_timer - 1;
        }
    }

    /// Read-only access to the screen for a renderer.
    pub fn get_display(&self) -> (d: &[bool; 2048])
        ensures
            d@ == self@.screen,
    {
        &self.display
    }

    /// General register Vx.
    pub fn get_register(&self, x: u8) -> (v: u8)
        requires
            x < 16,
        ensures
            v == self@.regs[x as int],
    {
        self.registers[x as usize]
    }

    /// The program counter.
    pub fn get_pc(&self) -> (pc: u16)
        ensures
            pc == self@.pc,
    {
        self.program_counter
    }

    /// How many return addresses the stack currently holds.
    pub fn get_stack_depth(&self) -> (sp: usize)
        ensures
            sp as nat == self@.sp,
    {
        self.stack_pointer
    }

    /// The index register.
    pub fn get_index(&self) -> (i: u16)
        ensures
            i == self@.index,
    {
        self.index_register
    }

    /// The delay timer.
    pub fn get_delay_timer(&self) -> (t: u8)
        ensures
            t == self@.delay,
    {
        self.delay_timer
    }

    /// The sound timer.
    pub fn get_sound_timer(&self) -> (t: u8)
        ensures
            t == self@.sound,
    {
        self.sound_timer
    }

    /// The memory byte at the given address, taken modulo the
    /// 4096-byte memory.
    pub fn read_memory(&self, addr: u16) -> (b: u8)
        ensures
            b == self@.mem[(addr as int) % 4096],
    {
        self.memory[(addr % 4096) as usize]
    }

    /// 0nnn - SYS: treated as a jump to nnn.
    pub fn sys_addr(&mut self, nnn: u16)
        ensures
            final(self)@ == spec_jump(old(self)@, nnn),
    {
        self.program_counter = nnn;
    }

    /// 00E0 - CLS: clear the screen.
    pub fn cls(&mut self)
        ensures
            final(self)@ == spec_cls(old(self)@),
    {
        self.display = [false; 2048];
        proof {
            assert(self@.screen =~= Seq::new(2048, |p: int| false));
        }
    }

    /// 00EE - RET: pop the stack into the program counter, or report
    /// underflow on an empty stack.
    pub fn ret(&mut self) -> (r: Result<(), VmError>)
        requires
            old(self)@.sp <= 16,
        ensures
            (final(self)@, r) == spec_ret(old(self)@),
    {
        if self.stack_pointer == 0 {
            return Err(VmError::StackUnderflow);
        }
        self.stack_pointer = self.stack_pointer - 1;
        self.program_counter = self.stack[self.stack_pointer];
        Ok(())
    }

    /// 1nnn - JP: jump to nnn.
    pub fn jp_addr(&mut self, nnn: u16)
        ensures
            final(self)@ == spec_jump(old(self)@, nnn),
    {
        self.program_counter = nnn;
    }

    /// 2nnn - CALL: push the program counter and jump to nnn, or
    /// report overflow on a full stack.
    pub fn call(&mut self, nnn: u16) -> (r: Result<(), VmError>)
        ensures
            (final(self)@, r) == spec_call(old(self)@, nnn),
    {
        if self.stack_pointer >= 16 {
            return Err(VmError::StackOverflow);
        }
        self.stack[self.stack_pointer] = self.program_counter;
        self.stack_pointer = self.stack_pointer + 1;
        self.program_counter = nnn;
        Ok(())
    }

    /// 3xkk - SE: skip the next instruction when Vx equals kk.
    pub fn se_byte(&mut self, x: u8, kk: u8)
        requires
            x < 16,
        ensures
            final(self)@ == spec_skip_if(old(self)@, old(self)@.regs[x as int] == kk),
    {
        let vx = self.registers[x as usize];
        if vx == kk {
            self.program_counter = wrap_add_u16(self.program_counter, 2);
        }
    }

    /// 4xkk - SNE: skip the next instruction when Vx differs from kk.
    pub fn sne_byte(&mut self, x: u8, kk: u8)
        requires
            x < 16,
        ensures
            final(self)@ == spec_skip_if(old(self)@, old(self)@.regs[x as int] != kk),
    {
        let vx = self.registers[x as usize];
        if vx != kk {
            self.program_counter = wrap_add_u16(self.program_counter, 2);
        }
    }

    /// 5xy0 - SE: skip the next instruction when Vx equals Vy.
    pub fn se_xy(&mut self, x: u8, y: u8)
        requires
            x < 16,
            y < 16,
        ensures
            final(self)@ == spec_skip_if(
                old(self)@,
                old(self)@.regs[x as int] == old(self)@.regs[y as int],
            ),
    {
        let vx = self.registers[x as usize];
        let vy = self.registers[y as usize];
        if vx == vy {
            self.program_counter = wrap_add_u16(self.program_counter, 2);
        }
    }

    /// 9xy0 - SNE: skip the next instruction when Vx differs from Vy.
    pub fn sne_xy(&mut self, x: u8, y: u8)
        requires
            x < 16,
            y < 16,
        ensures
            final(self)@ == spec_skip_if(
                old(self)@,
                old(self)@.regs[x as int] != old(self)@.regs[y as int],
            ),
    {
        if self.registers[x as usize] != self.registers[y as usize] {
            self.program_counter = wrap_add_u16(self.program_counter, 2);
        }
    }

    /// 6xkk - LD: Vx is set to kk.
    pub fn ld_byte(&mut self, x: u8, kk: u8)
        requires
            x < 16,
        ensures
            final(self)@ == spec_set_reg(old(self)@, x as int, kk),
    {
        self.registers[x as usize] = kk;
    }

    /// 7xkk - ADD: kk is added into Vx modulo 256; the flag register
    /// is not touched.
    pub fn add_byte(&mut self, x: u8, kk: u8)
        requires
            x < 16,
        ensures
            final(self)@ == spec_add_byte(old(self)@, x as int, kk),
    {
        let vx = self.registers[x as usize];
        self.registers[x as usize] = (((vx as u16) + (kk as u16)) % 256) as u8;
    }

    /// 8xy0 - LD: Vx is copied from Vy.
    pub fn ld_xy(&mut self, x: u8, y: u8)
        requires
            x < 16,
            y < 16,
        ensures
            final(self)@ == spec_set_reg(old(self)@, x as int, old(self)@.regs[y as int]),
    {
        self.registers[x as usize] = self.registers[y as usize];
    }

    /// 8xy1 - OR.
    pub fn or_xy(&mut self, x: u8, y: u8)
        requires
            x < 16,
            y < 16,
        ensures
            final(self)@ == spec_or_xy(old(self)@, x as int, y as int),
    {
        self.registers[x as usize] = self.registers[x as usize] | self.registers[y as usize];
    }

    /// 8xy2 - AND.
    pub fn and_xy(&mut self, x: u8, y: u8)
        requires
            x < 16,
            y < 16,
        ensures
            final(self)@ == spec_and_xy(old(self)@, x as int, y as int),
    {
        self.registers[x as usize] = self.registers[x as usize] & self.registers[y as usize];
    }

    /// 8xy3 - XOR.
    pub fn xor_xy(&mut self, x: u8, y: u8)
        requires
            x < 16,
            y < 16,
        ensures
            final(self)@ == spec_xor_xy(old(self)@, x as int, y as int),
    {
        self.registers[x as usize] = self.registers[x as usize] ^ self.registers[y as usize];
    }

    /// 8xy4 - ADD: Vx takes (Vx + Vy) mod 256; VF is written after
    /// the sum is computed and reports 1 exactly when the unmodular
    /// sum exceeds 255.
    pub fn add_xy(&mut self, x: u8, y: u8)
        requires
            x < 16,
            y < 16,
        ensures
            final(self)@ == spec_add_xy(old(self)@, x as int, y as int),
    {
        let vx = self.registers[x as usize] as u16;
        let vy = self.registers[y as usize] as u16;
        if vx + vy > 0xFF {
            self.registers[0xF] = 1;
        } else {
            self.registers[0xF] = 0;
        }
        self.registers[x as usize] = ((vx + vy) % 256) as u8;
    }

    /// 8xy5 - SUB: Vx takes (Vx - Vy) mod 256; VF reports 1 exactly
    /// when no borrow occurred, that is Vx >= Vy beforehand.
    pub fn sub_xy(&mut self, x: u8, y: u8)
        requires
            x < 16,
            y < 16,
        ensures
            final(self)@ == spec_sub_xy(old(self)@, x as int, y as int),
    {
        let vx = self.registers[x as usize];
        let vy = self.registers[y as usize];
        if vx >= vy {
            self.registers[0xF] = 1;
        } else {
            self.registers[0xF] = 0;
        }
        let val = (((vx as u16) + 256 - (vy as u16)) % 256) as u8;
        proof {
            vstd::arithmetic::div_mod::lemma_mod_add_multiples_vanish(vx - vy, 256);
        }
        self.registers[x as usize] = val;
    }

    /// 8xy7 - SUBN: Vx takes (Vy - Vx) mod 256; the borrow
    /// convention of SUB with the operands swapped.
    pub fn subn_xy(&mut self, x: u8, y: u8)
        requires
            x < 16,
            y < 16,
        ensures
            final(self)@ == spec_subn_xy(old(self)@, x as int, y as int),
    {
        let vx = self.registers[x as usize];
        let vy = self.registers[y as usize];
        if vy >= vx {
            self.registers[0xF] = 1;
        } else {
            self.registers[0xF] = 0;
        }
        let val = (((vy as u16) + 256 - (vx as u16)) % 256) as u8;
        proof {
            vstd::arithmetic::div_mod::lemma_mod_add_multiples_vanish(vy - vx, 256);
        }
        self.registers[x as usize] = val;
    }

    /// 8xy6 - SHR: VF takes the old least-significant bit of Vx,
    /// then Vx is shifted right once.
    pub fn shr_xy(&mut self, x: u8)
        requires
            x < 16,
        ensures
            final(self)@ == spec_shr_xy(old(self)@, x as int),
    {
        let vx = self.registers[x as usize];
        self.registers[0xF] = vx & 0x01;
        self.registers[x as usize] = vx >> 1;
    }

    /// 8xyE - SHL: VF takes the old most-significant bit of Vx, then
    /// Vx is shifted left once, modulo 256.
    pub fn shl_xy(&mut self, x: u8)
        requires
            x < 16,
        ensures
            final(self)@ == spec_shl_xy(old(self)@, x as int),
    {
        let vx = self.registers[x as usize];
        self.registers[0xF] = (vx & 0x80) >> 7;
        self.registers[x as usize] = (((vx as u16) * 2) % 256) as u8;
    }

    /// Annn - LD I: the index register is set to nnn.
    pub fn ld_i_addr(&mut self, nnn: u16)
        ensures
            final(self)@ == spec_set_index(old(self)@, nnn),
    {
        self.index_register = nnn;
    }

    /// Bnnn - JP V0: jump to V0 + nnn with the natural 16-bit wrap.
    pub fn jp_v0_addr(&mut self, nnn: u16)
        ensures
            final(self)@ == spec_jump_v0(old(self)@, nnn),
    {
        self.program_counter = wrap_add_u16(self.registers[0] as u16, nnn);
    }

    /// Cxkk - RND: Vx takes the given random byte masked with kk.
    /// The byte itself comes from the caller, so this transition is
    /// exact for whatever the random source produced.
    pub fn rnd_byte(&mut self, x: u8, kk: u8, rnd: u8)
        requires
            x < 16,
        ensures
            final(self)@ == spec_set_reg(old(self)@, x as int, rnd & kk),
    {
        self.registers[x as usize] = rnd & kk;
    }

    /// Ex9E - SKP: with the latch reporting the key held in Vx, skip
    /// the next instruction and clear the cached key.
    pub fn skp_vx(&mut self, x: u8, key: Option<u8>)
        requires
            x < 16,
        ensures
            final(self)@ == spec_skp(old(self)@, x as int, key),
    {
        let vx = self.registers[x as usize];
        if let Some(k) = key {
            if k == vx {
                self.program_counter = wrap_add_u16(self.program_counter, 2);
                self.key = None;
            }
        }
    }

    /// ExA1 - SKNP: with the latch reporting a key other than the
    /// one in Vx, skip the next instruction and clear the cached key.
    pub fn sknp_vx(&mut self, x: u8, key: Option<u8>)
        requires
            x < 16,
        ensures
            final(self)@ == spec_sknp(old(self)@, x as int, key),
    {
        let vx = self.registers[x as usize];
        if let Some(k) = key {
            if k != vx {
                self.program_counter = wrap_add_u16(self.program_counter, 2);
                self.key = None;
            }
        }
    }

    /// Fx07 - LD: Vx is loaded from the delay timer.
    pub fn ld_vx_dt(&mut self, x: u8)
        requires
            x < 16,
        ensures
            final(self)@ == spec_set_reg(old(self)@, x as int, old(self)@.delay),
    {
        self.registers[x as usize] = self.delay_timer;
    }

    /// Fx0A - LD: wait for a key by re-fetching.  With a key present
    /// it lands in Vx; with none the program counter rolls back by 2
    /// so the same instruction runs again next step.
    pub fn ld_vx_k(&mut self, x: u8, key: Option<u8>)
        requires
            x < 16,
        ensures
            final(self)@ == spec_wait_key(old(self)@, x as int, key),
    {
        match key {
            Some(k) => {
                self.registers[x as usize] = k;
            },
            None => {
                self.program_counter = wrap_sub_u16(self.program_counter, 2);
            },
        }
    }

    /// Fx15 - LD: the delay timer is loaded from Vx.
    pub fn ld_dt_vx(&mut self, x: u8)
        requires
            x < 16,
        ensures
            final(self)@ == spec_set_delay(old(self)@, x as int),
    {
        self.delay_timer = self.registers[x as usize];
    }

    /// Fx18 - LD: the sound timer is loaded from Vx.
    pub fn ld_st_vx(&mut self, x: u8)
        requires
            x < 16,
        ensures
            final(self)@ == spec_set_sound(old(self)@, x as int),
    {
        self.sound_timer = self.registers[x as usize];
    }

    /// Fx1E - ADD I: the index register grows by Vx with the natural
    /// 16-bit wrap.
    pub fn add_i_vx(&mut self, x: u8)
        requires
            x < 16,
        ensures
            final(self)@ == spec_add_index(old(self)@, x as int),
    {
        self.index_register = wrap_add_u16(self.index_register, self.registers[x as usize] as u16);
    }

    /// Fx29 - LD F: the index register points at the font glyph for
    /// the value in Vx.
    pub fn ld_f_vx(&mut self, x: u8)
        requires
            x < 16,
        ensures
            final(self)@ == spec_font_index(old(self)@, x as int),
    {
        self.index_register = (self.registers[x as usize] as u16) * 5;
    }

    /// Fx33 - LD B: the three decimal digits of Vx are stored at
    /// I, I + 1 and I + 2, each address taken modulo the memory size.
    pub fn ld_b_vx(&mut self, x: u8)
        requires
            x < 16,
        ensures
            final(self)@ == spec_store_bcd(old(self)@, x as int),
    {
        let vx = self.registers[x as usize];
        let i0 = (self.index_register % 4096) as usize;
        let i1 = (((self.index_register as u32) + 1) % 4096) as usize;
        let i2 = (((self.index_register as u32) + 2) % 4096) as usize;
        self.memory[i0] = (vx / 100) % 10;
        self.memory[i1] = (vx / 10) % 10;
        self.memory[i2] = vx % 10;
    }

    /// Dxyn - DRW: the n-byte sprite at [I, I + n) is xored onto the
    /// screen at (Vx, Vy), rows and columns wrapping modulo 32 and
    /// 64, and VF reports whether any pixel went from set to unset.
    pub fn drw_xy(&mut self, x: u8, y: u8, n: u8)
        requires
            x < 16,
            y < 16,
            n < 16,
        ensures
            final(self)@ == spec_draw(old(self)@, x as int, y as int, n as int),
    {
        let vx = self.registers[x as usize] as usize;
        let vy = self.registers[y as usize] as usize;
        self.registers[0xF] = 0;
        let ghost s0 = old(self)@;
        let ghost vxi: int = vx as int;
        let ghost vyi: int = vy as int;
        proof {
            assert(!draw_collision_upto(s0, vxi, vyi, 0, 0));
            assert(self.display@ =~= draw_screen_upto(s0, vxi, vyi, 0, 0));
        }
        let mut r: u8 = 0;
        while r < n
            invariant
                r <= n,
                n < 16,
                vx < 256,
                vy < 256,
                s0 == old(self)@,
                vxi == vx as int,
                vyi == vy as int,
                self.memory@ == s0.mem,
                self.index_register == s0.index,
                self.program_counter == s0.pc,
                self.stack@ == s0.stack,
                self.stack_pointer as nat == s0.sp,
                self.delay_timer == s0.delay,
                self.sound_timer == s0.sound,
                self.key == s0.key,
                self.registers@ == s0.regs.update(
                    15,
                    if draw_collision_upto(s0, vxi, vyi, r as int, 0) {
                        1u8
                    } else {
                        0u8
                    },
                ),
                self.display@ == draw_screen_upto(s0, vxi, vyi, r as int, 0),
            decreases n - r,
        {
            let mut j: u8 = 0;
            while j < 8
                invariant
                    j <= 8,
                    r < n,
                    n < 16,
                    vx < 256,
                    vy < 256,
                    s0 == old(self)@,
                    vxi == vx as int,
                    vyi == vy as int,
                    self.memory@ == s0.mem,
                    self.index_register == s0.index,
                    self.program_counter == s0.pc,
                    self.stack@ == s0.stack,
                    self.stack_pointer as nat == s0.sp,
                    self.delay_timer == s0.delay,
                    self.sound_timer == s0.sound,
                    self.key == s0.key,
                    self.registers@ == s0.regs.update(
                        15,
                        if draw_collision_upto(s0, vxi, vyi, r as int, j as int) {
                            1u8
                        } else {
                            0u8
                        },
                    ),
                    self.display@ == draw_screen_upto(s0, vxi, vyi, r as int, j as int),
                decreases 8 - j,
            {
                let byte = self.memory[(((self.index_register as u32) + (r as u32))
                    % 4096) as usize];
                let bit = (byte >> (7 - j)) & 1;
                let bit_set = bit == 1;
                let curr_x = (vx + j as usize) % 64;
                let curr_y = (vy + r as usize) % 32;
                let p = curr_y * 64 + curr_x;
                proof {
                    lemma_pix_parts(vyi, vxi, r as int, j as int);
                    assert(p as int == pix(vyi + r, vxi + j));
                    assert(bit_set == sprite_bit(s0.mem, s0.index, r as int, j as int));
                    assert(!draw_hit_upto(s0, vxi, vyi, r as int, j as int, p as int));
                }
                let prev = self.display[p];
                let new_pix = prev != bit_set;
                let ghost prev_regs = self.registers@;
                self.display[p] = new_pix;
                if prev && !new_pix {
                    self.registers[0xF] = 1;
                }
                proof {
                    assert(prev == s0.screen[p as int]);
                    assert forall|q: int| 0 <= q < 2048 implies self.display@[q] == (
                    s0.screen[q] != draw_hit_upto(
                        s0,
                        vxi,
                        vyi,
                        r as int,
                        j as int + 1,
                        q,
                    )) by {
                        if q == p as int {
                            assert(draw_hit_upto(s0, vxi, vyi, r as int, j as int + 1, q)
                                == bit_set);
                        } else {
                            lemma_pix_unique(vyi, vxi, r as int, j as int, q);
                            assert(draw_hit_upto(s0, vxi, vyi, r as int, j as int + 1, q)
                                == draw_hit_upto(s0, vxi, vyi, r as int, j as int, q));
                        }
                    }
                    assert(self.display@ =~= draw_screen_upto(
                        s0,
                        vxi,
                        vyi,
                        r as int,
                        j as int + 1,
                    ));
                    if prev && bit_set {
                        assert(sprite_bit(s0.mem, s0.index, r as int, j as int)
                            && s0.screen[pix(vyi + r, vxi + j)]);
                        assert(draw_collision_upto(s0, vxi, vyi, r as int, j as int + 1));
                        assert(self.registers@ =~= s0.regs.update(15, 1u8));
                    } else {
                        assert(draw_collision_upto(s0, vxi, vyi, r as int, j as int + 1)
                            == draw_collision_upto(s0, vxi, vyi, r as int, j as int)) by {
                            if draw_collision_upto(s0, vxi, vyi, r as int, j as int + 1) {
                                let (r0, j0) = choose|r0: int, j0: int|
                                    0 <= r0 && 0 <= j0 < 8 && lex_before(
                                        r0,
                                        j0,
                                        r as int,
                                        j as int + 1,
                                    ) && #[trigger] sprite_bit(s0.mem, s0.index, r0, j0)
                                        && s0.screen[pix(vyi + r0, vxi + j0)];
                                if r0 == r as int && j0 == j as int {
                                    assert(false);
                                } else {
                                    assert(lex_before(r0, j0, r as int, j as int));
                                    assert(draw_collision_upto(s0, vxi, vyi, r as int, j as int));
                                }
                            }
                            if draw_collision_upto(s0, vxi, vyi, r as int, j as int) {
                                let (r0, j0) = choose|r0: int, j0: int|
                                    0 <= r0 && 0 <= j0 < 8 && lex_before(r0, j0, r as int, j as int)
                                        && #[trigger] sprite_bit(s0.mem, s0.index, r0, j0)
                                        && s0.screen[pix(vyi + r0, vxi + j0)];
                                assert(lex_before(r0, j0, r as int, j as int + 1));
                                assert(draw_collision_upto(s0, vxi, vyi, r as int, j as int + 1));
                            }
                        }
                    }
                }
                j = j + 1;
            }
            proof {
                assert(draw_screen_upto(s0, vxi, vyi, r as int, 8) =~= draw_screen_upto(
                    s0,
                    vxi,
                    vyi,
                    r as int + 1,
                    0,
                ));
                assert(draw_collision_upto(s0, vxi, vyi, r as int, 8) == draw_collision_upto(
                    s0,
                    vxi,
                    vyi,
                    r as int + 1,
                    0,
                )) by {
                    if draw_collision_upto(s0, vxi, vyi, r as int, 8) {
                        let (r0, j0) = choose|r0: int, j0: int|
                            0 <= r0 && 0 <= j0 < 8 && lex_before(r0, j0, r as int, 8)
                                && #[trigger] sprite_bit(s0.mem, s0.index, r0, j0)
                                && s0.screen[pix(vyi + r0, vxi + j0)];
                        assert(lex_before(r0, j0, r as int + 1, 0));
                        assert(draw_collision_upto(s0, vxi, vyi, r as int + 1, 0));
                    }
                    if draw_collision_upto(s0, vxi, vyi, r as int + 1, 0) {
                        let (r0, j0) = choose|r0: int, j0: int|
                            0 <= r0 && 0 <= j0 < 8 && lex_before(r0, j0, r as int + 1, 0)
                                && #[trigger] sprite_bit(s0.mem, s0.index, r0, j0)
                                && s0.screen[pix(vyi + r0, vxi + j0)];
                        assert(lex_before(r0, j0, r as int, 8));
                        assert(draw_collision_upto(s0, vxi, vyi, r as int, 8));
                    }
                }
            }
            r = r + 1;
        }
        proof {
            assert(draw_screen_upto(s0, vxi, vyi, n as int, 0) =~= draw_screen(
                s0,
                vxi,
                vyi,
                n as int,
            ));
            assert(draw_collision_upto(s0, vxi, vyi, n as int, 0) == draw_collision(
                s0,
                vxi,
                vyi,
                n as int,
            )) by {
                if draw_collision_upto(s0, vxi, vyi, n as int, 0) {
                    let (r0, j0) = choose|r0: int, j0: int|
                        0 <= r0 && 0 <= j0 < 8 && lex_before(r0, j0, n as int, 0)
                            && #[trigger] sprite_bit(s0.mem, s0.index, r0, j0)
                            && s0.screen[pix(vyi + r0, vxi + j0)];
                    assert(draw_collision(s0, vxi, vyi, n as int));
                }
                if draw_collision(s0, vxi, vyi, n as int) {
                    let (r0, j0) = choose|r0: int, j0: int|
                        0 <= r0 < n as int && 0 <= j0 < 8 && #[trigger] sprite_bit(
                            s0.mem,
                            s0.index,
                            r0,
                            j0,
                        ) && s0.screen[pix(vyi + r0, vxi + j0)];
                    assert(lex_before(r0, j0, n as int, 0));
                    assert(draw_collision_upto(s0, vxi, vyi, n as int, 0));
                }
            }
            assert(self@ =~= spec_draw(old(self)@, x as int, y as int, n as int));
        }
    }

    /// Fx55 - LD [I]: registers V0 through Vx are copied to memory
    /// starting at I, each address taken modulo the memory size.
    pub fn ld_i_vx(&mut self, x: u8)
        requires
            x < 16,
        ensures
            final(self)@ == spec_store_regs(old(self)@, x as int),
    {
        let ghost base: int = old(self).index_register as int;
        let mut k: usize = 0;
        while k <= x as usize
            invariant
                x < 16,
                k <= x as usize + 1,
                base == old(self).index_register as int,
                self.registers@ == old(self).registers@,
                self.program_counter == old(self).program_counter,
                self.stack@ == old(self).stack@,
                self.stack_pointer == old(self).stack_pointer,
                self.index_register == old(self).index_register,
                self.delay_timer == old(self).delay_timer,
                self.sound_timer == old(self).sound_timer,
                self.display@ == old(self).display@,
                self.key == old(self).key,
                forall|a: int|
                    0 <= a < 4096 ==> #[trigger] self.memory@[a] == (if (a - base) % 4096 < k {
                        old(self).registers@[(a - base) % 4096]
                    } else {
                        old(self).memory@[a]
                    }),
            decreases x as usize + 1 - k,
        {
            let addr = (((self.index_register as u32) + (k as u32)) % 4096) as usize;
            let v = self.registers[k];
            self.memory[addr] = v;
            proof {
                assert forall|a: int| 0 <= a < 4096 implies #[trigger] self.memory@[a] == (
                if (a - base) % 4096 < k + 1 {
                    old(self).registers@[(a - base) % 4096]
                } else {
                    old(self).memory@[a]
                }) by {
                    crate::model::lemma_mod_match(base, a, k as int, 4096);
                }
            }
            k = k + 1;
        }
        proof {
            assert(self@.mem =~= spec_store_regs(old(self)@, x as int).mem);
            assert(self@ =~= spec_store_regs(old(self)@, x as int));
        }
    }

    /// Fx65 - LD Vx [I]: registers V0 through Vx are loaded from
    /// memory starting at I, each address taken modulo the memory
    /// size.
    pub fn ld_vx_i(&mut self, x: u8)
        requires
            x < 16,
        ensures
            final(self)@ == spec_load_regs(old(self)@, x as int),
    {
        let mut k: usize = 0;
        while k <= x as usize
            invariant
                x < 16,
                k <= x as usize + 1,
                self.memory@ == old(self).memory@,
                self.program_counter == old(self).program_counter,
                self.stack@ == old(self).stack@,
                self.stack_pointer == old(self).stack_pointer,
                self.index_register == old(self).index_register,
                self.delay_timer == old(self).delay_timer,
                self.sound_timer == old(self).sound_timer,
                self.display@ == old(self).display@,
                self.key == old(self).key,
                forall|i: int|
                    0 <= i < 16 ==> #[trigger] self.registers@[i] == (if i < k {
                        old(self).memory@[(old(self).index_register + i) % 4096]
                    } else {
                        old(self).registers@[i]
                    }),
            decreases x as usize + 1 - k,
        {
            let addr = (((self.index_register as u32) + (k as u32)) % 4096) as usize;
            self.registers[k] = self.memory[addr];
            k = k + 1;
        }
        proof {
            assert(self@.regs =~= spec_load_regs(old(self)@, x as int).regs);
            assert(self@ =~= spec_load_regs(old(self)@, x as int));
        }
    }

    /// One fetch, decode and execute cycle, with the key report and
    /// the random byte supplied by the caller: for whatever those
    /// inputs were, the machine moves exactly as the model's step
    /// function says, and the step's outcome is the model's.
    pub fn update_with_inputs(&mut self, key: Option<u8>, rnd: u8) -> (r: Result<(), VmError>)
        requires
            old(self)@.wf(),
        ensures
            final(self)@.wf(),
            final(self)@ == step_state(old(self)@, key, rnd),
            r == step_result(old(self)@, key, rnd),
    {
        let opcode = self.read_opcode();
        self.program_counter = wrap_add_u16(self.program_counter, 2);

        let c = (opcode / 0x1000) as u8;
        let x = ((opcode / 0x100) % 16) as u8;
        let y = ((opcode / 16) % 16) as u8;
        let d = (opcode % 16) as u8;
        let nnn = opcode % 0x1000;
        let kk = (opcode % 256) as u8;

        proof {
            assert(c == op_c(opcode) && x == op_x(opcode) && y == op_y(opcode) && d == op_d(
                opcode,
            ) && nnn == op_nnn(opcode) && kk == op_kk(opcode));
            assert(self@ == (CpuView { pc: pc_plus(old(self)@.pc, 2), ..old(self)@ }));
        }

        let result: Result<(), VmError> = match (c, x, y, d) {
            (0, 0, 0xE, 0) => {
                self.cls();
                Ok(())
            },
            (0, 0, 0xE, 0xE) => self.ret(),
            (0, _, _, _) => {
                self.sys_addr(nnn);
                Ok(())
            },
            (0x1, _, _, _) => {
                self.jp_addr(nnn);
                Ok(())
            },
            (0x2, _, _, _) => self.call(nnn),
            (0x3, _, _, _) => {
                self.se_byte(x, kk);
                Ok(())
            },
            (0x4, _, _, _) => {
                self.sne_byte(x, kk);
                Ok(())
            },
            (0x5, _, _, 0) => {
                self.se_xy(x, y);
                Ok(())
            },
            (0x6, _, _, _) => {
                self.ld_byte(x, kk);
                Ok(())
            },
            (0x7, _, _, _) => {
                self.add_byte(x, kk);
                Ok(())
            },
            (0x8, _, _, 0) => {
                self.ld_xy(x, y);
                Ok(())
            },
            (0x8, _, _, 1) => {
                self.or_xy(x, y);
                Ok(())
            },
            (0x8, _, _, 2) => {
                self.and_xy(x, y);
                Ok(())
            },
            (0x8, _, _, 3) => {
                self.xor_xy(x, y);
                Ok(())
            },
            (0x8, _, _, 4) => {
                self.add_xy(x, y);
                Ok(())
            },
            (0x8, _, _, 5) => {
                self.sub_xy(x, y);
                Ok(())
            },
            (0x8, _, _, 6) => {
                self.shr_xy(x);
                Ok(())
            },
            (0x8, _, _, 7) => {
                self.subn_xy(x, y);
                Ok(())
            },
            (0x8, _, _, 0xE) => {
                self.shl_xy(x);
                Ok(())
            },
            (0x9, _, _, 0) => {
                self.sne_xy(x, y);
                Ok(())
            },
            (0xA, _, _, _) => {
                self.ld_i_addr(nnn);
                Ok(())
            },
            (0xB, _, _, _) => {
                self.jp_v0_addr(nnn);
                Ok(())
            },
            (0xC, _, _, _) => {
                self.rnd_byte(x, kk, rnd);
                Ok(())
            },
            (0xD, _, _, _) => {
                self.drw_xy(x, y, d);
                Ok(())
            },
            (0xE, _, 9, 0xE) => {
                self.skp_vx(x, key);
                Ok(())
            },
            (0xE, _, 0xA, 1) => {
                self.sknp_vx(x, key);
                Ok(())
            },
            (0xF, _, 0, 7) => {
                self.ld_vx_dt(x);
                Ok(())
            },
            (0xF, _, 0, 0xA) => {
                self.ld_vx_k(x, key);
                Ok(())
            },
            (0xF, _, 1, 5) => {
                self.ld_dt_vx(x);
                Ok(())
            },
            (0xF, _, 1, 8) => {
                self.ld_st_vx(x);
                Ok(())
            },
            (0xF, _, 1, 0xE) => {
                self.add_i_vx(x);
                Ok(())
            },
            (0xF, _, 2, 9) => {
                self.ld_f_vx(x);
                Ok(())
            },
            (0xF, _, 3, 3) => {
                self.ld_b_vx(x);
                Ok(())
            },
            (0xF, _, 5, 5) => {
                self.ld_i_vx(x);
                Ok(())
            },
            (0xF, _, 6, 5) => {
                self.ld_vx_i(x);
                Ok(())
            },
            _ => Err(VmError::DecodeFailure(opcode)),
        };
        proof {
            assert(self@ == step_state(old(self)@, key, rnd));
            assert(result == step_result(old(self)@, key, rnd));
        }
        result
    }

    /// Whether the instruction word is one of the three encodings
    /// that observe the input latch: skip-if-pressed (Ex9E),
    /// skip-if-not-pressed (ExA1) and wait-for-key (Fx0A).  Only
    /// these may poll the keyboard: a poll on any other instruction
    /// would drain a queued key and throw it away.
    fn polls_key(op: u16) -> (b: bool)
        ensures
            b == ((op_c(op) == 0xE && op_y(op) == 9 && op_d(op) == 0xE) || (op_c(op) == 0xE
                && op_y(op) == 0xA && op_d(op) == 1) || (op_c(op) == 0xF && op_y(op) == 0 && op_d(
                op,
            ) == 0xA)),
    {
        let c = (op / 0x1000) as u8;
        let y = ((op / 16) % 16) as u8;
        let d = (op % 16) as u8;
        (c == 0xE && y == 9 && d == 0xE) || (c == 0xE && y == 0xA && d == 1) || (c == 0xF && y == 0
            && d == 0xA)
    }

    /// One cycle with the key report supplied by the caller; a
    /// random byte is drawn only when the fetched instruction is
    /// RND (Cxkk), so the transition holds for some byte the random
    /// source produced.
    pub fn update_with_key(&mut self, key: Option<u8>) -> (r: Result<(), VmError>)
        requires
            old(self)@.wf(),
        ensures
            final(self)@.wf(),
            exists|rnd: u8|
                final(self)@ == #[trigger] step_state(old(self)@, key, rnd) && r == step_result(
                    old(self)@,
                    key,
                    rnd,
                ),
    {
        let opcode = self.read_opcode();
        let rnd = if opcode / 0x1000 == 0xC {
            random_u8()
        } else {
            0
        };
        self.update_with_inputs(key, rnd)
    }

    /// One cycle as the driving loop invokes it.  The keyboard is
    /// polled once, and only when the fetched instruction is one of
    /// the three input forms, so a queued key is never drained by an
    /// instruction that does not observe the latch; the transition
    /// holds for whatever the poll and the random source reported.
    pub fn update(&mut self) -> (r: Result<(), VmError>)
        requires
            old(self)@.wf(),
        ensures
            final(self)@.wf(),
            exists|key: Option<u8>, rnd: u8|
                final(self)@ == #[trigger] step_state(old(self)@, key, rnd) && r == step_result(
                    old(self)@,
                    key,
                    rnd,
                ),
    {
        let opcode = self.read_opcode();
        let key = if Self::polls_key(opcode) {
            self.keyboard.get_key()
        } else {
            None
        };
        self.update_with_key(key)
    }
}

} // verus!
