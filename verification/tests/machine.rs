//! Whole-machine tests: programs run through the fetch-decode-execute
//! cycle, the stack limits, sprite drawing, and the key wait.
use std::cell::RefCell;

use chip8_core::chip8::Cpu;
use chip8_core::keyboard::KeyboardInput;
use chip8_core::VmError;

struct NoKey;

impl KeyboardInput for NoKey {
    fn get_key(&self) -> Option<u8> {
        None
    }
}

struct HeldKey(u8);

impl KeyboardInput for HeldKey {
    fn get_key(&self) -> Option<u8> {
        Some(self.0)
    }
}

/// A queue-drain latch: each poll removes the front key, as the
/// channel-fed terminal keyboard does.
struct QueuedKeys(RefCell<Vec<u8>>);

impl KeyboardInput for QueuedKeys {
    fn get_key(&self) -> Option<u8> {
        let mut queue = self.0.borrow_mut();
        if queue.is_empty() {
            None
        } else {
            Some(queue.remove(0))
        }
    }
}

#[test]
fn test_example_program() {
    // Set V0 = 10, set V1 = 5, add V1 into V0.
    let rom = [0x60, 0x0A, 0x61, 0x05, 0x80, 0x14];
    let mut cpu = Cpu::from_bytes(&rom, NoKey);
    cpu.update().unwrap();
    cpu.update().unwrap();
    cpu.update().unwrap();
    assert_eq!(cpu.get_register(0), 15);
    assert_eq!(cpu.get_register(0xF), 0);
    assert_eq!(cpu.get_pc(), 0x206);
}

#[test]
fn test_loaded_image() {
    let rom = [0x12, 0x34, 0x56];
    let cpu = Cpu::from_bytes(&rom, NoKey);
    assert_eq!(cpu.get_pc(), 0x200);
    assert_eq!(cpu.get_stack_depth(), 0);
    assert_eq!(cpu.get_index(), 0);
    assert_eq!(cpu.get_delay_timer(), 0);
    assert_eq!(cpu.get_sound_timer(), 0);
    // The font sits at the bottom of memory.
    assert_eq!(cpu.read_memory(0), 0xF0);
    assert_eq!(cpu.read_memory(79), 0x80);
    // The image is loaded verbatim at 0x200; around it memory is 0.
    assert_eq!(cpu.read_memory(0x1FF), 0);
    assert_eq!(cpu.read_memory(0x200), 0x12);
    assert_eq!(cpu.read_memory(0x201), 0x34);
    assert_eq!(cpu.read_memory(0x202), 0x56);
    assert_eq!(cpu.read_memory(0x203), 0);
    for x in 0..16 {
        assert_eq!(cpu.get_register(x), 0);
    }
}

#[test]
fn test_call_then_ret() {
    // 0x200: CALL 0x204; 0x204: RET.
    let rom = [0x22, 0x04, 0x00, 0x00, 0x00, 0xEE];
    let mut cpu = Cpu::from_bytes(&rom, NoKey);
    cpu.update().unwrap();
    assert_eq!(cpu.get_pc(), 0x204);
    assert_eq!(cpu.get_stack_depth(), 1);
    cpu.update().unwrap();
    assert_eq!(cpu.get_pc(), 0x202);
    assert_eq!(cpu.get_stack_depth(), 0);
}

#[test]
fn test_stack_overflow() {
    // 0x200: CALL 0x200, forever.
    let rom = [0x22, 0x00];
    let mut cpu = Cpu::from_bytes(&rom, NoKey);
    for depth in 1..=16 {
        assert_eq!(cpu.update(), Ok(()));
        assert_eq!(cpu.get_stack_depth(), depth);
    }
    assert_eq!(cpu.update(), Err(VmError::StackOverflow));
    assert_eq!(cpu.get_stack_depth(), 16);
}

#[test]
fn test_stack_underflow() {
    let rom = [0x00, 0xEE];
    let mut cpu = Cpu::from_bytes(&rom, NoKey);
    assert_eq!(cpu.update(), Err(VmError::StackUnderflow));
}

#[test]
fn test_decode_failure() {
    let rom = [0xFF, 0xFF];
    let mut cpu = Cpu::from_bytes(&rom, NoKey);
    assert_eq!(cpu.update(), Err(VmError::DecodeFailure(0xFFFF)));

    // 5xy1 matches no encoding either.
    let rom2 = [0x5A, 0xB1];
    let mut cpu2 = Cpu::from_bytes(&rom2, NoKey);
    assert_eq!(cpu2.update(), Err(VmError::DecodeFailure(0x5AB1)));
}

#[test]
fn test_draw_wraps_columns() {
    // One 8x1 sprite row of all-set bits, drawn at column 60 of row
    // 30: the four bits past the right edge wrap to columns 0..3.
    let rom = [0xFF];
    let mut cpu = Cpu::from_bytes(&rom, NoKey);
    cpu.ld_i_addr(0x200);
    cpu.ld_byte(0, 60);
    cpu.ld_byte(1, 30);
    cpu.drw_xy(0, 1, 1);
    let display = cpu.get_display();
    for col in [60, 61, 62, 63, 0, 1, 2, 3] {
        assert!(display[30 * 64 + col]);
    }
    for col in 4..60 {
        assert!(!display[30 * 64 + col]);
    }
    assert_eq!(cpu.get_register(0xF), 0);
}

#[test]
fn test_draw_wraps_rows() {
    // A two-row sprite drawn at row 31 wraps its second row to row 0.
    let rom = [0x80, 0x80];
    let mut cpu = Cpu::from_bytes(&rom, NoKey);
    cpu.ld_i_addr(0x200);
    cpu.ld_byte(0, 0);
    cpu.ld_byte(1, 31);
    cpu.drw_xy(0, 1, 2);
    let display = cpu.get_display();
    assert!(display[31 * 64]);
    assert!(display[0]);
    assert!(!display[1 * 64]);
    assert_eq!(cpu.get_register(0xF), 0);
}

#[test]
fn test_draw_twice_clears_and_collides() {
    let rom = [0xA5];
    let mut cpu = Cpu::from_bytes(&rom, NoKey);
    cpu.ld_i_addr(0x200);
    cpu.ld_byte(0, 10);
    cpu.ld_byte(1, 20);
    cpu.drw_xy(0, 1, 1);
    assert_eq!(cpu.get_register(0xF), 0);
    assert!(cpu.get_display()[20 * 64 + 10]);
    assert!(!cpu.get_display()[20 * 64 + 11]);
    assert!(cpu.get_display()[20 * 64 + 12]);

    cpu.drw_xy(0, 1, 1);
    assert_eq!(cpu.get_register(0xF), 1);
    let display = cpu.get_display();
    for p in 0..2048 {
        assert!(!display[p]);
    }
}

#[test]
fn test_wait_key_refetches() {
    // 0x200: LD V0, K.
    let rom = [0xF0, 0x0A];
    let mut cpu = Cpu::from_bytes(&rom, NoKey);
    cpu.update_with_key(None).unwrap();
    assert_eq!(cpu.get_pc(), 0x200);
    cpu.update_with_key(None).unwrap();
    assert_eq!(cpu.get_pc(), 0x200);
    cpu.update_with_key(Some(7)).unwrap();
    assert_eq!(cpu.get_pc(), 0x202);
    assert_eq!(cpu.get_register(0), 7);
}

#[test]
fn test_update_polls_keyboard() {
    // 0x200: SKP V0 with V0 = 0 and key 0 held: the skip fires.
    let rom = [0xE0, 0x9E, 0x00, 0x00];
    let mut cpu = Cpu::from_bytes(&rom, HeldKey(0));
    cpu.update().unwrap();
    assert_eq!(cpu.get_pc(), 0x204);

    // With key 3 held instead, no skip.
    let mut cpu2 = Cpu::from_bytes(&rom, HeldKey(3));
    cpu2.update().unwrap();
    assert_eq!(cpu2.get_pc(), 0x202);
}

#[test]
fn test_key_survives_non_input_steps() {
    // V0 = 5; V1 += 1; SKP V0.  The key queued before the run must
    // still be there when the skip instruction polls: the two
    // preceding instructions do not observe the latch and must not
    // drain it.
    let rom = [0x60, 0x05, 0x71, 0x01, 0xE0, 0x9E, 0x00, 0x00];
    let mut cpu = Cpu::from_bytes(&rom, QueuedKeys(RefCell::new(vec![5])));
    cpu.update().unwrap();
    cpu.update().unwrap();
    assert_eq!(cpu.get_pc(), 0x204);
    cpu.update().unwrap();
    assert_eq!(cpu.get_pc(), 0x208);
}

#[test]
fn test_queued_key_reaches_wait() {
    // LD V0, K after two register loads: the queued key is consumed
    // by the wait instruction itself, not by the steps before it.
    let rom = [0x61, 0x01, 0x62, 0x02, 0xF0, 0x0A];
    let mut cpu = Cpu::from_bytes(&rom, QueuedKeys(RefCell::new(vec![0xB])));
    cpu.update().unwrap();
    cpu.update().unwrap();
    cpu.update().unwrap();
    assert_eq!(cpu.get_register(0), 0xB);
    assert_eq!(cpu.get_pc(), 0x206);
}

#[test]
fn test_skip_instructions_through_update() {
    // 0x200: SE V0, 0 skips (V0 == 0); landing on 0x204: SNE V0, 0
    // does not skip.
    let rom = [0x30, 0x00, 0x00, 0x00, 0x40, 0x00];
    let mut cpu = Cpu::from_bytes(&rom, NoKey);
    cpu.update().unwrap();
    assert_eq!(cpu.get_pc(), 0x204);
    cpu.update().unwrap();
    assert_eq!(cpu.get_pc(), 0x206);
}
