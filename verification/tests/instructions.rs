//! Instruction-level tests: each handler on concrete values.
use chip8_core::chip8::Cpu;
use chip8_core::keyboard::KeyboardInput;

struct NoKey;

impl KeyboardInput for NoKey {
    fn get_key(&self) -> Option<u8> {
        None
    }
}

fn setup_cpu() -> Cpu<NoKey> {
    Cpu::from_bytes(&[0u8; 10], NoKey)
}

#[test]
fn test_add_xy() {
    let mut cpu = setup_cpu();

    cpu.ld_byte(0, 0x10);
    cpu.ld_byte(1, 0x20);
    cpu.add_xy(0, 1);
    assert_eq!(cpu.get_register(0), 0x30);
    assert_eq!(cpu.get_register(0xF), 0);

    cpu.ld_byte(0, 0xFF);
    cpu.ld_byte(1, 0x02);
    cpu.add_xy(0, 1);
    assert_eq!(cpu.get_register(0), 0x01);
    assert_eq!(cpu.get_register(0xF), 1);

    cpu.ld_byte(0, 0xFE);
    cpu.ld_byte(1, 0x02);
    cpu.add_xy(0, 1);
    assert_eq!(cpu.get_register(0), 0x00);
    assert_eq!(cpu.get_register(0xF), 1);
}

#[test]
fn test_sub_xy() {
    let mut cpu = setup_cpu();

    cpu.ld_byte(0, 5);
    cpu.ld_byte(1, 3);
    cpu.sub_xy(0, 1);
    assert_eq!(cpu.get_register(0), 2);
    assert_eq!(cpu.get_register(0xF), 1);

    cpu.ld_byte(0, 3);
    cpu.ld_byte(1, 5);
    cpu.sub_xy(0, 1);
    assert_eq!(cpu.get_register(0), 254);
    assert_eq!(cpu.get_register(0xF), 0);

    cpu.ld_byte(0, 7);
    cpu.ld_byte(1, 7);
    cpu.sub_xy(0, 1);
    assert_eq!(cpu.get_register(0), 0);
    assert_eq!(cpu.get_register(0xF), 1);
}

#[test]
fn test_subn_xy() {
    let mut cpu = setup_cpu();

    cpu.ld_byte(0, 3);
    cpu.ld_byte(1, 5);
    cpu.subn_xy(0, 1);
    assert_eq!(cpu.get_register(0), 2);
    assert_eq!(cpu.get_register(0xF), 1);

    cpu.ld_byte(0, 5);
    cpu.ld_byte(1, 3);
    cpu.subn_xy(0, 1);
    assert_eq!(cpu.get_register(0), 254);
    assert_eq!(cpu.get_register(0xF), 0);
}

#[test]
fn test_add_byte_leaves_flag() {
    let mut cpu = setup_cpu();

    // Set VF to 1 through a carrying add first.
    cpu.ld_byte(0, 0xFF);
    cpu.ld_byte(1, 0x02);
    cpu.add_xy(0, 1);
    assert_eq!(cpu.get_register(0xF), 1);

    // The immediate add wraps but never touches VF.
    cpu.ld_byte(0, 0xFF);
    cpu.add_byte(0, 0x02);
    assert_eq!(cpu.get_register(0), 0x01);
    assert_eq!(cpu.get_register(0xF), 1);
}

#[test]
fn test_shr_xy() {
    let mut cpu = setup_cpu();
    cpu.ld_byte(0, 5);
    cpu.shr_xy(0);
    assert_eq!(cpu.get_register(0), 2);
    assert_eq!(cpu.get_register(0xF), 1);

    cpu.ld_byte(0, 4);
    cpu.shr_xy(0);
    assert_eq!(cpu.get_register(0), 2);
    assert_eq!(cpu.get_register(0xF), 0);
}

#[test]
fn test_shl_xy() {
    let mut cpu = setup_cpu();
    cpu.ld_byte(0, 0x81);
    cpu.shl_xy(0);
    assert_eq!(cpu.get_register(0), 0x02);
    assert_eq!(cpu.get_register(0xF), 1);

    cpu.ld_byte(0, 0x41);
    cpu.shl_xy(0);
    assert_eq!(cpu.get_register(0), 0x82);
    assert_eq!(cpu.get_register(0xF), 0);
}

#[test]
fn test_bitwise_ops() {
    let mut cpu = setup_cpu();
    cpu.ld_byte(0, 0b1100);
    cpu.ld_byte(1, 0b1010);
    cpu.or_xy(0, 1);
    assert_eq!(cpu.get_register(0), 0b1110);

    cpu.ld_byte(0, 0b1100);
    cpu.and_xy(0, 1);
    assert_eq!(cpu.get_register(0), 0b1000);

    cpu.ld_byte(0, 0b1100);
    cpu.xor_xy(0, 1);
    assert_eq!(cpu.get_register(0), 0b0110);

    cpu.ld_xy(0, 1);
    assert_eq!(cpu.get_register(0), 0b1010);
}

#[test]
fn test_skip_handlers() {
    let mut cpu = setup_cpu();
    assert_eq!(cpu.get_pc(), 0x200);

    cpu.ld_byte(0, 7);
    cpu.se_byte(0, 7);
    assert_eq!(cpu.get_pc(), 0x202);
    cpu.se_byte(0, 8);
    assert_eq!(cpu.get_pc(), 0x202);

    cpu.sne_byte(0, 8);
    assert_eq!(cpu.get_pc(), 0x204);
    cpu.sne_byte(0, 7);
    assert_eq!(cpu.get_pc(), 0x204);

    cpu.ld_byte(1, 7);
    cpu.se_xy(0, 1);
    assert_eq!(cpu.get_pc(), 0x206);
    cpu.sne_xy(0, 1);
    assert_eq!(cpu.get_pc(), 0x206);
    cpu.ld_byte(1, 9);
    cpu.sne_xy(0, 1);
    assert_eq!(cpu.get_pc(), 0x208);
}

#[test]
fn test_jumps() {
    let mut cpu = setup_cpu();
    cpu.jp_addr(0x300);
    assert_eq!(cpu.get_pc(), 0x300);

    cpu.sys_addr(0x123);
    assert_eq!(cpu.get_pc(), 0x123);

    cpu.ld_byte(0, 5);
    cpu.jp_v0_addr(0x300);
    assert_eq!(cpu.get_pc(), 0x305);
}

#[test]
fn test_rnd_byte_masks() {
    let mut cpu = setup_cpu();
    cpu.rnd_byte(0, 0x0F, 0xAB);
    assert_eq!(cpu.get_register(0), 0x0B);
    cpu.rnd_byte(0, 0x00, 0xAB);
    assert_eq!(cpu.get_register(0), 0x00);
}

#[test]
fn test_bcd() {
    let mut cpu = setup_cpu();
    cpu.ld_byte(0, 234);
    cpu.ld_i_addr(0x300);
    cpu.ld_b_vx(0);
    assert_eq!(cpu.read_memory(0x300), 2);
    assert_eq!(cpu.read_memory(0x301), 3);
    assert_eq!(cpu.read_memory(0x302), 4);

    cpu.ld_byte(1, 7);
    cpu.ld_i_addr(0x310);
    cpu.ld_b_vx(1);
    assert_eq!(cpu.read_memory(0x310), 0);
    assert_eq!(cpu.read_memory(0x311), 0);
    assert_eq!(cpu.read_memory(0x312), 7);
}

#[test]
fn test_store_and_load_registers() {
    let mut cpu = setup_cpu();
    cpu.ld_byte(0, 11);
    cpu.ld_byte(1, 22);
    cpu.ld_byte(2, 33);
    cpu.ld_i_addr(0x300);
    cpu.ld_i_vx(2);
    assert_eq!(cpu.read_memory(0x300), 11);
    assert_eq!(cpu.read_memory(0x301), 22);
    assert_eq!(cpu.read_memory(0x302), 33);

    cpu.ld_byte(0, 0);
    cpu.ld_byte(1, 0);
    cpu.ld_byte(2, 0);
    cpu.ld_byte(3, 44);
    cpu.ld_vx_i(2);
    assert_eq!(cpu.get_register(0), 11);
    assert_eq!(cpu.get_register(1), 22);
    assert_eq!(cpu.get_register(2), 33);
    // V3 lies beyond the block and keeps its value.
    assert_eq!(cpu.get_register(3), 44);
}

#[test]
fn test_index_register_ops() {
    let mut cpu = setup_cpu();
    cpu.ld_i_addr(10);
    assert_eq!(cpu.get_index(), 10);

    cpu.ld_byte(0, 5);
    cpu.add_i_vx(0);
    assert_eq!(cpu.get_index(), 15);

    cpu.ld_byte(1, 0xA);
    cpu.ld_f_vx(1);
    assert_eq!(cpu.get_index(), 50);
}

#[test]
fn test_timers() {
    let mut cpu = setup_cpu();
    cpu.ld_byte(0, 3);
    cpu.ld_dt_vx(0);
    cpu.ld_byte(1, 5);
    cpu.ld_st_vx(1);
    assert_eq!(cpu.get_delay_timer(), 3);
    assert_eq!(cpu.get_sound_timer(), 5);

    cpu.decrement_timers();
    cpu.decrement_timers();
    assert_eq!(cpu.get_delay_timer(), 1);
    assert_eq!(cpu.get_sound_timer(), 3);

    // Three more ticks: the delay timer clamps at 0, five ticks take
    // the sound timer to exactly 0.
    cpu.decrement_timers();
    cpu.decrement_timers();
    cpu.decrement_timers();
    assert_eq!(cpu.get_delay_timer(), 0);
    assert_eq!(cpu.get_sound_timer(), 0);

    cpu.decrement_timers();
    assert_eq!(cpu.get_delay_timer(), 0);
    assert_eq!(cpu.get_sound_timer(), 0);

    cpu.ld_byte(2, 1);
    cpu.ld_dt_vx(2);
    cpu.ld_vx_dt(3);
    assert_eq!(cpu.get_register(3), 1);
}

#[test]
fn test_key_skip_handlers() {
    let mut cpu = setup_cpu();
    cpu.ld_byte(0, 5);

    cpu.skp_vx(0, Some(5));
    assert_eq!(cpu.get_pc(), 0x202);
    cpu.skp_vx(0, Some(3));
    assert_eq!(cpu.get_pc(), 0x202);
    cpu.skp_vx(0, None);
    assert_eq!(cpu.get_pc(), 0x202);

    cpu.sknp_vx(0, Some(3));
    assert_eq!(cpu.get_pc(), 0x204);
    cpu.sknp_vx(0, Some(5));
    assert_eq!(cpu.get_pc(), 0x204);
    cpu.sknp_vx(0, None);
    assert_eq!(cpu.get_pc(), 0x204);
}

#[test]
fn test_wait_key_handler() {
    let mut cpu = setup_cpu();
    cpu.ld_vx_k(0, None);
    assert_eq!(cpu.get_pc(), 0x1FE);
    cpu.ld_vx_k(0, Some(9));
    assert_eq!(cpu.get_register(0), 9);
    assert_eq!(cpu.get_pc(), 0x1FE);
}

#[test]
fn test_cls() {
    let mut cpu = Cpu::from_bytes(&[0xFF], NoKey);
    cpu.ld_i_addr(0x200);
    cpu.ld_byte(0, 0);
    cpu.ld_byte(1, 0);
    cpu.drw_xy(0, 1, 1);
    assert!(cpu.get_display()[0]);
    cpu.cls();
    let display = cpu.get_display();
    for p in 0..2048 {
        assert!(!display[p]);
    }
}
