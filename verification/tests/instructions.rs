use chip8::config::CPUConfig;
use chip8::cpu::Cpu;
use chip8::input::KeyPad;
use chip8::instructions::{
    apply_random_byte, complete_draw, complete_key_wait, execute, get_instruction_function, i_00E0_CLS, i_00EE_RET,
    i_1nnn_JP_addr, i_2nnn_CALL_addr, i_3xkk_SE_Vx_byte, i_4xkk_SNE_Vx_byte, i_5xy0_SE_Vx_Vy,
    i_6xkk_LD_Vx_byte, i_7xkk_ADD_Vx_byte, i_8xy0_LD_Vx_Vy, i_8xy1_OR_Vx_Vy, i_8xy2_AND_Vx_Vy,
    i_8xy3_XOR_Vx_Vy, i_8xy4_ADD_Vx_Vy, i_8xy5_SUB_Vx_Vy, i_8xy6_SHR_Vx, i_8xy7_SUBN_Vx_Vy,
    i_8xyE_SHL_Vx, i_9xy0_SNE_Vx_Vy, i_Annn_LD_I_addr, i_Bnnn_JP_V0_addr, i_Cxkk_RND_Vx_byte,
    i_Dxyn_DRW_Vx_Vy_nibble, i_Ex9E_SKP_Vx, i_ExA1_SKNP_Vx, i_Fx07_LD_Vx_DT, i_Fx0A_LD_Vx_K,
    i_Fx15_LD_DT_Vx, i_Fx18_LD_ST_Vx, i_Fx1E_ADD_I_Vx, i_Fx29_LD_F_Vx, i_Fx33_LD_B_Vx,
    i_Fx55_LD_I_Vx, i_Fx65_LD_Vx_I, Action, Instruction, Opcode,
};
use chip8::ram::Ram;

fn config() -> CPUConfig {
    CPUConfig {
        reset_flag_for_bitwise_operations: false,
        use_new_shift_instruction: false,
        use_new_jump_instruction: false,
        set_flag_for_index_overflow: false,
        move_index_with_reads: false,
        limit_to_one_draw_per_frame: false,
        allow_program_counter_overflow: false,
        use_true_randomness: true,
        fake_randomness_seed: 0,
        allow_index_register_overflow: false,
    }
}

fn cpu() -> Cpu {
    Cpu::new(config(), Ram::new_default_conservative())
}

fn cpu_with(config: CPUConfig) -> Cpu {
    Cpu::new(config, Ram::new_default_conservative())
}

fn op(word: u16) -> Opcode {
    Opcode::from_u8s((word >> 8) as u8, (word & 0xFF) as u8)
}

#[test]
fn opcode_fields() {
    let o = Opcode::from_u8s(0xD1, 0x2F);
    assert_eq!(0x12F, o.get_addr());
    assert_eq!(0x2F, o.get_kk());
    assert_eq!(0xD, o.get_s());
    assert_eq!(0x1, o.get_x());
    assert_eq!(1, o.get_x_usize());
    assert_eq!(0x2, o.get_y());
    assert_eq!(2, o.get_y_usize());
    assert_eq!((1, 2), o.get_x_and_y_usize());
    assert_eq!(0xF, o.get_n());
}

#[test]
fn decode_table() {
    let cases: Vec<(u16, Option<Instruction>)> = vec![
        (0x00E0, Some(Instruction::Cls)),
        (0x00EE, Some(Instruction::Ret)),
        (0x0123, None),
        (0x1234, Some(Instruction::JpAddr)),
        (0x2345, Some(Instruction::CallAddr)),
        (0x3456, Some(Instruction::SeVxByte)),
        (0x4567, Some(Instruction::SneVxByte)),
        (0x5670, Some(Instruction::SeVxVy)),
        (0x5671, None),
        (0x6789, Some(Instruction::LdVxByte)),
        (0x789A, Some(Instruction::AddVxByte)),
        (0x8120, Some(Instruction::LdVxVy)),
        (0x8121, Some(Instruction::OrVxVy)),
        (0x8122, Some(Instruction::AndVxVy)),
        (0x8123, Some(Instruction::XorVxVy)),
        (0x8124, Some(Instruction::AddVxVy)),
        (0x8125, Some(Instruction::SubVxVy)),
        (0x8126, Some(Instruction::ShrVx)),
        (0x8127, Some(Instruction::SubnVxVy)),
        (0x812E, Some(Instruction::ShlVx)),
        (0x8128, None),
        (0x9120, Some(Instruction::SneVxVy)),
        (0x9121, None),
        (0xA123, Some(Instruction::LdIAddr)),
        (0xB123, Some(Instruction::JpV0Addr)),
        (0xC123, Some(Instruction::RndVxByte)),
        (0xD123, Some(Instruction::DrwVxVyNibble)),
        (0xE19E, Some(Instruction::SkpVx)),
        (0xE1A1, Some(Instruction::SknpVx)),
        (0xE1A2, None),
        (0xF107, Some(Instruction::LdVxDt)),
        (0xF10A, Some(Instruction::LdVxK)),
        (0xF115, Some(Instruction::LdDtVx)),
        (0xF118, Some(Instruction::LdStVx)),
        (0xF11E, Some(Instruction::AddIVx)),
        (0xF129, Some(Instruction::LdFVx)),
        (0xF133, Some(Instruction::LdBVx)),
        (0xF155, Some(Instruction::LdIVx)),
        (0xF165, Some(Instruction::LdVxI)),
        (0xF166, None),
    ];
    for (word, expected) in cases {
        assert_eq!(expected, get_instruction_function(&op(word)), "word {:04X}", word);
    }
}

#[test]
fn cls_asks_for_a_clear_screen() {
    let c = cpu();
    let (end, action) = i_00E0_CLS(&c, &op(0x00E0));
    assert!(!end);
    assert!(matches!(action, Action::ClearScreen));
}

#[test]
fn call_then_ret() {
    let mut c = cpu();
    c.set_pc(0x202);
    assert!(!i_2nnn_CALL_addr(&mut c, &op(0x2468)));
    assert_eq!(0x468, c.get_pc());
    assert!(!i_00EE_RET(&mut c, &op(0x00EE)));
    assert_eq!(0x202, c.get_pc());
    assert!(c.is_active());
    // A return with an empty stack stops the machine and keeps the counter.
    assert!(!i_00EE_RET(&mut c, &op(0x00EE)));
    assert_eq!(0x202, c.get_pc());
    assert!(!c.is_active());
}

#[test]
fn call_jumps_even_when_the_stack_is_full() {
    let mut c = cpu();
    for i in 0..16 {
        assert!(!i_2nnn_CALL_addr(&mut c, &op(0x2300 + i)));
    }
    assert!(c.is_active());
    assert!(!i_2nnn_CALL_addr(&mut c, &op(0x2ABC)));
    assert_eq!(0xABC, c.get_pc());
    assert!(!c.is_active());
}

#[test]
fn jump() {
    let mut c = cpu();
    assert!(!i_1nnn_JP_addr(&mut c, &op(0x1ABC)));
    assert_eq!(0xABC, c.get_pc());
}

#[test]
fn skips() {
    let mut c = cpu();
    c.set_v_reg(3, 0x42);
    c.set_v_reg(4, 0x42);
    c.set_pc(0x300);
    i_3xkk_SE_Vx_byte(&mut c, &op(0x3342));
    assert_eq!(0x302, c.get_pc());
    i_3xkk_SE_Vx_byte(&mut c, &op(0x3343));
    assert_eq!(0x302, c.get_pc());
    i_4xkk_SNE_Vx_byte(&mut c, &op(0x4343));
    assert_eq!(0x304, c.get_pc());
    i_4xkk_SNE_Vx_byte(&mut c, &op(0x4342));
    assert_eq!(0x304, c.get_pc());
    i_5xy0_SE_Vx_Vy(&mut c, &op(0x5340));
    assert_eq!(0x306, c.get_pc());
    i_9xy0_SNE_Vx_Vy(&mut c, &op(0x9340));
    assert_eq!(0x306, c.get_pc());
    c.set_v_reg(4, 0x41);
    i_9xy0_SNE_Vx_Vy(&mut c, &op(0x9340));
    assert_eq!(0x308, c.get_pc());
    i_5xy0_SE_Vx_Vy(&mut c, &op(0x5340));
    assert_eq!(0x308, c.get_pc());
}

#[test]
fn program_counter_past_the_heap() {
    let mut c = cpu();
    c.set_pc(0xFFE);
    c.increment_pc();
    assert_eq!(0xFFE, c.get_pc());
    assert!(!c.is_active());

    let mut cfg = config();
    cfg.allow_program_counter_overflow = true;
    let mut c = cpu_with(cfg);
    c.set_pc(0xFFE);
    c.increment_pc();
    assert_eq!(0x000, c.get_pc());
    assert!(c.is_active());
}

#[test]
fn loads_and_adds() {
    let mut c = cpu();
    i_6xkk_LD_Vx_byte(&mut c, &op(0x65F0));
    assert_eq!(0xF0, c.get_v_reg(5));
    i_7xkk_ADD_Vx_byte(&mut c, &op(0x7520));
    assert_eq!(0x10, c.get_v_reg(5));
    assert_eq!(0, c.get_v_reg(0xF));
    i_8xy0_LD_Vx_Vy(&mut c, &op(0x8750));
    assert_eq!(0x10, c.get_v_reg(7));
}

#[test]
fn bitwise_operations_and_flag_reset() {
    let mut c = cpu();
    c.set_v_reg(1, 0b1100);
    c.set_v_reg(2, 0b1010);
    c.set_v_reg(0xF, 9);
    i_8xy1_OR_Vx_Vy(&mut c, &op(0x8121));
    assert_eq!(0b1110, c.get_v_reg(1));
    assert_eq!(9, c.get_v_reg(0xF));
    c.set_v_reg(1, 0b1100);
    i_8xy2_AND_Vx_Vy(&mut c, &op(0x8122));
    assert_eq!(0b1000, c.get_v_reg(1));
    c.set_v_reg(1, 0b1100);
    i_8xy3_XOR_Vx_Vy(&mut c, &op(0x8123));
    assert_eq!(0b0110, c.get_v_reg(1));
    assert_eq!(9, c.get_v_reg(0xF));

    let mut cfg = config();
    cfg.reset_flag_for_bitwise_operations = true;
    let mut c = cpu_with(cfg);
    c.set_v_reg(1, 0b1100);
    c.set_v_reg(2, 0b1010);
    c.set_v_reg(0xF, 9);
    i_8xy1_OR_Vx_Vy(&mut c, &op(0x8121));
    assert_eq!(0b1110, c.get_v_reg(1));
    assert_eq!(0, c.get_v_reg(0xF));
}

#[test]
fn add_with_carry_and_subtract_with_borrow() {
    let mut c = cpu();
    c.set_v_reg(1, 200);
    c.set_v_reg(2, 100);
    i_8xy4_ADD_Vx_Vy(&mut c, &op(0x8124));
    assert_eq!(44, c.get_v_reg(1));
    assert_eq!(1, c.get_v_reg(0xF));
    // The subtraction undoes the addition (and borrows).
    i_8xy5_SUB_Vx_Vy(&mut c, &op(0x8125));
    assert_eq!(200, c.get_v_reg(1));
    assert_eq!(0, c.get_v_reg(0xF));
    i_8xy5_SUB_Vx_Vy(&mut c, &op(0x8215));
    assert_eq!(156, c.get_v_reg(2));
    assert_eq!(0, c.get_v_reg(0xF));
    c.set_v_reg(1, 10);
    c.set_v_reg(2, 3);
    i_8xy7_SUBN_Vx_Vy(&mut c, &op(0x8127));
    assert_eq!(249, c.get_v_reg(1));
    assert_eq!(0, c.get_v_reg(0xF));
    i_8xy7_SUBN_Vx_Vy(&mut c, &op(0x8217));
    assert_eq!(246, c.get_v_reg(2));
    assert_eq!(1, c.get_v_reg(0xF));
    // With x = F the flag wins.
    c.set_v_reg(0xF, 255);
    c.set_v_reg(3, 1);
    i_8xy4_ADD_Vx_Vy(&mut c, &op(0x8F34));
    assert_eq!(1, c.get_v_reg(0xF));
}

#[test]
fn shifts_old_and_new() {
    let mut c = cpu();
    c.set_v_reg(1, 0x01);
    c.set_v_reg(2, 0x83);
    i_8xy6_SHR_Vx(&mut c, &op(0x8126));
    assert_eq!(0x41, c.get_v_reg(1));
    assert_eq!(1, c.get_v_reg(0xF));
    i_8xyE_SHL_Vx(&mut c, &op(0x812E));
    assert_eq!(0x06, c.get_v_reg(1));
    assert_eq!(1, c.get_v_reg(0xF));

    let mut cfg = config();
    cfg.use_new_shift_instruction = true;
    let mut c = cpu_with(cfg);
    c.set_v_reg(1, 0x02);
    c.set_v_reg(2, 0x83);
    i_8xy6_SHR_Vx(&mut c, &op(0x8126));
    assert_eq!(0x01, c.get_v_reg(1));
    assert_eq!(0, c.get_v_reg(0xF));
    c.set_v_reg(1, 0x40);
    i_8xyE_SHL_Vx(&mut c, &op(0x812E));
    assert_eq!(0x80, c.get_v_reg(1));
    assert_eq!(0, c.get_v_reg(0xF));
}

#[test]
fn index_and_jumps() {
    let mut c = cpu();
    i_Annn_LD_I_addr(&mut c, &op(0xA123));
    assert_eq!(0x123, c.get_index_reg());
    c.set_v_reg(0, 0x10);
    c.set_v_reg(2, 0x20);
    i_Bnnn_JP_V0_addr(&mut c, &op(0xB200));
    assert_eq!(0x210, c.get_pc());

    let mut cfg = config();
    cfg.use_new_jump_instruction = true;
    let mut c = cpu_with(cfg);
    c.set_v_reg(0, 0x10);
    c.set_v_reg(2, 0x20);
    i_Bnnn_JP_V0_addr(&mut c, &op(0xB200));
    assert_eq!(0x220, c.get_pc());
}

#[test]
fn random_byte_is_masked() {
    let mut c = cpu();
    for _ in 0..50 {
        i_Cxkk_RND_Vx_byte(&mut c, &op(0xC30F));
        assert_eq!(0, c.get_v_reg(3) & 0xF0);
    }
    apply_random_byte(&mut c, &op(0xC33C), 0xF5);
    assert_eq!(0x34, c.get_v_reg(3));
}

#[test]
fn draw_reads_the_sprite() {
    let mut c = cpu();
    c.set_index_reg(0x000);
    c.set_v_reg(1, 7);
    c.set_v_reg(2, 9);
    let (end, action) = i_Dxyn_DRW_Vx_Vy_nibble(&mut c, &op(0xD123));
    assert!(!end);
    match action {
        Action::DrawSprite { sprite, x, y } => {
            assert_eq!(vec![0x67, 0x67, 0x67], sprite);
            assert_eq!((7, 9), (x, y));
        },
        _ => panic!("expected a sprite"),
    }

    let mut cfg = config();
    cfg.limit_to_one_draw_per_frame = true;
    let mut c = cpu_with(cfg);
    let (end, _) = i_Dxyn_DRW_Vx_Vy_nibble(&mut c, &op(0xD121));
    assert!(end);

    // A sprite that runs past the heap is refused without overflow.
    let mut c = cpu();
    c.set_index_reg(0xFFE);
    let (end, action) = i_Dxyn_DRW_Vx_Vy_nibble(&mut c, &op(0xD123));
    assert!(!end);
    assert!(matches!(action, Action::Nothing));
    assert!(!c.is_active());
}

#[test]
fn key_skips() {
    let mut pad = KeyPad::new();
    let mut pressed = vec![false; 16];
    pressed[5] = true;
    pad.update_input(&pressed, &vec![false; 16]);
    let mut c = cpu();
    c.set_v_reg(1, 5);
    c.set_pc(0x300);
    i_Ex9E_SKP_Vx(&mut c, &op(0xE19E), &pad);
    assert_eq!(0x302, c.get_pc());
    i_ExA1_SKNP_Vx(&mut c, &op(0xE1A1), &pad);
    assert_eq!(0x302, c.get_pc());
    c.set_v_reg(1, 6);
    i_Ex9E_SKP_Vx(&mut c, &op(0xE19E), &pad);
    assert_eq!(0x302, c.get_pc());
    i_ExA1_SKNP_Vx(&mut c, &op(0xE1A1), &pad);
    assert_eq!(0x304, c.get_pc());
}

#[test]
fn timers_and_key_wait() {
    let mut c = cpu();
    i_Fx07_LD_Vx_DT(&mut c, &op(0xF407), 33);
    assert_eq!(33, c.get_v_reg(4));
    let (end, action) = i_Fx15_LD_DT_Vx(&c, &op(0xF415));
    assert!(!end);
    assert!(matches!(action, Action::SetDelayTimer { value: 33 }));
    let (end, action) = i_Fx18_LD_ST_Vx(&c, &op(0xF418));
    assert!(!end);
    assert!(matches!(action, Action::SetSoundTimer { value: 33 }));
    let (end, action) = i_Fx0A_LD_Vx_K(&c, &op(0xF70A));
    assert!(end);
    assert!(matches!(action, Action::AwaitKey { register: 7 }));
}

#[test]
fn index_increment_and_overflow_flag() {
    let mut c = cpu();
    c.set_index_reg(0x100);
    c.set_v_reg(2, 0x10);
    i_Fx1E_ADD_I_Vx(&mut c, &op(0xF21E));
    assert_eq!(0x110, c.get_index_reg());
    assert!(c.is_active());

    c.set_index_reg(0xFF8);
    i_Fx1E_ADD_I_Vx(&mut c, &op(0xF21E));
    assert!(!c.is_active());
    assert_eq!(0xFF8, c.get_index_reg());

    let mut cfg = config();
    cfg.allow_index_register_overflow = true;
    cfg.set_flag_for_index_overflow = true;
    let mut c = cpu_with(cfg);
    c.set_index_reg(0xFF8);
    c.set_v_reg(2, 0x10);
    i_Fx1E_ADD_I_Vx(&mut c, &op(0xF21E));
    assert_eq!(0x008, c.get_index_reg());
    assert_eq!(1, c.get_v_reg(0xF));
    assert!(c.is_active());
}

#[test]
fn font_address() {
    let mut c = cpu();
    c.set_v_reg(6, 0xA);
    i_Fx29_LD_F_Vx(&mut c, &op(0xF629));
    assert_eq!(50, c.get_index_reg());
}

#[test]
fn decimal_digits() {
    let mut c = cpu();
    c.set_v_reg(3, 254);
    c.set_index_reg(0x400);
    i_Fx33_LD_B_Vx(&mut c, &op(0xF333));
    c.set_index_reg(0x400);
    i_Fx65_LD_Vx_I(&mut c, &op(0xF265));
    assert_eq!((2, 5, 4), (c.get_v_reg(0), c.get_v_reg(1), c.get_v_reg(2)));
}

#[test]
fn store_then_load_registers() {
    let mut cfg = config();
    cfg.move_index_with_reads = true;
    let mut c = cpu_with(cfg);
    for i in 0..16u8 {
        c.set_v_reg(i, i * 3 + 1);
    }
    c.set_index_reg(0x500);
    i_Fx55_LD_I_Vx(&mut c, &op(0xF555));
    assert_eq!(0x506, c.get_index_reg());
    for i in 0..16u8 {
        c.set_v_reg(i, 0);
    }
    c.set_index_reg(0x500);
    i_Fx65_LD_Vx_I(&mut c, &op(0xF465));
    assert_eq!(0x505, c.get_index_reg());
    for i in 0..5u8 {
        assert_eq!(i * 3 + 1, c.get_v_reg(i));
    }
    assert_eq!(0, c.get_v_reg(5));
}

#[test]
fn execute_dispatches() {
    let mut c = cpu();
    let pad = KeyPad::new();
    let o = op(0x6A42);
    let ins = get_instruction_function(&o).unwrap();
    let (end, action) = execute(&mut c, ins, &o, &pad, 0);
    assert!(!end);
    assert!(matches!(action, Action::Nothing));
    assert_eq!(0x42, c.get_v_reg(0xA));
    let o = op(0xFA07);
    let ins = get_instruction_function(&o).unwrap();
    execute(&mut c, ins, &o, &pad, 17);
    assert_eq!(17, c.get_v_reg(0xA));
}

#[test]
fn a_stopped_machine_stays_stopped() {
    let mut c = cpu();
    let pad = KeyPad::new();
    assert!(!i_00EE_RET(&mut c, &op(0x00EE)));
    assert!(!c.is_active());
    for word in [0x6105u16, 0x2400, 0x00EE, 0xA123, 0xF11E, 0x8124] {
        let o = op(word);
        let ins = get_instruction_function(&o).unwrap();
        execute(&mut c, ins, &o, &pad, 0);
        assert!(!c.is_active());
    }
}

#[test]
fn draw_and_key_wait_are_finished_by_the_completion_steps() {
    let mut c = cpu();
    c.set_v_reg(0xF, 7);
    let (_, action) = i_Dxyn_DRW_Vx_Vy_nibble(&mut c, &op(0xD121));
    assert!(matches!(action, Action::DrawSprite { .. }));
    complete_draw(&mut c, true);
    assert_eq!(1, c.get_v_reg(0xF));
    complete_draw(&mut c, false);
    assert_eq!(0, c.get_v_reg(0xF));

    let (end, action) = i_Fx0A_LD_Vx_K(&c, &op(0xF50A));
    assert!(end);
    match action {
        Action::AwaitKey { register } => complete_key_wait(&mut c, register, 0xB),
        _ => panic!("expected a key wait"),
    }
    assert_eq!(0xB, c.get_v_reg(5));
}
