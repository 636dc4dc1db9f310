use chip8::config::{enable_chip8_preset, CPUConfig, GPUConfig, RAMConfig, RenderOccasion};

#[test]
fn chip8_preset_forces_the_original_behaviour() {
    let mut cpu = CPUConfig {
        reset_flag_for_bitwise_operations: false,
        use_new_shift_instruction: true,
        use_new_jump_instruction: true,
        set_flag_for_index_overflow: true,
        move_index_with_reads: false,
        limit_to_one_draw_per_frame: false,
        allow_program_counter_overflow: true,
        use_true_randomness: false,
        fake_randomness_seed: 42,
        allow_index_register_overflow: true,
    };
    let mut gpu = GPUConfig {
        pixel_color_when_active: 1,
        pixel_color_when_inactive: 2,
        screen_border_color: 3,
        horizontal_resolution: 128,
        vertical_resolution: 64,
        wrap_sprite_positions: false,
        wrap_sprite_pixels: true,
        render_occasion: RenderOccasion::Changes,
    };
    let mut ram = RAMConfig {
        stack_size: 48,
        allow_stack_overflow: true,
        allow_heap_overflow: true,
        font_starting_address: 0x50,
        font_data: [1; 80],
    };
    enable_chip8_preset(&mut cpu, &mut gpu, &mut ram);
    assert!(cpu.reset_flag_for_bitwise_operations);
    assert!(!cpu.use_new_shift_instruction);
    assert!(!cpu.use_new_jump_instruction);
    assert!(!cpu.set_flag_for_index_overflow);
    assert!(cpu.move_index_with_reads);
    assert!(cpu.limit_to_one_draw_per_frame);
    assert!(cpu.allow_program_counter_overflow);
    assert_eq!(42, cpu.fake_randomness_seed);
    assert_eq!((64, 32), (gpu.horizontal_resolution, gpu.vertical_resolution));
    assert!(gpu.wrap_sprite_positions);
    assert!(!gpu.wrap_sprite_pixels);
    assert_eq!(RenderOccasion::Frequency, gpu.render_occasion);
    assert_eq!(3, gpu.screen_border_color);
    assert_eq!(16, ram.stack_size);
    assert_eq!(0x50, ram.font_starting_address);
}
