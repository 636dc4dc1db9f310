use vstd::prelude::*;

verus! {

/// Which set of behaviour switches the machine starts from.
#[derive(Debug, Clone, Copy, PartialEq, Eq, Structural)]
pub enum Preset {
    CHIP8,
    Custom,
}

/// When the window repaints the screen.
#[derive(Debug, Clone, Copy, PartialEq, Eq, Structural)]
pub enum RenderOccasion {
    Changes,
    Frequency,
}

/// The shape of the tone that the sound timer plays.
#[derive(Debug, Clone, Copy, PartialEq, Eq, Structural)]
pub enum ToneWaveform {
    Sine,
    Square,
    Triangle,
    Sawtooth,
}

/// The behaviour switches of the processor. (The instruction rate, a
/// float, is held by the host next to this value.)
#[derive(Debug, Clone, Copy, PartialEq, Eq, Structural)]
pub struct CPUConfig {
    pub reset_flag_for_bitwise_operations: bool,
    pub use_new_shift_instruction: bool,
    pub use_new_jump_instruction: bool,
    pub set_flag_for_index_overflow: bool,
    pub move_index_with_reads: bool,
    pub limit_to_one_draw_per_frame: bool,
    pub allow_program_counter_overflow: bool,
    pub use_true_randomness: bool,
    pub fake_randomness_seed: u64,
    pub allow_index_register_overflow: bool,
}

/// The screen settings. (The render frequency, a float, is held by the
/// host next to this value.)
#[derive(Debug, Clone, Copy, PartialEq, Eq, Structural)]
pub struct GPUConfig {
    pub pixel_color_when_active: u32,
    pub pixel_color_when_inactive: u32,
    pub screen_border_color: u32,
    pub horizontal_resolution: usize,
    pub vertical_resolution: usize,
    pub wrap_sprite_positions: bool,
    pub wrap_sprite_pixels: bool,
    pub render_occasion: RenderOccasion,
}

/// The memory settings: stack depth, overflow policy and the built-in font.
#[derive(Debug, Clone, Copy)]
pub struct RAMConfig {
    pub stack_size: usize,
    pub allow_stack_overflow: bool,
    pub allow_heap_overflow: bool,
    pub font_starting_address: u16,
    pub font_data: [u8; 80],
}

/// Forces the switches that the original CHIP-8 interpreter had; the
/// switches that the preset does not fix are left as they were.
pub fn enable_chip8_preset(cpu: &mut CPUConfig, gpu: &mut GPUConfig, ram: &mut RAMConfig)
    ensures
        *final(cpu) == (CPUConfig {
            reset_flag_for_bitwise_operations: true,
            use_new_shift_instruction: false,
            use_new_jump_instruction: false,
            set_flag_for_index_overflow: false,
            move_index_with_reads: true,
            limit_to_one_draw_per_frame: true,
            ..*old(cpu)
        }),
        *final(gpu) == (GPUConfig {
            horizontal_resolution: 64,
            vertical_resolution: 32,
            wrap_sprite_positions: true,
            wrap_sprite_pixels: false,
            render_occasion: RenderOccasion::Frequency,
            ..*old(gpu)
        }),
        final(ram).stack_size == 16,
        final(ram).allow_stack_overflow == old(ram).allow_stack_overflow,
        final(ram).allow_heap_overflow == old(ram).allow_heap_overflow,
        final(ram).font_starting_address == old(ram).font_starting_address,
        final(ram).font_data == old(ram).font_data,
{
    cpu.reset_flag_for_bitwise_operations = true;
    cpu.use_new_shift_instruction = false;
    cpu.use_new_jump_instruction = false;
    cpu.set_flag_for_index_overflow = false;
    cpu.move_index_with_reads = true;
    cpu.limit_to_one_draw_per_frame = true;
    gpu.horizontal_resolution = 64;
    gpu.vertical_resolution = 32;
    gpu.wrap_sprite_positions = true;
    gpu.wrap_sprite_pixels = false;
    gpu.render_occasion = RenderOccasion::Frequency;
    ram.stack_size = 16;
}

} // verus!
