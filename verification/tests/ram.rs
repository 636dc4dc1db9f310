use chip8::ram::{Ram, PROGRAM_START_ADDRESS};

#[derive(Clone, Copy)]
enum ConfigType {
    Conservative,
    Liberal,
}

fn create_objects(cfg_type: ConfigType) -> Ram {
    match cfg_type {
        ConfigType::Conservative => Ram::new_default_conservative(),
        ConfigType::Liberal => Ram::new_default_liberal(),
    }
}

#[test]
fn test_load_program_to_memory() {
    let program = vec![0x48, 0x65, 0x6c, 0x6c, 0x6f];

    let mut ram = create_objects(ConfigType::Conservative);

    assert!(ram.load_program(&program));

    let ideal_bytes = vec![0x00, 0x48, 0x65, 0x6c, 0x6c, 0x6f, 0x00];
    let actual_bytes = ram.read_bytes(PROGRAM_START_ADDRESS - 1, 7).unwrap();

    assert_eq!(ideal_bytes, actual_bytes);
    assert!(ram.is_active());
}

#[test]
fn test_get_hex_digit_address() {
    let mut ram = create_objects(ConfigType::Conservative);

    let ideal_byte = ram.get_config().font_data[50];

    let addr = ram.get_hex_digit_address(0xA);
    let actual_byte = ram.read_byte(addr).unwrap();

    assert_eq!(ideal_byte, actual_byte);
    assert!(ram.is_active());
}

#[test]
fn test_read_write_byte_to_memory() {
    let mut ram = create_objects(ConfigType::Conservative);

    let ideal_byte = 0x56;
    let addr = 0x789;
    assert!(ram.write_byte(ideal_byte, addr));

    let actual_byte = ram.read_byte(addr).unwrap();

    assert_eq!(ideal_byte, actual_byte);
    assert!(ram.is_active());
}

#[test]
fn test_read_bytes_from_memory() {
    let mut ram = create_objects(ConfigType::Conservative);

    let ideal_bytes = vec![0x48, 0x65, 0x6c, 0x6c, 0x6f];
    let start_addr: u16 = 0x789;

    for i in 0..5 {
        assert!(ram.write_byte(ideal_bytes[i as usize], start_addr + i));
    }

    let actual_bytes = ram.read_bytes(start_addr, 5).unwrap();

    assert_eq!(ideal_bytes, actual_bytes);
    assert!(ram.is_active());
}

#[test]
fn test_read_memory_with_successful_overflow() {
    let mut ram = create_objects(ConfigType::Liberal);

    let ideal_bytes = vec![0x48, 0x65, 0x6c, 0x6c, 0x6f];

    assert!(ram.write_bytes(&ideal_bytes[..3], 0xFFD));
    assert!(ram.write_bytes(&ideal_bytes[3..], 0x000));

    let actual_bytes = ram.read_bytes(0xFFD, 5).unwrap();

    assert_eq!(ideal_bytes, actual_bytes);
    assert!(ram.is_active());
}

#[test]
fn test_read_memory_with_failed_overflow() {
    let mut ram = create_objects(ConfigType::Conservative);

    let ideal_bytes = [0x48, 0x65, 0x6c, 0x6c, 0x6f];

    assert!(ram.write_bytes(&ideal_bytes[..3], 0xFFD));
    assert!(ram.write_bytes(&ideal_bytes[3..], 0x000));

    assert!(ram.read_bytes(0xFFD, 5).is_none());
    assert!(!ram.is_active());
}

#[test]
fn test_read_unaddressable_memory_with_successful_overflow() {
    let mut ram = create_objects(ConfigType::Liberal);

    let ideal_bytes = vec![0x48, 0x65, 0x6c, 0x6c, 0x6f];

    assert!(ram.write_bytes(&ideal_bytes[..3], 0xFFD));
    assert!(ram.write_bytes(&ideal_bytes[3..], 0x000));

    let actual_bytes = ram.read_bytes(0xFFD, 5).unwrap();

    assert_eq!(ideal_bytes, actual_bytes);
    assert!(ram.is_active());
}

#[test]
fn test_write_bytes_to_memory() {
    let mut ram = create_objects(ConfigType::Conservative);

    let ideal_bytes = vec![0x48, 0x65, 0x6c, 0x6c, 0x6f];
    let start_addr: u16 = 0x789;

    assert!(ram.write_bytes(&ideal_bytes, start_addr));

    let mut actual_bytes: Vec<u8> = Vec::new();

    for i in start_addr..start_addr + 5 {
        let byte = ram.read_byte(i).unwrap();
        actual_bytes.push(byte);
    }

    assert_eq!(ideal_bytes, actual_bytes);
    assert!(ram.is_active());
}

#[test]
fn test_write_memory_with_successful_overflow() {
    let mut ram = create_objects(ConfigType::Liberal);

    let ideal_bytes = vec![0x48, 0x65, 0x6c, 0x6c, 0x6f];

    assert!(ram.write_bytes(&ideal_bytes, 0xFFD));

    let mut actual_bytes: Vec<u8> = Vec::with_capacity(5);
    actual_bytes.extend(ram.read_bytes(0xFFD, 3).unwrap());
    actual_bytes.extend(ram.read_bytes(0x000, 2).unwrap());

    assert_eq!(ideal_bytes, actual_bytes);
    assert!(ram.is_active());
}

#[test]
fn test_write_memory_with_failed_overflow() {
    let mut ram = create_objects(ConfigType::Conservative);

    let ideal_bytes = vec![0x48, 0x65, 0x6c, 0x6c, 0x6f];

    assert!(!ram.write_bytes(&ideal_bytes, 0xFFD));
    assert!(!ram.is_active());
}

#[test]
fn test_stack_push_pop() {
    let mut ram = create_objects(ConfigType::Conservative);

    for i in 1..=5 {
        assert!(ram.push_to_stack(i));
    }

    for i in (1..=5).rev() {
        assert_eq!(i, ram.pop_from_stack().unwrap());
    }

    assert!(ram.is_active());
}

#[test]
fn test_stack_push_pop_with_successful_overflow() {
    let mut ram = create_objects(ConfigType::Liberal);

    for i in 1..=20 {
        assert!(ram.push_to_stack(i));
    }

    for i in (5..=20).rev() {
        assert_eq!(i, ram.pop_from_stack().unwrap());
    }

    assert_eq!(20, ram.pop_from_stack().unwrap());
    assert!(ram.is_active());
}

#[test]
fn test_stack_push_with_failed_overflow() {
    let mut ram = create_objects(ConfigType::Conservative);

    for i in 1..=16 {
        assert!(ram.push_to_stack(i));
    }

    assert!(!ram.push_to_stack(17));
    assert!(!ram.is_active());
}

#[test]
fn test_stack_pop_with_failed_overflow() {
    let mut ram = create_objects(ConfigType::Conservative);

    assert!(ram.pop_from_stack().is_none());
    assert!(!ram.is_active());
}

// Further cases of the memory's contract.

#[test]
fn try_new_refuses_empty_stack_and_late_font() {
    let mut config = Ram::new_default_conservative().get_config().clone();
    config.stack_size = 0;
    assert!(Ram::try_new(config).is_none());

    let mut config = Ram::new_default_conservative().get_config().clone();
    config.font_starting_address = 0xFB1;
    assert!(Ram::try_new(config).is_none());

    let mut config = Ram::new_default_conservative().get_config().clone();
    config.font_starting_address = 0xFB0;
    config.font_data[79] = 0x12;
    let mut ram = Ram::try_new(config).unwrap();
    assert_eq!(Some(0x12), ram.read_byte(0xFFF));
    assert_eq!(Some(0x67), ram.read_byte(0xFB0));
    assert_eq!(Some(0x00), ram.read_byte(0xFAF));
}

#[test]
fn get_hex_digit_address_is_five_bytes_per_digit() {
    let mut config = Ram::new_default_conservative().get_config().clone();
    config.font_starting_address = 0x50;
    let ram = Ram::try_new(config).unwrap();
    assert_eq!(0x50, ram.get_hex_digit_address(0));
    assert_eq!(0x50 + 5 * 0xF, ram.get_hex_digit_address(0xF));
}

#[test]
fn load_program_refuses_oversized_program() {
    let mut ram = Ram::new_default_liberal();
    let program = vec![1u8; 0x1000 - 0x200 + 1];
    assert!(!ram.load_program(&program));
    assert!(!ram.is_active());
    assert_eq!(Some(0), ram.read_byte(0x200));

    let mut ram = Ram::new_default_conservative();
    let program = vec![7u8; 0x1000 - 0x200];
    assert!(ram.load_program(&program));
    assert_eq!(Some(7), ram.read_byte(0xFFF));
    assert!(ram.is_active());
}

#[test]
fn byte_access_past_heap() {
    let mut ram = Ram::new_default_liberal();
    assert!(ram.write_byte(0x42, 0x1003));
    assert_eq!(Some(0x42), ram.read_byte(0x0003));
    assert_eq!(Some(0x42), ram.read_byte(0x2003));
    assert!(ram.is_active());

    let mut ram = Ram::new_default_conservative();
    assert!(!ram.write_byte(0x42, 0x1000));
    assert!(!ram.is_active());
    let mut ram = Ram::new_default_conservative();
    assert_eq!(None, ram.read_byte(0x1000));
    assert!(!ram.is_active());
}

#[test]
fn long_write_that_comes_round_twice_keeps_later_bytes() {
    let mut ram = Ram::new_default_liberal();
    let vals: Vec<u8> = (0..0x1001u32).map(|i| (i % 251) as u8).collect();
    assert!(ram.write_bytes(&vals, 0x0FFF));
    // Byte 0 went to 0xFFF; byte 0x1000 went round to 0xFFF again.
    assert_eq!(Some((0x1000u32 % 251) as u8), ram.read_byte(0xFFF));
    assert_eq!(Some(1), ram.read_byte(0x000));
    assert_eq!(Some(2), ram.read_byte(0x001));
}

#[test]
fn read_after_write_law_on_values() {
    let mut ram = Ram::new_default_liberal();
    let vals = vec![9u8, 8, 7, 6, 5, 4];
    assert!(ram.write_bytes(&vals, 0x1FFE));
    assert_eq!(Some(vals.clone()), ram.read_bytes(0x1FFE, 6));
    assert_eq!(Some(vals), ram.read_bytes(0x0FFE, 6));
}

#[test]
fn pop_after_push_law_on_values() {
    let mut ram = Ram::new_default_liberal();
    assert!(ram.push_to_stack(0x234));
    assert_eq!(Some(0x234), ram.pop_from_stack());
    // On a full stack the push goes round to the bottom slot.
    for i in 0..16 {
        assert!(ram.push_to_stack(i));
    }
    assert!(ram.push_to_stack(0x999));
    assert_eq!(Some(0x999), ram.pop_from_stack());
    // The empty stack pops from the top slot.
    assert_eq!(Some(15), ram.pop_from_stack());
}

#[test]
fn writing_back_what_was_read_changes_nothing() {
    let mut ram = Ram::new_default_liberal();
    assert!(ram.write_bytes(&[1, 2, 3, 4, 5, 6], 0xFFC));
    let before = ram.read_bytes(0, 0x1000).unwrap();
    let bytes = ram.read_bytes(0xFFE, 4).unwrap();
    assert!(ram.write_bytes(&bytes, 0xFFE));
    assert_eq!(before, ram.read_bytes(0, 0x1000).unwrap());
}

#[test]
fn a_write_keeps_the_other_bytes() {
    let mut ram = Ram::new_default_conservative();
    let before = ram.read_bytes(0, 0x1000).unwrap();
    assert!(ram.write_bytes(&[0xAA, 0xBB], 0x300));
    let after = ram.read_bytes(0, 0x1000).unwrap();
    for i in 0..0x1000usize {
        if i == 0x300 || i == 0x301 {
            continue;
        }
        assert_eq!(before[i], after[i], "byte {:03X}", i);
    }
    assert_eq!((0xAA, 0xBB), (after[0x300], after[0x301]));
}
