use chip8::chip::{init_chip8, Chip8, Progress, Signal};
use chip8::display::{Color, Plane};
use chip8::error::{ExecutionError, Fault};
use chip8::platform::{ChipMode, QuirkSet, Quirks};
use chip8::rom::Rom;

fn quirk_set(quirks: &[Quirks]) -> QuirkSet {
    let mut set = QuirkSet::new();
    for quirk in quirks {
        set.insert(*quirk);
    }
    set
}

fn machine(mode: ChipMode, quirks: &[Quirks], program: &[u16]) -> Chip8 {
    let mut bytes = Vec::new();
    for word in program {
        bytes.push((word >> 8) as u8);
        bytes.push(*word as u8);
    }
    Chip8::new(Rom::new(bytes), &mode, &quirk_set(quirks), 10, None)
}

fn chip8(program: &[u16]) -> Chip8 {
    machine(ChipMode::Chip8, &[], program)
}

fn schip(program: &[u16]) -> Chip8 {
    machine(ChipMode::SuperChip, &[], program)
}

fn xochip(program: &[u16]) -> Chip8 {
    machine(ChipMode::XOChip, &[], program)
}

fn run(chip: &mut Chip8, steps: usize) {
    for _ in 0..steps {
        assert_eq!(chip.execute_with(0), Ok(Signal::Continue));
    }
}

fn fails(chip: &mut Chip8, address: u16, word: u16, fault: Fault) {
    assert_eq!(
        chip.execute_with(0),
        Err(ExecutionError { address, instruction: Some(word), fault })
    );
    assert_eq!(chip.program_counter(), address);
}

fn registers(chip: &Chip8) -> Vec<u8> {
    (0..16).map(|x| chip.register(x)).collect()
}

fn lit(chip: &Chip8, color: Color) -> Vec<(usize, usize)> {
    let width = chip.display().width();
    chip.display()
        .display_bitplane()
        .iter()
        .enumerate()
        .filter(|(_, cell)| **cell == color)
        .map(|(index, _)| (index % width, index / width))
        .collect()
}

#[test]
fn new_machine_starts_at_the_program() {
    let chip = chip8(&[0x00E0]);
    assert_eq!(chip.program_counter(), 0x200);
    assert_eq!(chip.i_register(), 0);
    assert_eq!(registers(&chip), vec![0; 16]);
    assert_eq!(chip.delay_timer(), 0);
    assert_eq!(chip.sound_timer(), 0);
    assert_eq!(chip.stack_depth(), 0);
    assert_eq!(chip.pitch(), 8000);
    assert_eq!(chip.audio_buffer(), &[0xFF; 16]);
    assert_eq!(chip.ticks_per_frame(), 10);
    assert_eq!(chip.sleep_time(), None);
    assert_eq!(chip.memory().read(0x200), Ok(0x00));
    assert_eq!(chip.memory().read(0x201), Ok(0xE0));
    assert!(!chip.display().is_hires());
}

#[test]
fn init_makes_the_machine_for_a_program() {
    let chip = init_chip8(vec![0x12, 0x34], &ChipMode::SuperChip, &quirk_set(&[]), 1000, Some(5));
    assert_eq!(chip.program_counter(), 0x200);
    assert_eq!(chip.ticks_per_frame(), 1000);
    assert_eq!(chip.sleep_time(), Some(5));
    assert_eq!(chip.memory().read(0x200), Ok(0x12));
    assert_eq!(chip.memory().read(80), Ok(0xFF));
}

#[test]
fn add_with_carry_wraps_and_sets_the_flag() {
    let mut chip = chip8(&[0x60FF, 0x6101, 0x8014]);
    run(&mut chip, 3);
    assert_eq!(chip.register(0), 0x00);
    assert_eq!(chip.register(1), 0x01);
    assert_eq!(chip.register(0xF), 1);
}

#[test]
fn add_without_carry_clears_the_flag() {
    let mut chip = chip8(&[0x6F01, 0x6010, 0x6120, 0x8014]);
    run(&mut chip, 4);
    assert_eq!(chip.register(0), 0x30);
    assert_eq!(chip.register(0xF), 0);
}

#[test]
fn sub_of_equal_values_counts_as_no_borrow() {
    let mut chip = chip8(&[0x6005, 0x6105, 0x8015]);
    run(&mut chip, 3);
    assert_eq!(chip.register(0), 0x00);
    assert_eq!(chip.register(0xF), 1);
}

#[test]
fn sub_with_borrow_wraps_and_clears_the_flag() {
    let mut chip = chip8(&[0x6003, 0x6105, 0x8015]);
    run(&mut chip, 3);
    assert_eq!(chip.register(0), 0xFE);
    assert_eq!(chip.register(0xF), 0);
}

#[test]
fn subn_subtracts_the_other_way_round() {
    let mut chip = chip8(&[0x6003, 0x6105, 0x8017, 0x6209, 0x6302, 0x8237]);
    run(&mut chip, 3);
    assert_eq!(chip.register(0), 0x02);
    assert_eq!(chip.register(0xF), 1);
    run(&mut chip, 3);
    assert_eq!(chip.register(2), 0xF9);
    assert_eq!(chip.register(0xF), 0);
}

#[test]
fn flag_is_written_after_the_result_when_the_target_is_the_flag_register() {
    let mut chip = chip8(&[0x6FFF, 0x6101, 0x8F14, 0x6F05, 0x8F15, 0x6F03, 0x6207, 0x8F27]);
    run(&mut chip, 3);
    assert_eq!(chip.register(0xF), 1);
    run(&mut chip, 2);
    assert_eq!(chip.register(0xF), 1);
    run(&mut chip, 3);
    assert_eq!(chip.register(0xF), 1);
}

#[test]
fn load_and_add_immediate() {
    let mut chip = chip8(&[0x6AFE, 0x7A03, 0x6F07, 0x7F01]);
    run(&mut chip, 2);
    assert_eq!(chip.register(0xA), 0x01);
    assert_eq!(chip.register(0xF), 0);
    run(&mut chip, 2);
    assert_eq!(chip.register(0xF), 8);
}

#[test]
fn copy_register() {
    let mut chip = chip8(&[0x6142, 0x8310]);
    run(&mut chip, 2);
    assert_eq!(chip.register(3), 0x42);
    assert_eq!(chip.register(1), 0x42);
}

#[test]
fn bitwise_operations_keep_the_flag_without_the_quirk() {
    let mut chip = chip8(&[0x6F09, 0x600C, 0x610A, 0x8011, 0x620C, 0x8212, 0x630C, 0x8313]);
    run(&mut chip, 8);
    assert_eq!(chip.register(0), 0x0E);
    assert_eq!(chip.register(2), 0x08);
    assert_eq!(chip.register(3), 0x06);
    assert_eq!(chip.register(0xF), 9);
}

#[test]
fn bitwise_operations_reset_the_flag_under_the_quirk() {
    for operation in [0x8011u16, 0x8012, 0x8013] {
        let mut chip = machine(
            ChipMode::Chip8,
            &[Quirks::BinaryOpResetVF],
            &[0x6F09, 0x600C, 0x610A, operation],
        );
        run(&mut chip, 4);
        assert_eq!(chip.register(0xF), 0);
    }
    let mut chip = machine(ChipMode::Chip8, &[Quirks::BinaryOpResetVF], &[0x6FF0, 0x610F, 0x8F11]);
    run(&mut chip, 3);
    assert_eq!(chip.register(0xF), 0);
}

#[test]
fn shift_right_reads_vy_and_puts_the_lost_bit_in_the_flag() {
    let mut chip = chip8(&[0x6005, 0x6108, 0x8016, 0x6103, 0x8016]);
    run(&mut chip, 3);
    assert_eq!(chip.register(0), 0x04);
    assert_eq!(chip.register(1), 0x08);
    assert_eq!(chip.register(0xF), 0);
    run(&mut chip, 2);
    assert_eq!(chip.register(0), 0x01);
    assert_eq!(chip.register(0xF), 1);
}

#[test]
fn shift_right_reads_vx_under_the_quirk() {
    let mut chip = machine(ChipMode::Chip8, &[Quirks::ShiftIgnoreVY], &[0x6005, 0x6108, 0x8016]);
    run(&mut chip, 3);
    assert_eq!(chip.register(0), 0x02);
    assert_eq!(chip.register(1), 0x08);
    assert_eq!(chip.register(0xF), 1);
}

#[test]
fn shift_left_reads_vy_and_puts_the_lost_bit_in_the_flag() {
    let mut chip = chip8(&[0x6001, 0x61C1, 0x801E, 0x6141, 0x801E]);
    run(&mut chip, 3);
    assert_eq!(chip.register(0), 0x82);
    assert_eq!(chip.register(0xF), 1);
    run(&mut chip, 2);
    assert_eq!(chip.register(0), 0x82);
    assert_eq!(chip.register(0xF), 0);
}

#[test]
fn shift_left_reads_vx_under_the_quirk() {
    let mut chip = machine(ChipMode::Chip8, &[Quirks::ShiftIgnoreVY], &[0x6081, 0x6101, 0x801E]);
    run(&mut chip, 3);
    assert_eq!(chip.register(0), 0x02);
    assert_eq!(chip.register(0xF), 1);
}

#[test]
fn shift_into_the_flag_register_leaves_the_flag() {
    let mut chip = machine(ChipMode::Chip8, &[Quirks::ShiftIgnoreVY], &[0x6F03, 0x8F06, 0x6F81, 0x8F0E]);
    run(&mut chip, 2);
    assert_eq!(chip.register(0xF), 1);
    run(&mut chip, 2);
    assert_eq!(chip.register(0xF), 1);
}

#[test]
fn jump_sets_the_program_counter() {
    let mut chip = chip8(&[0x1ABC]);
    run(&mut chip, 1);
    assert_eq!(chip.program_counter(), 0xABC);
}

#[test]
fn machine_code_call_is_a_jump_on_the_plain_platform() {
    let mut chip = chip8(&[0x0300]);
    run(&mut chip, 1);
    assert_eq!(chip.program_counter(), 0x300);
    let mut chip = chip8(&[0x00C0]);
    run(&mut chip, 1);
    assert_eq!(chip.program_counter(), 0x0C0);
    let mut chip = chip8(&[0x01FB]);
    run(&mut chip, 1);
    assert_eq!(chip.program_counter(), 0x1FB);
}

#[test]
fn call_and_return() {
    let mut chip = chip8(&[0x2206, 0x6005, 0x1204, 0x6107, 0x00EE]);
    run(&mut chip, 1);
    assert_eq!(chip.program_counter(), 0x206);
    assert_eq!(chip.stack_depth(), 1);
    run(&mut chip, 2);
    assert_eq!(chip.program_counter(), 0x202);
    assert_eq!(chip.stack_depth(), 0);
    assert_eq!(chip.register(1), 7);
    run(&mut chip, 1);
    assert_eq!(chip.register(0), 5);
}

#[test]
fn return_with_an_empty_stack_is_refused() {
    let mut chip = chip8(&[0x00EE]);
    fails(&mut chip, 0x200, 0x00EE, Fault::StackUnderflow);
    assert_eq!(chip.stack_depth(), 0);
}

#[test]
fn seventeenth_nested_call_is_refused() {
    let mut chip = chip8(&[0x2200]);
    run(&mut chip, 16);
    assert_eq!(chip.stack_depth(), 16);
    fails(&mut chip, 0x200, 0x2200, Fault::StackOverflow);
    assert_eq!(chip.stack_depth(), 16);
}

#[test]
fn skip_if_equal_to_immediate() {
    let mut chip = chip8(&[0x6011, 0x3011, 0x0000, 0x3012]);
    run(&mut chip, 2);
    assert_eq!(chip.program_counter(), 0x206);
    run(&mut chip, 1);
    assert_eq!(chip.program_counter(), 0x208);
}

#[test]
fn skip_if_not_equal_to_immediate() {
    let mut chip = chip8(&[0x6011, 0x4012, 0x0000, 0x4011]);
    run(&mut chip, 2);
    assert_eq!(chip.program_counter(), 0x206);
    run(&mut chip, 1);
    assert_eq!(chip.program_counter(), 0x208);
}

#[test]
fn skip_if_registers_are_equal_or_differ() {
    let mut chip = chip8(&[0x6011, 0x6111, 0x5010, 0x0000, 0x9010, 0x6112, 0x9010, 0x0000, 0x5010]);
    run(&mut chip, 3);
    assert_eq!(chip.program_counter(), 0x208);
    run(&mut chip, 1);
    assert_eq!(chip.program_counter(), 0x20A);
    run(&mut chip, 2);
    assert_eq!(chip.program_counter(), 0x210);
    run(&mut chip, 1);
    assert_eq!(chip.program_counter(), 0x212);
}

#[test]
fn skip_takes_the_long_instruction_as_a_whole_on_xo_chip() {
    let mut chip = xochip(&[0x3000, 0xF000, 0x1234, 0x3000, 0x6001, 0x6002]);
    run(&mut chip, 1);
    assert_eq!(chip.program_counter(), 0x206);
    run(&mut chip, 1);
    assert_eq!(chip.program_counter(), 0x20A);
    run(&mut chip, 1);
    assert_eq!(chip.register(0), 2);
}

#[test]
fn skip_takes_one_word_on_the_other_platforms() {
    for mode in [ChipMode::Chip8, ChipMode::SuperChip] {
        let mut chip = machine(mode, &[], &[0x3000, 0xF000, 0x1234]);
        run(&mut chip, 1);
        assert_eq!(chip.program_counter(), 0x204);
    }
}

#[test]
fn skip_at_the_end_of_memory_is_refused_on_xo_chip() {
    let mut chip = xochip(&[0x1FFE]);
    run(&mut chip, 1);
    assert_eq!(chip.memory().read(0xFFE), Ok(0));
    let mut program = vec![0u8; 0x1000 - 0x200];
    program[0xFFE - 0x200] = 0x30;
    program[0xFFF - 0x200] = 0x00;
    program[0] = 0x1F;
    program[1] = 0xFE;
    let mut chip = Chip8::new(Rom::new(program.clone()), &ChipMode::XOChip, &quirk_set(&[]), 1, None);
    run(&mut chip, 1);
    fails(&mut chip, 0xFFE, 0x3000, Fault::OutOfBounds(0x1000));
    let mut plain = Chip8::new(Rom::new(program), &ChipMode::Chip8, &quirk_set(&[]), 1, None);
    run(&mut plain, 2);
    assert_eq!(plain.program_counter(), 0x1002);
}

#[test]
fn fetch_above_the_end_of_memory_is_refused() {
    let mut chip = chip8(&[0x1FFF]);
    run(&mut chip, 1);
    assert_eq!(
        chip.execute_with(0),
        Err(ExecutionError { address: 0xFFF, instruction: None, fault: Fault::OutOfBounds(0x1000) })
    );
    assert_eq!(chip.program_counter(), 0xFFF);
    let mut chip = chip8(&[0x60FF, 0xBFFF]);
    run(&mut chip, 2);
    assert_eq!(chip.program_counter(), 0x10FE);
    assert_eq!(
        chip.execute_with(0),
        Err(ExecutionError { address: 0x10FE, instruction: None, fault: Fault::OutOfBounds(0x10FE) })
    );
}

#[test]
fn load_address_register() {
    let mut chip = chip8(&[0xAFFF, 0xA123]);
    run(&mut chip, 1);
    assert_eq!(chip.i_register(), 0xFFF);
    run(&mut chip, 1);
    assert_eq!(chip.i_register(), 0x123);
}

#[test]
fn jump_with_offset_uses_v0() {
    let mut chip = chip8(&[0x6005, 0x6210, 0xB230]);
    run(&mut chip, 3);
    assert_eq!(chip.program_counter(), 0x235);
}

#[test]
fn jump_with_offset_uses_vx_under_the_quirk() {
    let mut chip = machine(ChipMode::Chip8, &[Quirks::JumpWithX], &[0x6005, 0x6210, 0xB230]);
    run(&mut chip, 3);
    assert_eq!(chip.program_counter(), 0x240);
}

#[test]
fn random_byte_is_masked_with_the_immediate() {
    let mut chip = chip8(&[0xC30F, 0xC4F0, 0xC500]);
    assert_eq!(chip.execute_with(0xAB), Ok(Signal::Continue));
    assert_eq!(chip.register(3), 0x0B);
    assert_eq!(chip.execute_with(0xAB), Ok(Signal::Continue));
    assert_eq!(chip.register(4), 0xA0);
    assert_eq!(chip.execute(), Ok(Signal::Continue));
    assert_eq!(chip.register(5), 0);
    assert_eq!(chip.program_counter(), 0x206);
}

#[test]
fn drawn_random_byte_stays_under_the_mask() {
    let mut chip = chip8(&[0xC003, 0x1200]);
    for _ in 0..64 {
        assert_eq!(chip.execute(), Ok(Signal::Continue));
        assert!(chip.register(0) <= 3);
        assert_eq!(chip.execute(), Ok(Signal::Continue));
    }
}

#[test]
fn draw_reads_the_sprite_at_i_and_reports_collisions() {
    let mut chip = chip8(&[0xA20A, 0x6004, 0x6102, 0xD012, 0xD012, 0xF0A5]);
    run(&mut chip, 4);
    assert_eq!(
        lit(&chip, Color::OnlyFirstPlane),
        vec![(4, 2), (5, 2), (6, 2), (7, 2), (4, 3), (6, 3), (9, 3), (11, 3)]
    );
    assert_eq!(chip.register(0xF), 0);
    run(&mut chip, 1);
    assert_eq!(lit(&chip, Color::OnlyFirstPlane), vec![]);
    assert_eq!(chip.register(0xF), 1);
}

#[test]
fn draw_of_a_font_glyph() {
    let mut chip = chip8(&[0x6001, 0xF029, 0x6300, 0xD335]);
    run(&mut chip, 4);
    assert_eq!(chip.i_register(), 5);
    assert_eq!(
        lit(&chip, Color::OnlyFirstPlane),
        vec![(2, 0), (1, 1), (2, 1), (2, 2), (2, 3), (1, 4), (2, 4), (3, 4)]
    );
}

#[test]
fn draw_with_no_rows_draws_nothing_in_low_resolution() {
    for mode in [ChipMode::Chip8, ChipMode::SuperChip, ChipMode::XOChip] {
        let mut chip = machine(mode, &[], &[0x6F01, 0xA200, 0xD010]);
        run(&mut chip, 3);
        assert_eq!(lit(&chip, Color::Disabled).len(), 8192);
        assert_eq!(chip.register(0xF), 0);
    }
}

#[test]
fn draw_with_no_rows_draws_a_large_sprite_in_high_resolution() {
    let mut program = vec![0x00FFu16, 0xA208, 0xD010, 0xD010];
    program.push(0x8001);
    for _ in 0..14 {
        program.push(0x0000);
    }
    program.push(0xFFFF);
    let mut chip = schip(&program);
    run(&mut chip, 3);
    let mut expected = vec![(0, 0), (15, 0)];
    for column in 0..16 {
        expected.push((column, 15));
    }
    assert_eq!(lit(&chip, Color::OnlyFirstPlane), expected);
    assert_eq!(chip.register(0xF), 0);
    run(&mut chip, 1);
    assert_eq!(lit(&chip, Color::OnlyFirstPlane), vec![]);
    assert_eq!(chip.register(0xF), 1);
}

#[test]
fn draw_on_both_planes_paints_each_plane_with_its_own_sprite() {
    let mut chip = xochip(&[0xF301, 0xA208, 0xD001, 0xD001, 0xF00F]);
    run(&mut chip, 3);
    assert_eq!(lit(&chip, Color::OnlyFirstPlane), vec![(0, 0), (1, 0), (2, 0), (3, 0)]);
    assert_eq!(lit(&chip, Color::OnlySecondPlane), vec![(4, 0), (5, 0), (6, 0), (7, 0)]);
    assert_eq!(lit(&chip, Color::Both), vec![]);
    assert_eq!(chip.register(0xF), 0);
    run(&mut chip, 1);
    assert_eq!(lit(&chip, Color::Disabled).len(), 8192);
    assert_eq!(chip.register(0xF), 1);
}

#[test]
fn draw_on_both_planes_reports_a_collision_on_either() {
    let mut chip = xochip(&[0xF201, 0xA20E, 0xD001, 0xF301, 0xA20C, 0xD001, 0xF00F, 0x0F00]);
    run(&mut chip, 3);
    assert_eq!(lit(&chip, Color::OnlySecondPlane), vec![(4, 0), (5, 0), (6, 0), (7, 0)]);
    run(&mut chip, 3);
    assert_eq!(chip.register(0xF), 1);
    assert_eq!(lit(&chip, Color::OnlyFirstPlane), vec![(0, 0), (1, 0), (2, 0), (3, 0)]);
    assert_eq!(lit(&chip, Color::OnlySecondPlane), vec![]);
}

#[test]
fn draw_of_a_sprite_that_ends_behind_memory_is_refused() {
    let mut chip = chip8(&[0xAFFE, 0xD003]);
    run(&mut chip, 1);
    fails(&mut chip, 0x202, 0xD003, Fault::OutOfBounds(0x1000));
    assert_eq!(lit(&chip, Color::Disabled).len(), 8192);
    let mut chip = chip8(&[0xAFFE, 0xD002]);
    run(&mut chip, 2);
    assert_eq!(chip.register(0xF), 0);
}

#[test]
fn draw_takes_its_place_from_the_registers() {
    let mut chip = machine(ChipMode::Chip8, &[Quirks::WrapsInsteadClipping], &[0x60FF, 0x617F, 0xA208, 0xD011, 0x8100]);
    run(&mut chip, 4);
    assert_eq!(lit(&chip, Color::OnlyFirstPlane), vec![(6, 31), (63, 31)]);
    let mut chip = chip8(&[0x60FF, 0x617F, 0xA208, 0xD011, 0x8100]);
    run(&mut chip, 4);
    assert_eq!(lit(&chip, Color::OnlyFirstPlane), vec![(63, 31)]);
}

#[test]
fn skip_if_key_is_pressed_or_not() {
    let mut chip = chip8(&[0x6007, 0xE09E, 0xE0A1, 0x0000, 0xE09E, 0x0000, 0xE0A1]);
    run(&mut chip, 2);
    assert_eq!(chip.program_counter(), 0x204);
    run(&mut chip, 1);
    assert_eq!(chip.program_counter(), 0x208);
    chip.press_key(7);
    run(&mut chip, 1);
    assert_eq!(chip.program_counter(), 0x20C);
    run(&mut chip, 1);
    assert_eq!(chip.program_counter(), 0x20E);
    chip.release_key(7);
}

#[test]
fn key_instruction_with_a_value_that_names_no_key_is_refused() {
    let mut chip = chip8(&[0x6010, 0xE09E]);
    run(&mut chip, 1);
    fails(&mut chip, 0x202, 0xE09E, Fault::InvalidKey(0x10));
    let mut chip = chip8(&[0x60FF, 0xE0A1]);
    run(&mut chip, 1);
    fails(&mut chip, 0x202, 0xE0A1, Fault::InvalidKey(0xFF));
}

#[test]
fn wait_for_key_repeats_until_a_key_is_pressed() {
    let mut chip = chip8(&[0xF30A, 0x6001]);
    run(&mut chip, 3);
    assert_eq!(chip.program_counter(), 0x200);
    assert_eq!(chip.register(3), 0);
    chip.press_key(0xB);
    chip.press_key(0xC);
    run(&mut chip, 1);
    assert_eq!(chip.program_counter(), 0x202);
    assert_eq!(chip.register(3), 0xB);
}

#[test]
fn timers_are_set_and_read_by_the_program() {
    let mut chip = chip8(&[0x6020, 0xF015, 0x6030, 0xF018, 0xF107]);
    run(&mut chip, 5);
    assert_eq!(chip.delay_timer(), 0x20);
    assert_eq!(chip.sound_timer(), 0x30);
    assert_eq!(chip.register(1), 0x20);
    chip.tick_timers();
    assert_eq!(chip.delay_timer(), 0x1F);
    assert_eq!(chip.sound_timer(), 0x2F);
}

#[test]
fn add_to_i_is_masked_into_the_address_space() {
    let mut chip = chip8(&[0xAFFE, 0x6005, 0xF01E, 0xA100, 0xF01E]);
    run(&mut chip, 3);
    assert_eq!(chip.i_register(), 0x003);
    run(&mut chip, 2);
    assert_eq!(chip.i_register(), 0x105);
}

#[test]
fn font_instructions_point_i_at_the_glyph() {
    let mut chip = schip(&[0x600F, 0xF029, 0x6009, 0xF030]);
    run(&mut chip, 2);
    assert_eq!(chip.i_register(), 75);
    run(&mut chip, 2);
    assert_eq!(chip.i_register(), 170);
}

#[test]
fn font_instruction_for_a_digit_without_a_glyph_is_refused() {
    let mut chip = chip8(&[0x6010, 0xF029]);
    run(&mut chip, 1);
    fails(&mut chip, 0x202, 0xF029, Fault::InvalidFontDigit(0x10));
    let mut chip = schip(&[0x600A, 0xF030]);
    run(&mut chip, 1);
    fails(&mut chip, 0x202, 0xF030, Fault::InvalidFontDigit(0x0A));
}

#[test]
fn decimal_digits_are_stored_at_i() {
    let mut chip = chip8(&[0x60EA, 0xA300, 0xF033, 0x6007, 0xA400, 0xF033]);
    run(&mut chip, 3);
    assert_eq!(chip.memory().read_n_bytes(0x300, 3), Ok(vec![2, 3, 4]));
    assert_eq!(chip.i_register(), 0x300);
    run(&mut chip, 3);
    assert_eq!(chip.memory().read_n_bytes(0x400, 3), Ok(vec![0, 0, 7]));
}

#[test]
fn store_into_the_reserved_region_is_refused() {
    let mut chip = chip8(&[0x60EA, 0xA1FF, 0xF033]);
    run(&mut chip, 2);
    fails(&mut chip, 0x204, 0xF033, Fault::ReservedWrite(0x1FF));
    assert_eq!(chip.memory().read(0x200), Ok(0x60));
    let mut chip = chip8(&[0xA000, 0xF055]);
    run(&mut chip, 1);
    fails(&mut chip, 0x202, 0xF055, Fault::ReservedWrite(0x000));
}

#[test]
fn store_that_runs_behind_the_end_of_memory_is_refused_as_a_whole() {
    let mut chip = chip8(&[0x60EA, 0xAFFE, 0xF033]);
    run(&mut chip, 2);
    fails(&mut chip, 0x204, 0xF033, Fault::ReservedWrite(0));
    assert_eq!(chip.memory().read(0xFFE), Ok(0));
    assert_eq!(chip.memory().read(0xFFF), Ok(0));
    let mut chip = chip8(&[0x60EA, 0xAFFD, 0xF033]);
    run(&mut chip, 3);
    assert_eq!(chip.memory().read_n_bytes(0xFFD, 3), Ok(vec![2, 3, 4]));
}

#[test]
fn registers_are_stored_and_loaded_back() {
    let mut chip = chip8(&[
        0x6011, 0x6122, 0x6233, 0x6344, 0xA300, 0xF255, 0x6000, 0x6100, 0x6200, 0x6300, 0xF265,
    ]);
    run(&mut chip, 6);
    assert_eq!(chip.memory().read_n_bytes(0x300, 4), Ok(vec![0x11, 0x22, 0x33, 0]));
    assert_eq!(chip.i_register(), 0x300);
    run(&mut chip, 5);
    assert_eq!(&registers(&chip)[..4], &[0x11, 0x22, 0x33, 0][..]);
    assert_eq!(chip.i_register(), 0x300);
}

#[test]
fn store_and_load_advance_i_under_the_quirk() {
    let mut chip = machine(
        ChipMode::Chip8,
        &[Quirks::IRegisterIncrementedWithX],
        &[0x6011, 0x6122, 0xA300, 0xF155, 0xA300, 0x6000, 0x6100, 0xF165, 0xAFFF, 0xF065],
    );
    run(&mut chip, 4);
    assert_eq!(chip.i_register(), 0x302);
    assert_eq!(chip.memory().read_n_bytes(0x300, 2), Ok(vec![0x11, 0x22]));
    run(&mut chip, 4);
    assert_eq!(chip.i_register(), 0x302);
    assert_eq!(&registers(&chip)[..2], &[0x11, 0x22][..]);
    run(&mut chip, 2);
    assert_eq!(chip.i_register(), 0x000);
}

#[test]
fn load_of_registers_wraps_around_the_end_of_memory() {
    let mut chip = chip8(&[0xAFFF, 0xF165]);
    run(&mut chip, 2);
    assert_eq!(chip.register(0), 0);
    assert_eq!(chip.register(1), 0xF0);
}

#[test]
fn store_of_all_registers() {
    let mut program: Vec<u16> = (0..16u16).map(|x| 0x6000 | (x << 8) | (0xA0 + x)).collect();
    program.push(0xA400);
    program.push(0xFF55);
    let mut chip = chip8(&program);
    run(&mut chip, 18);
    let expected: Vec<u8> = (0..16u8).map(|x| 0xA0 + x).collect();
    assert_eq!(chip.memory().read_n_bytes(0x400, 16), Ok(expected));
    assert_eq!(chip.memory().read(0x410), Ok(0));
}

#[test]
fn range_of_registers_is_stored_in_either_direction() {
    let mut chip = xochip(&[0x6111, 0x6222, 0x6333, 0xA300, 0x5132, 0xA310, 0x5312, 0xA320, 0x5222]);
    run(&mut chip, 5);
    assert_eq!(chip.memory().read_n_bytes(0x300, 4), Ok(vec![0x11, 0x22, 0x33, 0]));
    assert_eq!(chip.i_register(), 0x300);
    run(&mut chip, 2);
    assert_eq!(chip.memory().read_n_bytes(0x310, 4), Ok(vec![0x33, 0x22, 0x11, 0]));
    run(&mut chip, 2);
    assert_eq!(chip.memory().read_n_bytes(0x320, 2), Ok(vec![0x22, 0]));
}

#[test]
fn range_of_registers_is_loaded_in_either_direction() {
    let mut chip = xochip(&[0xA20C, 0x5133, 0xA20C, 0x5643, 0x1200, 0x0000, 0x0A0B, 0x0C0D]);
    run(&mut chip, 2);
    assert_eq!(&registers(&chip)[..5], &[0, 0x0A, 0x0B, 0x0C, 0][..]);
    assert_eq!(chip.i_register(), 0x20C);
    run(&mut chip, 2);
    assert_eq!(&registers(&chip)[3..8], &[0x0C, 0x0C, 0x0B, 0x0A, 0][..]);
}

#[test]
fn range_instructions_are_refused_on_the_other_platforms() {
    for mode in [ChipMode::Chip8, ChipMode::SuperChip] {
        for word in [0x5012u16, 0x5013, 0x5AB2, 0x5FF3] {
            let mut chip = machine(mode, &[], &[word]);
            fails(&mut chip, 0x200, word, Fault::UnknownInstruction);
        }
    }
}

#[test]
fn register_compares_end_in_zero_on_every_platform() {
    for mode in [ChipMode::Chip8, ChipMode::SuperChip, ChipMode::XOChip] {
        for n in 1..16u16 {
            if mode == ChipMode::XOChip && (n == 2 || n == 3) {
                continue;
            }
            let word = 0x5010 | n;
            let mut chip = machine(mode, &[], &[word]);
            fails(&mut chip, 0x200, word, Fault::UnknownInstruction);
            let word = 0x9010 | n;
            let mut chip = machine(mode, &[], &[word]);
            fails(&mut chip, 0x200, word, Fault::UnknownInstruction);
        }
        let mut chip = machine(mode, &[], &[0x5010, 0x0000, 0x9010]);
        run(&mut chip, 1);
        assert_eq!(chip.program_counter(), 0x204);
    }
}

#[test]
fn instructions_of_super_chip_are_refused_on_the_plain_platform() {
    for word in [
        0x00C1u16, 0x00CF, 0x00FB, 0x00FC, 0x00FD, 0x00FE, 0x00FF, 0xF030, 0xFA30, 0xF075, 0xF775,
        0xF085, 0xF785,
    ] {
        let mut chip = chip8(&[0x6A07, 0xA300, word]);
        run(&mut chip, 2);
        let before = registers(&chip);
        fails(&mut chip, 0x204, word, Fault::UnknownInstruction);
        assert_eq!(registers(&chip), before);
        assert_eq!(chip.i_register(), 0x300);
        assert_eq!(chip.stack_depth(), 0);
        assert!(!chip.display().is_hires());
        assert_eq!(lit(&chip, Color::Disabled).len(), 8192);
        let mut extended = schip(&[0x6A07, 0xA300, word]);
        run(&mut extended, 2);
        assert!(extended.execute_with(0).is_ok());
    }
}

#[test]
fn instructions_of_xo_chip_are_refused_on_the_other_platforms() {
    for mode in [ChipMode::Chip8, ChipMode::SuperChip] {
        for word in [
            0x00D0u16, 0x00D1, 0x00DF, 0x5012, 0x5013, 0xF000, 0xF001, 0xF101, 0xF301, 0xF002, 0xF03A,
            0xF53A,
        ] {
            let mut chip = machine(mode, &[], &[0x6A47, 0xA300, word, 0x1234]);
            run(&mut chip, 2);
            let before = registers(&chip);
            fails(&mut chip, 0x204, word, Fault::UnknownInstruction);
            assert_eq!(registers(&chip), before);
            assert_eq!(chip.i_register(), 0x300);
            assert_eq!(chip.pitch(), 8000);
            assert_eq!(*chip.display().get_current_plane(), Plane::First);
            assert_eq!(lit(&chip, Color::Disabled).len(), 8192);
        }
    }
    for word in [0x00D1u16, 0x5012, 0x5013, 0xF000, 0xF001, 0xF301, 0xF002, 0xFA3A] {
        let mut chip = xochip(&[0x6A47, 0xA300, word, 0x1234]);
        run(&mut chip, 2);
        assert_eq!(chip.execute_with(0), Ok(Signal::Continue));
    }
}

#[test]
fn flag_registers_are_saved_and_restored() {
    let mut chip = schip(&[0x6011, 0x6122, 0x6233, 0xF275, 0x6000, 0x6100, 0x6200, 0x63FF, 0xF185, 0xF785]);
    run(&mut chip, 4);
    assert_eq!(chip.memory().read_rpl_flags(), &[0x11u8, 0x22, 0x33, 0, 0, 0, 0, 0][..]);
    run(&mut chip, 5);
    assert_eq!(&registers(&chip)[..4], &[0x11, 0x22, 0, 0xFF][..]);
    run(&mut chip, 1);
    assert_eq!(&registers(&chip)[..9], &[0x11, 0x22, 0x33, 0, 0, 0, 0, 0, 0][..]);
}

#[test]
fn more_than_eight_flag_registers_are_refused_on_super_chip() {
    let mut chip = schip(&[0xF875]);
    fails(&mut chip, 0x200, 0xF875, Fault::InvalidRplCount(8));
    let mut chip = schip(&[0xFF85]);
    fails(&mut chip, 0x200, 0xFF85, Fault::InvalidRplCount(0xF));
    let mut chip = schip(&[0xF775, 0xF785]);
    run(&mut chip, 2);
}

#[test]
fn flag_transfers_go_as_far_as_the_store_on_xo_chip() {
    let mut program: Vec<u16> = (0..16u16).map(|x| 0x6000 | (x << 8) | (0x10 + x)).collect();
    program.push(0xFF75);
    program.push(0x6000);
    program.push(0x6700);
    program.push(0x6800);
    program.push(0xFF85);
    let mut chip = xochip(&program);
    run(&mut chip, 17);
    assert_eq!(
        chip.memory().read_rpl_flags(),
        &[0x10u8, 0x11, 0x12, 0x13, 0x14, 0x15, 0x16, 0x17][..]
    );
    run(&mut chip, 4);
    assert_eq!(chip.register(0), 0x10);
    assert_eq!(chip.register(7), 0x17);
    assert_eq!(chip.register(8), 0);
    assert_eq!(chip.register(9), 0x19);
}

#[test]
fn long_load_of_i_takes_the_next_word() {
    let mut chip = xochip(&[0xF000, 0x1234, 0x6001]);
    run(&mut chip, 1);
    assert_eq!(chip.i_register(), 0x234);
    assert_eq!(chip.program_counter(), 0x204);
    run(&mut chip, 1);
    assert_eq!(chip.register(0), 1);
}

#[test]
fn plane_selection_by_bitmask() {
    let mut chip = xochip(&[0xF201, 0xF001, 0xF301, 0xF101, 0xF401]);
    run(&mut chip, 1);
    assert_eq!(*chip.display().get_current_plane(), Plane::Second);
    run(&mut chip, 1);
    assert_eq!(*chip.display().get_current_plane(), Plane::Second);
    run(&mut chip, 1);
    assert_eq!(*chip.display().get_current_plane(), Plane::Both);
    run(&mut chip, 1);
    assert_eq!(*chip.display().get_current_plane(), Plane::First);
    fails(&mut chip, 0x208, 0xF401, Fault::InvalidPlane(4));
    assert_eq!(*chip.display().get_current_plane(), Plane::First);
}

#[test]
fn audio_pattern_is_loaded_from_memory() {
    let mut program = vec![0xA206u16, 0xF002, 0x0000];
    for word in 0..8u16 {
        program.push(0x0100 * (2 * word) + 2 * word + 1);
    }
    let mut chip = xochip(&program);
    run(&mut chip, 2);
    let expected: Vec<u8> = (0..16).collect();
    assert_eq!(&chip.audio_buffer()[..], &expected[..]);
}

#[test]
fn audio_pattern_behind_the_end_of_memory_is_refused() {
    let mut chip = xochip(&[0xAFF1, 0xF002]);
    run(&mut chip, 1);
    fails(&mut chip, 0x202, 0xF002, Fault::OutOfBounds(0x1000));
    assert_eq!(chip.audio_buffer(), &[0xFF; 16]);
    let mut chip = xochip(&[0xAFF0, 0xF002]);
    run(&mut chip, 2);
    assert_eq!(chip.audio_buffer(), &[0; 16]);
}

#[test]
fn pitch_doubles_every_forty_eight_steps() {
    for (value, pitch) in [
        (64u16, 4000u16),
        (111, 4000),
        (112, 8000),
        (159, 8000),
        (160, 16000),
        (207, 16000),
        (208, 32000),
        (255, 32000),
    ] {
        let mut chip = xochip(&[0x6000 | value, 0xF03A]);
        run(&mut chip, 2);
        assert_eq!(chip.pitch(), pitch);
    }
}

#[test]
fn pitch_below_the_lowest_is_refused() {
    let mut chip = xochip(&[0x603F, 0xF03A]);
    run(&mut chip, 1);
    fails(&mut chip, 0x202, 0xF03A, Fault::InvalidPitch(0x3F));
    assert_eq!(chip.pitch(), 8000);
}

#[test]
fn screen_instructions_of_the_extended_platforms() {
    let mut chip = schip(&[0xA210, 0xD011, 0x00C2, 0x00FB, 0x00FC, 0x00FF, 0x00FE, 0x00E0, 0x8000]);
    run(&mut chip, 2);
    assert_eq!(lit(&chip, Color::OnlyFirstPlane), vec![(0, 0)]);
    run(&mut chip, 1);
    assert_eq!(lit(&chip, Color::OnlyFirstPlane), vec![(0, 2)]);
    run(&mut chip, 1);
    assert_eq!(lit(&chip, Color::OnlyFirstPlane), vec![(4, 2)]);
    run(&mut chip, 1);
    assert_eq!(lit(&chip, Color::OnlyFirstPlane), vec![(0, 2)]);
    run(&mut chip, 1);
    assert!(chip.display().is_hires());
    assert_eq!(lit(&chip, Color::OnlyFirstPlane), vec![]);
    run(&mut chip, 1);
    assert!(!chip.display().is_hires());
    run(&mut chip, 1);
}

#[test]
fn clear_screen() {
    let mut chip = chip8(&[0xA206, 0xD011, 0x00E0, 0xFF00]);
    run(&mut chip, 2);
    assert_eq!(lit(&chip, Color::OnlyFirstPlane).len(), 8);
    run(&mut chip, 1);
    assert_eq!(lit(&chip, Color::OnlyFirstPlane), vec![]);
}

#[test]
fn scroll_up_is_an_instruction_of_xo_chip() {
    let mut chip = xochip(&[0x6105, 0xA208, 0xD011, 0x00D3, 0x8000]);
    run(&mut chip, 4);
    assert_eq!(lit(&chip, Color::OnlyFirstPlane), vec![(0, 2)]);
    let mut chip = schip(&[0x00D3]);
    fails(&mut chip, 0x200, 0x00D3, Fault::UnknownInstruction);
}

#[test]
fn exit_instruction_signals_the_host() {
    let mut chip = schip(&[0x00FD]);
    assert_eq!(chip.execute_with(0), Ok(Signal::Exit));
    assert_eq!(chip.program_counter(), 0x202);
}

#[test]
fn words_that_are_no_instruction_are_refused() {
    for word in [0x8008u16, 0x800F, 0x9001, 0xE000, 0xE09F, 0xF000, 0xF001, 0xF002, 0xF030, 0xF03A, 0xF075, 0xF085, 0xF0FF, 0xFFFF] {
        let mut chip = chip8(&[word]);
        fails(&mut chip, 0x200, word, Fault::UnknownInstruction);
    }
    for word in [0x0000u16, 0x0123, 0x00C0, 0x00D1, 0x00FA, 0x00E1, 0xF000, 0xF101, 0xF002, 0xF03A] {
        let mut chip = schip(&[word]);
        fails(&mut chip, 0x200, word, Fault::UnknownInstruction);
    }
    for word in [0x0000u16, 0x0123, 0x00C0, 0x8128, 0xF100, 0xF102, 0xF0FF] {
        let mut chip = xochip(&[word]);
        fails(&mut chip, 0x200, word, Fault::UnknownInstruction);
    }
}

#[test]
fn refused_instruction_leaves_the_machine_as_it_was() {
    let mut chip = chip8(&[0x6011, 0xA300, 0x8008]);
    run(&mut chip, 2);
    let before = registers(&chip);
    fails(&mut chip, 0x204, 0x8008, Fault::UnknownInstruction);
    fails(&mut chip, 0x204, 0x8008, Fault::UnknownInstruction);
    assert_eq!(registers(&chip), before);
    assert_eq!(chip.i_register(), 0x300);
}

#[test]
fn frame_runs_its_instructions_and_ticks_the_timers_once() {
    let mut chip = Chip8::new(
        Rom::new(vec![0x60, 0x0A, 0xF0, 0x15, 0xF0, 0x18, 0x71, 0x01, 0x12, 0x06]),
        &ChipMode::Chip8,
        &quirk_set(&[]),
        5,
        None,
    );
    assert_eq!(chip.run_frame(), Ok(Signal::Continue));
    assert_eq!(chip.delay_timer(), 9);
    assert_eq!(chip.sound_timer(), 9);
    assert_eq!(chip.register(1), 1);
    assert_eq!(chip.program_counter(), 0x206);
    assert_eq!(chip.run_frame(), Ok(Signal::Continue));
    assert_eq!(chip.delay_timer(), 8);
    assert_eq!(chip.register(1), 4);
    assert_eq!(chip.program_counter(), 0x208);
    for _ in 0..8 {
        assert_eq!(chip.run_frame(), Ok(Signal::Continue));
    }
    assert_eq!(chip.delay_timer(), 0);
    assert_eq!(chip.run_frame(), Ok(Signal::Continue));
    assert_eq!(chip.delay_timer(), 0);
    assert_eq!(chip.sound_timer(), 0);
}

#[test]
fn frame_of_no_instructions_only_ticks_the_timers() {
    let mut chip = Chip8::new(
        Rom::new(vec![0x60, 0x0A]),
        &ChipMode::Chip8,
        &quirk_set(&[]),
        0,
        None,
    );
    assert_eq!(chip.run_frame(), Ok(Signal::Continue));
    assert_eq!(chip.program_counter(), 0x200);
    assert_eq!(chip.register(0), 0);
}

#[test]
fn frame_ends_early_on_exit_and_on_a_fault() {
    let mut chip = Chip8::new(
        Rom::new(vec![0x60, 0x02, 0xF0, 0x15, 0x00, 0xFD, 0x61, 0x01]),
        &ChipMode::SuperChip,
        &quirk_set(&[]),
        10,
        None,
    );
    assert_eq!(chip.run_frame(), Ok(Signal::Exit));
    assert_eq!(chip.delay_timer(), 2);
    assert_eq!(chip.program_counter(), 0x206);
    assert_eq!(chip.register(1), 0);
    let mut chip = Chip8::new(
        Rom::new(vec![0x60, 0x02, 0xF0, 0x15, 0x80, 0x08]),
        &ChipMode::Chip8,
        &quirk_set(&[]),
        10,
        None,
    );
    assert_eq!(
        chip.run_frame(),
        Err(ExecutionError { address: 0x204, instruction: Some(0x8008), fault: Fault::UnknownInstruction })
    );
    assert_eq!(chip.delay_timer(), 2);
    assert_eq!(chip.program_counter(), 0x204);
}

#[test]
fn waiting_for_a_key_does_not_stop_the_timers() {
    let mut chip = Chip8::new(
        Rom::new(vec![0x60, 0x03, 0xF0, 0x15, 0xF1, 0x0A, 0x12, 0x06]),
        &ChipMode::Chip8,
        &quirk_set(&[]),
        4,
        None,
    );
    assert_eq!(chip.run_frame(), Ok(Signal::Continue));
    assert_eq!(chip.run_frame(), Ok(Signal::Continue));
    assert_eq!(chip.delay_timer(), 1);
    assert_eq!(chip.program_counter(), 0x204);
    chip.press_key(9);
    assert_eq!(chip.run_frame(), Ok(Signal::Continue));
    assert_eq!(chip.register(1), 9);
    assert_eq!(chip.delay_timer(), 0);
}

#[test]
fn platform_names() {
    assert_eq!(ChipMode::Chip8.name(), "CHIP-8");
    assert_eq!(ChipMode::SuperChip.name(), "SUPER-CHIP");
    assert_eq!(ChipMode::XOChip.name(), "XO-CHIP");
    assert!(!ChipMode::Chip8.extended());
    assert!(ChipMode::SuperChip.extended());
    assert!(ChipMode::XOChip.extended());
}

#[test]
fn frame_driven_move_by_move_is_the_frame_run_at_once() {
    let program = vec![0x60, 0x0A, 0xF0, 0x15, 0xF0, 0x18, 0x71, 0x01, 0x12, 0x06];
    let mut stepped = Chip8::new(Rom::new(program.clone()), &ChipMode::Chip8, &quirk_set(&[]), 5, Some(1));
    let mut whole = Chip8::new(Rom::new(program), &ChipMode::Chip8, &quirk_set(&[]), 5, None);
    for _ in 0..3 {
        for executed in 0..5 {
            assert_eq!(stepped.frame_step(executed), Ok(Progress::Instruction));
        }
        assert_eq!(stepped.frame_step(5), Ok(Progress::FrameEnd));
        assert_eq!(whole.run_frame(), Ok(Signal::Continue));
        assert_eq!(registers(&stepped), registers(&whole));
        assert_eq!(stepped.program_counter(), whole.program_counter());
        assert_eq!(stepped.delay_timer(), whole.delay_timer());
        assert_eq!(stepped.sound_timer(), whole.sound_timer());
    }
    assert_eq!(stepped.delay_timer(), 7);
    assert_eq!(stepped.register(1), 6);
}

#[test]
fn frame_move_reports_exit_and_faults_without_a_tick() {
    let mut chip = Chip8::new(
        Rom::new(vec![0x60, 0x02, 0xF0, 0x15, 0x00, 0xFD]),
        &ChipMode::SuperChip,
        &quirk_set(&[]),
        10,
        Some(1),
    );
    assert_eq!(chip.frame_step(0), Ok(Progress::Instruction));
    assert_eq!(chip.frame_step(1), Ok(Progress::Instruction));
    assert_eq!(chip.frame_step(2), Ok(Progress::Exit));
    assert_eq!(chip.delay_timer(), 2);
    let mut chip = Chip8::new(
        Rom::new(vec![0x60, 0x02, 0xF0, 0x15, 0x80, 0x08]),
        &ChipMode::Chip8,
        &quirk_set(&[]),
        10,
        Some(1),
    );
    assert_eq!(chip.frame_step(0), Ok(Progress::Instruction));
    assert_eq!(chip.frame_step(1), Ok(Progress::Instruction));
    assert_eq!(
        chip.frame_step(2),
        Err(ExecutionError { address: 0x204, instruction: Some(0x8008), fault: Fault::UnknownInstruction })
    );
    assert_eq!(chip.delay_timer(), 2);
    assert_eq!(chip.frame_step(10), Ok(Progress::FrameEnd));
    assert_eq!(chip.delay_timer(), 1);
    assert_eq!(chip.program_counter(), 0x204);
    assert_eq!(chip.frame_step(u32::MAX), Ok(Progress::FrameEnd));
    assert_eq!(chip.delay_timer(), 0);
}

#[test]
fn stored_registers_come_back_and_the_others_stay_at_zero() {
    let mut chip = machine(
        ChipMode::Chip8,
        &[Quirks::IRegisterIncrementedWithX],
        &[
            0x6011, 0x6122, 0x6233, 0x6344, 0xA300, 0xF255, 0xA300, 0x6000, 0x6100, 0x6200, 0x6300,
            0xF265,
        ],
    );
    run(&mut chip, 6);
    let stored = chip.memory().read_n_bytes(0x200, 0x1000 - 0x200).unwrap();
    run(&mut chip, 6);
    assert_eq!(&registers(&chip)[..3], &[0x11, 0x22, 0x33][..]);
    assert_eq!(&registers(&chip)[3..], &[0u8; 13][..]);
    assert_eq!(chip.memory().read_n_bytes(0x200, 0x1000 - 0x200).unwrap(), stored);
    assert_eq!(&stored[0x100..0x104], &[0x11, 0x22, 0x33, 0][..]);
}
