use chip8::instruction::Instruction;

fn encode(nibbles: (u8, u8, u8, u8)) -> u16 {
    ((nibbles.0 as u16) << 12) | ((nibbles.1 as u16) << 8) | ((nibbles.2 as u16) << 4) | nibbles.3 as u16
}

#[test]
fn nibbles_of_a_word() {
    let instruction = Instruction::new(0xD12F);
    assert_eq!(instruction.nibbles(), (0xD, 0x1, 0x2, 0xF));
    assert_eq!(instruction.x(), 0x1);
    assert_eq!(instruction.y(), 0x2);
    assert_eq!(instruction.n(), 0xF);
    assert_eq!(instruction.kk(), 0x2F);
    assert_eq!(instruction.nnn(), 0x12F);
    assert_eq!(instruction.value(), 0xD12F);
}

#[test]
fn clear_screen_word_decodes_to_its_nibbles() {
    let instruction = Instruction::new(0x00E0);
    assert_eq!(instruction.nibbles(), (0, 0, 0xE, 0));
    assert_eq!(instruction.nnn(), 0x0E0);
    assert_eq!(instruction.kk(), 0xE0);
}

#[test]
fn decoding_and_encoding_round_trips_for_every_word() {
    let mut word: u32 = 0;
    while word <= 0xFFFF {
        let instruction = Instruction::new(word as u16);
        assert_eq!(encode(instruction.nibbles()), word as u16);
        assert_eq!(instruction.nnn(), word as u16 & 0x0FFF);
        assert_eq!(instruction.kk() as u16, word as u16 & 0x00FF);
        assert_eq!(instruction.n() as u16, word as u16 & 0x000F);
        assert_eq!(instruction.x(), instruction.nibbles().1);
        assert_eq!(instruction.y(), instruction.nibbles().2);
        word += 1;
    }
}

#[test]
fn instruction_from_bytes_is_big_endian() {
    assert_eq!(Instruction::from_be_bytes(0xA2, 0xF0).value(), 0xA2F0);
    assert_eq!(Instruction::from_be_bytes(0x00, 0xEE).value(), 0x00EE);
    assert_eq!(Instruction::from_be_bytes(0xFF, 0xFF).value(), 0xFFFF);
}
