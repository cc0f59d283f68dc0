use chip8::config::{Args, EmulatorConfig, Palette, Platform};
use chip8::display::{Color, Display, Plane};
use chip8::frame::Frame;
use chip8::platform::{ChipMode, QuirkSet, Quirks};

fn args() -> Args {
    Args {
        file: String::from("game.ch8"),
        platform: Platform::Chip8,
        load_increment_i_with_x_quirk: false,
        jump_using_x_quirk: false,
        shift_ignore_vy_quirk: false,
        binary_op_reset_vf_quirk: false,
        wrap_instead_of_clipping_quirk: false,
        scale: 7,
        instructions_per_frame: 1000,
        sleep: None,
        set_disabled_color: 0x000000,
        set_first_plane_color: 0xFF0000,
        set_second_plane_color: 0x00FF00,
        set_both_plane_color: 0x0000FF,
    }
}

fn all_quirks() -> [Quirks; 5] {
    [
        Quirks::IRegisterIncrementedWithX,
        Quirks::JumpWithX,
        Quirks::ShiftIgnoreVY,
        Quirks::BinaryOpResetVF,
        Quirks::WrapsInsteadClipping,
    ]
}

#[test]
fn default_arguments_give_the_default_configuration() {
    let config = EmulatorConfig::new(args());
    assert_eq!(config.file, "game.ch8");
    assert_eq!(config.mode, ChipMode::Chip8);
    assert_eq!(config.scale, 7);
    assert_eq!(config.ticks, 1000);
    assert_eq!(config.sleep, None);
    for quirk in all_quirks() {
        assert!(!config.quirks.contains(&quirk));
    }
    assert_eq!(
        config.palette,
        Palette {
            disabled: (0, 0, 0),
            only_first_plane: (0xFF, 0, 0),
            only_second_plane: (0, 0xFF, 0),
            both: (0, 0, 0xFF),
        }
    );
}

#[test]
fn each_switch_turns_on_its_quirk() {
    for (index, quirk) in all_quirks().into_iter().enumerate() {
        let mut chosen = args();
        match index {
            0 => chosen.load_increment_i_with_x_quirk = true,
            1 => chosen.jump_using_x_quirk = true,
            2 => chosen.shift_ignore_vy_quirk = true,
            3 => chosen.binary_op_reset_vf_quirk = true,
            _ => chosen.wrap_instead_of_clipping_quirk = true,
        }
        let config = EmulatorConfig::new(chosen);
        for other in all_quirks() {
            assert_eq!(config.quirks.contains(&other), other == quirk);
        }
    }
}

#[test]
fn colours_are_split_into_red_green_and_blue() {
    let mut chosen = args();
    chosen.set_disabled_color = 0x123456;
    chosen.set_first_plane_color = 0xFFFFFF;
    chosen.set_second_plane_color = 0xAB00CDEF;
    chosen.set_both_plane_color = 0x0100;
    chosen.sleep = Some(20);
    chosen.platform = Platform::XOChip;
    chosen.scale = 13;
    chosen.instructions_per_frame = 7;
    let config = EmulatorConfig::new(chosen);
    assert_eq!(config.palette.disabled, (0x12, 0x34, 0x56));
    assert_eq!(config.palette.only_first_plane, (0xFF, 0xFF, 0xFF));
    assert_eq!(config.palette.only_second_plane, (0x00, 0xCD, 0xEF));
    assert_eq!(config.palette.both, (0x00, 0x01, 0x00));
    assert_eq!(config.sleep, Some(20));
    assert_eq!(config.mode, ChipMode::XOChip);
    assert_eq!(config.scale, 13);
    assert_eq!(config.ticks, 7);
}

#[test]
fn platform_of_the_host_maps_to_the_mode_of_the_machine() {
    assert_eq!(EmulatorConfig::get_chip_mode(&Platform::Chip8), ChipMode::Chip8);
    assert_eq!(EmulatorConfig::get_chip_mode(&Platform::SuperChip), ChipMode::SuperChip);
    assert_eq!(EmulatorConfig::get_chip_mode(&Platform::XOChip), ChipMode::XOChip);
}

#[test]
fn platform_is_named_in_either_case() {
    assert_eq!(Platform::from_name(b"chip8"), Some(Platform::Chip8));
    assert_eq!(Platform::from_name(b"CHIP8"), Some(Platform::Chip8));
    assert_eq!(Platform::from_name(b"superchip"), Some(Platform::SuperChip));
    assert_eq!(Platform::from_name(b"SuperChip"), Some(Platform::SuperChip));
    assert_eq!(Platform::from_name(b"xochip"), Some(Platform::XOChip));
    assert_eq!(Platform::from_name(b"XOChip"), Some(Platform::XOChip));
    assert_eq!(Platform::from_name(b"schip"), None);
    assert_eq!(Platform::from_name(b"chip"), None);
    assert_eq!(Platform::from_name(b"chip88"), None);
    assert_eq!(Platform::from_name(b""), None);
    assert_eq!(Platform::from_name(b"chip\x18"), None);
    assert_eq!(Platform::from_name(b"xochi\x50"), Some(Platform::XOChip));
    assert_eq!(Platform::from_name(b"xochi\x90"), None);
}

#[test]
fn palette_gives_each_colour_its_parts() {
    let palette = Palette {
        disabled: (1, 2, 3),
        only_first_plane: (4, 5, 6),
        only_second_plane: (7, 8, 9),
        both: (10, 11, 12),
    };
    assert_eq!(palette.get(&Color::Disabled), (1, 2, 3));
    assert_eq!(palette.get(&Color::OnlyFirstPlane), (4, 5, 6));
    assert_eq!(palette.get(&Color::OnlySecondPlane), (7, 8, 9));
    assert_eq!(palette.get(&Color::Both), (10, 11, 12));
}

#[test]
fn frame_paints_every_cell_with_three_bytes() {
    let palette = Palette {
        disabled: (1, 2, 3),
        only_first_plane: (4, 5, 6),
        only_second_plane: (7, 8, 9),
        both: (10, 11, 12),
    };
    let mut display = Display::new(&QuirkSet::new());
    display.draw_sprite(0, 0, &[0xC0], Plane::First);
    display.draw_sprite(1, 0, &[0xC0], Plane::Second);
    let mut frame = Frame::default();
    assert_eq!(frame.pixels().len(), 24576);
    assert!(frame.pixels().iter().all(|byte| *byte == 0));
    frame.update(&display, &palette);
    assert_eq!(&frame.pixels()[..12], &[4u8, 5, 6, 10, 11, 12, 7, 8, 9, 1, 2, 3][..]);
    assert_eq!(&frame.pixels()[24573..], &[1u8, 2, 3][..]);
    display.draw_sprite(63, 31, &[0x80], Plane::First);
    frame.update(&display, &palette);
    assert_eq!(&frame.pixels()[2047 * 3..2048 * 3 + 3], &[4u8, 5, 6, 1, 2, 3][..]);
}
