use chip8::display::{Color, Display, Plane};
use chip8::platform::{QuirkSet, Quirks};

fn wrapping() -> QuirkSet {
    let mut quirks = QuirkSet::new();
    quirks.insert(Quirks::WrapsInsteadClipping);
    quirks
}

fn clipping() -> QuirkSet {
    QuirkSet::new()
}

fn lit_cells(display: &Display, color: Color) -> Vec<(usize, usize)> {
    let width = display.width();
    display
        .display_bitplane()
        .iter()
        .enumerate()
        .filter(|(_, cell)| **cell == color)
        .map(|(index, _)| (index % width, index / width))
        .collect()
}

fn first_plane_cells(display: &Display) -> Vec<(usize, usize)> {
    lit_cells(display, Color::OnlyFirstPlane)
}

#[test]
fn new_display_is_blank_and_low_resolution() {
    let display = Display::new(&clipping());
    assert!(!display.is_hires());
    assert_eq!(display.width(), 64);
    assert_eq!(display.height(), 32);
    assert_eq!(*display.get_current_plane(), Plane::First);
    assert!(display.display_bitplane().iter().all(|cell| *cell == Color::Disabled));
}

#[test]
fn display_sizes() {
    assert_eq!(Display::WIDTH, 64);
    assert_eq!(Display::HEIGHT, 32);
    assert_eq!(Display::HIRES_WIDTH, 128);
    assert_eq!(Display::HIRES_HEIGHT, 64);
}

#[test]
fn sprite_at_the_right_edge_wraps_to_the_left_under_the_wrap_policy() {
    let mut display = Display::new(&wrapping());
    let erased = display.draw_sprite(60, 0, &[0xFF], Plane::First);
    assert!(!erased);
    assert_eq!(
        first_plane_cells(&display),
        vec![(0, 0), (1, 0), (2, 0), (3, 0), (60, 0), (61, 0), (62, 0), (63, 0)]
    );
}

#[test]
fn sprite_at_the_right_edge_is_cut_off_under_the_clip_policy() {
    let mut display = Display::new(&clipping());
    let erased = display.draw_sprite(60, 0, &[0xFF], Plane::First);
    assert!(!erased);
    assert_eq!(first_plane_cells(&display), vec![(60, 0), (61, 0), (62, 0), (63, 0)]);
}

#[test]
fn sprite_at_the_bottom_edge_wraps_or_is_cut_off() {
    let mut wrapped = Display::new(&wrapping());
    wrapped.draw_sprite(0, 31, &[0x80, 0x80, 0x80], Plane::First);
    assert_eq!(first_plane_cells(&wrapped), vec![(0, 0), (0, 1), (0, 31)]);
    let mut clipped = Display::new(&clipping());
    clipped.draw_sprite(0, 31, &[0x80, 0x80, 0x80], Plane::First);
    assert_eq!(first_plane_cells(&clipped), vec![(0, 31)]);
}

#[test]
fn drawing_the_same_sprite_twice_clears_it_and_reports_a_collision() {
    let mut display = Display::new(&clipping());
    let first = display.draw_sprite(8, 4, &[0xFF], Plane::First);
    assert!(!first);
    assert_eq!(
        first_plane_cells(&display),
        vec![(8, 4), (9, 4), (10, 4), (11, 4), (12, 4), (13, 4), (14, 4), (15, 4)]
    );
    let second = display.draw_sprite(8, 4, &[0xFF], Plane::First);
    assert!(second);
    assert_eq!(first_plane_cells(&display), vec![]);
}

#[test]
fn collision_is_reported_only_where_set_pixels_meet() {
    let mut display = Display::new(&clipping());
    assert!(!display.draw_sprite(0, 0, &[0xF0], Plane::First));
    assert!(!display.draw_sprite(0, 0, &[0x0F], Plane::First));
    assert_eq!(first_plane_cells(&display).len(), 8);
    assert!(display.draw_sprite(0, 0, &[0x01, 0x00, 0x00], Plane::First));
    assert_eq!(first_plane_cells(&display).len(), 7);
    assert!(!display.draw_sprite(0, 1, &[0xFF], Plane::First));
}

#[test]
fn collision_sticks_when_later_rows_do_not_collide() {
    let mut display = Display::new(&clipping());
    display.draw_sprite(0, 0, &[0x80], Plane::First);
    assert!(display.draw_sprite(0, 0, &[0x80, 0xFF, 0xFF], Plane::First));
    assert_eq!(first_plane_cells(&display).len(), 16);
}

#[test]
fn sprite_bits_are_drawn_from_the_highest_on_the_left() {
    let mut display = Display::new(&clipping());
    display.draw_sprite(10, 3, &[0b1010_0001, 0b0000_0010], Plane::First);
    assert_eq!(first_plane_cells(&display), vec![(10, 3), (12, 3), (17, 3), (16, 4)]);
}

#[test]
fn sprite_corner_is_placed_modulo_the_screen_size() {
    let mut display = Display::new(&clipping());
    display.draw_sprite(64 + 5, 32 + 2, &[0xC0], Plane::First);
    assert_eq!(first_plane_cells(&display), vec![(5, 2), (6, 2)]);
    let mut hires = Display::new(&clipping());
    hires.enable_hires();
    hires.draw_sprite(64 + 5, 32 + 2, &[0xC0], Plane::First);
    assert_eq!(first_plane_cells(&hires), vec![(69, 34), (70, 34)]);
    hires.draw_sprite(128 + 127, 64 + 63, &[0xC0, 0xC0], Plane::First);
    assert_eq!(first_plane_cells(&hires), vec![(69, 34), (70, 34), (127, 63)]);
}

#[test]
fn empty_sprite_draws_nothing() {
    let mut display = Display::new(&wrapping());
    assert!(!display.draw_sprite(3, 3, &[], Plane::First));
    assert_eq!(first_plane_cells(&display), vec![]);
}

#[test]
fn sprite_is_drawn_on_the_plane_it_is_given() {
    let mut display = Display::new(&clipping());
    display.draw_sprite(0, 0, &[0xC0], Plane::First);
    display.draw_sprite(1, 0, &[0xC0], Plane::Second);
    assert_eq!(lit_cells(&display, Color::OnlyFirstPlane), vec![(0, 0)]);
    assert_eq!(lit_cells(&display, Color::Both), vec![(1, 0)]);
    assert_eq!(lit_cells(&display, Color::OnlySecondPlane), vec![(2, 0)]);
    assert_eq!(lit_cells(&display, Color::Disabled).len(), 8192 - 3);
}

#[test]
fn large_sprite_has_sixteen_rows_of_sixteen_pixels() {
    let mut display = Display::new(&clipping());
    display.enable_hires();
    let mut sprite = [0u16; 16];
    sprite[0] = 0x8001;
    sprite[15] = 0xFFFF;
    let erased = display.draw_16_16_sprite(100, 40, sprite, Plane::First);
    assert!(!erased);
    let mut expected = vec![(100, 40), (115, 40)];
    for column in 100..116 {
        expected.push((column, 55));
    }
    assert_eq!(first_plane_cells(&display), expected);
    assert!(display.draw_16_16_sprite(100, 40, sprite, Plane::First));
    assert_eq!(first_plane_cells(&display), vec![]);
}

#[test]
fn large_sprite_wraps_or_is_cut_off_at_the_edges() {
    let mut sprite = [0u16; 16];
    sprite[0] = 0x0001;
    sprite[15] = 0x8000;
    let mut wrapped = Display::new(&wrapping());
    wrapped.enable_hires();
    wrapped.draw_16_16_sprite(120, 60, sprite, Plane::First);
    assert_eq!(first_plane_cells(&wrapped), vec![(120, 11), (7, 60)]);
    let mut clipped = Display::new(&clipping());
    clipped.enable_hires();
    clipped.draw_16_16_sprite(120, 60, sprite, Plane::First);
    assert_eq!(first_plane_cells(&clipped), vec![]);
    let mut low = Display::new(&wrapping());
    low.draw_16_16_sprite(56, 24, sprite, Plane::First);
    assert_eq!(first_plane_cells(&low), vec![(56, 7), (7, 24)]);
}

#[test]
fn scroll_down_moves_lines_and_blanks_the_top() {
    let mut display = Display::new(&clipping());
    display.draw_sprite(4, 0, &[0x80], Plane::First);
    display.draw_sprite(5, 30, &[0x80], Plane::First);
    display.scroll_n_lines_down(2);
    assert_eq!(first_plane_cells(&display), vec![(4, 2)]);
    display.scroll_n_lines_down(0);
    assert_eq!(first_plane_cells(&display), vec![(4, 2)]);
    display.scroll_n_lines_down(29);
    assert_eq!(first_plane_cells(&display), vec![(4, 31)]);
    display.scroll_n_lines_down(1);
    assert_eq!(first_plane_cells(&display), vec![]);
}

#[test]
fn scroll_up_moves_lines_and_blanks_the_bottom() {
    let mut display = Display::new(&clipping());
    display.draw_sprite(4, 1, &[0x80], Plane::First);
    display.draw_sprite(5, 31, &[0x80], Plane::First);
    display.scroll_n_lines_up(2);
    assert_eq!(first_plane_cells(&display), vec![(5, 29)]);
    display.scroll_n_lines_up(29);
    assert_eq!(first_plane_cells(&display), vec![(5, 0)]);
    display.scroll_n_lines_up(1);
    assert_eq!(first_plane_cells(&display), vec![]);
}

#[test]
fn scroll_by_more_lines_than_the_screen_has_blanks_it() {
    let mut display = Display::new(&clipping());
    display.draw_sprite(0, 0, &[0xFF, 0xFF], Plane::First);
    display.scroll_n_lines_down(200);
    assert_eq!(first_plane_cells(&display), vec![]);
    display.draw_sprite(0, 0, &[0xFF, 0xFF], Plane::First);
    display.scroll_n_lines_up(255);
    assert_eq!(first_plane_cells(&display), vec![]);
}

#[test]
fn scroll_right_moves_four_columns_and_blanks_the_left() {
    let mut display = Display::new(&clipping());
    display.draw_sprite(0, 0, &[0x80], Plane::First);
    display.draw_sprite(59, 1, &[0x80], Plane::First);
    display.draw_sprite(60, 2, &[0x80], Plane::First);
    display.scroll_4_px_right();
    assert_eq!(first_plane_cells(&display), vec![(4, 0), (63, 1)]);
}

#[test]
fn scroll_left_moves_four_columns_and_blanks_the_right() {
    let mut display = Display::new(&clipping());
    display.draw_sprite(3, 0, &[0x80], Plane::First);
    display.draw_sprite(4, 1, &[0x80], Plane::First);
    display.draw_sprite(63, 2, &[0x80], Plane::First);
    display.scroll_4_px_left();
    assert_eq!(first_plane_cells(&display), vec![(0, 1), (59, 2)]);
}

#[test]
fn scrolling_in_high_resolution_uses_its_width() {
    let mut display = Display::new(&clipping());
    display.enable_hires();
    display.draw_sprite(124, 0, &[0x80], Plane::First);
    display.draw_sprite(0, 63, &[0x80], Plane::First);
    display.scroll_4_px_left();
    assert_eq!(first_plane_cells(&display), vec![(120, 0)]);
    display.scroll_4_px_right();
    display.scroll_n_lines_down(63);
    assert_eq!(first_plane_cells(&display), vec![(124, 63)]);
}

#[test]
fn scroll_and_clear_touch_the_selected_planes_only() {
    let mut display = Display::new(&clipping());
    display.draw_sprite(0, 0, &[0x80], Plane::First);
    display.draw_sprite(0, 0, &[0x80], Plane::Second);
    display.set_plane(Plane::Second);
    display.scroll_n_lines_down(1);
    assert_eq!(lit_cells(&display, Color::OnlyFirstPlane), vec![(0, 0)]);
    assert_eq!(lit_cells(&display, Color::OnlySecondPlane), vec![(0, 1)]);
    display.scroll_4_px_right();
    assert_eq!(lit_cells(&display, Color::OnlySecondPlane), vec![(4, 1)]);
    display.set_plane(Plane::Both);
    display.scroll_n_lines_up(1);
    assert_eq!(lit_cells(&display, Color::OnlySecondPlane), vec![(4, 0)]);
    assert_eq!(lit_cells(&display, Color::OnlyFirstPlane), vec![]);
    display.draw_sprite(9, 9, &[0x80], Plane::First);
    display.set_plane(Plane::First);
    display.clear();
    assert_eq!(lit_cells(&display, Color::OnlyFirstPlane), vec![]);
    assert_eq!(lit_cells(&display, Color::OnlySecondPlane), vec![(4, 0)]);
    display.set_plane(Plane::Both);
    display.clear();
    assert!(display.display_bitplane().iter().all(|cell| *cell == Color::Disabled));
}

#[test]
fn switch_of_resolution_blanks_both_planes_whatever_is_selected() {
    let mut display = Display::new(&clipping());
    display.draw_sprite(0, 0, &[0xFF], Plane::First);
    display.draw_sprite(0, 1, &[0xFF], Plane::Second);
    display.set_plane(Plane::First);
    display.enable_hires();
    assert!(display.is_hires());
    assert_eq!(display.width(), 128);
    assert_eq!(display.height(), 64);
    assert_eq!(*display.get_current_plane(), Plane::First);
    assert!(display.display_bitplane().iter().all(|cell| *cell == Color::Disabled));
    display.draw_sprite(0, 0, &[0xFF], Plane::First);
    display.draw_sprite(0, 1, &[0xFF], Plane::Second);
    display.set_plane(Plane::Second);
    display.disable_hires();
    assert!(!display.is_hires());
    assert_eq!(display.width(), 64);
    assert!(display.display_bitplane().iter().all(|cell| *cell == Color::Disabled));
}

#[test]
fn set_plane_changes_the_selection() {
    let mut display = Display::new(&clipping());
    display.set_plane(Plane::Both);
    assert_eq!(*display.get_current_plane(), Plane::Both);
    display.set_plane(Plane::Second);
    assert_eq!(*display.get_current_plane(), Plane::Second);
}

#[test]
fn quirk_set_holds_what_was_inserted() {
    let mut quirks = QuirkSet::new();
    assert!(!quirks.contains(&Quirks::JumpWithX));
    assert!(quirks.insert(Quirks::JumpWithX));
    assert!(!quirks.insert(Quirks::JumpWithX));
    assert!(quirks.contains(&Quirks::JumpWithX));
    assert!(!quirks.contains(&Quirks::ShiftIgnoreVY));
    assert!(!quirks.contains(&Quirks::IRegisterIncrementedWithX));
    assert!(!quirks.contains(&Quirks::BinaryOpResetVF));
    assert!(!quirks.contains(&Quirks::WrapsInsteadClipping));
    for quirk in [
        Quirks::IRegisterIncrementedWithX,
        Quirks::ShiftIgnoreVY,
        Quirks::BinaryOpResetVF,
        Quirks::WrapsInsteadClipping,
    ] {
        assert!(quirks.insert(quirk));
        assert!(quirks.contains(&quirk));
    }
}
