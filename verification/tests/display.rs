use chip8::emulator::display::Display;

fn sized(width: u8, height: u8) -> Display {
    let mut display = Display::default();
    display.resize(width, height);
    display
}

fn lit(display: &Display) -> Vec<(usize, usize)> {
    let mut pixels = Vec::new();
    for (y, row) in display.pixel_map.iter().enumerate() {
        for (x, on) in row.iter().enumerate() {
            if *on {
                pixels.push((x, y));
            }
        }
    }
    pixels
}

fn is_grid(display: &Display) -> bool {
    display.pixel_map.len() == display.height as usize
        && display.pixel_map.iter().all(|row| row.len() == display.width as usize)
}

#[test]
fn default_display_has_no_pixels() {
    let display = Display::default();
    assert_eq!(display.width, 0);
    assert_eq!(display.height, 0);
    assert!(display.pixel_map.is_empty());
}

#[test]
fn resize_from_nothing_gives_a_blank_grid() {
    let display = sized(64, 32);
    assert_eq!(display.width, 64);
    assert_eq!(display.height, 32);
    assert!(is_grid(&display));
    assert!(lit(&display).is_empty());
}

#[test]
fn resize_to_the_same_size_changes_nothing() {
    let mut display = sized(16, 8);
    display.draw_bytes_at(3, 2, &[0xA5, 0x5A]);
    let before = display.pixel_map.clone();
    display.resize(16, 8);
    assert_eq!(display.pixel_map, before);
}

#[test]
fn resize_growing_keeps_pixels_where_they_are() {
    let mut display = sized(8, 4);
    display.draw_bytes_at(0, 0, &[0x81, 0x42, 0x24, 0x18]);
    let before = lit(&display);
    display.resize(20, 9);
    assert_eq!(display.width, 20);
    assert_eq!(display.height, 9);
    assert!(is_grid(&display));
    assert_eq!(lit(&display), before);
}

#[test]
fn resize_shrinking_drops_the_tail_of_rows_and_columns() {
    let mut display = sized(8, 4);
    display.draw_bytes_at(0, 0, &[0xFF, 0xFF, 0xFF, 0xFF]);
    display.resize(3, 2);
    assert_eq!(display.width, 3);
    assert_eq!(display.height, 2);
    assert!(is_grid(&display));
    assert_eq!(lit(&display), vec![(0, 0), (1, 0), (2, 0), (0, 1), (1, 1), (2, 1)]);
}

#[test]
fn resize_can_grow_one_way_and_shrink_the_other() {
    let mut display = sized(8, 4);
    display.draw_bytes_at(0, 0, &[0xFF, 0x0F, 0xF0, 0xFF]);
    display.resize(10, 2);
    assert!(is_grid(&display));
    let mut expected: Vec<(usize, usize)> = (0..8).map(|x| (x, 0)).collect();
    expected.extend((4..8).map(|x| (x, 1)));
    assert_eq!(lit(&display), expected);
    display.resize(5, 3);
    assert!(is_grid(&display));
    assert_eq!(lit(&display), vec![(0, 0), (1, 0), (2, 0), (3, 0), (4, 0), (4, 1)]);
}

#[test]
fn resize_to_nothing_and_back_gives_a_blank_grid() {
    let mut display = sized(8, 8);
    display.draw_bytes_at(0, 0, &[0xFF; 8]);
    display.resize(0, 0);
    assert!(display.pixel_map.is_empty());
    display.resize(8, 8);
    assert!(is_grid(&display));
    assert!(lit(&display).is_empty());
}

#[test]
fn resize_repairs_a_ragged_grid() {
    let mut display = Display {
        pixel_map: vec![vec![true; 5], vec![true; 1], vec![]],
        height: 9,
        width: 9,
    };
    display.resize(3, 4);
    assert_eq!(display.width, 3);
    assert_eq!(display.height, 4);
    assert!(is_grid(&display));
    assert_eq!(lit(&display), vec![(0, 0), (1, 0), (2, 0), (0, 1)]);
}

#[test]
fn byte_to_bits_gives_the_most_significant_bit_first() {
    assert_eq!(Display::byte_to_bits(0x00), [false; 8]);
    assert_eq!(Display::byte_to_bits(0xFF), [true; 8]);
    assert_eq!(
        Display::byte_to_bits(0x80),
        [true, false, false, false, false, false, false, false]
    );
    assert_eq!(
        Display::byte_to_bits(0x01),
        [false, false, false, false, false, false, false, true]
    );
    assert_eq!(
        Display::byte_to_bits(0xA5),
        [true, false, true, false, false, true, false, true]
    );
}

#[test]
fn draw_bit_toggles_one_pixel_and_reports_erasure_only() {
    let mut display = sized(8, 4);
    assert!(!display.draw_bit_at(2, 1, false));
    assert!(lit(&display).is_empty());
    assert!(!display.draw_bit_at(2, 1, true));
    assert_eq!(lit(&display), vec![(2, 1)]);
    assert!(!display.draw_bit_at(2, 1, false));
    assert_eq!(lit(&display), vec![(2, 1)]);
    assert!(display.draw_bit_at(2, 1, true));
    assert!(lit(&display).is_empty());
}

#[test]
fn draw_bit_wraps_both_coordinates() {
    let mut display = sized(8, 4);
    display.draw_bit_at(8, 4, true);
    display.draw_bit_at(19, 9, true);
    display.draw_bit_at(255, 255, true);
    assert_eq!(lit(&display), vec![(0, 0), (3, 1), (7, 3)]);
}

#[test]
fn draw_byte_draws_eight_pixels_left_to_right() {
    let mut display = sized(16, 2);
    assert!(!display.draw_byte_at(4, 1, 0b1011_0001));
    assert_eq!(lit(&display), vec![(4, 1), (6, 1), (7, 1), (11, 1)]);
}

#[test]
fn draw_byte_on_a_narrow_display_wraps_onto_itself() {
    let mut display = sized(4, 1);
    assert!(display.draw_byte_at(0, 0, 0xFF));
    assert!(lit(&display).is_empty());
    assert!(!display.draw_byte_at(0, 0, 0xF0));
    assert_eq!(lit(&display), vec![(0, 0), (1, 0), (2, 0), (3, 0)]);
}

#[test]
fn draw_on_blank_pixels_reports_no_collision() {
    let mut display = sized(64, 32);
    assert!(!display.draw_bytes_at(10, 5, &[0xF0, 0x90, 0x90, 0x90, 0xF0]));
    let expected = vec![
        (10, 5), (11, 5), (12, 5), (13, 5),
        (10, 6), (13, 6),
        (10, 7), (13, 7),
        (10, 8), (13, 8),
        (10, 9), (11, 9), (12, 9), (13, 9),
    ];
    assert_eq!(lit(&display), expected);
}

#[test]
fn draw_of_an_empty_sprite_changes_nothing() {
    let mut display = sized(8, 8);
    display.draw_bytes_at(0, 0, &[0x3C]);
    let before = display.pixel_map.clone();
    assert!(!display.draw_bytes_at(5, 5, &[]));
    assert_eq!(display.pixel_map, before);
}

#[test]
fn draw_that_erases_a_lit_pixel_reports_collision() {
    let mut display = sized(64, 32);
    assert!(!display.draw_bytes_at(0, 0, &[0b1000_0000]));
    assert!(display.draw_bytes_at(0, 0, &[0b1100_0000]));
    assert_eq!(lit(&display), vec![(1, 0)]);
}

#[test]
fn draw_that_only_lights_pixels_reports_no_collision() {
    let mut display = sized(64, 32);
    assert!(!display.draw_bytes_at(0, 0, &[0b1010_1010]));
    assert!(!display.draw_bytes_at(0, 0, &[0b0101_0101]));
    assert_eq!(lit(&display).len(), 8);
}

#[test]
fn draw_twice_restores_the_picture_and_collides_the_second_time() {
    let mut display = sized(64, 32);
    display.draw_bytes_at(3, 3, &[0xFF, 0x18]);
    let before = display.pixel_map.clone();
    let sprite = [0xF0, 0x10, 0xF0, 0x80, 0xF0];
    assert!(!display.draw_bytes_at(20, 10, &sprite));
    assert_ne!(display.pixel_map, before);
    assert!(display.draw_bytes_at(20, 10, &sprite));
    assert_eq!(display.pixel_map, before);
}

#[test]
fn draw_twice_restores_even_a_sprite_that_wraps_onto_itself() {
    let mut display = sized(5, 3);
    display.draw_bytes_at(1, 1, &[0xA0]);
    let before = display.pixel_map.clone();
    let sprite = [0xFF, 0x81, 0x7E, 0x3C, 0xC3, 0x01, 0x80];
    display.draw_bytes_at(4, 2, &sprite);
    display.draw_bytes_at(4, 2, &sprite);
    assert_eq!(display.pixel_map, before);
}

#[test]
fn draw_at_the_last_column_continues_in_column_zero_of_the_same_row() {
    let mut display = sized(64, 32);
    assert!(!display.draw_bytes_at(63, 4, &[0b1110_0000]));
    assert_eq!(lit(&display), vec![(0, 4), (1, 4), (63, 4)]);
}

#[test]
fn draw_below_the_last_row_continues_in_row_zero() {
    let mut display = sized(64, 32);
    assert!(!display.draw_bytes_at(8, 31, &[0x80, 0x80, 0x80]));
    assert_eq!(lit(&display), vec![(8, 0), (8, 1), (8, 31)]);
}

#[test]
fn draw_coordinates_beyond_the_display_wrap() {
    let mut direct = sized(64, 32);
    let mut wrapped = sized(64, 32);
    direct.draw_bytes_at(6, 8, &[0xF0, 0x0F]);
    wrapped.draw_bytes_at(6 + 64 * 3, 8 + 32 * 7, &[0xF0, 0x0F]);
    assert_eq!(direct.pixel_map, wrapped.pixel_map);
}

#[test]
fn draw_wraps_by_the_display_size_and_not_by_the_byte_range() {
    let mut display = sized(100, 100);
    display.draw_bytes_at(250, 255, &[0xFF, 0x80]);
    let mut expected: Vec<(usize, usize)> = vec![(50, 56)];
    expected.extend((50..58).map(|x| (x, 55)));
    let mut got = lit(&display);
    got.sort();
    expected.sort();
    assert_eq!(got, expected);
}

#[test]
fn draw_of_a_sprite_taller_than_the_display_wraps_onto_its_own_rows() {
    let mut display = sized(8, 2);
    assert!(display.draw_bytes_at(0, 0, &[0xFF, 0x00, 0x0F]));
    assert_eq!(lit(&display), vec![(0, 0), (1, 0), (2, 0), (3, 0)]);
}

#[test]
fn clear_turns_every_pixel_off_and_keeps_the_size() {
    let mut display = sized(64, 32);
    display.draw_bytes_at(0, 0, &[0xFF; 15]);
    assert!(!lit(&display).is_empty());
    display.clear();
    assert_eq!(display.width, 64);
    assert_eq!(display.height, 32);
    assert!(is_grid(&display));
    assert!(lit(&display).is_empty());
}
