use bios::bios::{
    clear_frame_buffer, clear_frame_buffer_color, draw_pixel, draw_rectangle, read_char, should_continue,
    should_exit, write_char, write_char_color, Char, KeyInput, BIOS, U8,
};

fn cell(b: &BIOS, y: usize, x: usize) -> (char, u8, u8) {
    let c = &b.char_buffer[y][x];
    (c.get(), c.get_col(), c.get_col_bg())
}

#[test]
fn a_new_bios_is_blank_and_running() {
    let b = BIOS::new();
    assert_eq!(b.char_buffer.len(), 45);
    assert!(b.char_buffer.iter().all(|r| r.len() == 80));
    assert_eq!(cell(&b, 44, 79), ('\0', 15, 0));
    assert!(should_continue(&b));
    assert!(!should_exit(&b));
}

#[test]
fn cells_and_bytes_hold_what_was_set() {
    let mut u = U8::new(3);
    u.set(9);
    assert_eq!(u.get(), 9);
    let mut c = Char::new('a');
    assert_eq!((c.get(), c.get_col(), c.get_col_bg()), ('a', 15, 0));
    c.set('b');
    c.set_col(2);
    c.set_col_bg(4);
    assert_eq!((c.get(), c.get_col(), c.get_col_bg()), ('b', 2, 4));
}

#[test]
fn writing_wraps_around_the_grid() {
    let mut b = BIOS::new();
    b.char_buffer[1][2].set_col_bg(9);
    write_char(&mut b, 'x', 82, 46);
    assert_eq!(cell(&b, 1, 2), ('x', 15, 0));
    b.char_buffer[3][4].set_col_bg(6);
    write_char_color(&mut b, 'y', 4, 3, 12);
    assert_eq!(cell(&b, 3, 4), ('y', 12, 6));
}

#[test]
fn keys_are_read_once() {
    let mut b = BIOS::new();
    assert_eq!(read_char(&mut b), None);
    b.handle_key(KeyInput::Char { c: 'q', control: false });
    assert_eq!(read_char(&mut b), Some('q'));
    assert_eq!(read_char(&mut b), None);
    b.handle_key(KeyInput::Backspace);
    assert_eq!(read_char(&mut b), Some(127 as char));
    b.handle_key(KeyInput::Other);
    assert_eq!(read_char(&mut b), None);
    assert!(should_continue(&b));
    b.handle_key(KeyInput::Char { c: 'c', control: true });
    assert!(should_exit(&b));
    assert_eq!(read_char(&mut b), Some('c'));
    let mut b2 = BIOS::new();
    b2.handle_key(KeyInput::Esc);
    assert!(should_exit(&b2));
}

#[test]
fn pixels_are_half_cells() {
    let mut b = BIOS::new();
    draw_pixel(&mut b, 5, 10, 3);
    assert_eq!(cell(&b, 5, 5), ('\u{2584}', 15, 3));
    draw_pixel(&mut b, 85, 101, 7);
    assert_eq!(cell(&b, 5, 5), ('\u{2584}', 7, 3));
}

#[test]
fn rectangles_cover_their_pixels() {
    let mut b = BIOS::new();
    draw_rectangle(&mut b, 2, 2, 3, 2, 4);
    for x in 2..5 {
        assert_eq!(cell(&b, 1, x), ('\u{2584}', 4, 4));
    }
    assert_eq!(cell(&b, 1, 5), ('\0', 15, 0));
    assert_eq!(cell(&b, 2, 2), ('\0', 15, 0));
    draw_rectangle(&mut b, 10, 1, 1, 1, 9);
    assert_eq!(cell(&b, 0, 10), ('\u{2584}', 9, 0));
    let before = cell(&b, 0, 20);
    draw_rectangle(&mut b, 20, 1, 1, u16::MAX, 1);
    assert_eq!(cell(&b, 0, 20), before);
}

#[test]
fn clearing_blanks_every_cell() {
    let mut b = BIOS::new();
    write_char_color(&mut b, 'z', 0, 0, 1);
    clear_frame_buffer_color(&mut b, 5);
    assert_eq!(cell(&b, 0, 0), ('\0', 15, 5));
    assert_eq!(cell(&b, 44, 79), ('\0', 15, 5));
    clear_frame_buffer(&mut b);
    assert_eq!(cell(&b, 20, 20), ('\0', 15, 0));
}

#[test]
fn rendering_changes_colour_only_when_needed() {
    let mut b = BIOS::new();
    write_char_color(&mut b, 'a', 1, 0, 2);
    let cells = b.render_cells();
    assert_eq!(cells.len(), 3600);
    assert_eq!((cells[0].x, cells[0].y, cells[0].ch, cells[0].set_fg, cells[0].set_bg), (0, 0, ' ', None, None));
    assert_eq!((cells[1].ch, cells[1].set_fg), ('a', Some(2)));
    assert_eq!((cells[2].ch, cells[2].set_fg), (' ', Some(15)));
    assert_eq!((cells[80].x, cells[80].y), (0, 1));
    assert_eq!(cells[3].set_fg, None);
}

#[test]
fn the_grid_shape_is_checked() {
    let mut b = BIOS::new();
    assert!(b.has_full_grid());
    b.char_buffer[3].pop();
    assert!(!b.has_full_grid());
    b.char_buffer.pop();
    assert!(!b.has_full_grid());
}

#[test]
fn the_two_pixels_of_a_cell_are_its_halves() {
    let mut b = BIOS::new();
    draw_pixel(&mut b, 3, 4, 2);
    draw_pixel(&mut b, 3, 5, 7);
    let mut c = BIOS::new();
    draw_pixel(&mut c, 3, 5, 7);
    draw_pixel(&mut c, 3, 4, 2);
    assert_eq!(cell(&b, 2, 3), ('\u{2584}', 7, 2));
    assert_eq!(cell(&c, 2, 3), ('\u{2584}', 7, 2));
    draw_pixel(&mut b, 3, 5, 9);
    assert_eq!(cell(&b, 2, 3), ('\u{2584}', 9, 2));
}

#[test]
fn a_rectangle_is_its_pixels_drawn_in_turn() {
    let mut a = BIOS::new();
    draw_rectangle(&mut a, 78, 88, 4, 5, 3);
    let mut b = BIOS::new();
    for py in 88u16..93 {
        for px in 78u16..82 {
            draw_pixel(&mut b, px, py, 3);
        }
    }
    for y in 0..45 {
        for x in 0..80 {
            assert_eq!(cell(&a, y, x), cell(&b, y, x));
        }
    }
}
