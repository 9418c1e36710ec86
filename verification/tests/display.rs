use bios::io::{
    add_char, add_char_seq, color_at, display_draw_circle, display_draw_line, display_draw_rect, display_draw_text,
    display_set_graphics_modes, display_set_text_mode, display_swap_buffers, get_input_char, handle_char_input,
    put_rect, put_str, window_should_close, Col, Color, DrawCommand, Drawbject, FrameBuffer, Image,
};

fn text(d: &Drawbject) -> (String, bool) {
    match d {
        Drawbject::CharSeq { seq, user_input, .. } => (seq.clone(), *user_input),
        _ => panic!("not text"),
    }
}

#[test]
fn colours_match_the_nearest_palette_entry() {
    assert_eq!(Col::from_color(&Color { r: 250, g: 250, b: 250, a: 255 }), Col::White);
    assert_eq!(Col::from_color(&Color { r: 0, g: 0, b: 0, a: 255 }), Col::Black);
    assert_eq!(Col::from_color(&Color { r: 130, g: 5, b: 0, a: 200 }), Col::Red);
    assert_eq!(Col::from_color(&Color { r: 255, g: 255, b: 255, a: 10 }), Col::Blank);
    assert_eq!(Col::Violet.as_color(), Color { r: 204, g: 67, b: 204, a: 255 });
    assert_eq!(Col::Blank.as_color().a, 0);
    assert_eq!(color_at(16), Col::Blank);
    for i in 0..16 {
        let c = color_at(i);
        assert_eq!(Col::from_color(&c.as_color()), c);
    }
}

#[test]
fn text_joins_text_of_the_same_kind() {
    let mut objs = vec![];
    add_char_seq(&mut objs, "ab", Col::Green, Col::Black, false);
    add_char(&mut objs, 'c', Col::Green, Col::Black, false);
    assert_eq!(objs.len(), 1);
    assert_eq!(text(&objs[0]), ("abc".to_string(), false));
    add_char(&mut objs, 'd', Col::Red, Col::Black, false);
    add_char(&mut objs, 'e', Col::Red, Col::Black, true);
    assert_eq!(objs.len(), 3);
    objs.push(Drawbject::Move { x: 1, y: 1 });
    add_char_seq(&mut objs, "f", Col::Red, Col::Black, true);
    assert_eq!(objs.len(), 5);
}

#[test]
fn typing_and_backspace() {
    let mut objs = vec![];
    let mut line = String::from("old");
    handle_char_input(&mut objs, 127 as char, Col::Green, Col::Black, &mut line);
    assert!(objs.is_empty());
    assert_eq!(line, "old");
    handle_char_input(&mut objs, 'h', Col::Green, Col::Black, &mut line);
    assert_eq!(line, "h");
    handle_char_input(&mut objs, 'i', Col::Green, Col::Black, &mut line);
    assert_eq!(line, "hi");
    assert_eq!(text(&objs[0]), ("hi".to_string(), true));
    handle_char_input(&mut objs, 127 as char, Col::Green, Col::Black, &mut line);
    assert_eq!(line, "h");
    handle_char_input(&mut objs, 127 as char, Col::Green, Col::Black, &mut line);
    assert!(objs.is_empty());
    assert_eq!(line, "");
}

#[test]
fn frame_input_and_polling() {
    let mut f = FrameBuffer::new();
    assert!(f.terminal_mode);
    assert_eq!(f.poll_char(), None);
    f.update_input(false, Some('a'), false, false);
    assert_eq!(get_input_char(&f), 'a' as i32);
    f.update_input(false, None, false, true);
    assert_eq!(f.last_char, Some('\n'));
    f.update_input(false, None, false, false);
    assert_eq!(get_input_char(&f), 0);
    assert_eq!(f.poll_char(), Some('\n' as i32));
    assert_eq!(f.poll_char(), None);
    assert_eq!(f.input_string, "a\n");
    assert_eq!(f.poll_line(), Some("a".to_string()));
    assert_eq!(f.input_string, "");
    assert_eq!(f.poll_line(), None);
    f.update_input(true, None, true, false);
    assert!(window_should_close(&f));
    assert_eq!(f.poll_char(), Some(0));
    assert_eq!(f.poll_line(), Some(String::new()));
}

#[test]
fn printing_only_in_text_mode() {
    let mut f = FrameBuffer::new();
    put_str(&mut f, "hey");
    put_rect(&mut f, 70000, 3, Col::Red);
    assert_eq!(f.objects.len(), 2);
    assert!(matches!(f.objects[1], Drawbject::Rectangle { w: 4464, h: 3, .. }));
    display_set_graphics_modes(&mut f);
    put_str(&mut f, "x");
    assert_eq!(f.objects.len(), 2);
    display_draw_text(&mut f, "t", 1, 2, 3);
    display_draw_rect(&mut f, 1, 2, 3, 4, Col::Blue);
    display_draw_circle(&mut f, 1, 2, 3, Col::Blue);
    display_draw_line(&mut f, 1, 2, 3, 4, Col::Blue);
    assert_eq!(f.write_buffer.len(), 4);
    display_swap_buffers(&mut f);
    assert_eq!(f.objects.len(), 4);
    assert!(f.write_buffer.is_empty());
    display_set_text_mode(&mut f);
    assert!(f.terminal_mode);
}

#[test]
fn text_mode_lays_out_lines() {
    let mut f = FrameBuffer::new();
    put_str(&mut f, "ab\nc");
    let cmds = f.terminal_commands();
    assert_eq!(
        cmds,
        vec![
            DrawCommand::Glyph { c: 'a', x: 0, y: 0, col: Col::Green },
            DrawCommand::Glyph { c: 'b', x: 8, y: 0, col: Col::Green },
            DrawCommand::Glyph { c: 'c', x: 0, y: 20, col: Col::Green },
        ]
    );
    f.objects.push(Drawbject::Move { x: 2, y: 1 });
    put_rect(&mut f, 10, 30, Col::Red);
    let cmds = f.terminal_commands();
    assert_eq!(cmds.len(), 4);
    assert_eq!(cmds[0], DrawCommand::Glyph { c: 'a', x: 16, y: 20, col: Col::Green });
    assert_eq!(cmds[3], DrawCommand::Rectangle { x: 16, y: 20, w: 10, h: 30, col: Col::Red });
}

#[test]
fn long_lines_wrap_at_the_screen_edge() {
    let mut f = FrameBuffer::new();
    put_str(&mut f, &"x".repeat(81));
    let cmds = f.terminal_commands();
    assert_eq!(cmds[79], DrawCommand::Glyph { c: 'x', x: 632, y: 0, col: Col::Green });
    assert_eq!(cmds[80], DrawCommand::Glyph { c: 'x', x: 0, y: 20, col: Col::Green });
    let out = f.render_out(&f.objects, 0, 0, 0, 600);
    assert_eq!(out[0], DrawCommand::Glyph { c: 'x', x: 0, y: -140, col: Col::Green });
}

#[test]
fn graphics_mode_draws_each_entry() {
    let mut f = FrameBuffer::new();
    display_set_graphics_modes(&mut f);
    display_draw_text(&mut f, "ab", 10, 20, 8);
    display_draw_line(&mut f, 1, 2, 3, 4, Col::Blue);
    display_swap_buffers(&mut f);
    let cmds = f.graphics_commands();
    assert_eq!(
        cmds,
        vec![
            DrawCommand::Glyph { c: 'a', x: 10, y: 20, col: Col::Green },
            DrawCommand::Glyph { c: 'b', x: 18, y: 40, col: Col::Green },
            DrawCommand::Line { x0: 1, y0: 2, x1: 3, y1: 4, col: Col::Blue },
        ]
    );
}

#[test]
fn long_display_lists_are_trimmed() {
    let mut f = FrameBuffer::new();
    for i in 0..201 {
        f.objects.push(Drawbject::Shift { dx: i, dy: 0 });
    }
    let long = "y".repeat(4100);
    f.objects.push(Drawbject::CharSeq {
        x: 0,
        y: 0,
        max_w: 0,
        user_input: false,
        fg_color: Col::Green,
        bg_color: Col::Black,
        seq: long,
    });
    f.trim_objects();
    assert_eq!(f.objects.len(), 99);
    assert!(matches!(f.objects[0], Drawbject::Shift { dx: 103, .. }));
    assert_eq!(text(&f.objects[98]).0.len(), 1999);
    let mut g = FrameBuffer::new();
    put_str(&mut g, "keep");
    g.trim_objects();
    assert_eq!(g.objects.len(), 1);
}

#[test]
fn drawability_is_known_before_drawing() {
    let mut f = FrameBuffer::new();
    put_str(&mut f, "hello\nworld");
    put_rect(&mut f, 30, 40, Col::Red);
    assert!(f.can_draw_text());
    assert!(f.can_draw_graphics());
    assert_eq!(f.terminal_commands().len(), 11);
    f.objects.push(Drawbject::Image { x: 0, y: 0, w: 8, h: 8, img: Image { inner: 1 } });
    // image entries are not drawn by either mode: the display panics on them
    assert!(!f.can_draw_text());
    assert!(!f.can_draw_graphics());
    let mut g = FrameBuffer::new();
    g.objects.push(Drawbject::CharSeq {
        x: 32760,
        y: 0,
        max_w: 100,
        user_input: false,
        fg_color: Col::White,
        bg_color: Col::Black,
        seq: "a".to_string(),
    });
    // the right edge of the box leaves the 16-bit range
    assert!(!g.can_draw_graphics());
    assert!(g.can_draw_text());
    let batch = vec![Drawbject::Rectangle { x: 0, y: 0, w: 8, h: 20, col: Col::Blue }];
    assert!(g.can_render_out(&batch, 0, 0, 100));
    assert_eq!(g.render_out(&batch, 0, 0, 0, 100), vec![DrawCommand::Rectangle { x: 0, y: 0, w: 8, h: 20, col: Col::Blue }]);
    assert!(!g.can_render_out(&batch, 0, i32::MIN, i32::MAX));
}

#[test]
fn printing_in_two_parts_is_printing_the_whole() {
    let mut f = FrameBuffer::new();
    put_str(&mut f, "ab");
    put_str(&mut f, "cd");
    let mut g = FrameBuffer::new();
    put_str(&mut g, "abcd");
    assert_eq!(f.objects.len(), 1);
    assert_eq!(text(&f.objects[0]), text(&g.objects[0]));
}

#[test]
fn backspace_undoes_the_key_just_typed() {
    let mut objs = vec![Drawbject::Shift { dx: 1, dy: 0 }];
    let mut line = String::from("old");
    handle_char_input(&mut objs, 'k', Col::Green, Col::Black, &mut line);
    handle_char_input(&mut objs, 127 as char, Col::Green, Col::Black, &mut line);
    assert_eq!(objs.len(), 1);
    assert!(matches!(objs[0], Drawbject::Shift { dx: 1, dy: 0 }));
    // the key started a new line, which backspace leaves empty
    assert_eq!(line, "");
    handle_char_input(&mut objs, 'a', Col::Green, Col::Black, &mut line);
    handle_char_input(&mut objs, 'b', Col::Green, Col::Black, &mut line);
    handle_char_input(&mut objs, 127 as char, Col::Green, Col::Black, &mut line);
    assert_eq!(text(&objs[1]), ("a".to_string(), true));
    assert_eq!(line, "a");
}

#[test]
fn trimming_twice_trims_no_more() {
    let mut f = FrameBuffer::new();
    for i in 0..250 {
        f.objects.push(Drawbject::Move { x: i, y: 0 });
    }
    f.trim_objects();
    assert_eq!(f.objects.len(), 99);
    f.trim_objects();
    assert_eq!(f.objects.len(), 99);
    assert!(matches!(f.objects[0], Drawbject::Move { x: 151, .. }));
}

#[test]
fn graphics_entries_draw_independently() {
    let line = Drawbject::Line { x0: 0, y0: 0, x1: 5, y1: 5, col: Col::Red };
    let rect = Drawbject::Rectangle { x: 1, y: 2, w: 3, h: 4, col: Col::Blue };
    let mut both = FrameBuffer::new();
    both.objects = vec![line.clone(), rect.clone()];
    let mut first = FrameBuffer::new();
    first.objects = vec![line];
    let mut second = FrameBuffer::new();
    second.objects = vec![rect];
    let mut joined = first.graphics_commands();
    joined.extend(second.graphics_commands());
    assert_eq!(both.graphics_commands(), joined);
}

#[test]
fn text_mode_draws_every_character_but_line_breaks() {
    let mut f = FrameBuffer::new();
    put_str(&mut f, "a\nb\n\ncd");
    let drawn: String = f
        .terminal_commands()
        .iter()
        .map(|c| match c {
            DrawCommand::Glyph { c, .. } => *c,
            _ => '?',
        })
        .collect();
    assert_eq!(drawn, "abcd");
}

#[test]
fn graphics_mode_draws_line_breaks_too() {
    let mut f = FrameBuffer::new();
    display_set_graphics_modes(&mut f);
    display_draw_text(&mut f, "x\ny", 0, 0, 100);
    display_swap_buffers(&mut f);
    let drawn: Vec<char> = f
        .graphics_commands()
        .iter()
        .map(|c| match c {
            DrawCommand::Glyph { c, .. } => *c,
            _ => '?',
        })
        .collect();
    assert_eq!(drawn, vec!['x', '\n', 'y']);
}

#[test]
fn text_in_several_colours_shows_as_printed() {
    let mut f = FrameBuffer::new();
    put_str(&mut f, "one\n");
    f.fg_color = Col::Red;
    put_str(&mut f, "two");
    handle_char_input(&mut f.objects, '!', Col::Red, Col::Black, &mut String::new());
    assert_eq!(f.objects.len(), 3);
    let drawn: String = f
        .terminal_commands()
        .iter()
        .map(|c| match c {
            DrawCommand::Glyph { c, .. } => *c,
            _ => '?',
        })
        .collect();
    assert_eq!(drawn, "onetwo!");
}

#[test]
fn opaque_colours_never_match_blank() {
    for &(r, g, b) in &[(0u8, 0u8, 0u8), (255, 255, 255), (255, 255, 254), (1, 2, 3), (128, 128, 128)] {
        assert_ne!(Col::from_color(&Color { r, g, b, a: 128 }), Col::Blank);
    }
    assert_eq!(Col::from_color(&Col::Blank.as_color()), Col::Blank);
    assert_eq!(Col::from_color(&Color { r: 0, g: 0, b: 0, a: 255 }), Col::Black);
}
